//! One round of one authority, step by step: lock a task, fetch its proof, have
//! it checked, sign the vote, hand it to the pool. The work outside the node's
//! decisions is done by the caller, who reports how each piece of it went and
//! is told what to do next.

use crate::codec::receipt_encoding;
use crate::coordinator::{
    is_locked_log, is_next_task, nothing_left, storage_key, storage_key_of, stored_log,
    OffchainErr,
};
use crate::copying::{append_copy, copy_slice};
use crate::gate::Call;
use crate::identity::{Signature, TaskId};
use crate::model::ModuleView;
use crate::registry::Module;
use crate::types::{TaskInfo, TaskInfoView, VerificationReceipt};
use vstd::prelude::*;
use vstd::string::StringSliceAdditionalSpecFns;

verus! {

/// How long a proof may take to arrive, in milliseconds.
pub const FETCH_TIMEOUT_MS: u64 = 8_000;

/// The status code of an answer that carries the proof.
pub const HTTP_OK: u16 = 200;

/// How the request for a proof went.
#[derive(Clone, Debug, PartialEq, Eq)]
pub enum FetchOutcome {
    /// The request could not be sent before the deadline.
    NotSent,
    /// No answer came before the deadline.
    NoAnswer,
    /// The exchange failed.
    Failed,
    /// An answer came, with this status code and this body.
    Answer { code: u16, body: Vec<u8> },
}

/// What a fetch gives: the proof, or the error that the outcome is classed as.
pub open spec fn fetch_result(outcome: FetchOutcome) -> Result<Seq<u8>, OffchainErr> {
    match outcome {
        FetchOutcome::NotSent => Err(OffchainErr::HttpError(10)),
        FetchOutcome::NoAnswer => Err(OffchainErr::HttpError(20)),
        FetchOutcome::Failed => Err(OffchainErr::HttpError(20)),
        FetchOutcome::Answer { code, body } => if code == HTTP_OK {
            Ok(body@)
        } else {
            Err(OffchainErr::HttpError(0))
        },
    }
}

/// Classes the outcome of a fetch: the body of a successful answer is the proof.
pub fn fetch_proof(outcome: FetchOutcome) -> (res: Result<Vec<u8>, OffchainErr>)
    ensures
        match res {
            Ok(proof) => fetch_result(outcome) == Ok::<Seq<u8>, OffchainErr>(proof@),
            Err(e) => fetch_result(outcome) == Err::<Seq<u8>, OffchainErr>(e),
        },
{
    match outcome {
        FetchOutcome::NotSent => Err(OffchainErr::HttpError(10)),
        FetchOutcome::NoAnswer => Err(OffchainErr::HttpError(20)),
        FetchOutcome::Failed => Err(OffchainErr::HttpError(20)),
        FetchOutcome::Answer { code, body } => {
            if code != HTTP_OK {
                Err(OffchainErr::HttpError(0))
            } else {
                Ok(body)
            }
        },
    }
}

/// The address that the proof with this identity is fetched from, as bytes.
pub open spec fn proof_url_of(proof_id: Seq<u8>) -> Seq<u8> {
    "https://ipfs.infura.io:5001/api/v0/cat?arg=".spec_bytes() + proof_id
}

/// Computes the address that a proof is fetched from.
pub fn proof_url(proof_id: &Vec<u8>) -> (url: Vec<u8>)
    ensures
        url@ == proof_url_of(proof_id@),
{
    let mut url = copy_slice("https://ipfs.infura.io:5001/api/v0/cat?arg=".as_bytes());
    append_copy(&mut url, proof_id.as_slice());
    url
}

/// Classes the outcome of a check of the proof: a check that could not be made
/// is a failure of the round, not a vote.
pub fn stark_verify(outcome: Result<bool, ()>) -> (res: Result<bool, OffchainErr>)
    ensures
        res == (match outcome {
            Ok(passed) => Ok::<bool, OffchainErr>(passed),
            Err(_) => Err::<bool, OffchainErr>(OffchainErr::VerificationFailed),
        }),
{
    match outcome {
        Ok(passed) => Ok(passed),
        Err(_) => Err(OffchainErr::VerificationFailed),
    }
}

/// Where a round stands: what it waits for.
#[derive(Clone, Copy, Debug, PartialEq, Eq)]
pub enum Phase {
    /// For the store to take the log with the lock.
    Locking,
    /// For the proof.
    Fetching,
    /// For the verdict on the proof.
    Verifying,
    /// For the signature over this vote.
    Signing(VerificationReceipt),
    /// For the pool to take the vote.
    Submitting,
    /// For nothing: the round is over.
    Done,
}

/// One round of one authority.
#[derive(Clone, Debug, PartialEq, Eq)]
pub struct Round {
    /// The authority's place in the authority set.
    pub auth_index: u32,
    /// The block at which the round runs.
    pub block_number: u64,
    /// The size of the authority set at that block.
    pub validators_len: u32,
    /// The parameters of the task taken.
    pub info: TaskInfo,
    /// The authority's log with the lock: the task taken is its last entry.
    pub log: Vec<TaskId>,
    /// What the round waits for.
    pub phase: Phase,
}

/// How a piece of outside work went.
#[derive(Debug, PartialEq, Eq)]
pub enum Outcome {
    /// Whether the store took the log with the lock: it does not when the log
    /// has changed since it was read.
    Locked(bool),
    /// How the request for the proof went.
    Fetched(FetchOutcome),
    /// What the verifier found, if it could decide.
    Verified(Result<bool, ()>),
    /// The signature, if the key signed.
    Signed(Option<Signature>),
    /// Whether the pool took the vote.
    Submitted(bool),
}

/// What the caller is to do next.
#[derive(Debug, PartialEq, Eq)]
pub enum Action {
    /// Store `log` under `key` if what is stored there has not changed.
    Lock { key: Vec<u8>, log: Vec<TaskId> },
    /// Fetch the proof from `url`, within `timeout_ms` milliseconds.
    Fetch { url: Vec<u8>, timeout_ms: u64 },
    /// Check `proof` against the program and its inputs and outputs.
    Verify { program_hash: TaskId, inputs: Vec<u128>, outputs: Vec<u128>, proof: Vec<u8> },
    /// Sign `payload` with the authority's key.
    Sign { payload: Vec<u8> },
    /// Hand `call` to the pool as an unsigned transaction.
    Submit { call: Call },
    /// End the round with `result`. Where `restore` holds a log, store it under
    /// the authority's key first: it is the log without the lock.
    Finish { result: Result<(), OffchainErr>, restore: Option<Vec<TaskId>> },
}

/// Whether `outcome` reports on the work that a round in `phase` waits for.
pub open spec fn fits(phase: Phase, outcome: Outcome) -> bool {
    match (phase, outcome) {
        (Phase::Locking, Outcome::Locked(_)) => true,
        (Phase::Fetching, Outcome::Fetched(_)) => true,
        (Phase::Verifying, Outcome::Verified(_)) => true,
        (Phase::Signing(_), Outcome::Signed(_)) => true,
        (Phase::Submitting, Outcome::Submitted(_)) => true,
        _ => false,
    }
}

/// The parameters that the registry gives for a task: empty ones for a task
/// that it does not know.
pub open spec fn params_or_default(state: ModuleView, task: TaskId) -> TaskInfoView {
    if state.task_params.contains_key(task) {
        state.task_params[task]
    } else {
        TaskInfoView { proof_id: Seq::empty(), inputs: Seq::empty(), outputs: Seq::empty() }
    }
}

impl Round {
    /// A round that is under way holds the task that it has taken.
    pub open spec fn wf(&self) -> bool {
        self.phase != Phase::Done ==> self.log@.len() > 0
    }

    /// The task that the round has taken.
    pub open spec fn task(&self) -> TaskId {
        self.log@.last()
    }

    /// The vote that the round gives when the proof was found `passed`.
    pub open spec fn receipt(&self, passed: bool) -> VerificationReceipt {
        VerificationReceipt {
            program_hash: self.task(),
            passed,
            submit_at: self.block_number,
            auth_index: self.auth_index,
            validators_len: self.validators_len,
        }
    }

    /// `after` is this round in another phase, with nothing else changed.
    pub open spec fn moved_to(&self, after: Round, phase: Phase) -> bool {
        &&& after.auth_index == self.auth_index
        &&& after.block_number == self.block_number
        &&& after.validators_len == self.validators_len
        &&& after.info@ == self.info@
        &&& after.log@ == self.log@
        &&& after.phase == phase
    }

    /// `after` is this round ended with the error `e` and the lock given up:
    /// the log without its last entry is to be stored back.
    pub open spec fn rolled_back(&self, after: Round, action: Action, e: OffchainErr) -> bool {
        &&& after.auth_index == self.auth_index
        &&& after.block_number == self.block_number
        &&& after.validators_len == self.validators_len
        &&& after.info@ == self.info@
        &&& after.log@ == self.log@.drop_last()
        &&& after.phase == Phase::Done
        &&& action matches Action::Finish { result, restore }
        &&& result == Err::<(), OffchainErr>(e)
        &&& restore matches Some(log)
        &&& log@ == self.log@.drop_last()
    }

    /// `after` and `action` are what follows from this round and `outcome`.
    pub open spec fn steps_to(&self, outcome: Outcome, after: Round, action: Action) -> bool {
        match (self.phase, outcome) {
            (Phase::Locking, Outcome::Locked(taken)) => if taken {
                &&& self.moved_to(after, Phase::Fetching)
                &&& action matches Action::Fetch { url, timeout_ms }
                &&& url@ == proof_url_of(self.info@.proof_id)
                &&& timeout_ms == FETCH_TIMEOUT_MS
            } else {
                &&& self.moved_to(after, Phase::Done)
                &&& action matches Action::Finish { result, restore }
                &&& result == Err::<(), OffchainErr>(OffchainErr::FailToAcquireLock)
                &&& restore is None
            },
            (Phase::Fetching, Outcome::Fetched(fetched)) => match fetch_result(fetched) {
                Ok(body) => {
                    &&& self.moved_to(after, Phase::Verifying)
                    &&& action matches Action::Verify { program_hash, inputs, outputs, proof }
                    &&& program_hash == self.task()
                    &&& inputs@ == self.info@.inputs
                    &&& outputs@ == self.info@.outputs
                    &&& proof@ == body
                },
                Err(e) => self.rolled_back(after, action, e),
            },
            (Phase::Verifying, Outcome::Verified(verdict)) => match verdict {
                Ok(passed) => {
                    &&& self.moved_to(after, Phase::Signing(self.receipt(passed)))
                    &&& action matches Action::Sign { payload }
                    &&& payload@ == receipt_encoding(self.receipt(passed))
                },
                Err(_) => self.rolled_back(after, action, OffchainErr::VerificationFailed),
            },
            (Phase::Signing(receipt), Outcome::Signed(signed)) => match signed {
                Some(signature) => {
                    &&& self.moved_to(after, Phase::Submitting)
                    &&& action matches Action::Submit { call }
                    &&& call matches Call::SubmitVerification { receipt: sent, signature: with }
                    &&& sent == receipt
                    &&& with == signature
                },
                None => self.rolled_back(after, action, OffchainErr::FailedSigning),
            },
            (Phase::Submitting, Outcome::Submitted(taken)) => if taken {
                &&& self.moved_to(after, Phase::Done)
                &&& action matches Action::Finish { result, restore }
                &&& result == Ok::<(), OffchainErr>(())
                &&& restore is None
            } else {
                self.rolled_back(after, action, OffchainErr::SubmitTransaction(self.block_number))
            },
            _ => false,
        }
    }

    /// Ends the round with the error `e` and gives up the lock.
    fn roll_back(&mut self, e: OffchainErr) -> (action: Action)
        requires
            old(self).log@.len() > 0,
        ensures
            old(self).rolled_back(*final(self), action, e),
            final(self).wf(),
    {
        self.log.pop();
        self.phase = Phase::Done;
        Action::Finish { result: Err(e), restore: Some(copy_slice(self.log.as_slice())) }
    }

    /// Takes the report on the work that the round waited for, and says what
    /// is to be done next. A failure after the lock was taken ends the round
    /// and gives the lock up, so that the task can be taken again in a later
    /// round; a vote that the pool took leaves the task in the log for good.
    pub fn advance(&mut self, outcome: Outcome) -> (action: Action)
        requires
            old(self).wf(),
            fits(old(self).phase, outcome),
        ensures
            final(self).wf(),
            old(self).steps_to(outcome, *final(self), action),
    {
        match outcome {
            Outcome::Locked(taken) => {
                if taken {
                    self.phase = Phase::Fetching;
                    Action::Fetch { url: proof_url(&self.info.proof_id), timeout_ms: FETCH_TIMEOUT_MS }
                } else {
                    self.phase = Phase::Done;
                    Action::Finish { result: Err(OffchainErr::FailToAcquireLock), restore: None }
                }
            },
            Outcome::Fetched(fetched) => {
                match fetch_proof(fetched) {
                    Ok(proof) => {
                        self.phase = Phase::Verifying;
                        Action::Verify {
                            program_hash: self.log[self.log.len() - 1],
                            inputs: copy_slice(self.info.inputs.as_slice()),
                            outputs: copy_slice(self.info.outputs.as_slice()),
                            proof,
                        }
                    },
                    Err(e) => self.roll_back(e),
                }
            },
            Outcome::Verified(verdict) => {
                match stark_verify(verdict) {
                    Ok(passed) => {
                        let receipt = VerificationReceipt {
                            program_hash: self.log[self.log.len() - 1],
                            passed,
                            submit_at: self.block_number,
                            auth_index: self.auth_index,
                            validators_len: self.validators_len,
                        };
                        self.phase = Phase::Signing(receipt);
                        Action::Sign { payload: receipt.encode() }
                    },
                    Err(e) => self.roll_back(e),
                }
            },
            Outcome::Signed(signed) => {
                match (self.phase, signed) {
                    (Phase::Signing(receipt), Some(signature)) => {
                        self.phase = Phase::Submitting;
                        Action::Submit { call: Call::SubmitVerification { receipt, signature } }
                    },
                    _ => self.roll_back(OffchainErr::FailedSigning),
                }
            },
            Outcome::Submitted(taken) => {
                if taken {
                    self.phase = Phase::Done;
                    Action::Finish { result: Ok(()), restore: None }
                } else {
                    let e = OffchainErr::SubmitTransaction(self.block_number);
                    self.roll_back(e)
                }
            },
        }
    }
}

impl Module {
    /// Begins the round of the authority at `auth_index`: chooses its task and
    /// asks for the lock to be written. `stored` is the log that the node's
    /// store holds for the authority. With no task left the round is over at
    /// once.
    pub fn send_single_result_with_lock(
        &self,
        auth_index: u32,
        block_number: u64,
        stored: Option<Vec<TaskId>>,
    ) -> (begun: (Round, Action))
        requires
            self.wf(),
        ensures
            begun.0.wf(),
            begun.0.auth_index == auth_index,
            begun.0.block_number == block_number,
            begun.0.validators_len == self@.keys.len(),
            begun.0.phase is Done <==> nothing_left(self@.ongoing.dom(), stored_log(stored)),
            match begun.0.phase {
                Phase::Locking => {
                    &&& is_next_task(self@.ongoing.dom(), stored_log(stored), begun.0.task())
                    &&& is_locked_log(stored_log(stored), begun.0.task(), begun.0.log@)
                    &&& begun.0.info@ == params_or_default(self@, begun.0.task())
                    &&& begun.1 matches Action::Lock { key, log }
                    &&& key@ == storage_key_of(auth_index)
                    &&& log@ == begun.0.log@
                },
                Phase::Done => {
                    &&& begun.1 matches Action::Finish { result, restore }
                    &&& result == Err::<(), OffchainErr>(OffchainErr::NoTaskToExecute)
                    &&& restore is None
                },
                _ => false,
            },
    {
        let validators_len = self.authority_len();
        match self.lock_next_task(stored) {
            Ok(log) => {
                let task = log[log.len() - 1];
                let info = match self.task_params(&task) {
                    Some(found) => TaskInfo {
                        proof_id: copy_slice(found.proof_id.as_slice()),
                        inputs: copy_slice(found.inputs.as_slice()),
                        outputs: copy_slice(found.outputs.as_slice()),
                    },
                    None => TaskInfo::default(),
                };
                let action = Action::Lock {
                    key: storage_key(auth_index),
                    log: copy_slice(log.as_slice()),
                };
                let round = Round {
                    auth_index,
                    block_number,
                    validators_len,
                    info,
                    log,
                    phase: Phase::Locking,
                };
                proof {
                    lemma_next_task_excludes_nothing_left(
                        self@.ongoing.dom(),
                        stored_log(stored),
                        task,
                    );
                }
                (round, action)
            },
            Err(e) => {
                let round = Round {
                    auth_index,
                    block_number,
                    validators_len,
                    info: TaskInfo::default(),
                    log: Vec::new(),
                    phase: Phase::Done,
                };
                (round, Action::Finish { result: Err(e), restore: None })
            },
        }
    }
}

/// Where a task can be taken, something is left.
pub proof fn lemma_next_task_excludes_nothing_left(ongoing: Set<TaskId>, log: Seq<TaskId>, task: TaskId)
    requires
        is_next_task(ongoing, log, task),
    ensures
        !nothing_left(ongoing, log),
{
}

} // verus!
