//! The registry as a mathematical state, and its transitions.

use crate::identity::TaskId;
use crate::threshold::threshold_of;
use crate::types::{Config, Error, Origin, Tally, TaskInfoView, VerificationReceipt};
use vstd::prelude::*;

verus! {

/// What the registry holds at one moment.
#[verifier::ext_equal]
pub struct ModuleView {
    /// The settings of the runtime.
    pub config: Config,
    /// The authorities of the current epoch, in their order.
    pub keys: Seq<[u8; 32]>,
    /// The parameters of every task that was ever registered.
    pub task_params: Map<TaskId, TaskInfoView>,
    /// The tallies of the tasks on which votes are being taken.
    pub ongoing: Map<TaskId, Tally>,
    /// The outcomes of settled tasks, by the block until which each is kept and
    /// by the task's identity.
    pub settled: Map<(u64, TaskId), bool>,
}

impl ModuleView {
    /// A registry without authorities and without tasks.
    pub open spec fn empty(config: Config) -> ModuleView {
        ModuleView {
            config,
            keys: Seq::empty(),
            task_params: Map::empty(),
            ongoing: Map::empty(),
            settled: Map::empty(),
        }
    }

    /// The authority set can be counted in 32 bits, every task voted on has its
    /// parameters, and every tally is well formed and within its limit.
    pub open spec fn wf(self) -> bool {
        &&& self.keys.len() <= u32::MAX
        &&& forall|h: TaskId| #[trigger]
            self.ongoing.contains_key(h) ==> self.task_params.contains_key(h)
        &&& forall|h: TaskId| #[trigger]
            self.ongoing.contains_key(h) ==> self.ongoing[h].wf() && self.ongoing[h].within_limit()
    }

    /// Whether a task with this identity was ever registered.
    pub open spec fn task_exists(self, program_hash: TaskId) -> bool {
        self.task_params.contains_key(program_hash)
    }

    /// The threshold that the current authority set gives.
    pub open spec fn threshold(self) -> int {
        threshold_of(self.keys.len() as int)
    }

    /// Why a call to register a task is turned down, if it is.
    pub open spec fn creation_refusal(self, origin: Origin, program_hash: TaskId) -> Option<
        Error,
    > {
        if !(origin is Signed) {
            Some(Error::BadOrigin)
        } else if self.task_exists(program_hash) {
            Some(Error::TaskAlreadyExists)
        } else {
            None
        }
    }

    /// The registry after a task was registered.
    pub open spec fn create_task(self, program_hash: TaskId, info: TaskInfoView) -> ModuleView {
        ModuleView {
            task_params: self.task_params.insert(program_hash, info),
            ongoing: self.ongoing.insert(program_hash, Tally::empty()),
            ..self
        }
    }

    /// Why a vote is turned down, if it is.
    pub open spec fn vote_refusal(self, origin: Origin, receipt: VerificationReceipt) -> Option<
        Error,
    > {
        if !(origin is Unsigned) {
            Some(Error::BadOrigin)
        } else if !self.ongoing.contains_key(receipt.program_hash) {
            Some(Error::TaskNotExists)
        } else if self.ongoing[receipt.program_hash].has_voted(receipt.auth_index) {
            Some(Error::DuplicatedSubmission)
        } else {
            None
        }
    }

    /// The tally of the receipt's task with the receipt's vote counted.
    pub open spec fn tally_after(self, receipt: VerificationReceipt) -> Tally {
        self.ongoing[receipt.program_hash].record(receipt.auth_index, receipt.passed)
    }

    /// The block until which an outcome reached by this receipt is kept.
    pub open spec fn expiration(self, receipt: VerificationReceipt) -> int {
        receipt.submit_at + self.config.store_period
    }

    /// The registry after a vote was counted: the task is settled and leaves the
    /// tasks voted on, if the vote carried one count over the threshold; else
    /// only its tally has changed.
    pub open spec fn apply_vote(self, receipt: VerificationReceipt) -> ModuleView {
        let tally = self.tally_after(receipt);
        match tally.outcome(self.threshold()) {
            Some(passed) => ModuleView {
                ongoing: self.ongoing.remove(receipt.program_hash),
                settled: self.settled.insert(
                    (self.expiration(receipt) as u64, receipt.program_hash),
                    passed,
                ),
                ..self
            },
            None => ModuleView {
                ongoing: self.ongoing.insert(receipt.program_hash, tally),
                ..self
            },
        }
    }

    /// The registry with another authority set.
    pub open spec fn with_keys(self, keys: Seq<[u8; 32]>) -> ModuleView {
        ModuleView { keys, ..self }
    }
}

} // verus!
