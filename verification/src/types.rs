//! The records that the registry stores and the votes that authorities send.

use crate::identity::TaskId;
use vstd::prelude::*;

verus! {

/// The largest count that a running tally can hold for one kind of vote. A tally
/// that is still open never exceeds the threshold it was last held against, and
/// no threshold exceeds half of the largest authority set, rounded up.
pub const TALLY_LIMIT: u32 = 0x8000_0000;

/// The mathematical content of a [`Status`].
#[verifier::ext_equal]
pub struct Tally {
    /// The indices of the authorities that have voted, in the order of their votes.
    pub verifiers: Seq<u32>,
    /// How many of them found the proof valid.
    pub ayes: int,
    /// How many of them found it invalid.
    pub nays: int,
}

impl Tally {
    /// The tally of a task on which nobody has voted.
    pub open spec fn empty() -> Tally {
        Tally { verifiers: Seq::empty(), ayes: 0, nays: 0 }
    }

    /// No authority is counted twice, and every vote is counted once.
    pub open spec fn wf(self) -> bool {
        &&& self.verifiers.no_duplicates()
        &&& 0 <= self.ayes
        &&& 0 <= self.nays
        &&& self.ayes + self.nays == self.verifiers.len()
    }

    /// Whether the authority at `auth_index` has voted.
    pub open spec fn has_voted(self, auth_index: u32) -> bool {
        self.verifiers.contains(auth_index)
    }

    /// The tally after one more vote.
    pub open spec fn record(self, auth_index: u32, passed: bool) -> Tally {
        Tally {
            verifiers: self.verifiers.push(auth_index),
            ayes: if passed {
                self.ayes + 1
            } else {
                self.ayes
            },
            nays: if passed {
                self.nays
            } else {
                self.nays + 1
            },
        }
    }

    /// What the tally decides against `threshold`: passed once the ayes exceed
    /// it, failed once the nays do, nothing until then.
    pub open spec fn outcome(self, threshold: int) -> Option<bool> {
        if self.ayes > threshold {
            Some(true)
        } else if self.nays > threshold {
            Some(false)
        } else {
            None
        }
    }

    /// Neither count has passed what a stored tally may hold.
    pub open spec fn within_limit(self) -> bool {
        self.ayes <= TALLY_LIMIT && self.nays <= TALLY_LIMIT
    }
}

/// The status of a given verification task.
#[derive(Clone, Debug, PartialEq, Eq)]
pub struct Status {
    /// The indices of the authorities that have voted.
    pub verifiers: Vec<u32>,
    /// The number of votes that found the proof valid.
    pub ayes: u32,
    /// The number of votes that found it invalid.
    pub nays: u32,
}

impl View for Status {
    type V = Tally;

    open spec fn view(&self) -> Tally {
        Tally { verifiers: self.verifiers@, ayes: self.ayes as int, nays: self.nays as int }
    }
}

impl Default for Status {
    fn default() -> (status: Status)
        ensures
            status@ == Tally::empty(),
    {
        Status { verifiers: Vec::new(), ayes: 0, nays: 0 }
    }
}

impl Status {
    /// Whether the authority at `auth_index` has voted on the task.
    pub fn has_voted(&self, auth_index: u32) -> (voted: bool)
        ensures
            voted == self@.has_voted(auth_index),
    {
        let mut i: usize = 0;
        while i < self.verifiers.len()
            invariant
                0 <= i <= self.verifiers.len(),
                forall|j: int| 0 <= j < i ==> self.verifiers@[j] != auth_index,
            decreases self.verifiers.len() - i,
        {
            if self.verifiers[i] == auth_index {
                return true;
            }
            i += 1;
        }
        false
    }

    /// Counts the vote of the authority at `auth_index`.
    pub fn record(&mut self, auth_index: u32, passed: bool)
        requires
            old(self).ayes < u32::MAX,
            old(self).nays < u32::MAX,
        ensures
            final(self)@ == old(self)@.record(auth_index, passed),
    {
        self.verifiers.push(auth_index);
        if passed {
            self.ayes += 1;
        } else {
            self.nays += 1;
        }
    }

    /// What the tally decides against `threshold`.
    pub fn outcome(&self, threshold: u32) -> (decided: Option<bool>)
        ensures
            decided == self@.outcome(threshold as int),
    {
        if self.ayes > threshold {
            Some(true)
        } else if self.nays > threshold {
            Some(false)
        } else {
            None
        }
    }
}

/// A vote stays well formed when the voter had not voted before.
pub proof fn lemma_record_keeps_wf(tally: Tally, auth_index: u32, passed: bool)
    requires
        tally.wf(),
        !tally.has_voted(auth_index),
    ensures
        tally.record(auth_index, passed).wf(),
        tally.record(auth_index, passed).has_voted(auth_index),
        forall|other: u32|
            tally.has_voted(other) ==> #[trigger] tally.record(auth_index, passed).has_voted(
                other,
            ),
{
    let after = tally.record(auth_index, passed);
    assert(after.verifiers[tally.verifiers.len() as int] == auth_index);
    assert forall|other: u32| tally.has_voted(other) implies #[trigger] after.has_voted(
        other,
    ) by {
        let i = choose|i: int| 0 <= i < tally.verifiers.len() && tally.verifiers[i] == other;
        assert(after.verifiers[i] == other);
    }
}

/// The mathematical content of a [`TaskInfo`].
#[verifier::ext_equal]
pub struct TaskInfoView {
    /// Where the proof can be fetched.
    pub proof_id: Seq<u8>,
    /// The public inputs of the program.
    pub inputs: Seq<u128>,
    /// The outputs that the program is claimed to give.
    pub outputs: Seq<u128>,
}

/// The parameters of a task, fixed when it is created.
#[derive(Clone, Debug, PartialEq, Eq)]
pub struct TaskInfo {
    /// Where the proof can be fetched.
    pub proof_id: Vec<u8>,
    /// The public inputs of the program.
    pub inputs: Vec<u128>,
    /// The outputs that the program is claimed to give.
    pub outputs: Vec<u128>,
}

impl View for TaskInfo {
    type V = TaskInfoView;

    open spec fn view(&self) -> TaskInfoView {
        TaskInfoView { proof_id: self.proof_id@, inputs: self.inputs@, outputs: self.outputs@ }
    }
}

impl Default for TaskInfo {
    fn default() -> (info: TaskInfo)
        ensures
            info@ == (TaskInfoView {
                proof_id: Seq::empty(),
                inputs: Seq::empty(),
                outputs: Seq::empty(),
            }),
    {
        TaskInfo { proof_id: Vec::new(), inputs: Vec::new(), outputs: Vec::new() }
    }
}

/// One authority's vote on one task.
#[derive(Clone, Copy, Debug, PartialEq, Eq)]
pub struct VerificationReceipt {
    /// The task voted on.
    pub program_hash: TaskId,
    /// Whether the voter found the proof valid.
    pub passed: bool,
    /// The block at which the vote was made.
    pub submit_at: u64,
    /// The voter's position in the authority set.
    pub auth_index: u32,
    /// The size of the authority set as the voter saw it.
    pub validators_len: u32,
}

/// The settings that a runtime gives the registry.
#[derive(Clone, Copy, Debug, PartialEq, Eq)]
pub struct Config {
    /// For how many blocks a settled outcome is kept.
    pub store_period: u64,
    /// The priority of an admitted vote.
    pub unsigned_priority: u64,
}

/// Who sent a call.
#[derive(Clone, Copy, Debug, PartialEq, Eq)]
pub enum Origin {
    /// The runtime itself.
    Root,
    /// An account, which signed the call.
    Signed([u8; 32]),
    /// Nobody: the call came unsigned.
    Unsigned,
}

/// Why a call was turned down. Nothing has changed when one is returned.
#[derive(Clone, Copy, Debug, PartialEq, Eq)]
pub enum Error {
    /// The call did not come from the kind of sender that it needs.
    BadOrigin,
    /// A task with this identity is registered already.
    TaskAlreadyExists,
    /// Only permitted verifiers can submit the result.
    NotAllowed,
    /// No vote is being taken on the task.
    TaskNotExists,
    /// This authority has voted on the task before.
    DuplicatedSubmission,
}

/// What the registry announces.
#[derive(Clone, Copy, Debug, PartialEq, Eq)]
pub enum Event {
    /// An account became a verifier.
    AddVerifier([u8; 32]),
    /// An account ceased to be a verifier.
    RemoveVerifier([u8; 32]),
    /// A task was registered.
    TaskCreated(TaskId),
}

} // verus!
