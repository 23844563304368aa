//! What a node decides in a round: which task it takes, and how it locks it in
//! its own log of tasks so that it works on no task twice.

use crate::codec::{encode_u32, le_bytes};
use crate::copying::{append_copy, copy_slice};
use crate::identity::{id_le, id_lt, AuthorityId, TaskId};
use crate::registry::Module;
use crate::sorting::{binary_search, sort, sorted, strictly_sorted};
use vstd::prelude::*;
use vstd::string::StringSliceAdditionalSpecFns;

verus! {

/// Why a node's round gave no vote.
#[derive(Clone, Copy, Debug, PartialEq, Eq)]
pub enum OffchainErr {
    /// None of the node's keys is an authority.
    NotValidator,
    /// The node has worked on every task on which votes are taken.
    NoTaskToExecute,
    /// The log was changed by someone else while the node chose its task.
    FailToAcquireLock,
    /// The proof could not be fetched: 10 when the request could not be sent in
    /// time, 20 when no answer came, 0 when the answer was not a success.
    HttpError(u32),
    /// The node's key did not sign.
    FailedSigning,
    /// The vote made at this block was not taken by the pool.
    SubmitTransaction(u64),
    /// The proof could not be checked.
    VerificationFailed,
}

/// The bytes that the key of every log starts with.
pub open spec fn db_prefix() -> Seq<u8> {
    "starksnetwork/verification-tasks/".spec_bytes()
}

/// The key under which the authority at `auth_index` keeps its log.
pub open spec fn storage_key_of(auth_index: u32) -> Seq<u8> {
    db_prefix() + le_bytes(auth_index as nat, 4)
}

/// Computes the key under which the authority at `auth_index` keeps its log.
pub fn storage_key(auth_index: u32) -> (key: Vec<u8>)
    ensures
        key@ == storage_key_of(auth_index),
{
    let mut key = copy_slice("starksnetwork/verification-tasks/".as_bytes());
    let index = encode_u32(auth_index);
    append_copy(&mut key, index.as_slice());
    key
}

/// `task` is the task to take: votes are taken on it, the log does not hold
/// it, and it sorts before every other such task.
pub open spec fn is_next_task(ongoing: Set<TaskId>, log: Seq<TaskId>, task: TaskId) -> bool {
    &&& ongoing.contains(task)
    &&& !log.contains(task)
    &&& forall|other: TaskId|
        ongoing.contains(other) && !log.contains(other) ==> #[trigger] id_le(task, other)
}

/// The log holds every task on which votes are taken.
pub open spec fn nothing_left(ongoing: Set<TaskId>, log: Seq<TaskId>) -> bool {
    forall|task: TaskId| #[trigger] ongoing.contains(task) ==> log.contains(task)
}

/// Two lists with the same entries hold the same identities.
pub proof fn lemma_same_entries_same_members(a: Seq<TaskId>, b: Seq<TaskId>)
    requires
        a.to_multiset() == b.to_multiset(),
    ensures
        forall|x: TaskId| a.contains(x) <==> b.contains(x),
{
    assert forall|x: TaskId| a.contains(x) <==> b.contains(x) by {
        vstd::seq_lib::to_multiset_contains(a, x);
        vstd::seq_lib::to_multiset_contains(b, x);
    }
}

/// `log` is the log `before` with the lock on `task` taken: the entries of
/// `before` in ascending order, and `task` behind them.
pub open spec fn is_locked_log(before: Seq<TaskId>, task: TaskId, log: Seq<TaskId>) -> bool {
    &&& log.len() == before.len() + 1
    &&& log.last() == task
    &&& sorted(log.drop_last())
    &&& log.drop_last().to_multiset() == before.to_multiset()
}

/// The log that a store holds: none stands for an empty one.
pub open spec fn stored_log(stored: Option<Vec<TaskId>>) -> Seq<TaskId> {
    match stored {
        Some(log) => log@,
        None => Seq::empty(),
    }
}

/// `out` lists the places of the authority set whose keys the node holds, each
/// with its key, in ascending order of the places.
pub open spec fn is_local_authorities(
    keys: Seq<AuthorityId>,
    local: Seq<AuthorityId>,
    out: Seq<(u32, AuthorityId)>,
) -> bool {
    &&& forall|m: int|
        0 <= m < out.len() ==> {
            &&& (#[trigger] out[m]).0 < keys.len()
            &&& keys[out[m].0 as int] == out[m].1
            &&& local.contains(out[m].1)
        }
    &&& forall|m: int, n: int| 0 <= m < n < out.len() ==> (#[trigger] out[m]).0 < (#[trigger] out[n]).0
    &&& forall|i: int|
        0 <= i < keys.len() && local.contains(#[trigger] keys[i]) ==> exists|m: int|
            0 <= m < out.len() && (#[trigger] out[m]).0 == i
}

impl Module {
    /// Returns the places of the authority set whose keys are among
    /// `local_keys`, each with its key.
    pub fn local_authority_keys(&self, local_keys: Vec<AuthorityId>) -> (out: Vec<
        (u32, AuthorityId),
    >)
        requires
            self.wf(),
        ensures
            is_local_authorities(self@.keys, local_keys@, out@),
    {
        let authorities = self.keys();
        let mut local = local_keys;
        sort(&mut local);
        proof {
            lemma_same_entries_same_members(local@, local_keys@);
        }
        let mut out: Vec<(u32, AuthorityId)> = Vec::new();
        let mut index: usize = 0;
        while index < authorities.len()
            invariant
                0 <= index <= authorities.len(),
                authorities@ == self@.keys,
                authorities@.len() <= u32::MAX,
                sorted(local@),
                forall|x: AuthorityId| local@.contains(x) <==> local_keys@.contains(x),
                forall|m: int|
                    0 <= m < out@.len() ==> {
                        &&& (#[trigger] out@[m]).0 < index
                        &&& authorities@[out@[m].0 as int] == out@[m].1
                        &&& local_keys@.contains(out@[m].1)
                    },
                forall|m: int, n: int|
                    0 <= m < n < out@.len() ==> (#[trigger] out@[m]).0 < (#[trigger] out@[n]).0,
                forall|i: int|
                    0 <= i < index && local_keys@.contains(#[trigger] authorities@[i])
                        ==> exists|m: int| 0 <= m < out@.len() && (#[trigger] out@[m]).0 == i,
            decreases authorities.len() - index,
        {
            let ghost before = out@;
            match binary_search(&local, &authorities[index]) {
                Ok(location) => {
                    out.push((index as u32, local[location]));
                    proof {
                        assert forall|i: int|
                            0 <= i < index + 1 && local_keys@.contains(
                                #[trigger] authorities@[i],
                            ) implies exists|m: int|
                            0 <= m < out@.len() && (#[trigger] out@[m]).0 == i by {
                            if i < index {
                                let m = choose|m: int|
                                    0 <= m < before.len() && (#[trigger] before[m]).0 == i;
                                assert(out@[m].0 == i);
                            } else {
                                assert(out@[before.len() as int].0 == i);
                            }
                        }
                    }
                },
                Err(_) => {},
            }
            index += 1;
        }
        out
    }

    /// Lists the rounds that the node is to run: one for each place of the
    /// authority set whose key the node holds. A node that holds the key of
    /// no authority has no round to run.
    pub fn send_verification_output(&self, local_keys: Vec<AuthorityId>) -> (res: Result<
        Vec<(u32, AuthorityId)>,
        OffchainErr,
    >)
        requires
            self.wf(),
        ensures
            match res {
                Ok(rounds) => rounds@.len() > 0 && is_local_authorities(
                    self@.keys,
                    local_keys@,
                    rounds@,
                ),
                Err(e) => e == OffchainErr::NotValidator && forall|i: int|
                    0 <= i < self@.keys.len() ==> !local_keys@.contains(#[trigger] self@.keys[i]),
            },
    {
        let rounds = self.local_authority_keys(local_keys);
        if rounds.len() == 0 {
            Err(OffchainErr::NotValidator)
        } else {
            Ok(rounds)
        }
    }

    /// Picks the task to work on: of the tasks on which votes are taken and
    /// which `local_tasks` does not hold, the one that sorts first. Sorts
    /// `local_tasks` on the way.
    pub fn task_to_execute(&self, local_tasks: &mut Vec<TaskId>) -> (res: Result<
        TaskId,
        OffchainErr,
    >)
        requires
            self.wf(),
        ensures
            sorted(final(local_tasks)@),
            final(local_tasks)@.to_multiset() == old(local_tasks)@.to_multiset(),
            final(local_tasks)@.len() == old(local_tasks)@.len(),
            match res {
                Ok(task) => is_next_task(self@.ongoing.dom(), old(local_tasks)@, task),
                Err(e) => e == OffchainErr::NoTaskToExecute && nothing_left(
                    self@.ongoing.dom(),
                    old(local_tasks)@,
                ),
            },
    {
        let ongoing = self.ongoing_ids();
        sort(local_tasks);
        proof {
            lemma_same_entries_same_members(local_tasks@, old(local_tasks)@);
        }
        let mut i: usize = 0;
        while i < ongoing.len()
            invariant
                0 <= i <= ongoing.len(),
                sorted(local_tasks@),
                local_tasks@.to_multiset() == old(local_tasks)@.to_multiset(),
                local_tasks@.len() == old(local_tasks)@.len(),
                forall|x: TaskId| local_tasks@.contains(x) <==> old(local_tasks)@.contains(x),
                strictly_sorted(ongoing@),
                forall|h: TaskId| ongoing@.contains(h) <==> self@.ongoing.contains_key(h),
                forall|j: int| 0 <= j < i ==> local_tasks@.contains(#[trigger] ongoing@[j]),
            decreases ongoing.len() - i,
        {
            if binary_search(local_tasks, &ongoing[i]).is_err() {
                let task = ongoing[i];
                proof {
                    assert(ongoing@.contains(task));
                    assert forall|other: TaskId|
                        self@.ongoing.dom().contains(other) && !old(local_tasks)@.contains(
                            other,
                        ) implies #[trigger] id_le(task, other) by {
                        assert(ongoing@.contains(other));
                        let k = choose|k: int| 0 <= k < ongoing@.len() && ongoing@[k] == other;
                        if k < i {
                            assert(local_tasks@.contains(ongoing@[k]));
                        } else if i < k {
                            assert(id_lt(ongoing@[i as int], ongoing@[k]));
                        }
                    }
                }
                return Ok(task);
            }
            i += 1;
        }
        proof {
            assert forall|task: TaskId| #[trigger]
                self@.ongoing.dom().contains(task) implies old(local_tasks)@.contains(task) by {
                assert(ongoing@.contains(task));
                let k = choose|k: int| 0 <= k < ongoing@.len() && ongoing@[k] == task;
                assert(local_tasks@.contains(ongoing@[k]));
            }
        }
        Err(OffchainErr::NoTaskToExecute)
    }

    /// Chooses the task for this round and writes it behind the log that the
    /// node's store holds. The result is the log to be stored in its place.
    pub fn lock_next_task(&self, stored: Option<Vec<TaskId>>) -> (res: Result<
        Vec<TaskId>,
        OffchainErr,
    >)
        requires
            self.wf(),
        ensures
            match res {
                Ok(log) => {
                    &&& log@.len() > 0
                    &&& is_next_task(self@.ongoing.dom(), stored_log(stored), log@.last())
                    &&& is_locked_log(stored_log(stored), log@.last(), log@)
                },
                Err(e) => e == OffchainErr::NoTaskToExecute && nothing_left(
                    self@.ongoing.dom(),
                    stored_log(stored),
                ),
            },
    {
        let mut local_tasks = match stored {
            Some(log) => log,
            None => Vec::new(),
        };
        let ghost before = local_tasks@;
        match self.task_to_execute(&mut local_tasks) {
            Ok(task) => {
                let ghost in_order = local_tasks@;
                local_tasks.push(task);
                proof {
                    assert(local_tasks@.drop_last() =~= in_order);
                }
                Ok(local_tasks)
            },
            Err(e) => Err(e),
        }
    }
}

} // verus!
