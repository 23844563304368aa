//! What holds of the registry, the admission of votes and the node's log,
//! whatever the state and the input.

use crate::coordinator::{is_locked_log, is_next_task, OffchainErr};
use crate::gate::{early_rejection, rejection, InvalidTransaction, INVALID_VALIDATORS_LEN};
use crate::identity::{id_le, lemma_lt_asymmetric, TaskId};
use crate::model::ModuleView;
use crate::round::{fetch_result, fits, Action, Outcome, Phase, Round};
use crate::threshold::threshold_of;
use crate::types::{
    lemma_record_keeps_wf, Error, Origin, Tally, TaskInfoView, VerificationReceipt, TALLY_LIMIT,
};
use vstd::prelude::*;

verus! {

/// Registering a task keeps the registry well formed.
pub proof fn creation_keeps_well_formed(state: ModuleView, program_hash: TaskId, info: TaskInfoView)
    requires
        state.wf(),
    ensures
        state.create_task(program_hash, info).wf(),
{
    let after = state.create_task(program_hash, info);
    assert forall|h: TaskId| #[trigger] after.ongoing.contains_key(h) implies after.ongoing[h].wf()
        && after.ongoing[h].within_limit() && after.task_params.contains_key(h) by {
        if h != program_hash {
            assert(state.ongoing.contains_key(h));
        }
    }
}

/// A task that was registered cannot be registered again, whoever asks, and
/// its parameters are those of the first registration.
pub proof fn second_creation_is_refused(
    state: ModuleView,
    program_hash: TaskId,
    info: TaskInfoView,
    origin: Origin,
)
    ensures
        state.create_task(program_hash, info).creation_refusal(origin, program_hash) is Some,
        origin is Signed ==> state.create_task(program_hash, info).creation_refusal(
            origin,
            program_hash,
        ) == Some(Error::TaskAlreadyExists),
        state.create_task(program_hash, info).task_params[program_hash] == info,
{
}

/// A task settles only when strictly more votes of one kind than the
/// threshold of the authority set have come in.
pub proof fn settlement_needs_more_than_threshold(tally: Tally, authorities: nat)
    ensures
        tally.outcome(threshold_of(authorities as int)) == Some(true) ==> tally.ayes > (authorities
            + 1) / 2,
        tally.outcome(threshold_of(authorities as int)) == Some(false) ==> tally.nays > (
        authorities + 1) / 2,
        tally.outcome(threshold_of(authorities as int)) is None <==> (tally.ayes <= (authorities
            + 1) / 2 && tally.nays <= (authorities + 1) / 2),
{
}

/// With exactly the threshold in ayes, and no more votes than there are
/// authorities, a task stays open.
pub proof fn threshold_in_ayes_leaves_open(tally: Tally, authorities: nat)
    requires
        tally.wf(),
        tally.ayes == threshold_of(authorities as int),
        tally.verifiers.len() <= authorities,
    ensures
        tally.outcome(threshold_of(authorities as int)) is None,
{
}

/// A list of distinct numbers below `bound` has at most `bound` entries.
pub proof fn distinct_numbers_below(numbers: Seq<u32>, bound: nat)
    requires
        numbers.no_duplicates(),
        forall|i: int| 0 <= i < numbers.len() ==> numbers[i] < bound,
    ensures
        numbers.len() <= bound,
    decreases bound,
{
    if bound == 0 {
        if numbers.len() > 0 {
            assert(numbers[0] < bound);
        }
    } else if exists|k: int| 0 <= k < numbers.len() && numbers[k] == bound - 1 {
        let k = choose|k: int| 0 <= k < numbers.len() && numbers[k] == bound - 1;
        let rest = numbers.remove(k);
        assert forall|i: int| 0 <= i < rest.len() implies rest[i] < bound - 1 by {
            let j = if i < k {
                i
            } else {
                i + 1
            };
            assert(rest[i] == numbers[j]);
            assert(numbers[j] < bound);
        }
        assert forall|i: int, j: int| 0 <= i < rest.len() && 0 <= j < rest.len() && i != j implies rest[i]
            != rest[j] by {
            let a = if i < k {
                i
            } else {
                i + 1
            };
            let b = if j < k {
                j
            } else {
                j + 1
            };
            assert(rest[i] == numbers[a]);
            assert(rest[j] == numbers[b]);
        }
        distinct_numbers_below(rest, (bound - 1) as nat);
    } else {
        assert forall|i: int| 0 <= i < numbers.len() implies numbers[i] < bound - 1 by {
            assert(numbers[i] < bound);
        }
        distinct_numbers_below(numbers, (bound - 1) as nat);
    }
}

/// While every voter's place lies within the authority set, a tally holds no
/// more votes than the set has members.
pub proof fn votes_do_not_exceed_authorities(tally: Tally, authorities: nat)
    requires
        tally.wf(),
        forall|i: int| 0 <= i < tally.verifiers.len() ==> tally.verifiers[i] < authorities,
    ensures
        tally.ayes + tally.nays <= authorities,
{
    distinct_numbers_below(tally.verifiers, authorities);
}

/// A vote that reaches exactly the threshold leaves its task among the tasks
/// voted on, with the vote counted.
pub proof fn vote_up_to_threshold_leaves_task_ongoing(
    state: ModuleView,
    receipt: VerificationReceipt,
)
    requires
        state.wf(),
        state.vote_refusal(Origin::Unsigned, receipt) is None,
        state.tally_after(receipt).ayes <= state.threshold(),
        state.tally_after(receipt).nays <= state.threshold(),
    ensures
        state.apply_vote(receipt).ongoing.contains_key(receipt.program_hash),
        state.apply_vote(receipt).ongoing[receipt.program_hash] == state.tally_after(receipt),
        state.apply_vote(receipt).settled == state.settled,
{
}

/// A vote that carries one count over the threshold takes its task out of
/// the tasks voted on and keeps the outcome until `store_period` blocks after
/// the vote was made.
pub proof fn vote_over_threshold_settles(state: ModuleView, receipt: VerificationReceipt)
    requires
        state.wf(),
        state.vote_refusal(Origin::Unsigned, receipt) is None,
        state.expiration(receipt) <= u64::MAX,
        state.tally_after(receipt).ayes > state.threshold() || state.tally_after(receipt).nays
            > state.threshold(),
    ensures
        !state.apply_vote(receipt).ongoing.contains_key(receipt.program_hash),
        state.apply_vote(receipt).settled.contains_key(
            ((receipt.submit_at + state.config.store_period) as u64, receipt.program_hash),
        ),
        state.apply_vote(receipt).settled[((receipt.submit_at + state.config.store_period) as u64,
            receipt.program_hash)] == (state.tally_after(receipt).ayes > state.threshold()),
        state.apply_vote(receipt).task_params == state.task_params,
{
}

/// Counting an accepted vote keeps the registry well formed: no authority is
/// counted twice in any tally, and every vote is counted once.
pub proof fn vote_keeps_well_formed(state: ModuleView, receipt: VerificationReceipt)
    requires
        state.wf(),
        state.vote_refusal(Origin::Unsigned, receipt) is None,
    ensures
        state.apply_vote(receipt).wf(),
{
    let after = state.apply_vote(receipt);
    let tally = state.tally_after(receipt);
    lemma_record_keeps_wf(
        state.ongoing[receipt.program_hash],
        receipt.auth_index,
        receipt.passed,
    );
    assert(state.threshold() <= TALLY_LIMIT);
    assert forall|h: TaskId| #[trigger] after.ongoing.contains_key(h) implies after.ongoing[h].wf()
        && after.ongoing[h].within_limit() && after.task_params.contains_key(h) by {
        if h != receipt.program_hash {
            assert(state.ongoing.contains_key(h));
        } else {
            assert(state.ongoing.contains_key(h));
            assert(after.ongoing[h] == tally);
        }
    }
}

/// Replacing the authority set keeps the registry well formed.
pub proof fn rotation_keeps_well_formed(state: ModuleView, keys: Seq<[u8; 32]>)
    requires
        state.wf(),
        keys.len() <= u32::MAX,
    ensures
        state.with_keys(keys).wf(),
{
    let after = state.with_keys(keys);
    assert forall|h: TaskId| #[trigger] after.ongoing.contains_key(h) implies after.ongoing[h].wf()
        && after.ongoing[h].within_limit() && after.task_params.contains_key(h) by {
        assert(state.ongoing.contains_key(h));
    }
}

/// An authority whose vote on a task was counted cannot vote on it again: a
/// second vote from its place is refused as a duplicate while the task is
/// open, and finds no task once it is settled.
pub proof fn second_vote_is_refused(
    state: ModuleView,
    first: VerificationReceipt,
    second: VerificationReceipt,
)
    requires
        state.wf(),
        state.vote_refusal(Origin::Unsigned, first) is None,
        second.program_hash == first.program_hash,
        second.auth_index == first.auth_index,
    ensures
        state.apply_vote(first).vote_refusal(Origin::Unsigned, second) == Some(
            if state.apply_vote(first).ongoing.contains_key(first.program_hash) {
                Error::DuplicatedSubmission
            } else {
                Error::TaskNotExists
            },
        ),
{
    lemma_record_keeps_wf(state.ongoing[first.program_hash], first.auth_index, first.passed);
}

/// A vote from a place that has voted on the task is refused as a duplicate,
/// whatever it says.
pub proof fn duplicate_vote_is_refused(state: ModuleView, receipt: VerificationReceipt)
    requires
        state.ongoing.contains_key(receipt.program_hash),
        state.ongoing[receipt.program_hash].has_voted(receipt.auth_index),
    ensures
        state.vote_refusal(Origin::Unsigned, receipt) == Some(Error::DuplicatedSubmission),
{
}

/// A vote made at a block that has not come yet is refused as not yet valid,
/// whatever else it holds and whatever its signature.
pub proof fn future_vote_is_rejected(
    state: ModuleView,
    now: u64,
    receipt: VerificationReceipt,
    signature_valid: bool,
)
    requires
        receipt.submit_at > now,
    ensures
        rejection(state, now, receipt, signature_valid) == Some(InvalidTransaction::Future),
{
}

/// A vote whose sender saw an authority set of another size than the current
/// one is refused, even with a valid signature.
pub proof fn stale_view_is_rejected(
    state: ModuleView,
    now: u64,
    receipt: VerificationReceipt,
    signature_valid: bool,
)
    requires
        state.keys.len() != receipt.validators_len,
    ensures
        rejection(state, now, receipt, signature_valid) is Some,
        receipt.submit_at <= now ==> rejection(state, now, receipt, signature_valid) == Some(
            InvalidTransaction::Custom(INVALID_VALIDATORS_LEN),
        ),
{
}

/// A vote from a place at which no authority stands is refused, even with a
/// valid signature.
pub proof fn unknown_sender_is_rejected(
    state: ModuleView,
    now: u64,
    receipt: VerificationReceipt,
    signature_valid: bool,
)
    requires
        receipt.auth_index >= state.keys.len(),
    ensures
        rejection(state, now, receipt, signature_valid) is Some,
        early_rejection(state, now, receipt) is Some,
        receipt.submit_at <= now && state.keys.len() == receipt.validators_len ==> rejection(
            state,
            now,
            receipt,
            signature_valid,
        ) == Some(InvalidTransaction::BadProof),
{
}

/// A vote is let through exactly when it is not from the future, its sender
/// saw the authority set at its current size, an authority stands at its
/// sender's place, and its signature is valid.
pub proof fn passing_votes(
    state: ModuleView,
    now: u64,
    receipt: VerificationReceipt,
    signature_valid: bool,
)
    ensures
        rejection(state, now, receipt, signature_valid) is None <==> {
            &&& receipt.submit_at <= now
            &&& receipt.validators_len == state.keys.len()
            &&& receipt.auth_index < state.keys.len()
            &&& signature_valid
        },
{
}

/// After the authority set was replaced by one of another size, a vote that
/// names the size of the old set is refused.
pub proof fn vote_from_before_rotation_is_rejected(
    state: ModuleView,
    keys: Seq<[u8; 32]>,
    now: u64,
    receipt: VerificationReceipt,
    signature_valid: bool,
)
    requires
        receipt.validators_len == state.keys.len(),
        keys.len() != state.keys.len(),
    ensures
        rejection(state.with_keys(keys), now, receipt, signature_valid) is Some,
{
}

/// At most one task is the next one to take.
pub proof fn next_task_is_unique(ongoing: Set<TaskId>, log: Seq<TaskId>, a: TaskId, b: TaskId)
    requires
        is_next_task(ongoing, log, a),
        is_next_task(ongoing, log, b),
    ensures
        a == b,
{
    assert(id_le(a, b));
    assert(id_le(b, a));
    if a != b {
        lemma_lt_asymmetric(a, b);
    }
}

/// Giving up the lock takes the task out of the log and makes it the next
/// task to take again.
pub proof fn rollback_frees_the_task(ongoing: Set<TaskId>, stored: Seq<TaskId>, log: Seq<TaskId>)
    requires
        is_next_task(ongoing, stored, log.last()),
        is_locked_log(stored, log.last(), log),
    ensures
        !log.drop_last().contains(log.last()),
        is_next_task(ongoing, log.drop_last(), log.last()),
{
    crate::coordinator::lemma_same_entries_same_members(log.drop_last(), stored);
}

/// A log with the lock holds the task, so the task is not taken again while
/// its entry stays.
pub proof fn locked_task_is_not_taken_again(ongoing: Set<TaskId>, log: Seq<TaskId>)
    requires
        log.len() > 0,
    ensures
        log.contains(log.last()),
        !is_next_task(ongoing, log, log.last()),
{
    assert(log[log.len() - 1] == log.last());
}

/// What a log holds stays in it when a later lock is taken, and also when
/// that later lock is given up again.
pub proof fn entries_outlast_later_locks(
    before: Seq<TaskId>,
    task: TaskId,
    log: Seq<TaskId>,
    earlier: TaskId,
)
    requires
        is_locked_log(before, task, log),
        before.contains(earlier),
    ensures
        log.drop_last().contains(earlier),
        log.contains(earlier),
{
    crate::coordinator::lemma_same_entries_same_members(log.drop_last(), before);
    let i = choose|i: int| 0 <= i < log.drop_last().len() && log.drop_last()[i] == earlier;
    assert(log[i] == earlier);
}

/// Whether an outcome reports a failure of the work done under the lock.
pub open spec fn is_failure(outcome: Outcome) -> bool {
    match outcome {
        Outcome::Locked(_) => false,
        Outcome::Fetched(fetched) => fetch_result(fetched) is Err,
        Outcome::Verified(verdict) => verdict is Err,
        Outcome::Signed(signed) => signed is None,
        Outcome::Submitted(taken) => !taken,
    }
}

/// Whether an outcome reports that the pool took the vote.
pub open spec fn is_submitted(outcome: Outcome) -> bool {
    outcome matches Outcome::Submitted(taken) && taken
}

/// A failure under the lock ends the round with an error and has the log
/// stored back without the task.
pub proof fn failure_gives_up_the_lock(before: Round, outcome: Outcome, after: Round, action: Action)
    requires
        before.wf(),
        fits(before.phase, outcome),
        is_failure(outcome),
        before.steps_to(outcome, after, action),
    ensures
        after.phase == Phase::Done,
        after.log@ == before.log@.drop_last(),
        action matches Action::Finish { result, restore } && result is Err && (restore matches Some(
            log,
        ) && log@ == before.log@.drop_last()),
{
}

/// A vote that the pool took ends the round without an error and leaves the
/// log as it is, the task in it.
pub proof fn submitted_vote_keeps_the_lock(
    before: Round,
    outcome: Outcome,
    after: Round,
    action: Action,
)
    requires
        before.wf(),
        fits(before.phase, outcome),
        is_submitted(outcome),
        before.steps_to(outcome, after, action),
    ensures
        after.phase == Phase::Done,
        after.log@ == before.log@,
        after.log@.contains(before.task()),
        action matches Action::Finish { result, restore } && result is Ok && restore is None,
{
    assert(before.log@[before.log@.len() - 1] == before.task());
}

/// A round ends with an error only through a failure or a lock that was not
/// had, and the error says which.
pub proof fn errors_of_a_round(before: Round, outcome: Outcome, after: Round, action: Action)
    requires
        before.wf(),
        fits(before.phase, outcome),
        before.steps_to(outcome, after, action),
        action matches Action::Finish { result, .. } && result is Err,
    ensures
        is_failure(outcome) || outcome == Outcome::Locked(false),
        action matches Action::Finish { result, .. } && (match outcome {
            Outcome::Locked(_) => result == Err::<(), OffchainErr>(OffchainErr::FailToAcquireLock),
            Outcome::Fetched(fetched) => fetch_result(fetched) matches Err(e) && result == Err::<
                (),
                OffchainErr,
            >(e),
            Outcome::Verified(_) => result == Err::<(), OffchainErr>(
                OffchainErr::VerificationFailed,
            ),
            Outcome::Signed(_) => result == Err::<(), OffchainErr>(OffchainErr::FailedSigning),
            Outcome::Submitted(_) => result == Err::<(), OffchainErr>(
                OffchainErr::SubmitTransaction(before.block_number),
            ),
        }),
{
}

} // verus!
