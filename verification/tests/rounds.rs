use starks_verifier::coordinator::{storage_key, OffchainErr};
use starks_verifier::gate::Call;
use starks_verifier::identity::{AuthorityId, TaskId};
use starks_verifier::registry::Module;
use starks_verifier::round::{
    fetch_proof, proof_url, stark_verify, Action, FetchOutcome, Outcome, Phase, Round,
    FETCH_TIMEOUT_MS,
};
use starks_verifier::types::{Config, Origin, VerificationReceipt};

fn task(n: u8) -> TaskId {
    let mut id = [0u8; 32];
    id[0] = n;
    id
}

fn key(n: u8) -> AuthorityId {
    [n; 32]
}

fn registry(tasks: &[u8]) -> Module {
    let mut module = Module::new(Config { store_period: 100, unsigned_priority: 1 });
    module.set_keys(vec![key(1), key(2), key(3)]);
    for n in tasks {
        module
            .create_task(Origin::Signed([9; 32]), task(*n), vec![1, 2], vec![3], vec![b'Q', *n])
            .unwrap();
    }
    module
}

fn locked(module: &Module, stored: Option<Vec<TaskId>>) -> Round {
    let (mut round, _) = module.send_single_result_with_lock(1, 20, stored);
    assert_eq!(round.phase, Phase::Locking);
    round.advance(Outcome::Locked(true));
    round
}

fn answer(body: &[u8]) -> Outcome {
    Outcome::Fetched(FetchOutcome::Answer { code: 200, body: body.to_vec() })
}

#[test]
fn the_first_task_not_in_the_log_is_taken() {
    let module = registry(&[5, 2, 9]);
    let mut log = vec![];
    assert_eq!(module.task_to_execute(&mut log), Ok(task(2)));
    let mut log = vec![task(2)];
    assert_eq!(module.task_to_execute(&mut log), Ok(task(5)));
    let mut log = vec![task(9), task(2)];
    assert_eq!(module.task_to_execute(&mut log), Ok(task(5)));
    assert_eq!(log, vec![task(2), task(9)]);
    let mut log = vec![task(9), task(5), task(2)];
    assert_eq!(module.task_to_execute(&mut log), Err(OffchainErr::NoTaskToExecute));
    assert_eq!(log, vec![task(2), task(5), task(9)]);
}

#[test]
fn a_log_may_hold_tasks_that_are_gone() {
    let module = registry(&[5]);
    let mut log = vec![task(7), task(1)];
    assert_eq!(module.task_to_execute(&mut log), Ok(task(5)));
    assert_eq!(log, vec![task(1), task(7)]);
}

#[test]
fn without_tasks_there_is_nothing_to_execute() {
    let module = registry(&[]);
    assert_eq!(module.task_to_execute(&mut vec![]), Err(OffchainErr::NoTaskToExecute));
    assert_eq!(module.lock_next_task(None), Err(OffchainErr::NoTaskToExecute));
}

#[test]
fn a_settled_task_is_not_taken() {
    let mut module = registry(&[5, 2]);
    module.set_keys(vec![]);
    let receipt = VerificationReceipt {
        program_hash: task(2),
        passed: true,
        submit_at: 1,
        auth_index: 0,
        validators_len: 0,
    };
    module.submit_verification(Origin::Unsigned, receipt, [0; 64]).unwrap();
    assert_eq!(module.task_to_execute(&mut vec![]), Ok(task(5)));
}

#[test]
fn the_lock_is_the_task_behind_the_sorted_log() {
    let module = registry(&[5, 2, 9]);
    assert_eq!(module.lock_next_task(None), Ok(vec![task(2)]));
    assert_eq!(module.lock_next_task(Some(vec![])), Ok(vec![task(2)]));
    assert_eq!(module.lock_next_task(Some(vec![task(9), task(2)])), Ok(vec![task(2), task(9), task(5)]));
    assert_eq!(
        module.lock_next_task(Some(vec![task(2), task(5), task(9)])),
        Err(OffchainErr::NoTaskToExecute)
    );
}

#[test]
fn local_keys_are_matched_with_their_places() {
    let module = registry(&[]);
    assert_eq!(
        module.local_authority_keys(vec![key(3), key(7), key(1)]),
        vec![(0, key(1)), (2, key(3))]
    );
    assert_eq!(module.local_authority_keys(vec![key(7)]), vec![]);
    assert_eq!(module.local_authority_keys(vec![]), vec![]);
    assert_eq!(
        module.send_verification_output(vec![key(2), key(8)]),
        Ok(vec![(1, key(2))])
    );
    assert_eq!(module.send_verification_output(vec![key(8)]), Err(OffchainErr::NotValidator));
}

#[test]
fn a_round_begins_with_the_lock() {
    let module = registry(&[5, 2]);
    let (round, action) = module.send_single_result_with_lock(1, 20, Some(vec![task(2)]));
    assert_eq!(round.phase, Phase::Locking);
    assert_eq!(round.auth_index, 1);
    assert_eq!(round.block_number, 20);
    assert_eq!(round.validators_len, 3);
    assert_eq!(round.log, vec![task(2), task(5)]);
    assert_eq!(round.info.proof_id, vec![b'Q', 5]);
    assert_eq!(action, Action::Lock { key: storage_key(1), log: vec![task(2), task(5)] });
}

#[test]
fn a_round_without_a_task_is_over_at_once() {
    let module = registry(&[2]);
    let (round, action) = module.send_single_result_with_lock(1, 20, Some(vec![task(2)]));
    assert_eq!(round.phase, Phase::Done);
    assert_eq!(action, Action::Finish { result: Err(OffchainErr::NoTaskToExecute), restore: None });
}

#[test]
fn a_lost_lock_ends_the_round() {
    let module = registry(&[2]);
    let (mut round, _) = module.send_single_result_with_lock(1, 20, None);
    let action = round.advance(Outcome::Locked(false));
    assert_eq!(action, Action::Finish { result: Err(OffchainErr::FailToAcquireLock), restore: None });
    assert_eq!(round.phase, Phase::Done);
}

#[test]
fn a_round_that_succeeds_keeps_the_task_in_the_log() {
    let module = registry(&[5, 2]);
    let (mut round, _) = module.send_single_result_with_lock(1, 20, Some(vec![task(2)]));

    let mut url = b"https://ipfs.infura.io:5001/api/v0/cat?arg=".to_vec();
    url.extend_from_slice(&[b'Q', 5]);
    assert_eq!(round.advance(Outcome::Locked(true)), Action::Fetch { url, timeout_ms: 8000 });
    assert_eq!(FETCH_TIMEOUT_MS, 8000);

    assert_eq!(
        round.advance(answer(b"proof")),
        Action::Verify {
            program_hash: task(5),
            inputs: vec![1, 2],
            outputs: vec![3],
            proof: b"proof".to_vec(),
        }
    );

    let receipt = VerificationReceipt {
        program_hash: task(5),
        passed: false,
        submit_at: 20,
        auth_index: 1,
        validators_len: 3,
    };
    assert_eq!(round.advance(Outcome::Verified(Ok(false))), Action::Sign { payload: receipt.encode() });
    assert_eq!(round.phase, Phase::Signing(receipt));

    assert_eq!(
        round.advance(Outcome::Signed(Some([7; 64]))),
        Action::Submit { call: Call::SubmitVerification { receipt, signature: [7; 64] } }
    );

    assert_eq!(round.advance(Outcome::Submitted(true)), Action::Finish { result: Ok(()), restore: None });
    assert_eq!(round.phase, Phase::Done);
    assert_eq!(round.log, vec![task(2), task(5)]);

    let (next, _) = module.send_single_result_with_lock(1, 21, Some(round.log));
    assert_eq!(next.phase, Phase::Done);
}

fn assert_rolled_back(module: &Module, mut round: Round, outcome: Outcome, error: OffchainErr) {
    let action = round.advance(outcome);
    assert_eq!(action, Action::Finish { result: Err(error), restore: Some(vec![task(2)]) });
    assert_eq!(round.phase, Phase::Done);
    assert_eq!(round.log, vec![task(2)]);
    assert!(!round.log.contains(&task(5)));
    let mut log = round.log;
    assert_eq!(module.task_to_execute(&mut log), Ok(task(5)));
}

#[test]
fn a_failed_fetch_gives_up_the_lock() {
    let module = registry(&[5, 2]);
    let stored = Some(vec![task(2)]);
    let not_sent = Outcome::Fetched(FetchOutcome::NotSent);
    assert_rolled_back(&module, locked(&module, stored.clone()), not_sent, OffchainErr::HttpError(10));
    let no_answer = Outcome::Fetched(FetchOutcome::NoAnswer);
    assert_rolled_back(&module, locked(&module, stored.clone()), no_answer, OffchainErr::HttpError(20));
    let failed = Outcome::Fetched(FetchOutcome::Failed);
    assert_rolled_back(&module, locked(&module, stored.clone()), failed, OffchainErr::HttpError(20));
    let not_found = Outcome::Fetched(FetchOutcome::Answer { code: 404, body: b"no".to_vec() });
    assert_rolled_back(&module, locked(&module, stored), not_found, OffchainErr::HttpError(0));
}

#[test]
fn a_failed_verification_gives_up_the_lock() {
    let module = registry(&[5, 2]);
    let mut round = locked(&module, Some(vec![task(2)]));
    round.advance(answer(b"proof"));
    assert_rolled_back(&module, round, Outcome::Verified(Err(())), OffchainErr::VerificationFailed);
}

#[test]
fn a_failed_signing_gives_up_the_lock() {
    let module = registry(&[5, 2]);
    let mut round = locked(&module, Some(vec![task(2)]));
    round.advance(answer(b"proof"));
    round.advance(Outcome::Verified(Ok(true)));
    assert_rolled_back(&module, round, Outcome::Signed(None), OffchainErr::FailedSigning);
}

#[test]
fn a_failed_submission_gives_up_the_lock() {
    let module = registry(&[5, 2]);
    let mut round = locked(&module, Some(vec![task(2)]));
    round.advance(answer(b"proof"));
    round.advance(Outcome::Verified(Ok(true)));
    round.advance(Outcome::Signed(Some([7; 64])));
    assert_rolled_back(&module, round, Outcome::Submitted(false), OffchainErr::SubmitTransaction(20));
}

#[test]
fn fetch_outcomes_are_classed() {
    assert_eq!(fetch_proof(FetchOutcome::NotSent), Err(OffchainErr::HttpError(10)));
    assert_eq!(fetch_proof(FetchOutcome::NoAnswer), Err(OffchainErr::HttpError(20)));
    assert_eq!(fetch_proof(FetchOutcome::Failed), Err(OffchainErr::HttpError(20)));
    let moved = FetchOutcome::Answer { code: 301, body: vec![1] };
    assert_eq!(fetch_proof(moved), Err(OffchainErr::HttpError(0)));
    let ok = FetchOutcome::Answer { code: 200, body: vec![1, 2, 3] };
    assert_eq!(fetch_proof(ok), Ok(vec![1, 2, 3]));
}

#[test]
fn verification_outcomes_are_classed() {
    assert_eq!(stark_verify(Ok(true)), Ok(true));
    assert_eq!(stark_verify(Ok(false)), Ok(false));
    assert_eq!(stark_verify(Err(())), Err(OffchainErr::VerificationFailed));
}

#[test]
fn the_proof_is_asked_for_by_its_identity() {
    assert_eq!(
        proof_url(&b"QmHash".to_vec()),
        b"https://ipfs.infura.io:5001/api/v0/cat?arg=QmHash".to_vec()
    );
}
