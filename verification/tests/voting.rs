use starks_verifier::identity::{AuthorityId, TaskId};
use starks_verifier::registry::Module;
use starks_verifier::threshold::threshold;
use starks_verifier::types::{Config, Error, Event, Origin, Status, VerificationReceipt};

const STORE_PERIOD: u64 = 100;

fn authority(n: u8) -> AuthorityId {
    [n; 32]
}

fn task(n: u8) -> TaskId {
    let mut id = [0u8; 32];
    id[31] = n;
    id
}

fn registry_with(authorities: u8) -> Module {
    let mut module = Module::new(Config { store_period: STORE_PERIOD, unsigned_priority: 1 << 20 });
    let keys: Vec<AuthorityId> = (0..authorities).map(authority).collect();
    module.set_keys(keys);
    module
}

fn vote(task: TaskId, auth_index: u32, passed: bool, submit_at: u64) -> VerificationReceipt {
    VerificationReceipt { program_hash: task, passed, submit_at, auth_index, validators_len: 3 }
}

fn create(module: &mut Module, id: TaskId) -> Result<Event, Error> {
    module.create_task(Origin::Signed([9; 32]), id, vec![1, 2], vec![3], b"Qm123".to_vec())
}

#[test]
fn threshold_is_half_rounded_up() {
    assert_eq!(threshold(0), 0);
    assert_eq!(threshold(1), 1);
    assert_eq!(threshold(2), 1);
    assert_eq!(threshold(3), 2);
    assert_eq!(threshold(4), 2);
    assert_eq!(threshold(5), 3);
    assert_eq!(threshold(u32::MAX), 0x8000_0000);
}

#[test]
fn new_registry_is_empty() {
    let module = Module::new(Config { store_period: 7, unsigned_priority: 3 });
    assert_eq!(module.config(), Config { store_period: 7, unsigned_priority: 3 });
    assert!(module.keys().is_empty());
    assert_eq!(module.authority_len(), 0);
    assert!(!module.task_exists(&task(1)));
    assert!(module.ongoing_ids().is_empty());
}

#[test]
fn create_task_stores_parameters_and_an_empty_tally() {
    let mut module = registry_with(3);
    assert_eq!(create(&mut module, task(1)), Ok(Event::TaskCreated(task(1))));
    assert!(module.task_exists(&task(1)));
    let info = module.task_params(&task(1)).unwrap();
    assert_eq!(info.proof_id, b"Qm123".to_vec());
    assert_eq!(info.inputs, vec![1, 2]);
    assert_eq!(info.outputs, vec![3]);
    assert_eq!(module.ongoing_tasks(&task(1)), Some(&Status::default()));
    assert_eq!(module.ongoing_tasks(&task(2)), None);
    assert_eq!(module.task_params(&task(2)), None);
}

#[test]
fn create_task_needs_a_signed_origin() {
    let mut module = registry_with(3);
    let unsigned = module.create_task(Origin::Unsigned, task(1), vec![], vec![], vec![]);
    assert_eq!(unsigned, Err(Error::BadOrigin));
    let root = module.create_task(Origin::Root, task(1), vec![], vec![], vec![]);
    assert_eq!(root, Err(Error::BadOrigin));
    assert!(!module.task_exists(&task(1)));
}

#[test]
fn create_task_twice_fails_and_keeps_the_first_parameters() {
    let mut module = registry_with(3);
    assert_eq!(create(&mut module, task(1)), Ok(Event::TaskCreated(task(1))));
    let second =
        module.create_task(Origin::Signed([8; 32]), task(1), vec![7], vec![8], b"other".to_vec());
    assert_eq!(second, Err(Error::TaskAlreadyExists));
    let info = module.task_params(&task(1)).unwrap();
    assert_eq!(info.proof_id, b"Qm123".to_vec());
    assert_eq!(info.inputs, vec![1, 2]);
    assert_eq!(info.outputs, vec![3]);
    assert_eq!(module.ongoing_tasks(&task(1)), Some(&Status::default()));
}

#[test]
fn a_settled_task_cannot_be_created_again() {
    let mut module = registry_with(1);
    create(&mut module, task(1)).unwrap();
    module.set_keys(vec![]);
    let receipt = VerificationReceipt {
        program_hash: task(1),
        passed: true,
        submit_at: 4,
        auth_index: 0,
        validators_len: 0,
    };
    assert_eq!(module.submit_verification(Origin::Unsigned, receipt, [0; 64]), Ok(()));
    assert_eq!(module.ongoing_tasks(&task(1)), None);
    assert_eq!(module.settled_tasks(4 + STORE_PERIOD, &task(1)), Some(true));
    assert_eq!(create(&mut module, task(1)), Err(Error::TaskAlreadyExists));
}

#[test]
fn vote_on_unknown_task_fails() {
    let mut module = registry_with(3);
    let res = module.submit_verification(Origin::Unsigned, vote(task(1), 0, true, 1), [0; 64]);
    assert_eq!(res, Err(Error::TaskNotExists));
}

#[test]
fn vote_needs_an_unsigned_origin() {
    let mut module = registry_with(3);
    create(&mut module, task(1)).unwrap();
    let res =
        module.submit_verification(Origin::Signed([1; 32]), vote(task(1), 0, true, 1), [0; 64]);
    assert_eq!(res, Err(Error::BadOrigin));
    assert_eq!(module.ongoing_tasks(&task(1)), Some(&Status::default()));
}

#[test]
fn duplicate_vote_fails_and_changes_nothing() {
    let mut module = registry_with(3);
    create(&mut module, task(1)).unwrap();
    assert_eq!(
        module.submit_verification(Origin::Unsigned, vote(task(1), 1, true, 5), [0; 64]),
        Ok(())
    );
    let again = module.submit_verification(Origin::Unsigned, vote(task(1), 1, false, 6), [0; 64]);
    assert_eq!(again, Err(Error::DuplicatedSubmission));
    assert_eq!(
        module.ongoing_tasks(&task(1)),
        Some(&Status { verifiers: vec![1], ayes: 1, nays: 0 })
    );
}

#[test]
fn three_ayes_of_three_settle_the_task_as_passed() {
    let mut module = registry_with(3);
    create(&mut module, task(1)).unwrap();

    assert_eq!(
        module.submit_verification(Origin::Unsigned, vote(task(1), 0, true, 10), [0; 64]),
        Ok(())
    );
    assert_eq!(
        module.ongoing_tasks(&task(1)),
        Some(&Status { verifiers: vec![0], ayes: 1, nays: 0 })
    );

    assert_eq!(
        module.submit_verification(Origin::Unsigned, vote(task(1), 1, true, 11), [0; 64]),
        Ok(())
    );
    assert_eq!(
        module.ongoing_tasks(&task(1)),
        Some(&Status { verifiers: vec![0, 1], ayes: 2, nays: 0 })
    );
    assert_eq!(module.settled_tasks(11 + STORE_PERIOD, &task(1)), None);

    assert_eq!(
        module.submit_verification(Origin::Unsigned, vote(task(1), 2, true, 12), [0; 64]),
        Ok(())
    );
    assert_eq!(module.ongoing_tasks(&task(1)), None);
    assert!(module.ongoing_ids().is_empty());
    assert_eq!(module.settled_tasks(12 + STORE_PERIOD, &task(1)), Some(true));
    assert_eq!(module.settled_tasks(11 + STORE_PERIOD, &task(1)), None);
    assert!(module.task_exists(&task(1)));
    assert!(module.task_params(&task(1)).is_some());
}

#[test]
fn two_nays_of_three_leave_the_task_open() {
    let mut module = registry_with(3);
    create(&mut module, task(1)).unwrap();
    module.submit_verification(Origin::Unsigned, vote(task(1), 0, false, 10), [0; 64]).unwrap();
    module.submit_verification(Origin::Unsigned, vote(task(1), 1, false, 11), [0; 64]).unwrap();
    assert_eq!(
        module.ongoing_tasks(&task(1)),
        Some(&Status { verifiers: vec![0, 1], ayes: 0, nays: 2 })
    );
    assert_eq!(module.ongoing_ids(), vec![task(1)]);

    module.submit_verification(Origin::Unsigned, vote(task(1), 2, false, 12), [0; 64]).unwrap();
    assert_eq!(module.ongoing_tasks(&task(1)), None);
    assert_eq!(module.settled_tasks(12 + STORE_PERIOD, &task(1)), Some(false));
}

#[test]
fn a_split_vote_of_three_leaves_the_task_open() {
    let mut module = registry_with(3);
    create(&mut module, task(1)).unwrap();
    module.submit_verification(Origin::Unsigned, vote(task(1), 0, false, 10), [0; 64]).unwrap();
    module.submit_verification(Origin::Unsigned, vote(task(1), 1, false, 11), [0; 64]).unwrap();
    module.submit_verification(Origin::Unsigned, vote(task(1), 2, true, 12), [0; 64]).unwrap();
    assert_eq!(
        module.ongoing_tasks(&task(1)),
        Some(&Status { verifiers: vec![0, 1, 2], ayes: 1, nays: 2 })
    );
}

#[test]
fn tally_counts_and_decides() {
    let mut status = Status::default();
    assert!(!status.has_voted(4));
    status.record(4, true);
    status.record(2, false);
    status.record(9, true);
    assert_eq!(status, Status { verifiers: vec![4, 2, 9], ayes: 2, nays: 1 });
    assert!(status.has_voted(2));
    assert!(!status.has_voted(3));
    assert_eq!(status.outcome(2), None);
    assert_eq!(status.outcome(1), Some(true));
    assert_eq!(status.outcome(0), Some(true));
    let mut failing = Status::default();
    failing.record(0, false);
    assert_eq!(failing.outcome(0), Some(false));
}

#[test]
fn ongoing_ids_come_in_ascending_order() {
    let mut module = registry_with(3);
    create(&mut module, task(5)).unwrap();
    create(&mut module, task(2)).unwrap();
    create(&mut module, task(9)).unwrap();
    assert_eq!(module.ongoing_ids(), vec![task(2), task(5), task(9)]);
}

#[test]
fn authorities_are_replaced_as_a_whole() {
    let mut module = registry_with(0);
    module.initialize_keys(&[]);
    assert!(module.keys().is_empty());
    module.initialize_keys(&[authority(1), authority(2)]);
    assert_eq!(module.keys(), &vec![authority(1), authority(2)]);
    module.initialize_keys(&[]);
    assert_eq!(module.authority_len(), 2);

    let validators = vec![([1; 32], authority(7)), ([2; 32], authority(8)), ([3; 32], authority(9))];
    module.on_new_session(true, &validators, &vec![]);
    assert_eq!(module.keys(), &vec![authority(7), authority(8), authority(9)]);
    module.on_disabled(1);
    assert_eq!(module.authority_len(), 3);

    let mut fresh = registry_with(0);
    fresh.on_genesis_session(&validators);
    assert_eq!(fresh.keys(), &vec![authority(7), authority(8), authority(9)]);
}
