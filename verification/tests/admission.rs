use sp_core::{sr25519, Pair};
use starks_verifier::gate::{
    Call, InvalidTransaction, TransactionSource, ValidTransaction, INVALID_VALIDATORS_LEN,
    VOTE_LONGEVITY,
};
use starks_verifier::identity::{AuthorityId, Signature, TaskId};
use starks_verifier::registry::Module;
use starks_verifier::types::{Config, Origin, Status, VerificationReceipt};

const PRIORITY: u64 = 1 << 20;

fn pair(n: u8) -> sr25519::Pair {
    sr25519::Pair::from_seed(&[n; 32])
}

fn public(n: u8) -> AuthorityId {
    pair(n).public().0
}

fn task(n: u8) -> TaskId {
    [n; 32]
}

fn registry(authorities: &[u8]) -> Module {
    let mut module = Module::new(Config { store_period: 100, unsigned_priority: PRIORITY });
    module.set_keys(authorities.iter().map(|n| public(*n)).collect());
    module.create_task(Origin::Signed([9; 32]), task(1), vec![], vec![], vec![]).unwrap();
    module
}

fn receipt(auth_index: u32, validators_len: u32, submit_at: u64) -> VerificationReceipt {
    VerificationReceipt { program_hash: task(1), passed: true, submit_at, auth_index, validators_len }
}

fn sign(n: u8, receipt: &VerificationReceipt) -> Signature {
    pair(n).sign(&receipt.encode()).0
}

fn vote(receipt: VerificationReceipt, signature: Signature) -> Call {
    Call::SubmitVerification { receipt, signature }
}

#[test]
fn a_signed_vote_of_an_authority_is_admitted() {
    let module = registry(&[1, 2, 3]);
    let r = receipt(1, 3, 10);
    let res = module.validate_unsigned(TransactionSource::External, &vote(r, sign(2, &r)), 10);
    let mut tag = vec![56u8];
    tag.extend_from_slice(b"StarksVerifier");
    tag.extend_from_slice(&task(1));
    tag.extend_from_slice(&public(2));
    assert_eq!(
        res,
        Ok(ValidTransaction {
            priority: PRIORITY,
            requires: vec![],
            provides: vec![tag],
            longevity: 5,
            propagate: true,
        })
    );
    assert_eq!(VOTE_LONGEVITY, 5);
}

#[test]
fn admission_changes_nothing_in_the_registry() {
    let module = registry(&[1, 2, 3]);
    let r = receipt(1, 3, 10);
    module.validate_unsigned(TransactionSource::Local, &vote(r, sign(2, &r)), 10).unwrap();
    assert_eq!(module.ongoing_tasks(&task(1)), Some(&Status::default()));
}

#[test]
fn a_vote_from_the_future_is_rejected() {
    let module = registry(&[1, 2, 3]);
    let r = receipt(1, 3, 11);
    let res = module.validate_unsigned(TransactionSource::External, &vote(r, sign(2, &r)), 10);
    assert_eq!(res, Err(InvalidTransaction::Future));
    assert_eq!(module.check_receipt(10, &r), Err(InvalidTransaction::Future));
    let at_height = receipt(1, 3, 10);
    assert_eq!(module.check_receipt(10, &at_height), Ok(public(2)));
}

#[test]
fn a_vote_with_another_set_size_is_rejected_even_when_signed() {
    let module = registry(&[1, 2, 3]);
    for len in [0u32, 2, 4] {
        let r = receipt(1, len, 10);
        let res = module.validate_unsigned(TransactionSource::External, &vote(r, sign(2, &r)), 10);
        assert_eq!(res, Err(InvalidTransaction::Custom(10)));
    }
    assert_eq!(INVALID_VALIDATORS_LEN, 10);
}

#[test]
fn a_vote_from_a_place_outside_the_set_is_rejected_even_when_signed() {
    let module = registry(&[1, 2, 3]);
    let r = receipt(3, 3, 10);
    let res = module.validate_unsigned(TransactionSource::External, &vote(r, sign(2, &r)), 10);
    assert_eq!(res, Err(InvalidTransaction::BadProof));
    let far = receipt(u32::MAX, 3, 10);
    assert_eq!(module.check_receipt(10, &far), Err(InvalidTransaction::BadProof));
}

#[test]
fn a_vote_signed_by_another_key_is_rejected() {
    let module = registry(&[1, 2, 3]);
    let r = receipt(1, 3, 10);
    let res = module.validate_unsigned(TransactionSource::External, &vote(r, sign(3, &r)), 10);
    assert_eq!(res, Err(InvalidTransaction::BadProof));
}

#[test]
fn a_vote_changed_after_signing_is_rejected() {
    let module = registry(&[1, 2, 3]);
    let signed = receipt(1, 3, 10);
    let signature = sign(2, &signed);
    let mut changed = signed;
    changed.passed = false;
    let res = module.validate_unsigned(TransactionSource::External, &vote(changed, signature), 10);
    assert_eq!(res, Err(InvalidTransaction::BadProof));
}

#[test]
fn bytes_that_are_no_signature_are_rejected() {
    let module = registry(&[1, 2, 3]);
    let r = receipt(1, 3, 10);
    let res = module.validate_unsigned(TransactionSource::External, &vote(r, [0xff; 64]), 10);
    assert_eq!(res, Err(InvalidTransaction::BadProof));
}

#[test]
fn checks_come_cheapest_first() {
    let module = registry(&[1, 2, 3]);
    let r = receipt(7, 9, 11);
    assert_eq!(module.check_receipt(10, &r), Err(InvalidTransaction::Future));
    let r = receipt(7, 9, 10);
    assert_eq!(module.check_receipt(10, &r), Err(InvalidTransaction::Custom(10)));
}

#[test]
fn only_a_vote_may_come_unsigned() {
    let module = registry(&[1, 2, 3]);
    let call = Call::CreateTask {
        program_hash: task(2),
        inputs: vec![1],
        outputs: vec![2],
        proof_id: b"Qm".to_vec(),
    };
    let res = module.validate_unsigned(TransactionSource::InBlock, &call, 10);
    assert_eq!(res, Err(InvalidTransaction::Call));
}

#[test]
fn a_checked_vote_with_an_invalid_signature_is_not_accepted() {
    let module = registry(&[1, 2, 3]);
    let r = receipt(0, 3, 10);
    assert_eq!(module.accept_checked(&r, &public(1), false), Err(InvalidTransaction::BadProof));
    assert!(module.accept_checked(&r, &public(1), true).is_ok());
}

#[test]
fn a_vote_from_before_a_rotation_is_rejected_after_it() {
    let mut module = registry(&[1, 2, 3]);
    let r = receipt(1, 3, 10);
    let signature = sign(2, &r);
    assert!(module.validate_unsigned(TransactionSource::External, &vote(r, signature), 12).is_ok());

    let validators: Vec<([u8; 32], AuthorityId)> =
        [2u8, 4].iter().map(|n| ([*n; 32], public(*n))).collect();
    module.on_new_session(true, &validators, &vec![]);
    let res = module.validate_unsigned(TransactionSource::External, &vote(r, signature), 12);
    assert_eq!(res, Err(InvalidTransaction::Custom(10)));
}

#[test]
fn after_a_rotation_a_place_belongs_to_its_new_holder() {
    let mut module = registry(&[1, 2, 3]);
    let validators: Vec<([u8; 32], AuthorityId)> =
        [4u8, 5, 2].iter().map(|n| ([*n; 32], public(*n))).collect();
    module.on_new_session(true, &validators, &vec![]);
    let r = receipt(1, 3, 10);
    let old = module.validate_unsigned(TransactionSource::External, &vote(r, sign(2, &r)), 12);
    assert_eq!(old, Err(InvalidTransaction::BadProof));
    let new = module.validate_unsigned(TransactionSource::External, &vote(r, sign(5, &r)), 12);
    assert!(new.is_ok());
}

#[test]
fn an_admitted_vote_is_counted() {
    let mut module = registry(&[1, 2, 3]);
    let r = receipt(1, 3, 10);
    let signature = sign(2, &r);
    module.validate_unsigned(TransactionSource::External, &vote(r, signature), 10).unwrap();
    assert_eq!(module.submit_verification(Origin::Unsigned, r, signature), Ok(()));
    assert_eq!(
        module.ongoing_tasks(&task(1)),
        Some(&Status { verifiers: vec![1], ayes: 1, nays: 0 })
    );
}
