use starks_verifier::coordinator::{storage_key, OffchainErr};
use starks_verifier::identity::{id_eq, id_less};
use starks_verifier::sorting::{binary_search, insert_sorted, lower_bound, sort};
use starks_verifier::types::VerificationReceipt;

fn id(first: u8, last: u8) -> [u8; 32] {
    let mut id = [0u8; 32];
    id[0] = first;
    id[31] = last;
    id
}

#[test]
fn receipt_is_encoded_field_by_field() {
    let receipt = VerificationReceipt {
        program_hash: [0xab; 32],
        passed: true,
        submit_at: 0x0102_0304_0506_0708,
        auth_index: 0x0a0b_0c0d,
        validators_len: 3,
    };
    let mut expected = vec![0xabu8; 32];
    expected.push(1);
    expected.extend_from_slice(&[8, 7, 6, 5, 4, 3, 2, 1]);
    expected.extend_from_slice(&[0x0d, 0x0c, 0x0b, 0x0a]);
    expected.extend_from_slice(&[3, 0, 0, 0]);
    assert_eq!(receipt.encode(), expected);
    assert_eq!(receipt.encode().len(), 49);
}

#[test]
fn a_failed_vote_is_encoded_with_a_zero_flag() {
    let receipt = VerificationReceipt {
        program_hash: [0; 32],
        passed: false,
        submit_at: 0,
        auth_index: 0,
        validators_len: 0,
    };
    assert_eq!(receipt.encode(), vec![0u8; 49]);
}

#[test]
fn storage_key_is_prefix_and_index() {
    let mut expected = b"starksnetwork/verification-tasks/".to_vec();
    expected.extend_from_slice(&[2, 1, 0, 0]);
    assert_eq!(storage_key(258), expected);
    let mut zero = b"starksnetwork/verification-tasks/".to_vec();
    zero.extend_from_slice(&[0, 0, 0, 0]);
    assert_eq!(storage_key(0), zero);
}

#[test]
fn identities_are_ordered_byte_by_byte() {
    assert!(id_less(&id(0, 9), &id(1, 0)));
    assert!(!id_less(&id(1, 0), &id(0, 9)));
    assert!(id_less(&id(1, 0), &id(1, 1)));
    assert!(!id_less(&id(1, 1), &id(1, 1)));
    assert!(id_less(&[0; 32], &[255; 32]));
    assert!(id_eq(&id(3, 4), &id(3, 4)));
    assert!(!id_eq(&id(3, 4), &id(3, 5)));
}

#[test]
fn sort_orders_and_keeps_every_entry() {
    let mut list = vec![id(3, 0), id(1, 2), id(2, 0), id(1, 1), id(3, 0)];
    sort(&mut list);
    assert_eq!(list, vec![id(1, 1), id(1, 2), id(2, 0), id(3, 0), id(3, 0)]);
    let mut empty: Vec<[u8; 32]> = vec![];
    sort(&mut empty);
    assert!(empty.is_empty());
}

#[test]
fn sort_agrees_with_the_order_of_byte_arrays() {
    let mut list: Vec<[u8; 32]> = (0..40u8).map(|n| id(n.wrapping_mul(37), n)).collect();
    let mut expected = list.clone();
    expected.sort();
    sort(&mut list);
    assert_eq!(list, expected);
}

#[test]
fn binary_search_finds_or_gives_the_place() {
    let list = vec![id(1, 0), id(3, 0), id(5, 0)];
    assert_eq!(binary_search(&list, &id(1, 0)), Ok(0));
    assert_eq!(binary_search(&list, &id(3, 0)), Ok(1));
    assert_eq!(binary_search(&list, &id(5, 0)), Ok(2));
    assert_eq!(binary_search(&list, &id(0, 0)), Err(0));
    assert_eq!(binary_search(&list, &id(2, 0)), Err(1));
    assert_eq!(binary_search(&list, &id(6, 0)), Err(3));
    assert_eq!(binary_search(&vec![], &id(6, 0)), Err(0));
    assert_eq!(lower_bound(&list, &id(4, 0)), 2);
}

#[test]
fn insert_sorted_puts_in_at_the_right_place() {
    let mut list = vec![id(1, 0), id(3, 0)];
    assert_eq!(insert_sorted(&mut list, id(2, 0)), 1);
    assert_eq!(insert_sorted(&mut list, id(0, 0)), 0);
    assert_eq!(insert_sorted(&mut list, id(9, 0)), 4);
    assert_eq!(list, vec![id(0, 0), id(1, 0), id(2, 0), id(3, 0), id(9, 0)]);
}

#[test]
fn every_error_has_its_message() {
    assert_eq!(OffchainErr::NotValidator.message(), "Failed to sign heartbeat");
    assert_eq!(OffchainErr::NoTaskToExecute.message(), "No task to Execute");
    assert_eq!(OffchainErr::FailToAcquireLock.message(), "Failed to acquire lock");
    assert_eq!(OffchainErr::HttpError(20).message(), "Got an HttpError(20)");
    assert_eq!(OffchainErr::HttpError(0).message(), "Got an HttpError(0)");
    assert_eq!(OffchainErr::FailedSigning.message(), "Failed to sign the result");
    assert_eq!(
        OffchainErr::SubmitTransaction(1205).message(),
        "Failed to submit transaction at block 1205"
    );
    assert_eq!(OffchainErr::VerificationFailed.message(), "Failed to verify");
}
