//! The keep registry in isolation: claim, list, get and delete semantics,
//! identifier uniqueness, and the finality of deletion.

use contractmgr::backend::Backend;
use contractmgr::contract::Contract;
use contractmgr::registry::{Keep, Registry};

fn nil_contract() -> Contract {
    Contract { uuid: 0xe6234733_513a_4883_981a_bfa972fa706b, backend: Backend::Nil }
}

#[test]
fn claim_adds_exactly_one() {
    let mut reg = Registry::new();
    assert_eq!(reg.len(), 0);

    let keep = reg.claim_with_id(nil_contract(), 7);
    assert_eq!(reg.len(), 1);
    assert_eq!(keep, Keep { uuid: 7, contract: nil_contract() });
    assert_eq!(keep.contract.uuid, nil_contract().uuid);
    assert_eq!(keep.contract.backend, Backend::Nil);

    let keep = reg.claim_with_id(nil_contract(), 8);
    assert_eq!(reg.len(), 2);
    assert_eq!(keep.uuid, 8);
}

#[test]
fn claim_same_id_replaces() {
    let mut reg = Registry::new();
    let kvm = Contract { uuid: 0x0afa438e_acaa_4158_9518_ad59256def34, backend: Backend::Kvm };
    reg.claim_with_id(nil_contract(), 7);
    reg.claim_with_id(kvm, 7);
    assert_eq!(reg.len(), 1);
    assert_eq!(reg.get(7).unwrap().contract, kvm);
}

#[test]
fn get_returns_stored_copy() {
    let mut reg = Registry::new();
    let stored = reg.claim_with_id(nil_contract(), 41);
    assert_eq!(reg.get(41), Some(stored));
    assert_eq!(reg.get(42), None);
}

#[test]
fn list_is_a_snapshot() {
    let mut reg = Registry::new();
    reg.claim_with_id(nil_contract(), 1);
    reg.claim_with_id(nil_contract(), 2);
    let snapshot = reg.list();
    assert_eq!(snapshot.len(), 2);
    reg.claim_with_id(nil_contract(), 3);
    assert_eq!(snapshot.len(), 2);
    assert_eq!(reg.len(), 3);
}

#[test]
fn delete_is_exclusive_and_final() {
    let mut reg = Registry::new();
    let stored = reg.claim_with_id(nil_contract(), 9);
    reg.claim_with_id(nil_contract(), 10);

    assert_eq!(reg.delete(9), Some(stored));
    assert_eq!(reg.len(), 1);
    assert_eq!(reg.delete(9), None);
    assert_eq!(reg.len(), 1);
    assert_eq!(reg.get(9), None);
    assert!(reg.list().iter().all(|k| k.uuid != 9));
}

#[test]
fn distinct_claims_all_present() {
    let mut reg = Registry::new();
    for i in 0..100u128 {
        reg.claim_with_id(nil_contract(), i);
    }
    assert_eq!(reg.len(), 100);
    for i in 0..100u128 {
        assert_eq!(reg.get(i).unwrap().uuid, i);
    }
}
