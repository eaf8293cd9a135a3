use cert_registry::contract::{
    AccountStats, CallContext, CertEvent, CertificationContract, ContractMetadata, ContractStateV1,
    PersistedState,
};
use cert_registry::errors::CertError;
use cert_registry::identity::Identity;

fn id(name: &str) -> Identity {
    Identity::new(name.as_bytes().to_vec()).unwrap()
}

fn call(name: &str, deposit: u128) -> CallContext {
    CallContext { predecessor_id: id(name), attached_deposit: deposit }
}

fn fresh(can_transfer: bool, can_invalidate: bool) -> CertificationContract {
    CertificationContract::new(id("owner"), None, can_transfer, can_invalidate)
}

fn minted(can_transfer: bool, can_invalidate: bool) -> CertificationContract {
    let mut c = fresh(can_transfer, can_invalidate);
    c.mint(&call("owner", 1), b"t1".to_vec(), id("alice"), None).unwrap();
    c
}

#[test]
fn mint_then_query_reads_valid() {
    let mut c = fresh(false, true);
    let ev = c.mint(&call("owner", 1), b"t1".to_vec(), id("alice"), Some(b"Cert".to_vec()));
    match ev.unwrap() {
        CertEvent::Mint { token_id, recipient_id } => {
            assert_eq!(token_id, b"t1".to_vec());
            assert_eq!(recipient_id, id("alice"));
        },
        _ => panic!("expected a mint event"),
    }
    assert_eq!(c.cert_is_valid(&b"t1".to_vec()), Ok(true));
    assert_eq!(c.cert_is_valid(&b"t2".to_vec()), Err(CertError::NotFound));
    assert!(c.tokens.contains(&b"t1".to_vec()));
    assert!(!c.tokens.contains(&b"t2".to_vec()));
}

#[test]
fn mint_is_owner_only_and_ids_are_unique() {
    let mut c = minted(false, true);
    assert_eq!(
        c.mint(&call("mallory", 1), b"t2".to_vec(), id("mallory"), None).unwrap_err(),
        CertError::Unauthorized
    );
    assert_eq!(
        c.mint(&call("owner", 1), b"t1".to_vec(), id("bob"), None).unwrap_err(),
        CertError::TokenIdTaken
    );
    assert_eq!(c.cert_is_valid(&b"t1".to_vec()), Ok(true));
}

#[test]
fn invalidate_scenario() {
    let mut c = minted(false, true);
    assert_eq!(c.cert_is_valid(&b"t1".to_vec()), Ok(true));
    let ev = c.cert_invalidate(&call("owner", 1), &b"t1".to_vec(), Some(b"revoked".to_vec()));
    match ev.unwrap() {
        CertEvent::Invalidate { token_id, recipient_id, memo } => {
            assert_eq!(token_id, b"t1".to_vec());
            assert_eq!(recipient_id, id("alice"));
            assert_eq!(memo, Some(b"revoked".to_vec()));
        },
        _ => panic!("expected an invalidate event"),
    }
    assert_eq!(c.cert_is_valid(&b"t1".to_vec()), Ok(false));
    // A second invalidation by a non-owner is refused and changes nothing.
    assert_eq!(
        c.cert_invalidate(&call("mallory", 1), &b"t1".to_vec(), None).unwrap_err(),
        CertError::Unauthorized
    );
    assert_eq!(c.cert_is_valid(&b"t1".to_vec()), Ok(false));
    // Re-invalidation by the owner is idempotent: still invalid, same recipient.
    let ev = c.cert_invalidate(&call("owner", 1), &b"t1".to_vec(), None);
    match ev.unwrap() {
        CertEvent::Invalidate { recipient_id, memo, .. } => {
            assert_eq!(recipient_id, id("alice"));
            assert_eq!(memo, None);
        },
        _ => panic!("expected an invalidate event"),
    }
    assert_eq!(c.cert_is_valid(&b"t1".to_vec()), Ok(false));
}

#[test]
fn invalidate_checks_run_in_order() {
    // Policy off: refused as FeatureDisabled whoever calls, whatever rides along.
    let mut c = minted(false, false);
    for ctx in [call("owner", 1), call("owner", 0), call("mallory", 1), call("mallory", 7)] {
        assert_eq!(
            c.cert_invalidate(&ctx, &b"t1".to_vec(), None).unwrap_err(),
            CertError::FeatureDisabled
        );
    }
    assert_eq!(c.cert_is_valid(&b"t1".to_vec()), Ok(true));
    // Policy on: identity, then payment, then existence.
    let mut c = minted(false, true);
    assert_eq!(
        c.cert_invalidate(&call("mallory", 1), &b"t1".to_vec(), None).unwrap_err(),
        CertError::Unauthorized
    );
    assert_eq!(
        c.cert_invalidate(&call("owner", 0), &b"t1".to_vec(), None).unwrap_err(),
        CertError::PaymentMismatch
    );
    assert_eq!(
        c.cert_invalidate(&call("owner", 2), &b"t1".to_vec(), None).unwrap_err(),
        CertError::PaymentMismatch
    );
    assert_eq!(
        c.cert_invalidate(&call("owner", 1), &b"missing".to_vec(), None).unwrap_err(),
        CertError::NotFound
    );
    assert_eq!(c.cert_is_valid(&b"t1".to_vec()), Ok(true));
}

#[test]
fn transfers_are_gated_by_policy() {
    // Transfers disabled: every attempt fails and ownership stands.
    let mut c = minted(false, true);
    assert_eq!(
        c.nft_transfer(&call("alice", 1), &b"t1".to_vec(), id("bob")).unwrap_err(),
        CertError::FeatureDisabled
    );
    assert_eq!(
        c.nft_transfer(&call("owner", 1), &b"t1".to_vec(), id("bob")).unwrap_err(),
        CertError::FeatureDisabled
    );
    assert_eq!(c.tokens.owner_of(&b"t1".to_vec()).unwrap(), id("alice"));
    // Transfers enabled: only the holder moves the token, and the payload
    // still names the original recipient afterwards.
    let mut c = minted(true, true);
    assert_eq!(
        c.nft_transfer(&call("bob", 1), &b"t1".to_vec(), id("bob")).unwrap_err(),
        CertError::Unauthorized
    );
    assert_eq!(
        c.nft_transfer(&call("alice", 0), &b"t1".to_vec(), id("bob")).unwrap_err(),
        CertError::PaymentMismatch
    );
    c.nft_transfer(&call("alice", 1), &b"t1".to_vec(), id("bob")).unwrap();
    assert_eq!(c.tokens.owner_of(&b"t1".to_vec()).unwrap(), id("bob"));
    assert_eq!(c.cert_is_valid(&b"t1".to_vec()), Ok(true));
    let ev = c.cert_invalidate(&call("owner", 1), &b"t1".to_vec(), None);
    match ev.unwrap() {
        CertEvent::Invalidate { recipient_id, .. } => assert_eq!(recipient_id, id("alice")),
        _ => panic!("expected an invalidate event"),
    }
}

#[test]
fn withdrawal_respects_the_storage_margin() {
    let mut c = fresh(false, true);
    let stats = AccountStats { account_balance: 1000, storage_usage: 30, storage_byte_cost: 10 };
    assert_eq!(c.get_max_withdrawal(&stats), 700);
    assert_eq!(
        c.withdraw(&call("owner", 1), &stats, 701).unwrap_err(),
        CertError::InsufficientBalance
    );
    let t = c.withdraw(&call("owner", 1), &stats, 700).unwrap();
    assert_eq!(t.receiver_id, id("owner"));
    assert_eq!(t.amount, 700);
    let t = c.withdraw_max(&call("owner", 1), &stats).unwrap();
    assert_eq!(t.amount, 700);
    assert_eq!(
        c.withdraw(&call("mallory", 1), &stats, 1).unwrap_err(),
        CertError::Unauthorized
    );
    assert_eq!(
        c.withdraw(&call("owner", 0), &stats, 1).unwrap_err(),
        CertError::PaymentMismatch
    );
    // Nothing pledged beyond the balance leaves the margin at zero, never below.
    let tight = AccountStats { account_balance: 300, storage_usage: 30, storage_byte_cost: 10 };
    assert_eq!(c.get_max_withdrawal(&tight), 0);
    assert_eq!(
        c.withdraw(&call("owner", 1), &tight, 1).unwrap_err(),
        CertError::InsufficientBalance
    );
}

#[test]
fn owner_only_settings_and_trash_account() {
    let mut c = fresh(false, true);
    // A non-owner, or a call without the confirmation deposit, changes nothing.
    assert_eq!(
        c.set_trash_account(&call("mallory", 1), Some(id("bin"))).unwrap_err(),
        CertError::Unauthorized
    );
    assert_eq!(
        c.set_trash_account(&call("owner", 0), Some(id("bin"))).unwrap_err(),
        CertError::PaymentMismatch
    );
    assert!(c.get_trash_account().is_none());
    // The owner sets the override, then clears it by passing no value.
    c.set_trash_account(&call("owner", 1), Some(id("bin"))).unwrap();
    assert_eq!(c.get_trash_account().unwrap(), id("bin"));
    c.set_trash_account(&call("owner", 1), None).unwrap();
    assert!(c.get_trash_account().is_none());
    // Contract metadata follows the same gate.
    let md = ContractMetadata { name: b"Certs".to_vec(), symbol: b"CERT".to_vec(), icon: None };
    assert_eq!(
        c.set_metadata(&call("intruder", 1), md).unwrap_err(),
        CertError::Unauthorized
    );
    let md = ContractMetadata { name: b"Certs".to_vec(), symbol: b"CERT".to_vec(), icon: None };
    c.set_metadata(&call("owner", 1), md).unwrap();
}

#[test]
fn getters_report_the_configuration() {
    let c = fresh(true, false);
    assert_eq!(c.owner_id(), id("owner"));
    assert!(c.cert_can_transfer());
    assert!(!c.cert_can_invalidate());
}

#[test]
fn migration_upgrades_the_previous_shape_only() {
    let prev = fresh(true, false);
    let stored = PersistedState::V1(ContractStateV1 {
        tokens: prev.tokens,
        metadata: prev.metadata,
        can_transfer: true,
        can_invalidate: false,
    });
    let c = CertificationContract::migrate(stored, Some(id("bin"))).unwrap();
    assert!(c.cert_can_transfer());
    assert!(!c.cert_can_invalidate());
    assert_eq!(c.get_trash_account().unwrap(), id("bin"));
    // Running it again, against state already in the current shape, fails fast.
    let again = CertificationContract::migrate(PersistedState::Current(c), None);
    assert_eq!(again.unwrap_err(), CertError::SchemaError);
}
