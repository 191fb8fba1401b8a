use nft_license::events::EventLogVariant;
use nft_license::storage::reconcile;
use nft_license::store::Contract;
use nft_license::types::LicenseError;
use nft_license::types::TokenLicense;

#[test]
fn reconcile_zero_delta_refunds_everything() {
    assert_eq!(reconcile(0, 5, 0), Ok(0));
    assert_eq!(reconcile(0, 5, 77), Ok(77));
    assert_eq!(reconcile(-9, 5, 77), Ok(77));
}

#[test]
fn reconcile_exact_payment_refunds_zero() {
    assert_eq!(reconcile(3, 5, 15), Ok(0));
}

#[test]
fn reconcile_excess_payment_refunds_the_excess() {
    assert_eq!(reconcile(3, 5, 15 + 4), Ok(4));
}

#[test]
fn reconcile_one_short_fails() {
    assert_eq!(reconcile(3, 5, 14), Err(LicenseError::InsufficientDeposit));
}

#[test]
fn mint_event_names_standard_owner_and_token() {
    let mut c = Contract::new("master.near".to_string(), 1);
    let receipt = c
        .nft_mint(
            "A".to_string(),
            TokenLicense { terms: "v1".to_string() },
            "alice.near".to_string(),
            None,
            1_000,
        )
        .expect("mint succeeds");
    let e = receipt.event;
    assert_eq!(e.standard, "nep171");
    assert_eq!(e.version, "nft-1.0.0");
    match e.event {
        EventLogVariant::NftMint(logs) => {
            assert_eq!(logs.len(), 1);
            assert_eq!(logs[0].owner_id, "alice.near");
            assert_eq!(logs[0].token_ids, vec!["A".to_string()]);
            assert!(logs[0].memo.is_none());
        },
        _ => panic!("a mint must report a mint event"),
    }
}

#[test]
fn propose_and_approve_events_carry_the_actor() {
    let mut c = Contract::new("master.near".to_string(), 1);
    c.nft_mint(
        "A".to_string(),
        TokenLicense { terms: "v1".to_string() },
        "alice.near".to_string(),
        None,
        1_000,
    )
    .expect("mint succeeds");
    let proposed = c
        .nft_propose_license(
            Some("studio.near".to_string()),
            "A".to_string(),
            TokenLicense { terms: "v2".to_string() },
            "alice.near".to_string(),
            "alice.near".to_string(),
            100,
        )
        .expect("propose succeeds");
    match proposed.event.event {
        EventLogVariant::NftProposeLicense(logs) => {
            assert_eq!(logs.len(), 1);
            assert_eq!(logs[0].authorized_id, Some("studio.near".to_string()));
            assert_eq!(logs[0].owner_id, "alice.near");
            assert_eq!(logs[0].token_ids, vec!["A".to_string()]);
            assert!(logs[0].memo.is_none());
        },
        _ => panic!("a proposal must report a proposal event"),
    }
    let approved = c
        .nft_approve_license(
            None,
            "A".to_string(),
            "alice.near".to_string(),
            "alice.near".to_string(),
            0,
        )
        .expect("approve succeeds");
    assert_eq!(approved.event.standard, "nep171");
    match approved.event.event {
        EventLogVariant::NftApproveLicense(logs) => {
            assert_eq!(logs.len(), 1);
            assert_eq!(logs[0].authorized_id, None);
            assert_eq!(logs[0].owner_id, "alice.near");
            assert_eq!(logs[0].token_ids, vec!["A".to_string()]);
        },
        _ => panic!("an approval must report an approval event"),
    }
}

#[test]
fn update_event_reports_the_forced_replacement() {
    let mut c = Contract::new("master.near".to_string(), 1);
    c.nft_mint(
        "A".to_string(),
        TokenLicense { terms: "v1".to_string() },
        "alice.near".to_string(),
        None,
        1_000,
    )
    .expect("mint succeeds");
    let receipt = c
        .nft_update_license(
            None,
            "A".to_string(),
            TokenLicense { terms: "v3".to_string() },
            "alice.near".to_string(),
            "master.near".to_string(),
            100,
        )
        .expect("master authority may replace");
    match receipt.event.event {
        EventLogVariant::NftUpdateLicense(logs) => {
            assert_eq!(logs.len(), 1);
            assert_eq!(logs[0].owner_id, "alice.near");
            assert_eq!(logs[0].token_ids, vec!["A".to_string()]);
        },
        _ => panic!("a replacement must report an update event"),
    }
}
