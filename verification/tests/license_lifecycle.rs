use nft_license::lifecycle::OpReceipt;
use nft_license::store::Contract;
use nft_license::types::LicenseError;
use nft_license::types::RoyaltyShare;
use nft_license::types::TokenLicense;

fn lic(terms: &str) -> TokenLicense {
    TokenLicense { terms: terms.to_string() }
}

fn contract_with(price: u64) -> Contract {
    Contract::new("master.near".to_string(), price)
}

fn mint_simple(c: &mut Contract, token: &str, owner: &str, terms: &str) -> OpReceipt {
    c.nft_mint(token.to_string(), lic(terms), owner.to_string(), None, 1_000_000)
        .expect("mint should succeed with a large attached payment")
}

fn active_terms(c: &Contract, token: &str) -> Option<String> {
    c.nft_license(token.to_string()).map(|j| j.license.terms)
}

fn proposed_terms(c: &Contract, token: &str) -> Option<String> {
    c.nft_proposed_license(token.to_string()).map(|j| j.license.terms)
}

#[test]
fn mint_sets_active_license_and_owner() {
    let mut c = contract_with(1);
    mint_simple(&mut c, "A", "alice.near", "v1");
    let j = c.nft_license("A".to_string()).expect("minted token must be found");
    assert_eq!(j.token_id, "A");
    assert_eq!(j.owner_id, "alice.near");
    assert_eq!(j.license.terms, "v1");
    assert!(c.nft_proposed_license("A".to_string()).is_none());
    assert!(c.nft_license("B".to_string()).is_none());
}

#[test]
fn mint_charges_exact_record_bytes() {
    // record bytes: token "A" (1) + owner "alice" (5) + royalties (0)
    // + approvals (0) + next approval id (8) + license "v1" (2) = 16
    let mut c = contract_with(2);
    let receipt = c
        .nft_mint("A".to_string(), lic("v1"), "alice".to_string(), None, 40)
        .expect("payment of 40 covers the cost of 32");
    assert_eq!(receipt.refund, 8);
    assert_eq!(c.storage_usage(), 16);
}

#[test]
fn mint_insufficient_deposit_leaves_store_empty() {
    let mut c = contract_with(2);
    let r = c.nft_mint("A".to_string(), lic("v1"), "alice".to_string(), None, 31);
    assert_eq!(r.err(), Some(LicenseError::InsufficientDeposit));
    assert!(c.nft_license("A".to_string()).is_none());
    assert_eq!(c.storage_usage(), 0);
}

#[test]
fn mint_with_royalties_stores_and_charges_them() {
    // royalty entry: account "band.near" (9) + share width (4) = 13
    // record bytes: 1 + 5 + 13 + 0 + 8 + 2 = 29
    let mut c = contract_with(1);
    let royalties = vec![RoyaltyShare { account_id: "band.near".to_string(), share: 10 }];
    let receipt = c
        .nft_mint("A".to_string(), lic("v1"), "alice".to_string(), Some(royalties), 29)
        .expect("exact payment covers the cost");
    assert_eq!(receipt.refund, 0);
    assert_eq!(c.storage_usage(), 29);
}

#[test]
fn replace_sets_active_license() {
    let mut c = contract_with(1);
    mint_simple(&mut c, "A", "alice.near", "v1");
    let r = c.nft_update_license(
        None,
        "A".to_string(),
        lic("v2"),
        "alice.near".to_string(),
        "alice.near".to_string(),
        100,
    );
    assert!(r.is_ok());
    assert_eq!(active_terms(&c, "A"), Some("v2".to_string()));
}

#[test]
fn replace_twice_same_license_is_idempotent() {
    let mut c = contract_with(1);
    mint_simple(&mut c, "A", "alice.near", "v1");
    c.nft_update_license(
        None,
        "A".to_string(),
        lic("vX"),
        "alice.near".to_string(),
        "alice.near".to_string(),
        100,
    )
    .expect("first replace succeeds");
    let usage_once = c.storage_usage();
    let active_once = active_terms(&c, "A");
    let proposed_once = proposed_terms(&c, "A");
    let receipt = c
        .nft_update_license(
            None,
            "A".to_string(),
            lic("vX"),
            "alice.near".to_string(),
            "alice.near".to_string(),
            7,
        )
        .expect("second replace succeeds");
    // byte delta of the second replace is zero, so the payment is returned whole
    assert_eq!(receipt.refund, 7);
    assert_eq!(c.storage_usage(), usage_once);
    assert_eq!(active_terms(&c, "A"), active_once);
    assert_eq!(proposed_terms(&c, "A"), proposed_once);
}

#[test]
fn replace_by_master_authority_is_allowed() {
    let mut c = contract_with(1);
    mint_simple(&mut c, "A", "alice.near", "v1");
    let r = c.nft_update_license(
        Some("master.near".to_string()),
        "A".to_string(),
        lic("forced"),
        "alice.near".to_string(),
        "master.near".to_string(),
        100,
    );
    assert!(r.is_ok());
    assert_eq!(active_terms(&c, "A"), Some("forced".to_string()));
}

#[test]
fn replace_by_stranger_is_unauthorized() {
    let mut c = contract_with(1);
    mint_simple(&mut c, "A", "alice.near", "v1");
    let r = c.nft_update_license(
        None,
        "A".to_string(),
        lic("v2"),
        "alice.near".to_string(),
        "mallory.near".to_string(),
        100,
    );
    assert_eq!(r.err(), Some(LicenseError::Unauthorized));
    assert_eq!(active_terms(&c, "A"), Some("v1".to_string()));
}

#[test]
fn propose_then_approve_activates_candidate() {
    let mut c = contract_with(1);
    mint_simple(&mut c, "A", "alice.near", "v1");
    c.nft_propose_license(
        None,
        "A".to_string(),
        lic("v2"),
        "alice.near".to_string(),
        "alice.near".to_string(),
        100,
    )
    .expect("owner may propose");
    assert_eq!(proposed_terms(&c, "A"), Some("v2".to_string()));
    c.nft_approve_license(
        None,
        "A".to_string(),
        "alice.near".to_string(),
        "alice.near".to_string(),
        0,
    )
    .expect("owner approves the pending proposal");
    assert_eq!(active_terms(&c, "A"), Some("v2".to_string()));
    assert_eq!(proposed_terms(&c, "A"), None);
}

#[test]
fn propose_twice_last_write_wins() {
    let mut c = contract_with(1);
    mint_simple(&mut c, "A", "alice.near", "v1");
    c.nft_propose_license(
        None,
        "A".to_string(),
        lic("c1"),
        "alice.near".to_string(),
        "alice.near".to_string(),
        100,
    )
    .expect("first proposal");
    c.nft_propose_license(
        None,
        "A".to_string(),
        lic("c2-longer"),
        "alice.near".to_string(),
        "alice.near".to_string(),
        100,
    )
    .expect("second proposal overwrites the first");
    assert_eq!(proposed_terms(&c, "A"), Some("c2-longer".to_string()));
    // accepting afterwards activates exactly the later candidate
    c.nft_accept_license("A".to_string(), "alice.near".to_string(), "anyone".to_string(), 0)
        .expect("accept the pending proposal");
    assert_eq!(active_terms(&c, "A"), Some("c2-longer".to_string()));
    assert_eq!(proposed_terms(&c, "A"), None);
}

#[test]
fn propose_charges_only_the_byte_growth() {
    let mut c = contract_with(3);
    mint_simple(&mut c, "A", "alice.near", "v1");
    let usage_before = c.storage_usage();
    // candidate "abcd" adds 4 bytes at price 3: cost 12
    let receipt = c
        .nft_propose_license(
            None,
            "A".to_string(),
            lic("abcd"),
            "alice.near".to_string(),
            "alice.near".to_string(),
            15,
        )
        .expect("payment covers the growth");
    assert_eq!(receipt.refund, 3);
    assert_eq!(c.storage_usage(), usage_before + 4);
}

#[test]
fn propose_insufficient_deposit_changes_nothing() {
    let mut c = contract_with(3);
    mint_simple(&mut c, "A", "alice.near", "v1");
    let usage_before = c.storage_usage();
    let r = c.nft_propose_license(
        None,
        "A".to_string(),
        lic("abcd"),
        "alice.near".to_string(),
        "alice.near".to_string(),
        11,
    );
    assert_eq!(r.err(), Some(LicenseError::InsufficientDeposit));
    assert_eq!(proposed_terms(&c, "A"), None);
    assert_eq!(c.storage_usage(), usage_before);
}

#[test]
fn propose_by_stranger_is_unauthorized() {
    let mut c = contract_with(1);
    mint_simple(&mut c, "A", "alice.near", "v1");
    let r = c.nft_propose_license(
        None,
        "A".to_string(),
        lic("v2"),
        "alice.near".to_string(),
        "mallory.near".to_string(),
        100,
    );
    assert_eq!(r.err(), Some(LicenseError::Unauthorized));
    assert_eq!(proposed_terms(&c, "A"), None);
}

#[test]
fn propose_by_master_authority_is_allowed() {
    let mut c = contract_with(1);
    mint_simple(&mut c, "A", "alice.near", "v1");
    let r = c.nft_propose_license(
        Some("master.near".to_string()),
        "A".to_string(),
        lic("v2"),
        "alice.near".to_string(),
        "master.near".to_string(),
        100,
    );
    assert!(r.is_ok());
    assert_eq!(proposed_terms(&c, "A"), Some("v2".to_string()));
    assert_eq!(active_terms(&c, "A"), Some("v1".to_string()));
}

#[test]
fn approve_without_proposal_fails_with_no_proposal() {
    let mut c = contract_with(1);
    mint_simple(&mut c, "A", "alice.near", "v1");
    let r = c.nft_approve_license(
        None,
        "A".to_string(),
        "alice.near".to_string(),
        "alice.near".to_string(),
        0,
    );
    assert_eq!(r.err(), Some(LicenseError::NoProposal));
    assert_eq!(active_terms(&c, "A"), Some("v1".to_string()));
}

#[test]
fn accept_without_proposal_fails_with_no_proposal() {
    let mut c = contract_with(1);
    mint_simple(&mut c, "A", "alice.near", "v1");
    let r = c.nft_accept_license("A".to_string(), "alice.near".to_string(), "x".to_string(), 0);
    assert_eq!(r.err(), Some(LicenseError::NoProposal));
    assert_eq!(active_terms(&c, "A"), Some("v1".to_string()));
}

#[test]
fn approve_with_wrong_receiver_is_unauthorized() {
    let mut c = contract_with(1);
    mint_simple(&mut c, "A", "alice.near", "v1");
    c.nft_propose_license(
        None,
        "A".to_string(),
        lic("v2"),
        "alice.near".to_string(),
        "alice.near".to_string(),
        100,
    )
    .expect("owner proposes");
    let r = c.nft_approve_license(
        None,
        "A".to_string(),
        "bob.near".to_string(),
        "bob.near".to_string(),
        0,
    );
    assert_eq!(r.err(), Some(LicenseError::Unauthorized));
    assert_eq!(active_terms(&c, "A"), Some("v1".to_string()));
    assert_eq!(proposed_terms(&c, "A"), Some("v2".to_string()));
}

#[test]
fn approve_refunds_whole_payment_and_frees_bytes() {
    let mut c = contract_with(5);
    mint_simple(&mut c, "A", "alice.near", "v1-old");
    c.nft_propose_license(
        None,
        "A".to_string(),
        lic("v2"),
        "alice.near".to_string(),
        "alice.near".to_string(),
        100,
    )
    .expect("owner proposes");
    let usage_before = c.storage_usage();
    let receipt = c
        .nft_approve_license(
            None,
            "A".to_string(),
            "alice.near".to_string(),
            "alice.near".to_string(),
            42,
        )
        .expect("approve succeeds");
    // the store only shrinks, so the whole payment comes back,
    // and exactly the old active license's 6 bytes are freed
    assert_eq!(receipt.refund, 42);
    assert_eq!(c.storage_usage(), usage_before - 6);
}

#[test]
fn operations_on_unminted_token_fail_with_not_found() {
    let mut c = contract_with(1);
    let owner = "alice.near".to_string();
    let r1 = c.nft_propose_license(
        None,
        "ghost".to_string(),
        lic("v1"),
        owner.clone(),
        owner.clone(),
        100,
    );
    assert_eq!(r1.err(), Some(LicenseError::NotFound));
    let r2 = c.nft_approve_license(None, "ghost".to_string(), owner.clone(), owner.clone(), 0);
    assert_eq!(r2.err(), Some(LicenseError::NotFound));
    let r3 = c.nft_accept_license("ghost".to_string(), owner.clone(), owner.clone(), 0);
    assert_eq!(r3.err(), Some(LicenseError::NotFound));
    let r4 = c.nft_update_license(
        None,
        "ghost".to_string(),
        lic("v2"),
        owner.clone(),
        owner,
        100,
    );
    assert_eq!(r4.err(), Some(LicenseError::NotFound));
}

#[test]
fn end_to_end_mint_propose_approve_replace() {
    let mut c = contract_with(1);
    let owner = "owner.near".to_string();
    c.nft_mint("A".to_string(), lic("v1"), owner.clone(), None, 1_000)
        .expect("mint token A");
    assert_eq!(active_terms(&c, "A"), Some("v1".to_string()));

    c.nft_propose_license(None, "A".to_string(), lic("v2"), owner.clone(), owner.clone(), 100)
        .expect("propose v2");
    c.nft_approve_license(None, "A".to_string(), owner.clone(), owner.clone(), 0)
        .expect("owner approves v2");
    assert_eq!(active_terms(&c, "A"), Some("v2".to_string()));
    assert_eq!(proposed_terms(&c, "A"), None);

    // a pending proposal does not stand in the way of a forced replace
    c.nft_propose_license(None, "A".to_string(), lic("v4"), owner.clone(), owner.clone(), 100)
        .expect("propose v4");
    c.nft_update_license(None, "A".to_string(), lic("v3"), owner.clone(), owner.clone(), 100)
        .expect("force-set v3");
    assert_eq!(active_terms(&c, "A"), Some("v3".to_string()));
}
