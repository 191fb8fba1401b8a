//! Structured event records handed to the host on each successful
//! transition. The core only builds these values; how they are serialized
//! and delivered is the host's concern.

use vstd::prelude::*;

verus! {

/// Record of a mint: the new owner and the minted token ids.
pub struct NftMintLog {
    pub owner_id: String,
    pub token_ids: Vec<String>,
    pub memo: Option<String>,
}

/// Record of a license proposal.
pub struct NftProposeLicenseLog {
    pub authorized_id: Option<String>,
    pub owner_id: String,
    pub token_ids: Vec<String>,
    pub memo: Option<String>,
}

/// Record of a license approval or acceptance.
pub struct NftApproveLicenseLog {
    pub authorized_id: Option<String>,
    pub owner_id: String,
    pub token_ids: Vec<String>,
    pub memo: Option<String>,
}

/// Record of a forced license replacement.
pub struct NftUpdateLicenseLog {
    pub authorized_id: Option<String>,
    pub owner_id: String,
    pub token_ids: Vec<String>,
    pub memo: Option<String>,
}

/// The kind of transition an event reports, with its payload.
pub enum EventLogVariant {
    NftMint(Vec<NftMintLog>),
    NftProposeLicense(Vec<NftProposeLicenseLog>),
    NftApproveLicense(Vec<NftApproveLicenseLog>),
    NftUpdateLicense(Vec<NftUpdateLicenseLog>),
}

/// One event: the standard it follows, the standard's version, and the
/// transition it reports.
pub struct EventLog {
    pub standard: String,
    pub version: String,
    pub event: EventLogVariant,
}

/// View of an optional principal name.
pub open spec fn opt_str_view(o: Option<String>) -> Option<Seq<char>> {
    match o {
        Some(s) => Some(s@),
        None => None,
    }
}

/// What a mint event says: standard `nep171`, version `nft-1.0.0`, one mint
/// log naming the owner and the one minted token, and no memo.
pub open spec fn is_mint_event(e: EventLog, token_id: Seq<char>, owner_id: Seq<char>) -> bool {
    &&& e.standard@ == "nep171"@
    &&& e.version@ == "nft-1.0.0"@
    &&& e.event matches EventLogVariant::NftMint(logs) && logs@.len() == 1 && logs@[0].owner_id@
        == owner_id && logs@[0].token_ids@.len() == 1 && logs@[0].token_ids@[0]@ == token_id
        && logs@[0].memo is None
}

/// What a proposal event says.
pub open spec fn is_propose_event(
    e: EventLog,
    token_id: Seq<char>,
    owner_id: Seq<char>,
    authorized_id: Option<Seq<char>>,
) -> bool {
    &&& e.standard@ == "nep171"@
    &&& e.version@ == "nft-1.0.0"@
    &&& e.event matches EventLogVariant::NftProposeLicense(logs) && logs@.len() == 1
        && opt_str_view(logs@[0].authorized_id) == authorized_id && logs@[0].owner_id@ == owner_id
        && logs@[0].token_ids@.len() == 1 && logs@[0].token_ids@[0]@ == token_id && logs@[0].memo
        is None
}

/// What an approval or acceptance event says.
pub open spec fn is_approve_event(
    e: EventLog,
    token_id: Seq<char>,
    owner_id: Seq<char>,
    authorized_id: Option<Seq<char>>,
) -> bool {
    &&& e.standard@ == "nep171"@
    &&& e.version@ == "nft-1.0.0"@
    &&& e.event matches EventLogVariant::NftApproveLicense(logs) && logs@.len() == 1
        && opt_str_view(logs@[0].authorized_id) == authorized_id && logs@[0].owner_id@ == owner_id
        && logs@[0].token_ids@.len() == 1 && logs@[0].token_ids@[0]@ == token_id && logs@[0].memo
        is None
}

/// What a replacement event says.
pub open spec fn is_update_event(
    e: EventLog,
    token_id: Seq<char>,
    owner_id: Seq<char>,
    authorized_id: Option<Seq<char>>,
) -> bool {
    &&& e.standard@ == "nep171"@
    &&& e.version@ == "nft-1.0.0"@
    &&& e.event matches EventLogVariant::NftUpdateLicense(logs) && logs@.len() == 1
        && opt_str_view(logs@[0].authorized_id) == authorized_id && logs@[0].owner_id@ == owner_id
        && logs@[0].token_ids@.len() == 1 && logs@[0].token_ids@[0]@ == token_id && logs@[0].memo
        is None
}

fn one_token_id(token_id: String) -> (r: Vec<String>)
    ensures
        r@.len() == 1,
        r@[0]@ == token_id@,
{
    let mut r: Vec<String> = Vec::new();
    r.push(token_id);
    r
}

/// Build the event for a successful mint.
pub fn mint_event(token_id: String, owner_id: String) -> (e: EventLog)
    ensures
        is_mint_event(e, token_id@, owner_id@),
{
    EventLog {
        standard: "nep171".to_string(),
        version: "nft-1.0.0".to_string(),
        event: EventLogVariant::NftMint(
            vec![NftMintLog { owner_id, token_ids: one_token_id(token_id), memo: None }],
        ),
    }
}

/// Build the event for a successful proposal.
pub fn propose_event(authorized_id: Option<String>, token_id: String, owner_id: String) -> (e:
    EventLog)
    ensures
        is_propose_event(e, token_id@, owner_id@, opt_str_view(authorized_id)),
{
    EventLog {
        standard: "nep171".to_string(),
        version: "nft-1.0.0".to_string(),
        event: EventLogVariant::NftProposeLicense(
            vec![
                NftProposeLicenseLog {
                    authorized_id,
                    owner_id,
                    token_ids: one_token_id(token_id),
                    memo: None,
                },
            ],
        ),
    }
}

/// Build the event for a successful approval or acceptance.
pub fn approve_event(authorized_id: Option<String>, token_id: String, owner_id: String) -> (e:
    EventLog)
    ensures
        is_approve_event(e, token_id@, owner_id@, opt_str_view(authorized_id)),
{
    EventLog {
        standard: "nep171".to_string(),
        version: "nft-1.0.0".to_string(),
        event: EventLogVariant::NftApproveLicense(
            vec![
                NftApproveLicenseLog {
                    authorized_id,
                    owner_id,
                    token_ids: one_token_id(token_id),
                    memo: None,
                },
            ],
        ),
    }
}

/// Build the event for a successful replacement.
pub fn update_event(authorized_id: Option<String>, token_id: String, owner_id: String) -> (e:
    EventLog)
    ensures
        is_update_event(e, token_id@, owner_id@, opt_str_view(authorized_id)),
{
    EventLog {
        standard: "nep171".to_string(),
        version: "nft-1.0.0".to_string(),
        event: EventLogVariant::NftUpdateLicense(
            vec![
                NftUpdateLicenseLog {
                    authorized_id,
                    owner_id,
                    token_ids: one_token_id(token_id),
                    memo: None,
                },
            ],
        ),
    }
}

} // verus!
