//! Data model: licenses, royalty shares, approvals, and the error taxonomy.

use vstd::prelude::*;

verus! {

/// An opaque, caller-supplied license value. The core stores, replaces and
/// copies it but never inspects the terms.
pub struct TokenLicense {
    pub terms: String,
}

impl View for TokenLicense {
    type V = Seq<char>;

    open spec fn view(&self) -> Seq<char> {
        self.terms@
    }
}

impl Clone for TokenLicense {
    fn clone(&self) -> (r: Self)
        ensures
            r == *self,
    {
        TokenLicense { terms: self.terms.clone() }
    }
}

/// One entry of a token's royalty table: a principal and its integer share
/// (percent of revenue, fixed at mint time).
pub struct RoyaltyShare {
    pub account_id: String,
    pub share: u32,
}

/// Mathematical image of a `RoyaltyShare`.
pub ghost struct RoyaltyShareV {
    pub account_id: Seq<char>,
    pub share: u32,
}

impl View for RoyaltyShare {
    type V = RoyaltyShareV;

    open spec fn view(&self) -> RoyaltyShareV {
        RoyaltyShareV { account_id: self.account_id@, share: self.share }
    }
}

impl Clone for RoyaltyShare {
    fn clone(&self) -> (r: Self)
        ensures
            r == *self,
    {
        RoyaltyShare { account_id: self.account_id.clone(), share: self.share }
    }
}

/// One entry of a token's approval table: a delegate principal and the
/// approval sequence number it was granted.
pub struct ApprovalEntry {
    pub account_id: String,
    pub approval_id: u64,
}

/// Mathematical image of an `ApprovalEntry`.
pub ghost struct ApprovalEntryV {
    pub account_id: Seq<char>,
    pub approval_id: u64,
}

impl View for ApprovalEntry {
    type V = ApprovalEntryV;

    open spec fn view(&self) -> ApprovalEntryV {
        ApprovalEntryV { account_id: self.account_id@, approval_id: self.approval_id }
    }
}

impl Clone for ApprovalEntry {
    fn clone(&self) -> (r: Self)
        ensures
            r == *self,
    {
        ApprovalEntry { account_id: self.account_id.clone(), approval_id: self.approval_id }
    }
}

/// Why a lifecycle operation was refused. Every failure is terminal for the
/// single operation and leaves the store untouched.
#[derive(Clone, Copy, PartialEq, Eq, Structural, Debug)]
pub enum LicenseError {
    /// The referenced token has no stored state.
    NotFound,
    /// Approve or accept was attempted with no pending proposal.
    NoProposal,
    /// The caller lacks the required relationship to the token.
    Unauthorized,
    /// The attached payment does not cover the storage cost of the mutation.
    InsufficientDeposit,
}

/// Mathematical image of one token's stored state: its owner, royalty and
/// approval tables, the active license, and the pending proposal if any.
/// A token always has exactly one active license and at most one proposal.
pub ghost struct TokenState {
    pub owner: Seq<char>,
    pub royalty: Seq<RoyaltyShareV>,
    pub approvals: Seq<ApprovalEntryV>,
    pub next_approval_id: u64,
    pub license: Seq<char>,
    pub proposed: Option<Seq<char>>,
}

/// A license together with the token it is attached to and that token's
/// owner, as handed back to callers of the query entry points.
pub struct JsonTokenLicense {
    pub token_id: String,
    pub owner_id: String,
    pub license: TokenLicense,
}

/// Mathematical image of a `JsonTokenLicense`.
pub ghost struct JsonTokenLicenseV {
    pub token_id: Seq<char>,
    pub owner_id: Seq<char>,
    pub license: Seq<char>,
}

impl View for JsonTokenLicense {
    type V = JsonTokenLicenseV;

    open spec fn view(&self) -> JsonTokenLicenseV {
        JsonTokenLicenseV {
            token_id: self.token_id@,
            owner_id: self.owner_id@,
            license: self.license@,
        }
    }
}

} // verus!
