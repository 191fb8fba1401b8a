//! The license lifecycle engine: propose, approve, accept and replace
//! transitions over the license store, each gated by an explicit
//! authorization policy and paired with exact storage-cost accounting.
//!
//! Authorization policy (stated once, enforced before every mutation):
//! - propose and replace require the caller to be the token's owner or the
//!   store's designated master authority;
//! - approve and accept are one unified transition: both require the named
//!   receiver to be the token's owner, and a pending proposal to exist.
//!
//! Accounting discipline: an operation first validates existence,
//! authorization and the pending proposal, then computes the storage byte
//! delta its mutation would produce, settles the attached payment against
//! that delta, and only then commits the mutation. A failure at any step
//! leaves the store byte-for-byte as it was.

use vstd::prelude::*;

use crate::events::approve_event;
use crate::events::is_approve_event;
use crate::events::is_mint_event;
use crate::events::is_propose_event;
use crate::events::is_update_event;
use crate::events::mint_event;
use crate::events::opt_str_view;
use crate::events::propose_event;
use crate::events::update_event;
use crate::events::EventLog;
use crate::storage::lemma_usage_push;
use crate::storage::lemma_usage_update;
use crate::storage::opt_license_bytes;
use crate::storage::reconcile;
use crate::storage::record_bytes;
use crate::storage::spec_storage_cost;
use crate::store::approval_views;
use crate::store::lemma_as_map_contains;
use crate::store::lemma_as_map_index;
use crate::store::lemma_as_map_push;
use crate::store::lemma_as_map_update;
use crate::store::license_bytes_exec;
use crate::store::record_bytes_exec;
use crate::store::royalty_views;
use crate::store::Contract;
use crate::store::TokenRecord;
use crate::types::ApprovalEntryV;
use crate::types::LicenseError;
use crate::types::RoyaltyShare;
use crate::types::RoyaltyShareV;
use crate::types::TokenLicense;
use crate::types::TokenState;

verus! {

/// What a successful mutation hands back: the exact refund owed to the
/// caller and the event record to publish.
pub struct OpReceipt {
    pub refund: u128,
    pub event: EventLog,
}

/// A caller may mutate a token's license state when it is the token's owner
/// or the designated master authority.
pub open spec fn may_mutate(owner: Seq<char>, master: Seq<char>, caller: Seq<char>) -> bool {
    caller == owner || caller == master
}

/// The propose transition: attach `candidate` as the one pending proposal,
/// overwriting any prior proposal.
pub open spec fn spec_propose(
    m: Map<Seq<char>, TokenState>,
    token_id: Seq<char>,
    candidate: Seq<char>,
) -> Map<Seq<char>, TokenState>
    recommends
        m.contains_key(token_id),
{
    m.insert(token_id, TokenState { proposed: Some(candidate), ..m[token_id] })
}

/// The accept transition (the effect of both approve and accept): move the
/// pending proposal into the active slot and clear the proposal.
pub open spec fn spec_accept(m: Map<Seq<char>, TokenState>, token_id: Seq<char>) -> Map<
    Seq<char>,
    TokenState,
>
    recommends
        m.contains_key(token_id),
        m[token_id].proposed is Some,
{
    m.insert(
        token_id,
        TokenState { license: m[token_id].proposed.unwrap(), proposed: None, ..m[token_id] },
    )
}

/// The replace transition: overwrite the active license, bypassing the
/// proposal workflow; a pending proposal is left as it is.
pub open spec fn spec_replace(
    m: Map<Seq<char>, TokenState>,
    token_id: Seq<char>,
    new_license: Seq<char>,
) -> Map<Seq<char>, TokenState>
    recommends
        m.contains_key(token_id),
{
    m.insert(token_id, TokenState { license: new_license, ..m[token_id] })
}

/// The state a freshly minted token starts in: the given owner, royalty
/// table and license, an empty approval table, and nothing proposed.
pub open spec fn minted_state(
    owner: Seq<char>,
    royalty: Seq<RoyaltyShareV>,
    license: Seq<char>,
) -> TokenState {
    TokenState {
        owner,
        royalty,
        approvals: Seq::empty(),
        next_approval_id: 0,
        license,
        proposed: None,
    }
}

/// Storage byte delta of a propose on a token in state `st`.
pub open spec fn propose_delta(st: TokenState, candidate: Seq<char>) -> int {
    candidate.len() - opt_license_bytes(st.proposed)
}

/// Storage byte delta of a replace on a token in state `st`.
pub open spec fn replace_delta(st: TokenState, new_license: Seq<char>) -> int {
    new_license.len() - st.license.len()
}

/// Total of the shares of a royalty table.
pub open spec fn royalty_total(s: Seq<RoyaltyShareV>) -> int
    decreases s.len(),
{
    if s.len() == 0 {
        0
    } else {
        s[0].share + royalty_total(s.skip(1))
    }
}

/// A royalty table is valid at mint time: at most 6 entries, total shares at
/// most 100 percent, and no principal listed twice.
pub open spec fn valid_royalty(s: Seq<RoyaltyShareV>) -> bool {
    &&& s.len() <= 6
    &&& royalty_total(s) <= 100
    &&& forall|i: int, j: int| 0 <= i < j < s.len() ==> s[i].account_id != s[j].account_id
}

/// The royalty table a mint call carries, as mathematical values.
pub open spec fn opt_royalty_views(o: Option<Vec<RoyaltyShare>>) -> Seq<RoyaltyShareV> {
    match o {
        Some(v) => royalty_views(v@),
        None => Seq::empty(),
    }
}

/// After a replace, the token's active license is exactly the license that
/// was written, and the token is still present.
pub proof fn lemma_replace_sets_license(
    m: Map<Seq<char>, TokenState>,
    token_id: Seq<char>,
    new_license: Seq<char>,
)
    requires
        m.contains_key(token_id),
    ensures
        spec_replace(m, token_id, new_license).contains_key(token_id),
        spec_replace(m, token_id, new_license)[token_id].license == new_license,
{
}

/// A propose followed by an accept (the effect of approve) makes the
/// candidate the active license and leaves nothing proposed.
pub proof fn lemma_propose_then_accept(
    m: Map<Seq<char>, TokenState>,
    token_id: Seq<char>,
    candidate: Seq<char>,
)
    requires
        m.contains_key(token_id),
    ensures
        spec_accept(spec_propose(m, token_id, candidate), token_id).contains_key(token_id),
        spec_accept(spec_propose(m, token_id, candidate), token_id)[token_id].license
            == candidate,
        spec_accept(spec_propose(m, token_id, candidate), token_id)[token_id].proposed is None,
{
}

/// Proposing twice leaves exactly the later proposal: the earlier one is
/// overwritten, never merged, and the whole store reads as if only the later
/// propose had happened.
pub proof fn lemma_propose_last_write_wins(
    m: Map<Seq<char>, TokenState>,
    token_id: Seq<char>,
    first: Seq<char>,
    second: Seq<char>,
)
    requires
        m.contains_key(token_id),
    ensures
        spec_propose(spec_propose(m, token_id, first), token_id, second) == spec_propose(
            m,
            token_id,
            second,
        ),
        spec_propose(spec_propose(m, token_id, first), token_id, second)[token_id].proposed
            == Some(second),
{
    assert(spec_propose(spec_propose(m, token_id, first), token_id, second) =~= spec_propose(
        m,
        token_id,
        second,
    ));
}

/// Replacing with the same license twice is the same observable store as
/// replacing once.
pub proof fn lemma_replace_idempotent(
    m: Map<Seq<char>, TokenState>,
    token_id: Seq<char>,
    new_license: Seq<char>,
)
    requires
        m.contains_key(token_id),
    ensures
        spec_replace(spec_replace(m, token_id, new_license), token_id, new_license)
            == spec_replace(m, token_id, new_license),
{
    assert(spec_replace(spec_replace(m, token_id, new_license), token_id, new_license)
        =~= spec_replace(m, token_id, new_license));
}

impl Contract {
    /// Store-level propose: overwrite the token's pending proposal with
    /// `proposed_license`. No authorization and no accounting here; the
    /// entry points do both before committing.
    pub fn internal_propose_license(
        &mut self,
        account_id: &String,
        token_id: &String,
        proposed_license: &TokenLicense,
    )
        requires
            old(self).wf(),
            old(self).tokens_map().contains_key(token_id@),
            old(self).usage() + proposed_license@.len() - opt_license_bytes(
                old(self).tokens_map()[token_id@].proposed,
            ) <= u64::MAX,
        ensures
            final(self).wf(),
            final(self).tokens_map() == spec_propose(
                old(self).tokens_map(),
                token_id@,
                proposed_license@,
            ),
            final(self).usage() == old(self).usage() + proposed_license@.len()
                - opt_license_bytes(old(self).tokens_map()[token_id@].proposed),
            final(self).master() == old(self).master(),
            final(self).price() == old(self).price(),
    {
        match self.find_token_index(token_id) {
            Some(i) => {
                proof {
                    lemma_as_map_index(self.tokens@, i as int);
                }
                let mut rec = self.tokens[i].clone();
                rec.proposed_license = Some(proposed_license.clone());
                let ghost new_rec = rec;
                self.tokens[i] = rec;
                proof {
                    lemma_usage_update(old(self).tokens@, i as int, new_rec);
                    lemma_as_map_update(old(self).tokens@, i as int, new_rec);
                }
            },
            None => {
                proof {
                    assert(false);
                }
            },
        }
    }

    /// Store-level accept: copy the pending proposal into the active slot,
    /// then clear the proposal.
    pub fn internal_update_license(&mut self, account_id: &String, token_id: &String)
        requires
            old(self).wf(),
            old(self).tokens_map().contains_key(token_id@),
            old(self).tokens_map()[token_id@].proposed is Some,
        ensures
            final(self).wf(),
            final(self).tokens_map() == spec_accept(old(self).tokens_map(), token_id@),
            final(self).usage() == old(self).usage()
                - old(self).tokens_map()[token_id@].license.len(),
            final(self).master() == old(self).master(),
            final(self).price() == old(self).price(),
    {
        match self.find_token_index(token_id) {
            Some(i) => {
                proof {
                    lemma_as_map_index(self.tokens@, i as int);
                }
                let mut rec = self.tokens[i].clone();
                let p = match &rec.proposed_license {
                    Some(l) => l.clone(),
                    None => {
                        proof {
                            assert(false);
                        }
                        TokenLicense { terms: String::new() }
                    },
                };
                rec.license = p;
                rec.proposed_license = None;
                let ghost new_rec = rec;
                self.tokens[i] = rec;
                proof {
                    lemma_usage_update(old(self).tokens@, i as int, new_rec);
                    lemma_as_map_update(old(self).tokens@, i as int, new_rec);
                }
            },
            None => {
                proof {
                    assert(false);
                }
            },
        }
    }

    /// Store-level replace: overwrite the active license unconditionally,
    /// leaving any pending proposal in place.
    pub fn internal_replace_license(
        &mut self,
        account_id: &String,
        token_id: &String,
        license: &TokenLicense,
    )
        requires
            old(self).wf(),
            old(self).tokens_map().contains_key(token_id@),
            old(self).usage() + license@.len() - old(self).tokens_map()[token_id@].license.len()
                <= u64::MAX,
        ensures
            final(self).wf(),
            final(self).tokens_map() == spec_replace(old(self).tokens_map(), token_id@, license@),
            final(self).usage() == old(self).usage() + license@.len()
                - old(self).tokens_map()[token_id@].license.len(),
            final(self).master() == old(self).master(),
            final(self).price() == old(self).price(),
    {
        match self.find_token_index(token_id) {
            Some(i) => {
                proof {
                    lemma_as_map_index(self.tokens@, i as int);
                }
                let mut rec = self.tokens[i].clone();
                rec.license = license.clone();
                let ghost new_rec = rec;
                self.tokens[i] = rec;
                proof {
                    lemma_usage_update(old(self).tokens@, i as int, new_rec);
                    lemma_as_map_update(old(self).tokens@, i as int, new_rec);
                }
            },
            None => {
                proof {
                    assert(false);
                }
            },
        }
    }
    /// Propose a new license for a token: the candidate becomes the one
    /// pending proposal, overwriting any prior one (last write wins). The
    /// caller must be the token's owner or the master authority, and the
    /// attached payment must cover the storage growth; the excess is
    /// refunded. On any failure the store is left exactly as it was.
    pub fn nft_propose_license(
        &mut self,
        authorized_id: Option<String>,
        token_id: String,
        proposed_license: TokenLicense,
        receiver_id: String,
        caller_id: String,
        attached_payment: u128,
    ) -> (r: Result<OpReceipt, LicenseError>)
        requires
            old(self).wf(),
            old(self).tokens_map().contains_key(token_id@) ==> old(self).usage()
                + proposed_license@.len() - opt_license_bytes(
                old(self).tokens_map()[token_id@].proposed,
            ) <= u64::MAX,
        ensures
            final(self).wf(),
            final(self).master() == old(self).master(),
            final(self).price() == old(self).price(),
            (r is Ok) <==> (old(self).tokens_map().contains_key(token_id@) && may_mutate(
                old(self).tokens_map()[token_id@].owner,
                old(self).master(),
                caller_id@,
            ) && attached_payment >= spec_storage_cost(
                propose_delta(old(self).tokens_map()[token_id@], proposed_license@),
                old(self).price(),
            )),
            r matches Ok(receipt) ==> {
                &&& final(self).tokens_map() == spec_propose(
                    old(self).tokens_map(),
                    token_id@,
                    proposed_license@,
                )
                &&& final(self).usage() == old(self).usage() + proposed_license@.len()
                    - opt_license_bytes(old(self).tokens_map()[token_id@].proposed)
                &&& receipt.refund == attached_payment - spec_storage_cost(
                    propose_delta(old(self).tokens_map()[token_id@], proposed_license@),
                    old(self).price(),
                )
                &&& is_propose_event(receipt.event, token_id@, receiver_id@, opt_str_view(
                    authorized_id,
                ))
            },
            r is Err ==> *final(self) == *old(self),
            !old(self).tokens_map().contains_key(token_id@) ==> r == Err::<
                OpReceipt,
                LicenseError,
            >(LicenseError::NotFound),
            old(self).tokens_map().contains_key(token_id@) && !may_mutate(
                old(self).tokens_map()[token_id@].owner,
                old(self).master(),
                caller_id@,
            ) ==> r == Err::<OpReceipt, LicenseError>(LicenseError::Unauthorized),
            old(self).tokens_map().contains_key(token_id@) && may_mutate(
                old(self).tokens_map()[token_id@].owner,
                old(self).master(),
                caller_id@,
            ) && attached_payment < spec_storage_cost(
                propose_delta(old(self).tokens_map()[token_id@], proposed_license@),
                old(self).price(),
            ) ==> r == Err::<OpReceipt, LicenseError>(LicenseError::InsufficientDeposit),
    {
        let i = match self.find_token_index(&token_id) {
            Some(i) => i,
            None => {
                return Err(LicenseError::NotFound);
            },
        };
        proof {
            lemma_as_map_index(self.tokens@, i as int);
        }
        let authorized = caller_id == self.tokens[i].owner_id || caller_id == self.master_id;
        if !authorized {
            return Err(LicenseError::Unauthorized);
        }
        let new_len = license_bytes_exec(&proposed_license);
        let old_len: u128 = match &self.tokens[i].proposed_license {
            Some(l) => license_bytes_exec(l),
            None => 0,
        };
        let byte_delta: i128 = new_len as i128 - old_len as i128;
        let refund = match reconcile(byte_delta, self.storage_price_per_byte, attached_payment) {
            Ok(refund) => refund,
            Err(e) => {
                return Err(e);
            },
        };
        self.internal_propose_license(&caller_id, &token_id, &proposed_license);
        let event = propose_event(authorized_id, token_id, receiver_id);
        Ok(OpReceipt { refund, event })
    }

    /// Approve the pending proposal of a token: the proposal becomes the
    /// active license and the proposal slot is cleared. The named receiver
    /// must be the token's owner, and a proposal must be pending. The store
    /// only shrinks, so nothing is charged: the whole attached payment is
    /// the refund. On any failure the store is left exactly as it was.
    pub fn nft_approve_license(
        &mut self,
        authorized_id: Option<String>,
        token_id: String,
        receiver_id: String,
        caller_id: String,
        attached_payment: u128,
    ) -> (r: Result<OpReceipt, LicenseError>)
        requires
            old(self).wf(),
        ensures
            final(self).wf(),
            final(self).master() == old(self).master(),
            final(self).price() == old(self).price(),
            (r is Ok) <==> (old(self).tokens_map().contains_key(token_id@) && receiver_id@ == old(
                self,
            ).tokens_map()[token_id@].owner && old(self).tokens_map()[token_id@].proposed is Some),
            r matches Ok(receipt) ==> {
                &&& final(self).tokens_map() == spec_accept(old(self).tokens_map(), token_id@)
                &&& final(self).usage() == old(self).usage()
                    - old(self).tokens_map()[token_id@].license.len()
                &&& receipt.refund == attached_payment
                &&& is_approve_event(receipt.event, token_id@, receiver_id@, opt_str_view(
                    authorized_id,
                ))
            },
            r is Err ==> *final(self) == *old(self),
            !old(self).tokens_map().contains_key(token_id@) ==> r == Err::<
                OpReceipt,
                LicenseError,
            >(LicenseError::NotFound),
            old(self).tokens_map().contains_key(token_id@) && receiver_id@ != old(
                self,
            ).tokens_map()[token_id@].owner ==> r == Err::<OpReceipt, LicenseError>(
                LicenseError::Unauthorized,
            ),
            old(self).tokens_map().contains_key(token_id@) && receiver_id@ == old(
                self,
            ).tokens_map()[token_id@].owner && old(self).tokens_map()[token_id@].proposed is None
                ==> r == Err::<OpReceipt, LicenseError>(LicenseError::NoProposal),
    {
        let i = match self.find_token_index(&token_id) {
            Some(i) => i,
            None => {
                return Err(LicenseError::NotFound);
            },
        };
        proof {
            lemma_as_map_index(self.tokens@, i as int);
        }
        if !(receiver_id == self.tokens[i].owner_id) {
            return Err(LicenseError::Unauthorized);
        }
        if self.tokens[i].proposed_license.is_none() {
            return Err(LicenseError::NoProposal);
        }
        let active_len = license_bytes_exec(&self.tokens[i].license);
        let byte_delta: i128 = -(active_len as i128);
        let refund = match reconcile(byte_delta, self.storage_price_per_byte, attached_payment) {
            Ok(refund) => refund,
            Err(e) => {
                proof {
                    assert(false);
                }
                return Err(e);
            },
        };
        self.internal_update_license(&caller_id, &token_id);
        let event = approve_event(authorized_id, token_id, receiver_id);
        Ok(OpReceipt { refund, event })
    }

    /// Accept the pending proposal of a token. Approve and accept are one
    /// unified transition under one authorization policy: the named receiver
    /// must be the token's owner and a proposal must be pending; the
    /// proposal becomes the active license and the proposal slot is cleared.
    pub fn nft_accept_license(
        &mut self,
        token_id: String,
        receiver_id: String,
        caller_id: String,
        attached_payment: u128,
    ) -> (r: Result<OpReceipt, LicenseError>)
        requires
            old(self).wf(),
        ensures
            final(self).wf(),
            final(self).master() == old(self).master(),
            final(self).price() == old(self).price(),
            (r is Ok) <==> (old(self).tokens_map().contains_key(token_id@) && receiver_id@ == old(
                self,
            ).tokens_map()[token_id@].owner && old(self).tokens_map()[token_id@].proposed is Some),
            r matches Ok(receipt) ==> {
                &&& final(self).tokens_map() == spec_accept(old(self).tokens_map(), token_id@)
                &&& final(self).usage() == old(self).usage()
                    - old(self).tokens_map()[token_id@].license.len()
                &&& receipt.refund == attached_payment
                &&& is_approve_event(receipt.event, token_id@, receiver_id@, None)
            },
            r is Err ==> *final(self) == *old(self),
            !old(self).tokens_map().contains_key(token_id@) ==> r == Err::<
                OpReceipt,
                LicenseError,
            >(LicenseError::NotFound),
            old(self).tokens_map().contains_key(token_id@) && receiver_id@ != old(
                self,
            ).tokens_map()[token_id@].owner ==> r == Err::<OpReceipt, LicenseError>(
                LicenseError::Unauthorized,
            ),
            old(self).tokens_map().contains_key(token_id@) && receiver_id@ == old(
                self,
            ).tokens_map()[token_id@].owner && old(self).tokens_map()[token_id@].proposed is None
                ==> r == Err::<OpReceipt, LicenseError>(LicenseError::NoProposal),
    {
        self.nft_approve_license(None, token_id, receiver_id, caller_id, attached_payment)
    }

    /// Replace (force-set) the active license of a token, bypassing the
    /// proposal workflow; a pending proposal is left in place. This is the
    /// privileged path: the caller must be the token's owner or the master
    /// authority. The attached payment must cover the storage growth; the
    /// excess is refunded. On any failure the store is left exactly as it
    /// was.
    pub fn nft_update_license(
        &mut self,
        authorized_id: Option<String>,
        token_id: String,
        license: TokenLicense,
        receiver_id: String,
        caller_id: String,
        attached_payment: u128,
    ) -> (r: Result<OpReceipt, LicenseError>)
        requires
            old(self).wf(),
            old(self).tokens_map().contains_key(token_id@) ==> old(self).usage() + license@.len()
                - old(self).tokens_map()[token_id@].license.len() <= u64::MAX,
        ensures
            final(self).wf(),
            final(self).master() == old(self).master(),
            final(self).price() == old(self).price(),
            (r is Ok) <==> (old(self).tokens_map().contains_key(token_id@) && may_mutate(
                old(self).tokens_map()[token_id@].owner,
                old(self).master(),
                caller_id@,
            ) && attached_payment >= spec_storage_cost(
                replace_delta(old(self).tokens_map()[token_id@], license@),
                old(self).price(),
            )),
            r matches Ok(receipt) ==> {
                &&& final(self).tokens_map() == spec_replace(
                    old(self).tokens_map(),
                    token_id@,
                    license@,
                )
                &&& final(self).usage() == old(self).usage() + license@.len()
                    - old(self).tokens_map()[token_id@].license.len()
                &&& receipt.refund == attached_payment - spec_storage_cost(
                    replace_delta(old(self).tokens_map()[token_id@], license@),
                    old(self).price(),
                )
                &&& is_update_event(receipt.event, token_id@, receiver_id@, opt_str_view(
                    authorized_id,
                ))
            },
            r is Err ==> *final(self) == *old(self),
            !old(self).tokens_map().contains_key(token_id@) ==> r == Err::<
                OpReceipt,
                LicenseError,
            >(LicenseError::NotFound),
            old(self).tokens_map().contains_key(token_id@) && !may_mutate(
                old(self).tokens_map()[token_id@].owner,
                old(self).master(),
                caller_id@,
            ) ==> r == Err::<OpReceipt, LicenseError>(LicenseError::Unauthorized),
            old(self).tokens_map().contains_key(token_id@) && may_mutate(
                old(self).tokens_map()[token_id@].owner,
                old(self).master(),
                caller_id@,
            ) && attached_payment < spec_storage_cost(
                replace_delta(old(self).tokens_map()[token_id@], license@),
                old(self).price(),
            ) ==> r == Err::<OpReceipt, LicenseError>(LicenseError::InsufficientDeposit),
    {
        let i = match self.find_token_index(&token_id) {
            Some(i) => i,
            None => {
                return Err(LicenseError::NotFound);
            },
        };
        proof {
            lemma_as_map_index(self.tokens@, i as int);
        }
        let authorized = caller_id == self.tokens[i].owner_id || caller_id == self.master_id;
        if !authorized {
            return Err(LicenseError::Unauthorized);
        }
        let new_len = license_bytes_exec(&license);
        let old_len = license_bytes_exec(&self.tokens[i].license);
        let byte_delta: i128 = new_len as i128 - old_len as i128;
        let refund = match reconcile(byte_delta, self.storage_price_per_byte, attached_payment) {
            Ok(refund) => refund,
            Err(e) => {
                return Err(e);
            },
        };
        self.internal_replace_license(&caller_id, &token_id, &license);
        let event = update_event(authorized_id, token_id, receiver_id);
        Ok(OpReceipt { refund, event })
    }

    /// Mint a token: create its record with `receiver_id` as owner, the
    /// given royalty table and `license` as the initial active license,
    /// atomically with the token itself. The host guarantees one mint per
    /// token id, the royalty table is validated here at mint time only, and
    /// the attached payment must cover the whole new record's storage.
    pub fn nft_mint(
        &mut self,
        token_id: String,
        license: TokenLicense,
        receiver_id: String,
        perpetual_royalties: Option<Vec<RoyaltyShare>>,
        attached_payment: u128,
    ) -> (r: Result<OpReceipt, LicenseError>)
        requires
            old(self).wf(),
            !old(self).tokens_map().contains_key(token_id@),
            valid_royalty(opt_royalty_views(perpetual_royalties)),
            old(self).usage() + record_bytes(
                token_id@,
                minted_state(receiver_id@, opt_royalty_views(perpetual_royalties), license@),
            ) <= u64::MAX,
        ensures
            final(self).wf(),
            final(self).master() == old(self).master(),
            final(self).price() == old(self).price(),
            (r is Ok) <==> attached_payment >= spec_storage_cost(
                record_bytes(
                    token_id@,
                    minted_state(receiver_id@, opt_royalty_views(perpetual_royalties), license@),
                ) as int,
                old(self).price(),
            ),
            r matches Ok(receipt) ==> {
                &&& final(self).tokens_map() == old(self).tokens_map().insert(
                    token_id@,
                    minted_state(receiver_id@, opt_royalty_views(perpetual_royalties), license@),
                )
                &&& final(self).usage() == old(self).usage() + record_bytes(
                    token_id@,
                    minted_state(receiver_id@, opt_royalty_views(perpetual_royalties), license@),
                )
                &&& receipt.refund == attached_payment - spec_storage_cost(
                    record_bytes(
                        token_id@,
                        minted_state(
                            receiver_id@,
                            opt_royalty_views(perpetual_royalties),
                            license@,
                        ),
                    ) as int,
                    old(self).price(),
                )
                &&& is_mint_event(receipt.event, token_id@, receiver_id@)
            },
            r is Err ==> *final(self) == *old(self) && r == Err::<OpReceipt, LicenseError>(
                LicenseError::InsufficientDeposit,
            ),
    {
        let ghost roys = opt_royalty_views(perpetual_royalties);
        let royalty: Vec<RoyaltyShare> = match perpetual_royalties {
            Some(v) => v,
            None => Vec::new(),
        };
        let rec = TokenRecord {
            token_id: token_id.clone(),
            owner_id: receiver_id.clone(),
            royalty,
            approved_account_ids: Vec::new(),
            next_approval_id: 0,
            license,
            proposed_license: None,
        };
        proof {
            assert(approval_views(rec.approved_account_ids@) =~= Seq::<ApprovalEntryV>::empty());
            assert(royalty_views(rec.royalty@) =~= roys);
            assert(rec@ == minted_state(receiver_id@, roys, rec.license@));
        }
        let bytes = record_bytes_exec(&rec);
        let byte_delta: i128 = bytes as i128;
        let refund = match reconcile(byte_delta, self.storage_price_per_byte, attached_payment) {
            Ok(refund) => refund,
            Err(e) => {
                return Err(e);
            },
        };
        proof {
            lemma_as_map_contains(self.tokens@, token_id@);
            lemma_as_map_push(self.tokens@, rec);
            lemma_usage_push(self.tokens@, rec);
        }
        self.tokens.push(rec);
        let event = mint_event(token_id, receiver_id);
        Ok(OpReceipt { refund, event })
    }
}

} // verus!
