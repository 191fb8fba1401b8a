//! The license store: a keyed store mapping each minted token to its owner,
//! its royalty and approval tables, its one active license and its at most
//! one pending proposal, together with the exact byte metering of that state.

use vstd::prelude::*;
use vstd::string::StrSliceExecFns;

use crate::storage::approvals_bytes;
use crate::storage::lemma_approvals_take_le;
use crate::storage::lemma_approvals_take_succ;
use crate::storage::lemma_record_bytes_le_usage;
use crate::storage::lemma_royalty_take_le;
use crate::storage::lemma_royalty_take_succ;
use crate::storage::lemma_usage_take_le;
use crate::storage::lemma_usage_take_succ;
use crate::storage::opt_license_bytes;
use crate::storage::record_bytes;
use crate::storage::royalty_bytes;
use crate::storage::seq_usage;
use crate::types::ApprovalEntry;
use crate::types::ApprovalEntryV;
use crate::types::JsonTokenLicense;
use crate::types::RoyaltyShare;
use crate::types::RoyaltyShareV;
use crate::types::TokenLicense;
use crate::types::TokenState;

verus! {

/// One stored token record. The store holds exactly one record per minted
/// token id.
pub struct TokenRecord {
    pub token_id: String,
    pub owner_id: String,
    pub royalty: Vec<RoyaltyShare>,
    pub approved_account_ids: Vec<ApprovalEntry>,
    pub next_approval_id: u64,
    pub license: TokenLicense,
    pub proposed_license: Option<TokenLicense>,
}

/// Mathematical images of a royalty table.
pub open spec fn royalty_views(s: Seq<RoyaltyShare>) -> Seq<RoyaltyShareV> {
    s.map_values(|r: RoyaltyShare| r@)
}

/// Mathematical images of an approval table.
pub open spec fn approval_views(s: Seq<ApprovalEntry>) -> Seq<ApprovalEntryV> {
    s.map_values(|a: ApprovalEntry| a@)
}

impl View for TokenRecord {
    type V = TokenState;

    open spec fn view(&self) -> TokenState {
        TokenState {
            owner: self.owner_id@,
            royalty: royalty_views(self.royalty@),
            approvals: approval_views(self.approved_account_ids@),
            next_approval_id: self.next_approval_id,
            license: self.license@,
            proposed: match self.proposed_license {
                Some(l) => Some(l@),
                None => None,
            },
        }
    }
}

fn clone_royalties(v: &Vec<RoyaltyShare>) -> (r: Vec<RoyaltyShare>)
    ensures
        r@ == v@,
{
    let mut r: Vec<RoyaltyShare> = Vec::new();
    let mut i: usize = 0;
    while i < v.len()
        invariant
            i <= v@.len(),
            r@ == v@.take(i as int),
        decreases v@.len() - i,
    {
        r.push(v[i].clone());
        proof {
            assert(v@.take(i + 1) =~= v@.take(i as int).push(v@[i as int]));
        }
        i = i + 1;
    }
    proof {
        assert(v@.take(v@.len() as int) =~= v@);
    }
    r
}

fn clone_approvals(v: &Vec<ApprovalEntry>) -> (r: Vec<ApprovalEntry>)
    ensures
        r@ == v@,
{
    let mut r: Vec<ApprovalEntry> = Vec::new();
    let mut i: usize = 0;
    while i < v.len()
        invariant
            i <= v@.len(),
            r@ == v@.take(i as int),
        decreases v@.len() - i,
    {
        r.push(v[i].clone());
        proof {
            assert(v@.take(i + 1) =~= v@.take(i as int).push(v@[i as int]));
        }
        i = i + 1;
    }
    proof {
        assert(v@.take(v@.len() as int) =~= v@);
    }
    r
}

fn clone_opt_license(v: &Option<TokenLicense>) -> (r: Option<TokenLicense>)
    ensures
        r == *v,
{
    match v {
        Some(l) => Some(l.clone()),
        None => None,
    }
}

impl Clone for TokenRecord {
    fn clone(&self) -> (r: Self)
        ensures
            r.token_id@ == self.token_id@,
            r@ == self@,
            r.proposed_license is Some <==> self.proposed_license is Some,
    {
        TokenRecord {
            token_id: self.token_id.clone(),
            owner_id: self.owner_id.clone(),
            royalty: clone_royalties(&self.royalty),
            approved_account_ids: clone_approvals(&self.approved_account_ids),
            next_approval_id: self.next_approval_id,
            license: self.license.clone(),
            proposed_license: clone_opt_license(&self.proposed_license),
        }
    }
}

/// No two records share a token id.
pub open spec fn unique_keys(s: Seq<TokenRecord>) -> bool {
    forall|i: int, j: int| 0 <= i < j < s.len() ==> s[i].token_id@ != s[j].token_id@
}

/// The map a sequence of records stands for: token id to token state. With
/// unique keys, the record at each index is the map's entry for its id.
pub open spec fn as_map(s: Seq<TokenRecord>) -> Map<Seq<char>, TokenState>
    decreases s.len(),
{
    if s.len() == 0 {
        Map::empty()
    } else {
        as_map(s.drop_last()).insert(s.last().token_id@, s.last()@)
    }
}

pub proof fn lemma_as_map_contains(s: Seq<TokenRecord>, k: Seq<char>)
    ensures
        as_map(s).contains_key(k) <==> exists|i: int| 0 <= i < s.len() && s[i].token_id@ == k,
    decreases s.len(),
{
    if s.len() > 0 {
        let s0 = s.drop_last();
        lemma_as_map_contains(s0, k);
        if s.last().token_id@ == k {
            assert(s[s.len() - 1].token_id@ == k);
        } else {
            if exists|i: int| 0 <= i < s.len() && s[i].token_id@ == k {
                let i = choose|i: int| 0 <= i < s.len() && s[i].token_id@ == k;
                assert(s0[i].token_id@ == k);
            }
            if exists|i: int| 0 <= i < s0.len() && s0[i].token_id@ == k {
                let i = choose|i: int| 0 <= i < s0.len() && s0[i].token_id@ == k;
                assert(s[i].token_id@ == k);
            }
        }
    }
}

pub proof fn lemma_as_map_index(s: Seq<TokenRecord>, i: int)
    requires
        unique_keys(s),
        0 <= i < s.len(),
    ensures
        as_map(s).contains_key(s[i].token_id@),
        as_map(s)[s[i].token_id@] == s[i]@,
    decreases s.len(),
{
    let s0 = s.drop_last();
    if i < s.len() - 1 {
        assert(unique_keys(s0));
        lemma_as_map_index(s0, i);
        assert(s0[i] == s[i]);
        assert(s.last().token_id@ != s[i].token_id@);
    }
}

pub proof fn lemma_as_map_update(s: Seq<TokenRecord>, i: int, r: TokenRecord)
    requires
        unique_keys(s),
        0 <= i < s.len(),
        r.token_id@ == s[i].token_id@,
    ensures
        as_map(s.update(i, r)) == as_map(s).insert(r.token_id@, r@),
        unique_keys(s.update(i, r)),
    decreases s.len(),
{
    let s1 = s.update(i, r);
    assert forall|a: int, b: int| 0 <= a < b < s1.len() implies s1[a].token_id@
        != s1[b].token_id@ by {
        assert(s1[a].token_id@ == s[a].token_id@);
        assert(s1[b].token_id@ == s[b].token_id@);
    }
    if i == s.len() - 1 {
        assert(s1.drop_last() =~= s.drop_last());
        assert(s1.last() == r);
        assert(as_map(s1) =~= as_map(s).insert(r.token_id@, r@));
    } else {
        let s0 = s.drop_last();
        assert(unique_keys(s0));
        assert(s1.drop_last() =~= s0.update(i, r));
        lemma_as_map_update(s0, i, r);
        assert(s1.last() == s.last());
        assert(s.last().token_id@ != r.token_id@);
        assert(as_map(s1) =~= as_map(s).insert(r.token_id@, r@));
    }
}

pub proof fn lemma_as_map_push(s: Seq<TokenRecord>, r: TokenRecord)
    requires
        unique_keys(s),
        forall|i: int| 0 <= i < s.len() ==> s[i].token_id@ != r.token_id@,
    ensures
        as_map(s.push(r)) == as_map(s).insert(r.token_id@, r@),
        unique_keys(s.push(r)),
{
    assert(s.push(r).drop_last() =~= s);
    assert(s.push(r).last() == r);
    assert forall|a: int, b: int| 0 <= a < b < s.push(r).len() implies s.push(r)[a].token_id@
        != s.push(r)[b].token_id@ by {
        if b < s.len() {
            assert(s.push(r)[a] == s[a]);
            assert(s.push(r)[b] == s[b]);
        } else {
            assert(s.push(r)[a] == s[a]);
            assert(s.push(r)[b] == r);
        }
    }
}

/// The license store together with its injected configuration: the
/// designated master authority and the storage price per byte.
pub struct Contract {
    pub(crate) tokens: Vec<TokenRecord>,
    pub(crate) master_id: String,
    pub(crate) storage_price_per_byte: u64,
}

impl Contract {
    /// The store's contents: a map from token id to that token's state.
    pub open(crate) spec fn tokens_map(self) -> Map<Seq<char>, TokenState> {
        as_map(self.tokens@)
    }

    /// The designated master authority (configuration, fixed at creation).
    pub open(crate) spec fn master(self) -> Seq<char> {
        self.master_id@
    }

    /// The storage price per byte (configuration, fixed at creation).
    pub open(crate) spec fn price(self) -> u64 {
        self.storage_price_per_byte
    }

    /// Total bytes of persistent state the store holds.
    pub open(crate) spec fn usage(self) -> nat {
        seq_usage(self.tokens@)
    }

    /// Well-formedness: one record per token id, and the total usage fits
    /// the host's `u64` storage meter.
    pub open(crate) spec fn wf(self) -> bool {
        &&& unique_keys(self.tokens@)
        &&& self.usage() <= u64::MAX
    }

    /// An empty store with its configuration.
    pub fn new(master_id: String, storage_price_per_byte: u64) -> (c: Contract)
        ensures
            c.wf(),
            c.tokens_map() == Map::<Seq<char>, TokenState>::empty(),
            c.master() == master_id@,
            c.price() == storage_price_per_byte,
            c.usage() == 0,
    {
        Contract { tokens: Vec::new(), master_id, storage_price_per_byte }
    }

    /// Where the record for `token_id` sits, if the token was ever minted.
    pub(crate) fn find_token_index(&self, token_id: &String) -> (r: Option<usize>)
        ensures
            r matches Some(i) ==> i < self.tokens@.len() && self.tokens@[i as int].token_id@
                == token_id@,
            r is None ==> !self.tokens_map().contains_key(token_id@),
            r is Some ==> self.tokens_map().contains_key(token_id@),
    {
        let n = self.tokens.len();
        let mut i: usize = 0;
        while i < n
            invariant
                n == self.tokens@.len(),
                i <= n,
                forall|j: int| 0 <= j < i ==> self.tokens@[j].token_id@ != token_id@,
            decreases n - i,
        {
            if self.tokens[i].token_id == *token_id {
                proof {
                    lemma_as_map_contains(self.tokens@, token_id@);
                }
                return Some(i);
            }
            i = i + 1;
        }
        proof {
            lemma_as_map_contains(self.tokens@, token_id@);
        }
        None
    }

    /// The active license of `token_id` with the token's owner, or `None`
    /// for a token that was never minted. Every minted token has an active
    /// license, so a minted token always gets `Some`.
    pub fn nft_license(&self, token_id: String) -> (r: Option<JsonTokenLicense>)
        requires
            self.wf(),
        ensures
            (r is Some) <==> self.tokens_map().contains_key(token_id@),
            r matches Some(j) ==> {
                &&& j@.token_id == token_id@
                &&& j@.owner_id == self.tokens_map()[token_id@].owner
                &&& j@.license == self.tokens_map()[token_id@].license
            },
    {
        match self.find_token_index(&token_id) {
            Some(i) => {
                proof {
                    lemma_as_map_index(self.tokens@, i as int);
                }
                let rec = &self.tokens[i];
                Some(
                    JsonTokenLicense {
                        token_id,
                        owner_id: rec.owner_id.clone(),
                        license: rec.license.clone(),
                    },
                )
            },
            None => None,
        }
    }

    /// The pending proposed license of `token_id` with the token's owner, or
    /// `None` for a token that was never minted or has nothing pending.
    pub fn nft_proposed_license(&self, token_id: String) -> (r: Option<JsonTokenLicense>)
        requires
            self.wf(),
        ensures
            (r is Some) <==> (self.tokens_map().contains_key(token_id@)
                && self.tokens_map()[token_id@].proposed is Some),
            r matches Some(j) ==> {
                &&& j@.token_id == token_id@
                &&& j@.owner_id == self.tokens_map()[token_id@].owner
                &&& Some(j@.license) == self.tokens_map()[token_id@].proposed
            },
    {
        match self.find_token_index(&token_id) {
            Some(i) => {
                proof {
                    lemma_as_map_index(self.tokens@, i as int);
                }
                let rec = &self.tokens[i];
                match &rec.proposed_license {
                    Some(l) => Some(
                        JsonTokenLicense {
                            token_id,
                            owner_id: rec.owner_id.clone(),
                            license: l.clone(),
                        },
                    ),
                    None => None,
                }
            },
            None => None,
        }
    }

    /// Total bytes of persistent state, as the host's storage meter would
    /// report them under this crate's byte model.
    pub fn storage_usage(&self) -> (r: u64)
        requires
            self.wf(),
        ensures
            r == self.usage(),
    {
        let n = self.tokens.len();
        let mut acc: u128 = 0;
        let mut i: usize = 0;
        proof {
            assert(self.tokens@.take(0) =~= Seq::<TokenRecord>::empty());
        }
        while i < n
            invariant
                self.wf(),
                n == self.tokens@.len(),
                i <= n,
                acc == seq_usage(self.tokens@.take(i as int)),
            decreases n - i,
        {
            proof {
                lemma_record_bytes_le_usage(self.tokens@, i as int);
                lemma_usage_take_succ(self.tokens@, i as int);
                lemma_usage_take_le(self.tokens@, i + 1);
            }
            let b = record_bytes_exec(&self.tokens[i]);
            acc = acc + b;
            i = i + 1;
        }
        proof {
            assert(self.tokens@.take(n as int) =~= self.tokens@);
        }
        acc as u64
    }
}

/// Bytes of one license blob.
pub(crate) fn license_bytes_exec(l: &TokenLicense) -> (r: u128)
    ensures
        r == l@.len(),
        r <= u64::MAX,
{
    l.terms.as_str().unicode_len() as u128
}

/// Bytes of a royalty table.
pub(crate) fn royalty_bytes_exec(v: &Vec<RoyaltyShare>) -> (r: u128)
    requires
        royalty_bytes(royalty_views(v@)) <= u64::MAX,
    ensures
        r == royalty_bytes(royalty_views(v@)),
{
    let ghost all = royalty_views(v@);
    let n = v.len();
    let mut acc: u128 = 0;
    let mut i: usize = 0;
    proof {
        assert(all.take(0) =~= Seq::<RoyaltyShareV>::empty());
    }
    while i < n
        invariant
            n == v@.len(),
            all == royalty_views(v@),
            all.len() == n,
            i <= n,
            royalty_bytes(all) <= u64::MAX,
            acc == royalty_bytes(all.take(i as int)),
        decreases n - i,
    {
        proof {
            lemma_royalty_take_succ(all, i as int);
            lemma_royalty_take_le(all, i + 1);
        }
        acc = acc + (v[i].account_id.as_str().unicode_len() as u128 + 4);
        i = i + 1;
    }
    proof {
        assert(all.take(n as int) =~= all);
    }
    acc
}

/// Bytes of an approval table.
pub(crate) fn approvals_bytes_exec(v: &Vec<ApprovalEntry>) -> (r: u128)
    requires
        approvals_bytes(approval_views(v@)) <= u64::MAX,
    ensures
        r == approvals_bytes(approval_views(v@)),
{
    let ghost all = approval_views(v@);
    let n = v.len();
    let mut acc: u128 = 0;
    let mut i: usize = 0;
    proof {
        assert(all.take(0) =~= Seq::<ApprovalEntryV>::empty());
    }
    while i < n
        invariant
            n == v@.len(),
            all == approval_views(v@),
            all.len() == n,
            i <= n,
            approvals_bytes(all) <= u64::MAX,
            acc == approvals_bytes(all.take(i as int)),
        decreases n - i,
    {
        proof {
            lemma_approvals_take_succ(all, i as int);
            lemma_approvals_take_le(all, i + 1);
        }
        acc = acc + (v[i].account_id.as_str().unicode_len() as u128 + 8);
        i = i + 1;
    }
    proof {
        assert(all.take(n as int) =~= all);
    }
    acc
}

/// Bytes of one whole token record.
pub(crate) fn record_bytes_exec(rec: &TokenRecord) -> (r: u128)
    requires
        record_bytes(rec.token_id@, rec@) <= u64::MAX,
    ensures
        r == record_bytes(rec.token_id@, rec@),
{
    let key = rec.token_id.as_str().unicode_len() as u128;
    let owner = rec.owner_id.as_str().unicode_len() as u128;
    let roy = royalty_bytes_exec(&rec.royalty);
    let appr = approvals_bytes_exec(&rec.approved_account_ids);
    let lic = license_bytes_exec(&rec.license);
    let prop: u128 = match &rec.proposed_license {
        Some(l) => license_bytes_exec(l),
        None => 0,
    };
    key + owner + roy + appr + 8 + lic + prop
}

} // verus!
