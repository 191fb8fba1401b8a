//! Storage-delta metering and deposit reconciliation.
//!
//! Persistent state is measured by a deterministic byte model: each stored
//! string costs one byte per character, each stored `u32` costs 4 bytes and
//! each stored `u64` costs 8. The total usage of the store is the sum of the
//! bytes of its token records. The reconciler charges a caller exactly
//! `byte_delta * storage_price_per_byte` when an operation grew the store,
//! and refunds the rest of the attached payment; an operation that shrank
//! the store (or left it alone) owes nothing and the whole payment is
//! refundable.

use vstd::prelude::*;

use crate::store::TokenRecord;
use crate::types::ApprovalEntryV;
use crate::types::LicenseError;
use crate::types::RoyaltyShareV;
use crate::types::TokenState;

verus! {

/// Bytes of a proposed-license slot: the pending terms, or nothing.
pub open spec fn opt_license_bytes(p: Option<Seq<char>>) -> nat {
    match p {
        Some(terms) => terms.len(),
        None => 0,
    }
}

/// Bytes of a royalty table: each entry stores a principal and a `u32` share.
pub open spec fn royalty_bytes(s: Seq<RoyaltyShareV>) -> nat
    decreases s.len(),
{
    if s.len() == 0 {
        0
    } else {
        s[0].account_id.len() + 4 + royalty_bytes(s.skip(1))
    }
}

/// Bytes of an approval table: each entry stores a principal and a `u64`
/// approval sequence number.
pub open spec fn approvals_bytes(s: Seq<ApprovalEntryV>) -> nat
    decreases s.len(),
{
    if s.len() == 0 {
        0
    } else {
        s[0].account_id.len() + 8 + approvals_bytes(s.skip(1))
    }
}

/// Bytes of one token record: its identifier, owner, royalty and approval
/// tables, the `u64` next approval id, the active license, and the pending
/// proposal if one exists.
pub open spec fn record_bytes(token_id: Seq<char>, st: TokenState) -> nat {
    token_id.len() + st.owner.len() + royalty_bytes(st.royalty) + approvals_bytes(st.approvals)
        + 8 + st.license.len() + opt_license_bytes(st.proposed)
}

/// Total bytes of a sequence of token records.
pub open spec fn seq_usage(s: Seq<TokenRecord>) -> nat
    decreases s.len(),
{
    if s.len() == 0 {
        0
    } else {
        record_bytes(s[0].token_id@, s[0]@) + seq_usage(s.skip(1))
    }
}

pub proof fn lemma_usage_push(s: Seq<TokenRecord>, r: TokenRecord)
    ensures
        seq_usage(s.push(r)) == seq_usage(s) + record_bytes(r.token_id@, r@),
    decreases s.len(),
{
    if s.len() == 0 {
        assert(s.push(r)[0] == r);
        assert(s.push(r).skip(1) =~= Seq::<TokenRecord>::empty());
        assert(seq_usage(Seq::<TokenRecord>::empty()) == 0);
        assert(seq_usage(s.push(r)) == record_bytes(s.push(r)[0].token_id@, s.push(r)[0]@)
            + seq_usage(s.push(r).skip(1)));
    } else {
        assert(s.push(r)[0] == s[0]);
        assert(s.push(r).skip(1) =~= s.skip(1).push(r));
        lemma_usage_push(s.skip(1), r);
        assert(seq_usage(s.push(r)) == record_bytes(s.push(r)[0].token_id@, s.push(r)[0]@)
            + seq_usage(s.push(r).skip(1)));
        assert(seq_usage(s) == record_bytes(s[0].token_id@, s[0]@) + seq_usage(s.skip(1)));
    }
}

pub proof fn lemma_usage_update(s: Seq<TokenRecord>, i: int, r: TokenRecord)
    requires
        0 <= i < s.len(),
    ensures
        seq_usage(s.update(i, r)) + record_bytes(s[i].token_id@, s[i]@) == seq_usage(s)
            + record_bytes(r.token_id@, r@),
    decreases i,
{
    if i == 0 {
        assert(s.update(0, r).skip(1) =~= s.skip(1));
    } else {
        assert(s.update(i, r).skip(1) =~= s.skip(1).update(i - 1, r));
        lemma_usage_update(s.skip(1), i - 1, r);
    }
}

pub proof fn lemma_record_bytes_le_usage(s: Seq<TokenRecord>, i: int)
    requires
        0 <= i < s.len(),
    ensures
        record_bytes(s[i].token_id@, s[i]@) <= seq_usage(s),
    decreases i,
{
    if i > 0 {
        lemma_record_bytes_le_usage(s.skip(1), i - 1);
    }
}

pub proof fn lemma_usage_take_succ(s: Seq<TokenRecord>, i: int)
    requires
        0 <= i < s.len(),
    ensures
        seq_usage(s.take(i + 1)) == seq_usage(s.take(i)) + record_bytes(s[i].token_id@, s[i]@),
{
    assert(s.take(i + 1) =~= s.take(i).push(s[i]));
    lemma_usage_push(s.take(i), s[i]);
}

pub proof fn lemma_usage_take_le(s: Seq<TokenRecord>, i: int)
    requires
        0 <= i <= s.len(),
    ensures
        seq_usage(s.take(i)) <= seq_usage(s),
    decreases s.len() - i,
{
    if i == s.len() {
        assert(s.take(i) =~= s);
    } else {
        lemma_usage_take_succ(s, i);
        lemma_usage_take_le(s, i + 1);
    }
}

pub proof fn lemma_royalty_take_succ(s: Seq<RoyaltyShareV>, i: int)
    requires
        0 <= i < s.len(),
    ensures
        royalty_bytes(s.take(i + 1)) == royalty_bytes(s.take(i)) + s[i].account_id.len() + 4,
{
    assert(s.take(i + 1) =~= s.take(i).push(s[i]));
    lemma_royalty_push(s.take(i), s[i]);
}

pub proof fn lemma_royalty_push(s: Seq<RoyaltyShareV>, r: RoyaltyShareV)
    ensures
        royalty_bytes(s.push(r)) == royalty_bytes(s) + r.account_id.len() + 4,
    decreases s.len(),
{
    if s.len() == 0 {
        assert(s.push(r)[0] == r);
        assert(s.push(r).skip(1) =~= Seq::<RoyaltyShareV>::empty());
        assert(royalty_bytes(Seq::<RoyaltyShareV>::empty()) == 0);
        assert(royalty_bytes(s.push(r)) == s.push(r)[0].account_id.len() + 4 + royalty_bytes(
            s.push(r).skip(1),
        ));
    } else {
        assert(s.push(r)[0] == s[0]);
        assert(s.push(r).skip(1) =~= s.skip(1).push(r));
        lemma_royalty_push(s.skip(1), r);
        assert(royalty_bytes(s.push(r)) == s.push(r)[0].account_id.len() + 4 + royalty_bytes(
            s.push(r).skip(1),
        ));
        assert(royalty_bytes(s) == s[0].account_id.len() + 4 + royalty_bytes(s.skip(1)));
    }
}

pub proof fn lemma_royalty_take_le(s: Seq<RoyaltyShareV>, i: int)
    requires
        0 <= i <= s.len(),
    ensures
        royalty_bytes(s.take(i)) <= royalty_bytes(s),
    decreases s.len() - i,
{
    if i == s.len() {
        assert(s.take(i) =~= s);
    } else {
        lemma_royalty_take_succ(s, i);
        lemma_royalty_take_le(s, i + 1);
    }
}

pub proof fn lemma_approvals_take_succ(s: Seq<ApprovalEntryV>, i: int)
    requires
        0 <= i < s.len(),
    ensures
        approvals_bytes(s.take(i + 1)) == approvals_bytes(s.take(i)) + s[i].account_id.len() + 8,
{
    assert(s.take(i + 1) =~= s.take(i).push(s[i]));
    lemma_approvals_push(s.take(i), s[i]);
}

pub proof fn lemma_approvals_push(s: Seq<ApprovalEntryV>, r: ApprovalEntryV)
    ensures
        approvals_bytes(s.push(r)) == approvals_bytes(s) + r.account_id.len() + 8,
    decreases s.len(),
{
    if s.len() == 0 {
        assert(s.push(r)[0] == r);
        assert(s.push(r).skip(1) =~= Seq::<ApprovalEntryV>::empty());
        assert(approvals_bytes(Seq::<ApprovalEntryV>::empty()) == 0);
        assert(approvals_bytes(s.push(r)) == s.push(r)[0].account_id.len() + 8 + approvals_bytes(
            s.push(r).skip(1),
        ));
    } else {
        assert(s.push(r)[0] == s[0]);
        assert(s.push(r).skip(1) =~= s.skip(1).push(r));
        lemma_approvals_push(s.skip(1), r);
        assert(approvals_bytes(s.push(r)) == s.push(r)[0].account_id.len() + 8 + approvals_bytes(
            s.push(r).skip(1),
        ));
        assert(approvals_bytes(s) == s[0].account_id.len() + 8 + approvals_bytes(s.skip(1)));
    }
}

pub proof fn lemma_approvals_take_le(s: Seq<ApprovalEntryV>, i: int)
    requires
        0 <= i <= s.len(),
    ensures
        approvals_bytes(s.take(i)) <= approvals_bytes(s),
    decreases s.len() - i,
{
    if i == s.len() {
        assert(s.take(i) =~= s);
    } else {
        lemma_approvals_take_succ(s, i);
        lemma_approvals_take_le(s, i + 1);
    }
}

/// The cost, in payment units, owed for a storage change of `byte_delta`
/// bytes at `price` per byte: nothing when the store shrank or stayed put,
/// the exact product otherwise.
pub open spec fn spec_storage_cost(byte_delta: int, price: u64) -> int {
    if byte_delta <= 0 {
        0
    } else {
        byte_delta * price
    }
}

/// Deposit reconciliation: settle an attached payment against the storage
/// cost of one operation. Succeeds exactly when the payment covers the cost,
/// and then refunds the excess; fails with `InsufficientDeposit` otherwise.
/// A `byte_delta` at or below zero owes nothing: the whole payment is the
/// refund.
pub fn reconcile(byte_delta: i128, storage_price_per_byte: u64, attached_payment: u128) -> (r:
    Result<u128, LicenseError>)
    requires
        byte_delta <= u64::MAX,
    ensures
        (r is Ok) <==> attached_payment >= spec_storage_cost(byte_delta as int,
            storage_price_per_byte),
        r matches Ok(refund) ==> refund == attached_payment - spec_storage_cost(
            byte_delta as int, storage_price_per_byte),
        r is Err ==> r == Err::<u128, LicenseError>(LicenseError::InsufficientDeposit),
{
    if byte_delta <= 0 {
        return Ok(attached_payment);
    }
    let delta: u128 = byte_delta as u128;
    proof {
        assert(delta * storage_price_per_byte <= u64::MAX as u128 * u64::MAX as u128)
            by (nonlinear_arith)
            requires
                delta <= u64::MAX,
                storage_price_per_byte <= u64::MAX,
        ;
    }
    let cost: u128 = delta * (storage_price_per_byte as u128);
    if attached_payment < cost {
        Err(LicenseError::InsufficientDeposit)
    } else {
        Ok(attached_payment - cost)
    }
}

} // verus!
