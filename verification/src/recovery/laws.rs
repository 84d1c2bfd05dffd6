//! What holds between splitting and reconstructing.

use crate::recovery::checksum::fingerprint;
use crate::recovery::codec::{
    byte_polynomial,
    coefficients_fit,
    combined,
    compatible,
    consistent,
    first_distinct,
    indices,
    is_share_set,
    lemma_first_distinct,
    lemma_first_distinct_count,
    payload_at,
    plausible,
    positions,
    protected,
    reconstruct_spec,
    split_spec,
    values_at,
    ShareView,
};
use crate::recovery::error::RecoveryError;
use crate::recovery::field::{lemma_add_cancels, lemma_mul_zero};
use crate::recovery::polynomial::{evaluations, lemma_interpolation, poly_eval};
use vstd::prelude::*;

verus! {

/// A polynomial takes its constant term at zero.
proof fn lemma_value_at_zero(c: Seq<u8>)
    requires
        c.len() > 0,
    ensures
        poly_eval(c, 0u8) == c[0],
{
    lemma_mul_zero(poly_eval(c.drop_first(), 0u8));
    lemma_add_cancels(c[0]);
}

/// Shares taken from one split are consistent with each other.
proof fn lemma_members_consistent(
    secret: Seq<u8>,
    k: u8,
    n: u8,
    coefficients: Seq<Seq<u8>>,
    set_id: u64,
    chosen: Seq<ShareView>,
)
    requires
        forall|i: int|
            0 <= i < chosen.len() ==> split_spec(secret, k, n, coefficients, set_id).contains(
                #[trigger] chosen[i],
            ),
    ensures
        consistent(chosen, k),
{
    let set = split_spec(secret, k, n, coefficients, set_id);
    assert forall|i: int| 0 <= i < chosen.len() implies plausible(#[trigger] chosen[i], k) by {
        let m = choose|m: int| 0 <= m < set.len() && set[m] == chosen[i];
        assert(chosen[i].index == m + 1);
    }
    assert forall|i: int, j: int| 0 <= i < chosen.len() && 0 <= j < chosen.len() implies compatible(
        #[trigger] chosen[i],
        #[trigger] chosen[j],
    ) by {
        let a = choose|m: int| 0 <= m < set.len() && set[m] == chosen[i];
        let b = choose|m: int| 0 <= m < set.len() && set[m] == chosen[j];
        assert(chosen[i].index == a + 1);
        assert(chosen[j].index == b + 1);
    }
}

/// Any selection from the shares of a split that holds at least `k` distinct
/// shares reconstructs the secret that was split, whatever the order and
/// however many times a share occurs.
pub proof fn law_threshold_reconstructs(
    secret: Seq<u8>,
    k: u8,
    n: u8,
    set: Seq<ShareView>,
    chosen: Seq<ShareView>,
)
    requires
        1 <= k <= n,
        is_share_set(set, secret, k, n),
        forall|i: int| 0 <= i < chosen.len() ==> set.contains(#[trigger] chosen[i]),
        indices(chosen).len() >= k,
    ensures
        reconstruct_spec(chosen, k) == Ok::<Seq<u8>, RecoveryError>(secret),
{
    let (coefficients, set_id) = choose|coefficients: Seq<Seq<u8>>, set_id: u64|
        coefficients_fit(coefficients, protected(secret).len(), k) && set == #[trigger] split_spec(
            secret,
            k,
            n,
            coefficients,
            set_id,
        );
    let data = protected(secret);
    lemma_members_consistent(secret, k, n, coefficients, set_id, chosen);
    lemma_first_distinct(chosen, k as nat);
    lemma_first_distinct_count(chosen, k as nat);
    let picks = first_distinct(chosen, k as nat);
    let xs = positions(picks);
    assert(picks.len() == k);
    assert forall|j: int| 0 <= j < picks.len() implies set.contains(#[trigger] picks[j]) by {
        assert(chosen.contains(picks[j]));
        let i = choose|i: int| 0 <= i < chosen.len() && chosen[i] == picks[j];
        assert(set.contains(chosen[i]));
    }
    assert(set.contains(picks[0]));
    let m0 = choose|m: int| 0 <= m < set.len() && set[m] == picks[0];
    assert(picks[0].payload.len() == data.len());
    let whole = combined(picks);
    assert forall|b: int| 0 <= b < data.len() implies whole[b] == data[b] by {
        let c = byte_polynomial(data, coefficients, b);
        assert(coefficients[b].len() == k - 1);
        assert(c.len() == k);
        assert forall|j: int| 0 <= j < picks.len() implies values_at(picks, b)[j] == poly_eval(
            c,
            xs[j],
        ) by {
            assert(set.contains(picks[j]));
            let m = choose|m: int| 0 <= m < set.len() && set[m] == picks[j];
            assert(picks[j].payload == payload_at(data, coefficients, (m + 1) as u8));
        }
        assert(values_at(picks, b) =~= evaluations(c, xs));
        lemma_interpolation(c, xs);
        lemma_value_at_zero(c);
    }
    assert(whole =~= data);
    assert(data.subrange(0, data.len() - 4) =~= secret);
    assert(data.subrange(data.len() - 4, data.len() as int) =~= fingerprint(secret));
}

/// A selection from the shares of a split that holds fewer than `k`
/// distinct shares yields no secret: it fails with `InsufficientShares`.
pub proof fn law_below_threshold_fails(
    secret: Seq<u8>,
    k: u8,
    n: u8,
    set: Seq<ShareView>,
    chosen: Seq<ShareView>,
)
    requires
        1 <= k <= n,
        is_share_set(set, secret, k, n),
        forall|i: int| 0 <= i < chosen.len() ==> set.contains(#[trigger] chosen[i]),
        indices(chosen).len() < k,
    ensures
        reconstruct_spec(chosen, k) == Err::<Seq<u8>, RecoveryError>(
            RecoveryError::InsufficientShares,
        ),
{
    let (coefficients, set_id) = choose|coefficients: Seq<Seq<u8>>, set_id: u64|
        coefficients_fit(coefficients, protected(secret).len(), k) && set == #[trigger] split_spec(
            secret,
            k,
            n,
            coefficients,
            set_id,
        );
    lemma_members_consistent(secret, k, n, coefficients, set_id, chosen);
}

/// Shares of two splits that carry different marks do not mix: a selection
/// that holds a share of each fails with `InconsistentShares`, whether or
/// not the two splits are of the same secret.
pub proof fn law_mixed_splits_fail(
    first: Seq<ShareView>,
    second: Seq<ShareView>,
    secret: Seq<u8>,
    other: Seq<u8>,
    k: u8,
    n: u8,
    first_coefficients: Seq<Seq<u8>>,
    second_coefficients: Seq<Seq<u8>>,
    first_id: u64,
    second_id: u64,
    chosen: Seq<ShareView>,
    i: int,
    j: int,
)
    requires
        1 <= k,
        first == split_spec(secret, k, n, first_coefficients, first_id),
        second == split_spec(other, k, n, second_coefficients, second_id),
        first_id != second_id,
        0 <= i < chosen.len() && first.contains(chosen[i]),
        0 <= j < chosen.len() && second.contains(chosen[j]),
    ensures
        reconstruct_spec(chosen, k) == Err::<Seq<u8>, RecoveryError>(
            RecoveryError::InconsistentShares,
        ),
{
    let a = choose|m: int| 0 <= m < first.len() && first[m] == chosen[i];
    let b = choose|m: int| 0 <= m < second.len() && second[m] == chosen[j];
    assert(chosen[i].set_id == first_id);
    assert(chosen[j].set_id == second_id);
    assert(!compatible(chosen[i], chosen[j]));
}

} // verus!
