//! Splitting a secret into threshold shares and putting it together again.
//!
//! Every byte of the secret, and of the fingerprint that follows it, is the
//! constant term of a polynomial of degree below the threshold over GF(2^8).
//! Share `i` holds the values of these polynomials at `i`.

use crate::recovery::bytes::{copy_range, same_bytes};
use crate::recovery::checksum::{compute_fingerprint, fingerprint};
use crate::recovery::entropy::{random_bytes, random_word};
use crate::recovery::error::RecoveryError;
use crate::recovery::field::{gf_mul, invert, multiply};
use crate::recovery::polynomial::{
    basis_at_zero,
    field_sum,
    interpolate_at_zero,
    lagrange_terms,
    poly_eval,
};
use crate::recovery::secret::{wipe, Secret};
use vstd::prelude::*;

verus! {

/// One share of a split secret.
#[derive(Debug)]
pub struct Share {
    /// The place of the share in its set, from one: the point at which the
    /// polynomials were evaluated.
    pub index: u8,
    /// The number of shares that reconstruct the secret.
    pub threshold: u8,
    /// The mark of the split that made the share; all shares of one split
    /// carry the same.
    pub set_id: u64,
    /// The values of the polynomials at `index`.
    pub payload: Vec<u8>,
}

impl Drop for Share {
    /// The payload is wiped when the share goes away.
    fn drop(&mut self)
        opens_invariants none
        no_unwind
    {
        wipe(&mut self.payload);
    }
}

/// What a share holds.
pub struct ShareView {
    pub index: u8,
    pub threshold: u8,
    pub set_id: u64,
    pub payload: Seq<u8>,
}

impl View for Share {
    type V = ShareView;

    open spec fn view(&self) -> ShareView {
        ShareView {
            index: self.index,
            threshold: self.threshold,
            set_id: self.set_id,
            payload: self.payload@,
        }
    }
}

/// The shares of one split, in the order of their indices.
#[derive(Debug)]
pub struct ShareSet {
    pub shares: Vec<Share>,
}

/// What each of `shares` holds.
pub open spec fn share_views(shares: Seq<Share>) -> Seq<ShareView> {
    Seq::new(shares.len(), |i: int| shares[i]@)
}

impl View for ShareSet {
    type V = Seq<ShareView>;

    open spec fn view(&self) -> Seq<ShareView> {
        share_views(self.shares@)
    }
}

/// What is split: the secret, followed by its fingerprint.
pub open spec fn protected(secret: Seq<u8>) -> Seq<u8> {
    secret + fingerprint(secret)
}

/// The polynomial that hides byte `b` of `data`: the byte itself, then the
/// coefficients drawn for it.
pub open spec fn byte_polynomial(data: Seq<u8>, coefficients: Seq<Seq<u8>>, b: int) -> Seq<u8> {
    seq![data[b]] + coefficients[b]
}

/// The payload of the share at `x`.
pub open spec fn payload_at(data: Seq<u8>, coefficients: Seq<Seq<u8>>, x: u8) -> Seq<u8> {
    Seq::new(data.len(), |b: int| poly_eval(byte_polynomial(data, coefficients, b), x))
}

/// There is one row of coefficients for each of `len` bytes, and each row
/// makes a polynomial of degree below `k`.
pub open spec fn coefficients_fit(coefficients: Seq<Seq<u8>>, len: nat, k: u8) -> bool {
    &&& coefficients.len() == len
    &&& forall|b: int| 0 <= b < len ==> (#[trigger] coefficients[b]).len() == k - 1
}

/// The shares that splitting `secret` with the given coefficients yields.
pub open spec fn split_spec(
    secret: Seq<u8>,
    k: u8,
    n: u8,
    coefficients: Seq<Seq<u8>>,
    set_id: u64,
) -> Seq<ShareView> {
    Seq::new(
        n as nat,
        |i: int|
            ShareView {
                index: (i + 1) as u8,
                threshold: k,
                set_id,
                payload: payload_at(protected(secret), coefficients, (i + 1) as u8),
            },
    )
}

/// `shares` is what some split of `secret` into `n` shares with threshold
/// `k` yields.
pub open spec fn is_share_set(shares: Seq<ShareView>, secret: Seq<u8>, k: u8, n: u8) -> bool {
    exists|coefficients: Seq<Seq<u8>>, set_id: u64|
        coefficients_fit(coefficients, protected(secret).len(), k) && shares == #[trigger] split_spec(
            secret,
            k,
            n,
            coefficients,
            set_id,
        )
}

/// Two shares can come from one split: same mark, same length, and where
/// they have the same index, the same payload.
pub open spec fn compatible(a: ShareView, b: ShareView) -> bool {
    &&& a.set_id == b.set_id
    &&& a.payload.len() == b.payload.len()
    &&& a.index == b.index ==> a.payload == b.payload
}

/// A share that a split with threshold `k` can have made.
pub open spec fn plausible(a: ShareView, k: u8) -> bool {
    &&& a.index != 0
    &&& a.threshold == k
    &&& a.payload.len() >= 4
}

/// All of `shares` can come from one split with threshold `k`.
pub open spec fn consistent(shares: Seq<ShareView>, k: u8) -> bool {
    &&& forall|i: int| 0 <= i < shares.len() ==> plausible(#[trigger] shares[i], k)
    &&& forall|i: int, j: int|
        0 <= i < shares.len() && 0 <= j < shares.len() ==> compatible(
            #[trigger] shares[i],
            #[trigger] shares[j],
        )
}

/// The indices of `shares`, in order.
pub open spec fn positions(shares: Seq<ShareView>) -> Seq<u8> {
    Seq::new(shares.len(), |j: int| shares[j].index)
}

/// The distinct indices among `shares`.
pub open spec fn indices(shares: Seq<ShareView>) -> Set<u8> {
    positions(shares).to_set()
}

/// The first shares of `shares` with pairwise distinct indices, up to `k` of
/// them.
pub open spec fn first_distinct(shares: Seq<ShareView>, k: nat) -> Seq<ShareView>
    decreases shares.len(),
{
    if shares.len() == 0 {
        Seq::<ShareView>::empty()
    } else {
        let head = first_distinct(shares.drop_last(), k);
        if head.len() < k && !positions(head).contains(shares.last().index) {
            head.push(shares.last())
        } else {
            head
        }
    }
}

/// Byte `b` of each of `chosen`.
pub open spec fn values_at(chosen: Seq<ShareView>, b: int) -> Seq<u8> {
    Seq::new(chosen.len(), |j: int| chosen[j].payload[b])
}

/// What the Lagrange formula makes of `chosen`, byte by byte.
pub open spec fn combined(chosen: Seq<ShareView>) -> Seq<u8> {
    Seq::new(
        chosen[0].payload.len(),
        |b: int| interpolate_at_zero(positions(chosen), values_at(chosen, b)),
    )
}

/// What putting `shares` together with threshold `k` gives.
pub open spec fn reconstruct_spec(shares: Seq<ShareView>, k: u8) -> Result<Seq<u8>, RecoveryError> {
    if k == 0 {
        Err(RecoveryError::InvalidThreshold)
    } else if !consistent(shares, k) {
        Err(RecoveryError::InconsistentShares)
    } else if indices(shares).len() < k {
        Err(RecoveryError::InsufficientShares)
    } else {
        let data = combined(first_distinct(shares, k as nat));
        let body = data.subrange(0, data.len() - 4);
        if data.subrange(data.len() - 4, data.len() as int) == fingerprint(body) {
            Ok(body)
        } else {
            Err(RecoveryError::InconsistentShares)
        }
    }
}

/// The rows of a vector of vectors.
pub open spec fn rows(v: Seq<Vec<u8>>) -> Seq<Seq<u8>> {
    Seq::new(v.len(), |i: int| v[i]@)
}

/// Evaluates the polynomial with constant term `first` and further
/// coefficients `rest` at `x`, by Horner's rule.
fn evaluate(first: u8, rest: &Vec<u8>, x: u8) -> (y: u8)
    ensures
        y == poly_eval(seq![first] + rest@, x),
{
    let ghost c = seq![first] + rest@;
    let mut acc: u8 = 0;
    let mut j: usize = rest.len();
    assert(c.subrange(rest@.len() as int + 1, c.len() as int).len() == 0);
    while j > 0
        invariant
            j <= rest.len(),
            c == seq![first] + rest@,
            acc == poly_eval(c.subrange(j + 1, c.len() as int), x),
        decreases j,
    {
        j = j - 1;
        let ghost tail = c.subrange(j + 1, c.len() as int);
        assert(tail.drop_first() =~= c.subrange(j + 2, c.len() as int));
        assert(tail[0] == rest@[j as int]);
        acc = rest[j] ^ multiply(x, acc);
    }
    assert(c.drop_first() =~= c.subrange(1, c.len() as int));
    first ^ multiply(x, acc)
}

/// Builds the payload of the share at `x`.
fn share_payload(data: &Vec<u8>, coefficients: &Vec<Vec<u8>>, x: u8) -> (payload: Vec<u8>)
    requires
        coefficients@.len() == data@.len(),
    ensures
        payload@ == payload_at(data@, rows(coefficients@), x),
{
    let mut payload: Vec<u8> = Vec::new();
    let mut b: usize = 0;
    while b < data.len()
        invariant
            b <= data.len(),
            coefficients@.len() == data@.len(),
            payload@.len() == b,
            forall|i: int|
                0 <= i < b ==> payload@[i] == poly_eval(
                    byte_polynomial(data@, rows(coefficients@), i),
                    x,
                ),
        decreases data.len() - b,
    {
        let y = evaluate(data[b], &coefficients[b], x);
        payload.push(y);
        b = b + 1;
    }
    assert(payload@ =~= payload_at(data@, rows(coefficients@), x));
    payload
}

/// The secret followed by its fingerprint.
fn protect(secret: &Secret) -> (data: Vec<u8>)
    requires
        secret@.len() + 4 <= usize::MAX,
    ensures
        data@ == protected(secret@),
{
    let bytes = secret.expose();
    let mark = compute_fingerprint(bytes);
    let mut data: Vec<u8> = Vec::new();
    let mut i: usize = 0;
    while i < bytes.len()
        invariant
            i <= bytes.len(),
            data@ == bytes@.take(i as int),
        decreases bytes.len() - i,
    {
        data.push(bytes[i]);
        assert(data@ =~= bytes@.take(i + 1));
        i = i + 1;
    }
    assert(bytes@.take(i as int) =~= bytes@);
    let mut j: usize = 0;
    while j < 4
        invariant
            j <= 4,
            mark@.len() == 4,
            bytes@.len() + 4 <= usize::MAX,
            data@ == bytes@ + mark@.take(j as int),
        decreases 4 - j,
    {
        data.push(mark[j]);
        assert(data@ =~= bytes@ + mark@.take(j + 1));
        j = j + 1;
    }
    assert(mark@.take(4) =~= mark@);
    data
}

/// What `first_distinct` picks: at most `k` of the shares, with distinct
/// indices; all the distinct indices there are if it picks fewer than `k`.
pub proof fn lemma_first_distinct(shares: Seq<ShareView>, k: nat)
    ensures
        first_distinct(shares, k).len() <= k,
        positions(first_distinct(shares, k)).no_duplicates(),
        forall|j: int|
            0 <= j < first_distinct(shares, k).len() ==> shares.contains(
                #[trigger] first_distinct(shares, k)[j],
            ),
        first_distinct(shares, k).len() < k ==> forall|i: int|
            0 <= i < shares.len() ==> positions(first_distinct(shares, k)).contains(
                #[trigger] shares[i].index,
            ),
    decreases shares.len(),
{
    if shares.len() > 0 {
        let rest = shares.drop_last();
        let last = shares.last();
        let head = first_distinct(rest, k);
        let all = first_distinct(shares, k);
        lemma_first_distinct(rest, k);
        assert forall|j: int| 0 <= j < all.len() implies shares.contains(#[trigger] all[j]) by {
            if j < head.len() {
                assert(rest.contains(head[j]));
                let m = choose|m: int| 0 <= m < rest.len() && rest[m] == head[j];
                assert(shares[m] == head[j]);
            } else {
                assert(all[j] == shares[shares.len() - 1]);
            }
        }
        if head.len() < k && !positions(head).contains(last.index) {
            assert(positions(all) =~= positions(head).push(last.index));
            assert forall|i: int| 0 <= i < shares.len() implies positions(all).contains(
                #[trigger] shares[i].index,
            ) by {
                if i < rest.len() {
                    assert(rest[i] == shares[i]);
                    assert(positions(head).contains(rest[i].index));
                    let m = choose|m: int|
                        0 <= m < positions(head).len() && positions(head)[m] == rest[i].index;
                    assert(positions(all)[m] == shares[i].index);
                } else {
                    assert(positions(all)[all.len() - 1] == shares[i].index);
                }
            }
        } else if head.len() < k {
            assert forall|i: int| 0 <= i < shares.len() implies positions(all).contains(
                #[trigger] shares[i].index,
            ) by {
                if i < rest.len() {
                    assert(rest[i] == shares[i]);
                }
            }
        }
    }
}

/// `first_distinct` picks `k` shares exactly when there are `k` distinct
/// indices.
pub proof fn lemma_first_distinct_count(shares: Seq<ShareView>, k: nat)
    ensures
        indices(shares).finite(),
        first_distinct(shares, k).len() < k <==> indices(shares).len() < k,
        first_distinct(shares, k).len() < k ==> indices(shares).len() == first_distinct(
            shares,
            k,
        ).len(),
{
    let picks = first_distinct(shares, k);
    let xs = positions(picks);
    lemma_first_distinct(shares, k);
    vstd::seq_lib::seq_to_set_is_finite(positions(shares));
    vstd::seq_lib::seq_to_set_is_finite(xs);
    xs.unique_seq_to_set();
    assert forall|x: u8| xs.to_set().contains(x) implies indices(shares).contains(x) by {
        let j = choose|j: int| 0 <= j < xs.len() && xs[j] == x;
        assert(shares.contains(picks[j]));
        let m = choose|m: int| 0 <= m < shares.len() && shares[m] == picks[j];
        assert(positions(shares)[m] == x);
    }
    vstd::set_lib::lemma_len_subset(xs.to_set(), indices(shares));
    if picks.len() < k {
        assert forall|x: u8| indices(shares).contains(x) implies xs.to_set().contains(x) by {
            let m = choose|m: int| 0 <= m < positions(shares).len() && positions(shares)[m] == x;
            assert(xs.contains(shares[m].index));
        }
        assert(indices(shares) =~= xs.to_set());
    }
}

/// Whether `a` and `b` can come from one split.
fn check_compatible(a: &Share, b: &Share) -> (ok: bool)
    ensures
        ok == compatible(a@, b@),
{
    if a.set_id != b.set_id || a.payload.len() != b.payload.len() {
        return false;
    }
    if a.index == b.index {
        return same_bytes(&a.payload, &b.payload);
    }
    true
}

/// Whether all of `shares` can come from one split with threshold `k`.
fn check_consistent(shares: &Vec<Share>, k: u8) -> (ok: bool)
    ensures
        ok == consistent(share_views(shares@), k),
{
    let ghost views = share_views(shares@);
    let mut i: usize = 0;
    while i < shares.len()
        invariant
            i <= shares.len(),
            views == share_views(shares@),
            forall|a: int| 0 <= a < i ==> plausible(#[trigger] views[a], k),
            forall|a: int, b: int|
                0 <= a < i && 0 <= b < i ==> compatible(#[trigger] views[a], #[trigger] views[b]),
        decreases shares.len() - i,
    {
        let s = &shares[i];
        assert(s@ == views[i as int]);
        if s.index == 0 || s.threshold != k || s.payload.len() < 4 {
            assert(!plausible(views[i as int], k));
            return false;
        }
        let mut j: usize = 0;
        while j < i
            invariant
                j <= i < shares.len(),
                views == share_views(shares@),
                s@ == views[i as int],
                forall|b: int| 0 <= b < j ==> compatible(views[i as int], #[trigger] views[b]),
            decreases i - j,
        {
            let t = &shares[j];
            assert(t@ == views[j as int]);
            if !check_compatible(s, t) {
                assert(!compatible(views[i as int], views[j as int]));
                return false;
            }
            j = j + 1;
        }
        i = i + 1;
    }
    true
}

/// Whether one of the shares at `picked` has the index `x`.
fn index_taken(shares: &Vec<Share>, picked: &Vec<usize>, x: u8) -> (taken: bool)
    requires
        forall|j: int| 0 <= j < picked@.len() ==> picked@[j] < shares@.len(),
    ensures
        taken == exists|j: int|
            #![trigger picked@[j]]
            0 <= j < picked@.len() && shares@[picked@[j] as int].index == x,
{
    let mut j: usize = 0;
    while j < picked.len()
        invariant
            j <= picked.len(),
            forall|m: int| 0 <= m < picked@.len() ==> picked@[m] < shares@.len(),
            forall|m: int|
                #![trigger picked@[m]]
                0 <= m < j ==> shares@[picked@[m] as int].index != x,
        decreases picked.len() - j,
    {
        if shares[picked[j]].index == x {
            return true;
        }
        j = j + 1;
    }
    false
}

/// The shares at `picked`.
pub open spec fn picked_views(shares: Seq<Share>, picked: Seq<usize>) -> Seq<ShareView> {
    Seq::new(picked.len(), |j: int| shares[picked[j] as int]@)
}

/// The places in `shares` of the first shares with distinct indices, up to
/// `k` of them.
fn select_distinct(shares: &Vec<Share>, k: u8) -> (picked: Vec<usize>)
    ensures
        forall|j: int| 0 <= j < picked@.len() ==> picked@[j] < shares@.len(),
        picked_views(shares@, picked@) == first_distinct(share_views(shares@), k as nat),
{
    let ghost views = share_views(shares@);
    let mut picked: Vec<usize> = Vec::new();
    let mut i: usize = 0;
    assert(views.take(0).len() == 0);
    assert(picked_views(shares@, picked@) =~= first_distinct(views.take(0), k as nat));
    while i < shares.len()
        invariant
            i <= shares.len(),
            views == share_views(shares@),
            forall|j: int| 0 <= j < picked@.len() ==> picked@[j] < shares@.len(),
            picked_views(shares@, picked@) == first_distinct(views.take(i as int), k as nat),
        decreases shares.len() - i,
    {
        let ghost head = first_distinct(views.take(i as int), k as nat);
        let ghost before = picked@;
        assert(views.take(i + 1).drop_last() =~= views.take(i as int));
        assert(views.take(i + 1).last() == shares@[i as int]@);
        proof {
            lemma_first_distinct(views.take(i as int), k as nat);
        }
        let x = shares[i].index;
        if picked.len() < k as usize {
            let taken = index_taken(shares, &picked, x);
            proof {
                if taken {
                    let j = choose|j: int|
                        #![trigger before[j]]
                        0 <= j < before.len() && shares@[before[j] as int].index == x;
                    assert(positions(head)[j] == x);
                } else {
                    if positions(head).contains(x) {
                        let j = choose|j: int|
                            0 <= j < positions(head).len() && positions(head)[j] == x;
                        assert(shares@[before[j] as int]@ == head[j]);
                    }
                }
            }
            if !taken {
                picked.push(i);
                assert(picked_views(shares@, picked@) =~= head.push(shares@[i as int]@));
            }
        }
        i = i + 1;
    }
    assert(views.take(i as int) =~= views);
    picked
}

/// The Lagrange basis polynomial of each of `xs` over `xs`, taken at zero.
fn basis_weights(xs: &Vec<u8>) -> (weights: Vec<u8>)
    ensures
        weights@.len() == xs@.len(),
        forall|j: int| 0 <= j < xs@.len() ==> weights@[j] == basis_at_zero(xs@, xs@[j]),
{
    let mut weights: Vec<u8> = Vec::new();
    let mut j: usize = 0;
    while j < xs.len()
        invariant
            j <= xs.len(),
            weights@.len() == j,
            forall|m: int| 0 <= m < j ==> weights@[m] == basis_at_zero(xs@, xs@[m]),
        decreases xs.len() - j,
    {
        let x = xs[j];
        let mut w: u8 = 1;
        let mut i: usize = 0;
        assert(xs@.take(0).len() == 0);
        while i < xs.len()
            invariant
                i <= xs.len(),
                j < xs.len(),
                x == xs@[j as int],
                w == basis_at_zero(xs@.take(i as int), x),
            decreases xs.len() - i,
        {
            let a = xs[i];
            assert(xs@.take(i + 1).drop_last() =~= xs@.take(i as int));
            assert(xs@.take(i + 1).last() == a);
            let f: u8 = if a == x {
                1
            } else {
                multiply(a, invert(a ^ x))
            };
            w = multiply(w, f);
            i = i + 1;
        }
        assert(xs@.take(i as int) =~= xs@);
        weights.push(w);
        j = j + 1;
    }
    weights
}

/// Applies the Lagrange formula to the shares at `picked`, byte by byte.
fn combine(shares: &Vec<Share>, picked: &Vec<usize>) -> (data: Vec<u8>)
    requires
        picked@.len() > 0,
        forall|j: int| 0 <= j < picked@.len() ==> picked@[j] < shares@.len(),
        forall|j: int|
            #![trigger picked@[j]]
            0 <= j < picked@.len() ==> shares@[picked@[j] as int].payload@.len()
                == shares@[picked@[0] as int].payload@.len(),
    ensures
        data@ == combined(picked_views(shares@, picked@)),
{
    let ghost chosen = picked_views(shares@, picked@);
    let mut xs: Vec<u8> = Vec::new();
    let mut j: usize = 0;
    while j < picked.len()
        invariant
            j <= picked.len(),
            chosen == picked_views(shares@, picked@),
            forall|m: int| 0 <= m < picked@.len() ==> picked@[m] < shares@.len(),
            xs@ == positions(chosen).take(j as int),
        decreases picked.len() - j,
    {
        xs.push(shares[picked[j]].index);
        assert(xs@ =~= positions(chosen).take(j + 1));
        j = j + 1;
    }
    assert(positions(chosen).take(j as int) =~= positions(chosen));
    let weights = basis_weights(&xs);
    let len = shares[picked[0]].payload.len();
    let mut data: Vec<u8> = Vec::new();
    let mut b: usize = 0;
    while b < len
        invariant
            b <= len,
            picked@.len() > 0,
            len == shares@[picked@[0] as int].payload@.len(),
            chosen == picked_views(shares@, picked@),
            xs@ == positions(chosen),
            weights@.len() == xs@.len(),
            forall|m: int| 0 <= m < xs@.len() ==> weights@[m] == basis_at_zero(xs@, xs@[m]),
            forall|m: int| 0 <= m < picked@.len() ==> picked@[m] < shares@.len(),
            forall|m: int|
                #![trigger picked@[m]]
                0 <= m < picked@.len() ==> shares@[picked@[m] as int].payload@.len() == len,
            data@.len() == b,
            forall|c: int|
                0 <= c < b ==> data@[c] == interpolate_at_zero(
                    positions(chosen),
                    values_at(chosen, c),
                ),
        decreases len - b,
    {
        let ghost terms = lagrange_terms(xs@, values_at(chosen, b as int));
        let mut acc: u8 = 0;
        let mut m: usize = 0;
        assert(terms.take(0).len() == 0);
        while m < picked.len()
            invariant
                m <= picked.len(),
                b < len,
                chosen == picked_views(shares@, picked@),
                xs@ == positions(chosen),
                weights@.len() == xs@.len(),
                terms == lagrange_terms(xs@, values_at(chosen, b as int)),
                forall|q: int| 0 <= q < xs@.len() ==> weights@[q] == basis_at_zero(xs@, xs@[q]),
                forall|q: int| 0 <= q < picked@.len() ==> picked@[q] < shares@.len(),
                forall|q: int|
                    #![trigger picked@[q]]
                    0 <= q < picked@.len() ==> shares@[picked@[q] as int].payload@.len() == len,
                acc == field_sum(terms.take(m as int)),
            decreases picked.len() - m,
        {
            let y = shares[picked[m]].payload[b];
            assert(terms.take(m + 1).drop_last() =~= terms.take(m as int));
            assert(terms.take(m + 1).last() == gf_mul(y, weights@[m as int]));
            acc = acc ^ multiply(y, weights[m]);
            m = m + 1;
        }
        assert(terms.take(m as int) =~= terms);
        data.push(acc);
        b = b + 1;
    }
    assert(data@ =~= combined(chosen));
    data
}

/// Splits secrets into shares and reconstructs them.
pub struct SecretCodec;

impl SecretCodec {
    /// Splits `secret` into `n` shares of which any `k` reconstruct it, with
    /// the polynomial coefficients and the mark of the split given.
    ///
    /// Fails with `InvalidThreshold` exactly when `k` is zero or exceeds `n`.
    pub fn split_with(
        secret: &Secret,
        k: u8,
        n: u8,
        coefficients: &Vec<Vec<u8>>,
        set_id: u64,
    ) -> (r: Result<ShareSet, RecoveryError>)
        requires
            secret@.len() + 4 <= usize::MAX,
            1 <= k <= n ==> coefficients_fit(rows(coefficients@), protected(secret@).len(), k),
        ensures
            r is Err <==> k < 1 || k > n,
            r matches Err(e) ==> e == RecoveryError::InvalidThreshold,
            r matches Ok(set) ==> set@ == split_spec(secret@, k, n, rows(coefficients@), set_id),
    {
        if k < 1 || k > n {
            return Err(RecoveryError::InvalidThreshold);
        }
        let mut data = protect(secret);
        let mut shares: Vec<Share> = Vec::new();
        let mut i: u8 = 0;
        while i < n
            invariant
                i <= n,
                data@ == protected(secret@),
                coefficients@.len() == data@.len(),
                shares@.len() == i,
                forall|m: int|
                    0 <= m < i ==> (#[trigger] shares@[m])@ == split_spec(
                        secret@,
                        k,
                        n,
                        rows(coefficients@),
                        set_id,
                    )[m],
            decreases n - i,
        {
            let x: u8 = i + 1;
            let payload = share_payload(&data, coefficients, x);
            shares.push(Share { index: x, threshold: k, set_id, payload });
            i = i + 1;
        }
        wipe(&mut data);
        let set = ShareSet { shares };
        assert(set@ =~= split_spec(secret@, k, n, rows(coefficients@), set_id));
        Ok(set)
    }

    /// Splits `secret` into `n` shares of which any `k` reconstruct it, with
    /// fresh random coefficients and a fresh mark.
    ///
    /// Fails with `InvalidThreshold` exactly when `k` is zero or exceeds `n`.
    pub fn split(secret: &Secret, k: u8, n: u8) -> (r: Result<ShareSet, RecoveryError>)
        requires
            secret@.len() + 4 <= usize::MAX,
        ensures
            r is Err <==> k < 1 || k > n,
            r matches Err(e) ==> e == RecoveryError::InvalidThreshold,
            r matches Ok(set) ==> is_share_set(set@, secret@, k, n),
    {
        if k < 1 || k > n {
            return Err(RecoveryError::InvalidThreshold);
        }
        let len: usize = secret.len() + 4;
        let mut coefficients: Vec<Vec<u8>> = Vec::new();
        let mut b: usize = 0;
        while b < len
            invariant
                b <= len,
                1 <= k,
                coefficients@.len() == b,
                forall|i: int| 0 <= i < b ==> (#[trigger] coefficients@[i])@.len() == k - 1,
            decreases len - b,
        {
            let row = random_bytes((k - 1) as usize);
            coefficients.push(row);
            b = b + 1;
        }
        let set_id = random_word();
        assert(coefficients_fit(rows(coefficients@), protected(secret@).len(), k));
        let r = SecretCodec::split_with(secret, k, n, &coefficients, set_id);
        let mut i: usize = 0;
        while i < coefficients.len()
            invariant
                i <= coefficients.len(),
            decreases coefficients.len() - i,
        {
            let mut row: Vec<u8> = Vec::new();
            std::mem::swap(&mut row, &mut coefficients[i]);
            wipe(&mut row);
            i = i + 1;
        }
        r
    }

    /// Puts the secret together from `shares` of a split with threshold `k`.
    ///
    /// Fails with `InvalidThreshold` when `k` is zero; with
    /// `InconsistentShares` when the shares cannot come from one split with
    /// threshold `k`, or add up to something that does not match its
    /// fingerprint; with `InsufficientShares` when they can but have fewer
    /// than `k` distinct indices.
    pub fn reconstruct(shares: &Vec<Share>, k: u8) -> (r: Result<Secret, RecoveryError>)
        ensures
            match r {
                Ok(secret) => reconstruct_spec(share_views(shares@), k) == Ok::<
                    Seq<u8>,
                    RecoveryError,
                >(secret@),
                Err(e) => reconstruct_spec(share_views(shares@), k) == Err::<
                    Seq<u8>,
                    RecoveryError,
                >(e),
            },
    {
        let ghost views = share_views(shares@);
        if k == 0 {
            return Err(RecoveryError::InvalidThreshold);
        }
        if !check_consistent(shares, k) {
            return Err(RecoveryError::InconsistentShares);
        }
        let picked = select_distinct(shares, k);
        proof {
            lemma_first_distinct_count(views, k as nat);
            lemma_first_distinct(views, k as nat);
        }
        if picked.len() < k as usize {
            return Err(RecoveryError::InsufficientShares);
        }
        let ghost chosen = picked_views(shares@, picked@);
        assert forall|j: int|
            #![trigger picked@[j]]
            0 <= j < picked@.len() implies shares@[picked@[j] as int].payload@.len()
            == shares@[picked@[0] as int].payload@.len() by {
            assert(compatible(views[picked@[j] as int], views[picked@[0] as int]));
        }
        assert(plausible(views[picked@[0] as int], k));
        let mut data = combine(shares, &picked);
        let cut = data.len() - 4;
        let body = copy_range(&data, 0, cut);
        let mark = copy_range(&data, cut, data.len());
        wipe(&mut data);
        let expected = compute_fingerprint(&body);
        let secret = Secret::new(body);
        if same_bytes(&mark, &expected) {
            Ok(secret)
        } else {
            Err(RecoveryError::InconsistentShares)
        }
    }
}

} // verus!
