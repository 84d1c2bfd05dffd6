//! Fewer shares than the threshold fit every secret: for whatever such
//! shares hold, and for every secret of the same length, there are
//! coefficients with which a split of that secret yields the very same
//! shares.

use crate::recovery::codec::{
    byte_polynomial, coefficients_fit, payload_at, protected, split_spec,
};
use crate::recovery::field::{
    gf_add, gf_inv, gf_mul, lemma_add_associative, lemma_add_cancels, lemma_add_commutative,
    lemma_add_interchange, lemma_inverse, lemma_mul_associative, lemma_mul_commutative,
    lemma_mul_distributive, lemma_mul_distributive_left, lemma_mul_zero, lemma_no_zero_divisor,
};
use crate::recovery::polynomial::poly_eval;
use vstd::prelude::*;

verus! {

/// The sum of two polynomials.
pub open spec fn poly_sum(p: Seq<u8>, q: Seq<u8>) -> Seq<u8>
    decreases p.len(),
{
    if p.len() == 0 {
        q
    } else if q.len() == 0 {
        p
    } else {
        seq![gf_add(p[0], q[0])] + poly_sum(p.drop_first(), q.drop_first())
    }
}

/// `a` times the polynomial `p`.
pub open spec fn poly_scaled(a: u8, p: Seq<u8>) -> Seq<u8> {
    Seq::new(p.len(), |i: int| gf_mul(a, p[i]))
}

/// The polynomial `p` times `x - z`.
pub open spec fn poly_times_linear(p: Seq<u8>, z: u8) -> Seq<u8> {
    poly_sum(seq![0u8] + p, poly_scaled(z, p))
}

/// The monic polynomial whose roots are `zs`.
pub open spec fn vanishing(zs: Seq<u8>) -> Seq<u8>
    decreases zs.len(),
{
    if zs.len() == 0 {
        seq![1u8]
    } else {
        poly_times_linear(vanishing(zs.drop_last()), zs.last())
    }
}

/// A polynomial that takes the values `vs` at the points `zs`, built one
/// point at a time.
pub open spec fn through(zs: Seq<u8>, vs: Seq<u8>) -> Seq<u8>
    decreases zs.len(),
{
    if zs.len() == 0 {
        Seq::<u8>::empty()
    } else {
        let p = through(zs.drop_last(), vs.drop_last());
        let roots = vanishing(zs.drop_last());
        let z = zs.last();
        let a = gf_mul(gf_add(vs.last(), poly_eval(p, z)), gf_inv(poly_eval(roots, z)));
        poly_sum(p, poly_scaled(a, roots))
    }
}

/// The value of a sum is the sum of the values.
proof fn lemma_sum_value(p: Seq<u8>, q: Seq<u8>, x: u8)
    ensures
        poly_eval(poly_sum(p, q), x) == gf_add(poly_eval(p, x), poly_eval(q, x)),
        poly_sum(p, q).len() == if p.len() >= q.len() {
            p.len()
        } else {
            q.len()
        },
    decreases p.len(),
{
    if p.len() == 0 {
        lemma_add_cancels(poly_eval(q, x));
    } else if q.len() == 0 {
        lemma_add_cancels(poly_eval(p, x));
    } else {
        let pt = p.drop_first();
        let qt = q.drop_first();
        lemma_sum_value(pt, qt, x);
        let s = poly_sum(p, q);
        assert(s.drop_first() =~= poly_sum(pt, qt));
        lemma_mul_distributive(x, poly_eval(pt, x), poly_eval(qt, x));
        lemma_add_interchange(
            p[0],
            q[0],
            gf_mul(x, poly_eval(pt, x)),
            gf_mul(x, poly_eval(qt, x)),
        );
    }
}

/// The value of a scaled polynomial is the scaled value.
proof fn lemma_scaled_value(a: u8, p: Seq<u8>, x: u8)
    ensures
        poly_eval(poly_scaled(a, p), x) == gf_mul(a, poly_eval(p, x)),
    decreases p.len(),
{
    if p.len() == 0 {
        lemma_mul_zero(a);
    } else {
        let pt = p.drop_first();
        lemma_scaled_value(a, pt, x);
        assert(poly_scaled(a, p).drop_first() =~= poly_scaled(a, pt));
        lemma_mul_distributive(a, p[0], gf_mul(x, poly_eval(pt, x)));
        lemma_mul_associative(a, x, poly_eval(pt, x));
        lemma_mul_commutative(a, x);
        lemma_mul_associative(x, a, poly_eval(pt, x));
    }
}

/// The value of `p` times `x - z` is the value of `p` times `x - z`.
proof fn lemma_times_linear_value(p: Seq<u8>, z: u8, x: u8)
    ensures
        poly_eval(poly_times_linear(p, z), x) == gf_mul(gf_add(x, z), poly_eval(p, x)),
        poly_times_linear(p, z).len() == p.len() + 1,
{
    let shifted = seq![0u8] + p;
    assert(shifted.drop_first() =~= p);
    lemma_sum_value(shifted, poly_scaled(z, p), x);
    lemma_scaled_value(z, p, x);
    lemma_add_cancels(gf_mul(x, poly_eval(p, x)));
    lemma_mul_distributive_left(x, z, poly_eval(p, x));
}

/// The vanishing polynomial vanishes at its roots and nowhere else.
proof fn lemma_vanishing(zs: Seq<u8>, x: u8)
    ensures
        vanishing(zs).len() == zs.len() + 1,
        zs.contains(x) ==> poly_eval(vanishing(zs), x) == 0,
        !zs.contains(x) ==> poly_eval(vanishing(zs), x) != 0,
    decreases zs.len(),
{
    if zs.len() == 0 {
        let one = seq![1u8];
        assert(one.drop_first().len() == 0);
        assert(poly_eval(one.drop_first(), x) == 0);
        lemma_mul_zero(x);
        lemma_add_cancels(1u8);
    } else {
        let rest = zs.drop_last();
        let z = zs.last();
        lemma_vanishing(rest, x);
        lemma_times_linear_value(vanishing(rest), z, x);
        let d = gf_add(x, z);
        let v = poly_eval(vanishing(rest), x);
        crate::recovery::field::lemma_add_zero_iff_equal(x, z);
        lemma_mul_zero(v);
        lemma_mul_zero(d);
        if zs.contains(x) {
            let i = choose|i: int| 0 <= i < zs.len() && zs[i] == x;
            if i < rest.len() {
                assert(rest[i] == x);
            }
        } else {
            assert(zs[zs.len() - 1] == z);
            if rest.contains(x) {
                let i = choose|i: int| 0 <= i < rest.len() && rest[i] == x;
                assert(zs[i] == x);
            }
            if gf_mul(d, v) == 0 {
                lemma_no_zero_divisor(d, v);
            }
        }
    }
}

/// Through distinct points there is a polynomial with any given values,
/// with no more coefficients than there are points.
proof fn lemma_through(zs: Seq<u8>, vs: Seq<u8>)
    requires
        zs.no_duplicates(),
        vs.len() == zs.len(),
    ensures
        through(zs, vs).len() <= zs.len(),
        forall|i: int| 0 <= i < zs.len() ==> poly_eval(through(zs, vs), #[trigger] zs[i]) == vs[i],
    decreases zs.len(),
{
    if zs.len() > 0 {
        let rest = zs.drop_last();
        let p = through(rest, vs.drop_last());
        let roots = vanishing(rest);
        let z = zs.last();
        let nz = poly_eval(roots, z);
        let a = gf_mul(gf_add(vs.last(), poly_eval(p, z)), gf_inv(nz));
        let whole = through(zs, vs);
        lemma_through(rest, vs.drop_last());
        lemma_vanishing(rest, z);
        assert(!rest.contains(z)) by {
            if rest.contains(z) {
                let i = choose|i: int| 0 <= i < rest.len() && rest[i] == z;
                assert(zs[i] == zs[zs.len() - 1]);
            }
        }
        lemma_sum_value(p, poly_scaled(a, roots), z);
        assert forall|i: int| 0 <= i < zs.len() implies poly_eval(whole, #[trigger] zs[i])
            == vs[i] by {
            let x = zs[i];
            lemma_sum_value(p, poly_scaled(a, roots), x);
            lemma_scaled_value(a, roots, x);
            lemma_vanishing(rest, x);
            if i < rest.len() {
                assert(rest[i] == x);
                assert(vs.drop_last()[i] == vs[i]);
                lemma_mul_zero(a);
                lemma_add_cancels(vs[i]);
            } else {
                let e = poly_eval(p, z);
                let w = gf_add(vs.last(), e);
                lemma_inverse(nz);
                lemma_mul_associative(w, gf_inv(nz), nz);
                lemma_mul_commutative(gf_inv(nz), nz);
                lemma_mul_zero(w);
                lemma_add_commutative(vs.last(), e);
                lemma_add_associative(e, e, vs.last());
                lemma_add_cancels(e);
                lemma_add_cancels(vs.last());
            }
        }
    }
}

/// Zero coefficients at the end do not change the values.
proof fn lemma_padding(p: Seq<u8>, count: nat, x: u8)
    ensures
        poly_eval(p + Seq::new(count, |i: int| 0u8), x) == poly_eval(p, x),
    decreases p.len() + count,
{
    let zeros = Seq::new(count, |i: int| 0u8);
    if p.len() == 0 {
        assert(p + zeros =~= zeros);
        if count > 0 {
            let fewer = Seq::new((count - 1) as nat, |i: int| 0u8);
            assert(zeros.drop_first() =~= fewer);
            assert(p + fewer =~= fewer);
            lemma_padding(p, (count - 1) as nat, x);
            lemma_mul_zero(x);
            lemma_add_cancels(0u8);
        }
    } else {
        assert((p + zeros).drop_first() =~= p.drop_first() + zeros);
        lemma_padding(p.drop_first(), count, x);
    }
}

/// Fewer points than the threshold fit every constant term: for distinct
/// nonzero points `xs`, fewer than `k` of them, any values `ys` at them and
/// any byte `s`, there are `k - 1` coefficients with which the polynomial
/// that hides `s` takes the values `ys` at `xs`.
pub proof fn lemma_any_constant_fits(xs: Seq<u8>, ys: Seq<u8>, k: u8, s: u8) -> (c: Seq<u8>)
    requires
        xs.no_duplicates(),
        forall|i: int| 0 <= i < xs.len() ==> #[trigger] xs[i] != 0,
        ys.len() == xs.len(),
        xs.len() < k,
    ensures
        c.len() == k - 1,
        forall|i: int| 0 <= i < xs.len() ==> poly_eval(seq![s] + c, #[trigger] xs[i]) == ys[i],
{
    let zs = seq![0u8] + xs;
    let vs = seq![s] + ys;
    assert(zs.no_duplicates()) by {
        assert forall|i: int, j: int| 0 <= i < zs.len() && 0 <= j < zs.len() && i != j implies zs[i]
            != zs[j] by {
            if i > 0 {
                assert(zs[i] == xs[i - 1]);
            }
            if j > 0 {
                assert(zs[j] == xs[j - 1]);
            }
        }
    }
    lemma_through(zs, vs);
    let p = through(zs, vs);
    let count = (k - p.len()) as nat;
    let padded = p + Seq::new(count, |i: int| 0u8);
    assert(padded.len() == k);
    lemma_padding(p, count, 0u8);
    assert(zs[0] == 0u8);
    assert(poly_eval(p, zs[0]) == vs[0]);
    lemma_mul_zero(poly_eval(padded.drop_first(), 0u8));
    lemma_add_cancels(padded[0]);
    assert(padded[0] == s);
    let c = padded.drop_first();
    assert(seq![s] + c =~= padded);
    assert forall|i: int| 0 <= i < xs.len() implies poly_eval(seq![s] + c, #[trigger] xs[i])
        == ys[i] by {
        lemma_padding(p, count, xs[i]);
        assert(zs[i + 1] == xs[i]);
        assert(poly_eval(p, zs[i + 1]) == vs[i + 1]);
    }
    c
}

/// Fewer shares than the threshold reveal nothing: whatever the shares at
/// fewer than `k` places of a split hold, every other secret of the same
/// length has a split, under the same mark, with the very same shares at
/// those places.
pub proof fn law_below_threshold_reveals_nothing(
    secret: Seq<u8>,
    other: Seq<u8>,
    k: u8,
    n: u8,
    coefficients: Seq<Seq<u8>>,
    set_id: u64,
    places: Seq<int>,
) -> (fitting: Seq<Seq<u8>>)
    requires
        1 <= k <= n,
        other.len() == secret.len(),
        coefficients_fit(coefficients, protected(secret).len(), k),
        places.no_duplicates(),
        places.len() < k,
        forall|j: int| 0 <= j < places.len() ==> 0 <= #[trigger] places[j] < n,
    ensures
        coefficients_fit(fitting, protected(other).len(), k),
        forall|j: int|
            0 <= j < places.len() ==> split_spec(other, k, n, fitting, set_id)[#[trigger] places[j]]
                == split_spec(secret, k, n, coefficients, set_id)[places[j]],
{
    let data = protected(secret);
    let hidden = protected(other);
    let xs = Seq::new(places.len(), |j: int| (places[j] + 1) as u8);
    assert(xs.no_duplicates()) by {
        assert forall|a: int, b: int| 0 <= a < xs.len() && 0 <= b < xs.len() && a != b implies xs[a]
            != xs[b] by {
            assert(places[a] != places[b]);
        }
    }
    assert forall|j: int| 0 <= j < xs.len() implies #[trigger] xs[j] != 0 by {
        assert(0 <= places[j] < n);
    }
    let fitting = Seq::new(
        hidden.len(),
        |b: int|
            choose|c: Seq<u8>|
                c.len() == k - 1 && forall|j: int|
                    0 <= j < xs.len() ==> poly_eval(seq![hidden[b]] + c, #[trigger] xs[j])
                        == poly_eval(byte_polynomial(data, coefficients, b), xs[j]),
    );
    assert forall|b: int| 0 <= b < hidden.len() implies (#[trigger] fitting[b]).len() == k - 1
        && forall|j: int|
        0 <= j < xs.len() ==> poly_eval(seq![hidden[b]] + fitting[b], #[trigger] xs[j])
            == poly_eval(byte_polynomial(data, coefficients, b), xs[j]) by {
        let ys = Seq::new(
            xs.len(),
            |j: int| poly_eval(byte_polynomial(data, coefficients, b), xs[j]),
        );
        let c = lemma_any_constant_fits(xs, ys, k, hidden[b]);
        assert forall|j: int| 0 <= j < xs.len() implies poly_eval(
            seq![hidden[b]] + c,
            #[trigger] xs[j],
        ) == poly_eval(byte_polynomial(data, coefficients, b), xs[j]) by {
            assert(ys[j] == poly_eval(byte_polynomial(data, coefficients, b), xs[j]));
        }
    }
    assert forall|j: int| 0 <= j < places.len() implies split_spec(
        other,
        k,
        n,
        fitting,
        set_id,
    )[#[trigger] places[j]] == split_spec(secret, k, n, coefficients, set_id)[places[j]] by {
        let x = (places[j] + 1) as u8;
        assert(xs[j] == x);
        let mine = payload_at(hidden, fitting, x);
        let theirs = payload_at(data, coefficients, x);
        assert forall|b: int| 0 <= b < hidden.len() implies mine[b] == theirs[b] by {
            assert(fitting[b].len() == k - 1);
            assert(poly_eval(seq![hidden[b]] + fitting[b], xs[j]) == poly_eval(
                byte_polynomial(data, coefficients, b),
                xs[j],
            ));
        }
        assert(mine =~= theirs);
    }
    fitting
}

} // verus!
