//! Polynomials over GF(2^8) and their interpolation at zero.

use crate::recovery::field::{
    gf_add,
    gf_inv,
    gf_mul,
    lemma_add_cancels,
    lemma_add_commutative,
    lemma_add_interchange,
    lemma_add_swap,
    lemma_add_zero_iff_equal,
    lemma_inverse,
    lemma_mul_associative,
    lemma_mul_commutative,
    lemma_mul_distributive,
    lemma_mul_distributive_left,
    lemma_mul_swap_inner,
    lemma_mul_zero,
    lemma_no_zero_divisor,
};
use vstd::prelude::*;

verus! {

/// The value at `x` of the polynomial with coefficients `c`, constant term
/// first.
pub open spec fn poly_eval(c: Seq<u8>, x: u8) -> u8
    decreases c.len(),
{
    if c.len() == 0 {
        0u8
    } else {
        gf_add(c[0], gf_mul(x, poly_eval(c.drop_first(), x)))
    }
}

/// The values of the polynomial `c` at each of `xs`.
pub open spec fn evaluations(c: Seq<u8>, xs: Seq<u8>) -> Seq<u8> {
    Seq::new(xs.len(), |i: int| poly_eval(c, xs[i]))
}

/// The factor that the point `a` contributes to the Lagrange basis
/// polynomial of `x`, taken at zero: `a / (a - x)`, and one for `x` itself.
pub open spec fn basis_factor(a: u8, x: u8) -> u8 {
    if a == x {
        1u8
    } else {
        gf_mul(a, gf_inv(gf_add(a, x)))
    }
}

/// The Lagrange basis polynomial of `x` over `points`, taken at zero.
pub open spec fn basis_at_zero(points: Seq<u8>, x: u8) -> u8
    decreases points.len(),
{
    if points.len() == 0 {
        1u8
    } else {
        gf_mul(basis_at_zero(points.drop_last(), x), basis_factor(points.last(), x))
    }
}

/// The sum of the elements of `t`.
pub open spec fn field_sum(t: Seq<u8>) -> u8
    decreases t.len(),
{
    if t.len() == 0 {
        0u8
    } else {
        gf_add(field_sum(t.drop_last()), t.last())
    }
}

/// The summands of the Lagrange formula at zero: each value times the basis
/// polynomial of its point.
pub open spec fn lagrange_terms(xs: Seq<u8>, ys: Seq<u8>) -> Seq<u8> {
    Seq::new(xs.len(), |i: int| gf_mul(ys[i], basis_at_zero(xs, xs[i])))
}

/// The value at zero of the polynomial of least degree through the points
/// `(xs[i], ys[i])`.
pub open spec fn interpolate_at_zero(xs: Seq<u8>, ys: Seq<u8>) -> u8 {
    field_sum(lagrange_terms(xs, ys))
}

/// The quotient of `c` by `x - z`.
pub open spec fn quotient(c: Seq<u8>, z: u8) -> Seq<u8>
    decreases c.len(),
{
    if c.len() <= 1 {
        Seq::<u8>::empty()
    } else {
        seq![poly_eval(c.drop_first(), z)] + quotient(c.drop_first(), z)
    }
}

/// The constant one at `n` points.
pub open spec fn ones(n: nat) -> Seq<u8> {
    Seq::new(n, |i: int| 1u8)
}

/// The quotient has one coefficient less.
proof fn lemma_quotient_len(c: Seq<u8>, z: u8)
    ensures
        quotient(c, z).len() == if c.len() == 0 {
            0
        } else {
            c.len() - 1
        },
    decreases c.len(),
{
    if c.len() > 1 {
        lemma_quotient_len(c.drop_first(), z);
    }
}

/// The step of the division lemma, on values.
proof fn lemma_division_step(c0: u8, x: u8, z: u8, ex: u8, ez: u8, qx: u8)
    requires
        ex == gf_add(ez, gf_mul(gf_add(x, z), qx)),
    ensures
        gf_add(c0, gf_mul(x, ex)) == gf_add(
            gf_add(c0, gf_mul(z, ez)),
            gf_mul(gf_add(x, z), gf_add(ez, gf_mul(x, qx))),
        ),
{
    let d = gf_add(x, z);
    let a = gf_mul(z, ez);
    let b = gf_mul(x, ez);
    let cc = gf_mul(x, gf_mul(d, qx));
    lemma_mul_distributive_left(x, z, ez);
    lemma_mul_swap_inner(d, x, qx);
    lemma_mul_distributive(d, ez, gf_mul(x, qx));
    lemma_mul_distributive(x, ez, gf_mul(d, qx));
    assert(gf_mul(x, ex) == gf_add(b, cc));
    assert(gf_mul(d, gf_add(ez, gf_mul(x, qx))) == gf_add(gf_add(b, a), cc));
    lemma_division_sum(c0, a, b, cc);
}

/// The rearrangement of sums that the division step ends with.
proof fn lemma_division_sum(c0: u8, a: u8, b: u8, c: u8)
    by (bit_vector)
    ensures
        gf_add(c0, gf_add(b, c)) == gf_add(gf_add(c0, a), gf_add(gf_add(b, a), c)),
{
}

/// Division by a linear factor: `c(x) = c(z) + (x - z) * q(x)`.
pub proof fn lemma_division(c: Seq<u8>, z: u8, x: u8)
    ensures
        poly_eval(c, x) == gf_add(
            poly_eval(c, z),
            gf_mul(gf_add(x, z), poly_eval(quotient(c, z), x)),
        ),
    decreases c.len(),
{
    let d = gf_add(x, z);
    lemma_mul_zero(d);
    lemma_mul_zero(x);
    lemma_mul_zero(z);
    if c.len() == 0 {
        lemma_add_cancels(0u8);
    } else if c.len() == 1 {
        let t = c.drop_first();
        assert(t.len() == 0);
        assert(poly_eval(t, x) == 0);
        assert(poly_eval(t, z) == 0);
        assert(quotient(c, z).len() == 0);
        lemma_add_cancels(c[0]);
        assert(poly_eval(c, x) == c[0]);
        assert(poly_eval(c, z) == c[0]);
    } else {
        let t = c.drop_first();
        let q = quotient(t, z);
        lemma_division(t, z, x);
        let whole = quotient(c, z);
        assert(whole.drop_first() =~= q);
        assert(whole[0] == poly_eval(t, z));
        assert(poly_eval(whole, x) == gf_add(poly_eval(t, z), gf_mul(x, poly_eval(q, x))));
        lemma_division_step(c[0], x, z, poly_eval(t, x), poly_eval(t, z), poly_eval(q, x));
    }
}

/// A sum is the sum without one of its terms, plus that term.
proof fn lemma_sum_remove(t: Seq<u8>, p: int)
    requires
        0 <= p < t.len(),
    ensures
        field_sum(t) == gf_add(field_sum(t.remove(p)), t[p]),
    decreases t.len(),
{
    let rest = t.drop_last();
    if p == t.len() - 1 {
        assert(t.remove(p) =~= rest);
    } else {
        lemma_sum_remove(rest, p);
        let removed = t.remove(p);
        assert(removed.drop_last() =~= rest.remove(p));
        assert(removed.last() == t.last());
        lemma_add_swap(field_sum(rest.remove(p)), t[p], t.last());
    }
}

/// The sum of termwise sums is the sum of the sums.
proof fn lemma_sum_add(a: Seq<u8>, b: Seq<u8>, c: Seq<u8>)
    requires
        a.len() == c.len(),
        b.len() == c.len(),
        forall|i: int| 0 <= i < c.len() ==> c[i] == gf_add(a[i], b[i]),
    ensures
        field_sum(c) == gf_add(field_sum(a), field_sum(b)),
    decreases c.len(),
{
    if c.len() == 0 {
        lemma_add_cancels(0u8);
    } else {
        lemma_sum_add(a.drop_last(), b.drop_last(), c.drop_last());
        lemma_add_interchange(
            field_sum(a.drop_last()),
            field_sum(b.drop_last()),
            a.last(),
            b.last(),
        );
    }
}

/// A common factor can be taken out of a sum.
proof fn lemma_sum_scale(k: u8, a: Seq<u8>, c: Seq<u8>)
    requires
        a.len() == c.len(),
        forall|i: int| 0 <= i < c.len() ==> c[i] == gf_mul(k, a[i]),
    ensures
        field_sum(c) == gf_mul(k, field_sum(a)),
    decreases c.len(),
{
    if c.len() == 0 {
        lemma_mul_zero(k);
    } else {
        lemma_sum_scale(k, a.drop_last(), c.drop_last());
        lemma_mul_distributive(k, field_sum(a.drop_last()), a.last());
    }
}

/// A basis polynomial over a set of points is the one over the set without a
/// point, times the factor of that point.
proof fn lemma_basis_remove(points: Seq<u8>, p: int, x: u8)
    requires
        0 <= p < points.len(),
    ensures
        basis_at_zero(points, x) == gf_mul(
            basis_at_zero(points.remove(p), x),
            basis_factor(points[p], x),
        ),
    decreases points.len(),
{
    let rest = points.drop_last();
    if p == points.len() - 1 {
        assert(points.remove(p) =~= rest);
    } else {
        lemma_basis_remove(rest, p, x);
        let removed = points.remove(p);
        assert(removed.drop_last() =~= rest.remove(p));
        assert(removed.last() == points.last());
        let b = basis_at_zero(rest.remove(p), x);
        let fp = basis_factor(points[p], x);
        let fl = basis_factor(points.last(), x);
        lemma_mul_associative(b, fp, fl);
        lemma_mul_commutative(fp, fl);
        lemma_mul_associative(b, fl, fp);
    }
}

/// `(d * g) * (b * (z / d)) = z * (g * b)` for nonzero `d`.
proof fn lemma_cancel_factor(d: u8, g: u8, b: u8, z: u8)
    requires
        d != 0,
    ensures
        gf_mul(gf_mul(d, g), gf_mul(b, gf_mul(z, gf_inv(d)))) == gf_mul(z, gf_mul(g, b)),
{
    let i = gf_inv(d);
    lemma_inverse(d);
    // b * (z * i) == z * (b * i)
    lemma_mul_swap_inner(b, z, i);
    // (d * g) * (z * (b * i)) == z * ((d * g) * (b * i))
    lemma_mul_swap_inner(gf_mul(d, g), z, gf_mul(b, i));
    // (d * g) * (b * i) == (g * b) * (d * i)
    lemma_mul_commutative(d, g);
    lemma_mul_associative(g, d, gf_mul(b, i));
    lemma_mul_swap_inner(d, b, i);
    lemma_mul_associative(g, b, gf_mul(d, i));
    lemma_mul_zero(gf_mul(g, b));
}

/// The part of the Lagrange summand of `x` that remains when `c(z)` is taken
/// out of `c(x)`: `(x - z) * q(x)` times the basis polynomial of `x`.
pub open spec fn remainder_term(q: Seq<u8>, xs: Seq<u8>, z: u8, x: u8) -> u8 {
    gf_mul(gf_mul(gf_add(x, z), poly_eval(q, x)), basis_at_zero(xs, x))
}

/// A Lagrange summand of `c` is `c(z)` times the summand of the constant
/// one, plus the remainder term.
proof fn lemma_term_split(c: Seq<u8>, xs: Seq<u8>, z: u8, x: u8)
    ensures
        gf_mul(poly_eval(c, x), basis_at_zero(xs, x)) == gf_add(
            gf_mul(poly_eval(c, z), gf_mul(1u8, basis_at_zero(xs, x))),
            remainder_term(quotient(c, z), xs, z, x),
        ),
{
    let b = basis_at_zero(xs, x);
    lemma_division(c, z, x);
    lemma_mul_distributive_left(
        poly_eval(c, z),
        gf_mul(gf_add(x, z), poly_eval(quotient(c, z), x)),
        b,
    );
    lemma_mul_zero(b);
}

/// The remainder term vanishes at `z` itself.
proof fn lemma_term_at_point(q: Seq<u8>, xs: Seq<u8>, z: u8)
    ensures
        remainder_term(q, xs, z, z) == 0,
{
    lemma_add_cancels(z);
    lemma_mul_zero(poly_eval(q, z));
    lemma_mul_zero(basis_at_zero(xs, z));
}

/// Away from `z`, the remainder term is `z` times the Lagrange summand of
/// the quotient over the other points.
proof fn lemma_term_elsewhere(q: Seq<u8>, xs: Seq<u8>, p: int, x: u8)
    requires
        0 <= p < xs.len(),
        x != xs[p],
    ensures
        remainder_term(q, xs, xs[p], x) == gf_mul(
            xs[p],
            gf_mul(poly_eval(q, x), basis_at_zero(xs.remove(p), x)),
        ),
{
    let z = xs[p];
    let d = gf_add(x, z);
    lemma_add_zero_iff_equal(x, z);
    lemma_add_commutative(x, z);
    lemma_basis_remove(xs, p, x);
    lemma_cancel_factor(d, poly_eval(q, x), basis_at_zero(xs.remove(p), x), z);
}

/// Taking one point `z = xs[p]` out of an interpolation: with
/// `c(x) = c(z) + (x - z) * q(x)`, the interpolation of `c` over `xs` is
/// `c(z)` times that of the constant one over `xs`, plus `z` times that of
/// `q` over the other points.
proof fn lemma_peel(c: Seq<u8>, xs: Seq<u8>, p: int)
    requires
        xs.no_duplicates(),
        0 <= p < xs.len(),
    ensures
        interpolate_at_zero(xs, evaluations(c, xs)) == gf_add(
            gf_mul(poly_eval(c, xs[p]), interpolate_at_zero(xs, ones(xs.len()))),
            gf_mul(
                xs[p],
                interpolate_at_zero(xs.remove(p), evaluations(quotient(c, xs[p]), xs.remove(p))),
            ),
        ),
{
    let n = xs.len();
    let z = xs[p];
    let e = poly_eval(c, z);
    let g = quotient(c, z);
    let xr = xs.remove(p);
    let t = lagrange_terms(xs, evaluations(c, xs));
    let u = lagrange_terms(xs, ones(n));
    let t2 = lagrange_terms(xr, evaluations(g, xr));
    let eu = Seq::new(n, |i: int| gf_mul(e, u[i]));
    let r = Seq::new(n, |i: int| remainder_term(g, xs, z, xs[i]));
    assert forall|i: int| 0 <= i < n implies t[i] == gf_add(eu[i], r[i]) by {
        lemma_term_split(c, xs, z, xs[i]);
    }
    lemma_sum_add(eu, r, t);
    lemma_sum_scale(e, u, eu);
    lemma_sum_remove(r, p);
    let rr = r.remove(p);
    lemma_term_at_point(g, xs, z);
    lemma_add_cancels(field_sum(rr));
    assert forall|j: int| 0 <= j < rr.len() implies rr[j] == gf_mul(z, t2[j]) by {
        let i = if j < p {
            j
        } else {
            j + 1
        };
        assert(rr[j] == r[i]);
        assert(xr[j] == xs[i]);
        lemma_term_elsewhere(g, xs, p, xs[i]);
    }
    lemma_sum_scale(z, t2, rr);
}

/// Removing an element keeps a sequence free of duplicates.
proof fn lemma_remove_no_duplicates(xs: Seq<u8>, p: int)
    requires
        xs.no_duplicates(),
        0 <= p < xs.len(),
    ensures
        xs.remove(p).no_duplicates(),
{
    let xr = xs.remove(p);
    assert forall|i: int, j: int| 0 <= i < xr.len() && 0 <= j < xr.len() && i != j implies xr[i]
        != xr[j] by {
        let a = if i < p {
            i
        } else {
            i + 1
        };
        let b = if j < p {
            j
        } else {
            j + 1
        };
        assert(xr[i] == xs[a]);
        assert(xr[j] == xs[b]);
    }
}

/// If `z * (u + 1)` is the same for two different `z`, then `u` is one.
proof fn lemma_two_points(z0: u8, z1: u8, u: u8)
    requires
        z0 != z1,
        gf_add(gf_mul(z0, u), gf_mul(z0, 1u8)) == gf_add(gf_mul(z1, u), gf_mul(z1, 1u8)),
    ensures
        u == 1u8,
{
    let w = gf_add(u, 1u8);
    let d = gf_add(z0, z1);
    lemma_mul_distributive(z0, u, 1u8);
    lemma_mul_distributive(z1, u, 1u8);
    lemma_mul_distributive_left(z0, z1, w);
    lemma_add_zero_iff_equal(gf_mul(z0, w), gf_mul(z1, w));
    lemma_add_zero_iff_equal(z0, z1);
    lemma_no_zero_divisor(d, w);
    lemma_add_zero_iff_equal(u, 1u8);
}

/// The Lagrange basis polynomials over distinct points sum to one at zero.
proof fn lemma_unity(xs: Seq<u8>)
    requires
        xs.no_duplicates(),
        xs.len() >= 1,
    ensures
        interpolate_at_zero(xs, ones(xs.len())) == 1u8,
    decreases xs.len(), 0nat,
{
    let n = xs.len();
    if n == 1 {
        let t = lagrange_terms(xs, ones(n));
        assert(t.drop_last().len() == 0);
        assert(field_sum(t.drop_last()) == 0);
        assert(xs.drop_last().len() == 0);
        assert(basis_at_zero(xs.drop_last(), xs[0]) == 1u8);
        assert(basis_at_zero(xs, xs[0]) == gf_mul(1u8, 1u8));
        lemma_mul_zero(1u8);
        lemma_add_cancels(1u8);
    } else {
        let line = seq![0u8, 1u8];
        let top = line.drop_first();
        assert(top.len() == 1 && top[0] == 1u8);
        assert(top.drop_first().len() == 0);
        let u = interpolate_at_zero(xs, ones(n));
        let whole = interpolate_at_zero(xs, evaluations(line, xs));
        assert forall|p: int| 0 <= p < 2 implies whole == gf_add(
            gf_mul(xs[p], u),
            gf_mul(xs[p], 1u8),
        ) by {
            let z = xs[p];
            let q = quotient(line, z);
            lemma_quotient_len(line, z);
            lemma_peel(line, xs, p);
            lemma_remove_no_duplicates(xs, p);
            lemma_interpolation(q, xs.remove(p));
            // the line takes the value z at z
            assert(poly_eval(top.drop_first(), z) == 0);
            lemma_mul_zero(z);
            lemma_add_cancels(1u8);
            assert(poly_eval(top, z) == 1u8);
            lemma_add_cancels(z);
            assert(poly_eval(line, z) == z);
            // its quotient by x - z is the constant one
            assert(q[0] == 1u8);
            assert(q.drop_first().len() == 0);
            assert(poly_eval(q.drop_first(), 0u8) == 0);
            lemma_mul_zero(0u8);
            assert(poly_eval(q, 0u8) == 1u8);
        }
        assert(xs[0] != xs[1]);
        lemma_two_points(xs[0], xs[1], u);
    }
}

/// Lagrange interpolation at zero recovers the constant term: for distinct
/// points `xs` and a polynomial `c` with no more coefficients than there are
/// points, interpolating the values of `c` at `xs` gives `c(0)`.
pub proof fn lemma_interpolation(c: Seq<u8>, xs: Seq<u8>)
    requires
        xs.no_duplicates(),
        c.len() <= xs.len(),
    ensures
        interpolate_at_zero(xs, evaluations(c, xs)) == poly_eval(c, 0u8),
    decreases xs.len(), 1nat,
{
    let n = xs.len();
    if n == 0 {
        assert(lagrange_terms(xs, evaluations(c, xs)).len() == 0);
    } else {
        let z = xs[0];
        let g = quotient(c, z);
        let xr = xs.remove(0);
        lemma_quotient_len(c, z);
        lemma_peel(c, xs, 0);
        lemma_unity(xs);
        lemma_remove_no_duplicates(xs, 0);
        lemma_interpolation(g, xr);
        lemma_division(c, z, 0u8);
        lemma_mul_zero(poly_eval(c, z));
        lemma_add_cancels(z);
    }
}

} // verus!
