//! Laws of the interval domain: the order of bounds, and the soundness of the
//! comparisons and transfer functions (an interval computed from intervals
//! holding some integers holds the integer computed from them).

use std::cmp::Ordering;
use vstd::arithmetic::div_mod::{lemma_div_is_ordered, lemma_div_is_ordered_by_denominator};
use vstd::prelude::*;

use super::integer::{bit, shl_value, shr_value, trunc_div};
use super::interval::{
    and_fn, bitand_post, bitor_post, bitwise, bitxor_post, ext_div, ext_le, ext_lt,
    ext_max4, ext_min4, ext_mul, ext_order, ext_sign, iv_add, iv_bottom,
    iv_const, iv_contains, iv_div, iv_equal_to, iv_greater_equal, iv_greater_than, iv_is_bottom,
    iv_is_top, iv_less_equal, iv_less_than, iv_mul, iv_of_bool, iv_singleton, iv_sub,
    iv_to_bool, iv_top, or_fn, shl_post, shr_post, xor_fn, Ext,
};

verus! {

// ---------------------------------------------------------------------------
// Order of bounds
// ---------------------------------------------------------------------------

/// Bounds are totally ordered: comparison says `Equal` exactly for equal
/// bounds, is antisymmetric, transitive and total.
pub proof fn law_bound_order(a: Ext, b: Ext, c: Ext)
    ensures
        (ext_order(a, b) == Ordering::Equal) == (a == b),
        (ext_order(a, b) == Ordering::Less) == (ext_order(b, a) == Ordering::Greater),
        ext_lt(a, b) && ext_lt(b, c) ==> ext_lt(a, c),
        ext_lt(a, b) || a == b || ext_lt(b, a),
        !(ext_lt(a, b) && ext_lt(b, a)),
{
}

// ---------------------------------------------------------------------------
// Intervals, top and bottom
// ---------------------------------------------------------------------------

/// Top holds every integer, bottom none; an interval that holds an integer
/// is not bottom.
pub proof fn law_top_bottom(v: (Ext, Ext), x: int)
    ensures
        iv_is_top(iv_top()),
        iv_is_bottom(iv_bottom()),
        iv_contains(iv_top(), x),
        !iv_contains(iv_bottom(), x),
        iv_contains(v, x) ==> !iv_is_bottom(v),
{
}

/// A singleton interval gives back its integer.
pub proof fn law_singleton(n: int)
    ensures
        iv_singleton(iv_const(n)) == Some(n),
        iv_contains(iv_const(n), n),
{
}

/// A boolean turned into an interval reads back as the same boolean.
pub proof fn law_bool_round_trip(b: bool)
    ensures
        iv_to_bool(iv_of_bool(b)) == Ok::<bool, &'static str>(b),
{
}

// ---------------------------------------------------------------------------
// Comparisons
// ---------------------------------------------------------------------------

/// `a < b` is decided exactly as `b > a`, and `a <= b` as `b >= a`.
pub proof fn law_comparison_duality(a: (Ext, Ext), b: (Ext, Ext))
    ensures
        iv_less_than(a, b) == iv_greater_than(b, a),
        iv_less_equal(a, b) == iv_greater_equal(b, a),
{
}

/// A decided comparison of two intervals holds of every pair of integers
/// they hold.
pub proof fn law_comparisons_sound(a: (Ext, Ext), b: (Ext, Ext), x: int, y: int)
    requires
        iv_contains(a, x),
        iv_contains(b, y),
    ensures
        iv_less_than(a, b) == Some(true) ==> x < y,
        iv_less_than(a, b) == Some(false) ==> x >= y,
        iv_less_equal(a, b) == Some(true) ==> x <= y,
        iv_less_equal(a, b) == Some(false) ==> x > y,
        iv_greater_equal(a, b) == Some(true) ==> x >= y,
        iv_greater_equal(a, b) == Some(false) ==> x < y,
        iv_greater_than(a, b) == Some(true) ==> x > y,
        iv_greater_than(a, b) == Some(false) ==> x <= y,
        iv_equal_to(a, b) == Some(true) ==> x == y,
        iv_equal_to(a, b) == Some(false) ==> x != y,
{
}

/// Members witnessing that `a` has an integer at least some integer of `b`,
/// when the high bound of `a` is not below the low bound of `b`.
proof fn lemma_some_ge(a: (Ext, Ext), b: (Ext, Ext), xa: int, yb: int) -> (w: (int, int))
    requires
        iv_contains(a, xa),
        iv_contains(b, yb),
        ext_le(b.0, a.1),
    ensures
        iv_contains(a, w.0),
        iv_contains(b, w.1),
        w.0 >= w.1,
{
    match (a.1, b.0) {
        (Ext::Fin(h), Ext::Fin(l)) => (h, l),
        (Ext::Fin(h), _) => (h, if yb < h { yb } else { h }),
        (_, Ext::Fin(l)) => (if xa > l { xa } else { l }, l),
        _ => (if xa > yb { xa } else { yb }, yb),
    }
}

/// Members witnessing that `a` has an integer below some integer of `b`,
/// when the low bound of `a` is below the high bound of `b`.
proof fn lemma_some_lt(a: (Ext, Ext), b: (Ext, Ext), xa: int, yb: int) -> (w: (int, int))
    requires
        iv_contains(a, xa),
        iv_contains(b, yb),
        ext_lt(a.0, b.1),
    ensures
        iv_contains(a, w.0),
        iv_contains(b, w.1),
        w.0 < w.1,
{
    match (a.0, b.1) {
        (Ext::Fin(l), Ext::Fin(h)) => (l, h),
        (Ext::Fin(l), _) => (l, if yb > l { yb } else { l + 1 }),
        (_, Ext::Fin(h)) => (if xa < h { xa } else { h - 1 }, h),
        _ => (if xa < yb { xa } else { yb - 1 }, yb),
    }
}

/// The comparisons decide every case that the integers of the intervals
/// decide: when every integer of `a` is below every integer of `b`,
/// `less_than` answers `Some(true)`, and when none is, `Some(false)`; and
/// likewise for the other comparisons. So two equal singletons `[x, x]`,
/// `[x, x]` compare as `Some(false)` under `<`, and as `Some(true)` under `<=`.
pub proof fn law_comparisons_complete(a: (Ext, Ext), b: (Ext, Ext), xa: int, yb: int)
    requires
        !iv_is_top(a),
        !iv_is_top(b),
        iv_contains(a, xa),
        iv_contains(b, yb),
    ensures
        (forall|x: int, y: int| iv_contains(a, x) && iv_contains(b, y) ==> x < y) ==> iv_less_than(
            a,
            b,
        ) == Some(true),
        (forall|x: int, y: int| iv_contains(a, x) && iv_contains(b, y) ==> x >= y) ==> iv_less_than(
            a,
            b,
        ) == Some(false),
        (forall|x: int, y: int| iv_contains(a, x) && iv_contains(b, y) ==> x <= y) ==> iv_less_equal(
            a,
            b,
        ) == Some(true),
        (forall|x: int, y: int| iv_contains(a, x) && iv_contains(b, y) ==> x > y) ==> iv_less_equal(
            a,
            b,
        ) == Some(false),
        (forall|x: int, y: int| iv_contains(a, x) && iv_contains(b, y) ==> x > y) ==> iv_greater_than(
            a,
            b,
        ) == Some(true),
        (forall|x: int, y: int| iv_contains(a, x) && iv_contains(b, y) ==> x <= y) ==> iv_greater_than(
            a,
            b,
        ) == Some(false),
        (forall|x: int, y: int| iv_contains(a, x) && iv_contains(b, y) ==> x >= y) ==> iv_greater_equal(
            a,
            b,
        ) == Some(true),
        (forall|x: int, y: int| iv_contains(a, x) && iv_contains(b, y) ==> x < y) ==> iv_greater_equal(
            a,
            b,
        ) == Some(false),
{
    // every integer of `a` below every integer of `b`
    if !ext_lt(a.1, b.0) {
        let w = lemma_some_ge(a, b, xa, yb);
        assert(iv_contains(a, w.0) && iv_contains(b, w.1) && !(w.0 < w.1));
    }
    // none is below
    if !ext_le(b.1, a.0) {
        let w = lemma_some_lt(a, b, xa, yb);
        assert(iv_contains(a, w.0) && iv_contains(b, w.1) && !(w.0 >= w.1));
    }
    // every integer of `a` at most every integer of `b`
    if !ext_le(a.1, b.0) {
        let w = lemma_some_lt(b, a, yb, xa);
        assert(iv_contains(a, w.1) && iv_contains(b, w.0) && !(w.1 <= w.0));
    }
    // every integer of `a` above every integer of `b`
    if !ext_lt(b.1, a.0) {
        let w = lemma_some_ge(b, a, yb, xa);
        assert(iv_contains(a, w.1) && iv_contains(b, w.0) && !(w.1 > w.0));
    }
}

// ---------------------------------------------------------------------------
// Addition and subtraction
// ---------------------------------------------------------------------------

/// The sum of intervals holds the sum of any integers they hold.
pub proof fn law_add_sound(a: (Ext, Ext), b: (Ext, Ext), x: int, y: int)
    requires
        iv_contains(a, x),
        iv_contains(b, y),
    ensures
        iv_contains(iv_add(a, b), x + y),
{
}

/// The difference of intervals holds the difference of any integers they
/// hold.
pub proof fn law_sub_sound(a: (Ext, Ext), b: (Ext, Ext), x: int, y: int)
    requires
        iv_contains(a, x),
        iv_contains(b, y),
    ensures
        iv_contains(iv_sub(a, b), x - y),
{
}


// ---------------------------------------------------------------------------
// Bits
// ---------------------------------------------------------------------------

/// Every bit of `0` is clear.
proof fn lemma_bits_of_zero(i: nat)
    ensures
        !bit(0, i),
    decreases i,
{
    if i > 0 {
        lemma_bits_of_zero((i - 1) as nat);
    }
}

/// Every bit of `-1` is set.
proof fn lemma_bits_of_minus_one(i: nat)
    ensures
        bit(-1, i),
    decreases i,
{
    if i > 0 {
        assert(-1int / 2 == -1);
        lemma_bits_of_minus_one((i - 1) as nat);
    }
}

/// Two integers with the same bits are equal.
proof fn lemma_bits_determine(a: int, b: int)
    requires
        forall|i: nat| #[trigger] bit(a, i) == bit(b, i),
    ensures
        a == b,
    decreases (if a >= b { a - b } else { b - a }),
{
    if a != b {
        assert(bit(a, 0) == bit(b, 0));
        assert forall|i: nat| #[trigger] bit(a / 2, i) == bit(b / 2, i) by {
            assert(bit(a, i + 1) == bit(b, i + 1));
        }
        assert(a == 2 * (a / 2) + a % 2);
        assert(b == 2 * (b / 2) + b % 2);
        lemma_bits_determine(a / 2, b / 2);
    }
}

/// An integer whose bits are those of `x` and `y` combined by `f` is the
/// one that `iv_bitwise` describes.
proof fn lemma_bitwise_unique(x: int, y: int, v: int, w: int, f: spec_fn(bool, bool) -> bool)
    requires
        bitwise(x, y, v, f),
        bitwise(x, y, w, f),
    ensures
        v == w,
{
    assert forall|i: nat| #[trigger] bit(v, i) == bit(w, i) by {
        assert(bit(v, i) == f(bit(x, i), bit(y, i)));
        assert(bit(w, i) == f(bit(x, i), bit(y, i)));
    }
    lemma_bits_determine(v, w);
}

/// The bitwise and of `0` with anything is `0`.
proof fn lemma_and_zero(y: int, v: int)
    requires
        bitwise(0, y, v, and_fn()) || bitwise(y, 0, v, and_fn()),
    ensures
        v == 0,
{
    assert forall|i: nat| #[trigger] bit(v, i) == bit(0, i) by {
        lemma_bits_of_zero(i);
        if bitwise(0, y, v, and_fn()) {
            assert(bit(v, i) == and_fn()(bit(0, i), bit(y, i)));
        } else {
            assert(bit(v, i) == and_fn()(bit(y, i), bit(0, i)));
        }
    }
    lemma_bits_determine(v, 0);
}

/// `f(b, p)` is `p` for every bit `p`: then combining `y` with the integer
/// whose bits are all `b` gives `y`.
proof fn lemma_neutral(c: int, y: int, v: int, f: spec_fn(bool, bool) -> bool, b: bool, left: bool)
    requires
        forall|i: nat| #[trigger] bit(c, i) == b,
        forall|p: bool| #[trigger] f(b, p) == p && f(p, b) == p,
        if left {
            bitwise(c, y, v, f)
        } else {
            bitwise(y, c, v, f)
        },
    ensures
        v == y,
{
    assert forall|i: nat| #[trigger] bit(v, i) == bit(y, i) by {
        assert(bit(c, i) == b);
        assert(f(b, bit(y, i)) == bit(y, i));
        if left {
            assert(bit(v, i) == f(bit(c, i), bit(y, i)));
        } else {
            assert(bit(v, i) == f(bit(y, i), bit(c, i)));
        }
    }
    lemma_bits_determine(v, y);
}

/// `f(b, p)` is `b` for every bit `p`: then combining anything with the
/// integer `c` whose bits are all `b` gives `c`.
proof fn lemma_absorbing(c: int, y: int, v: int, f: spec_fn(bool, bool) -> bool, b: bool, left: bool)
    requires
        forall|i: nat| #[trigger] bit(c, i) == b,
        forall|p: bool| #[trigger] f(b, p) == b && f(p, b) == b,
        if left {
            bitwise(c, y, v, f)
        } else {
            bitwise(y, c, v, f)
        },
    ensures
        v == c,
{
    assert forall|i: nat| #[trigger] bit(v, i) == bit(c, i) by {
        assert(bit(c, i) == b);
        assert(f(b, bit(y, i)) == b);
        if left {
            assert(bit(v, i) == f(bit(c, i), bit(y, i)));
        } else {
            assert(bit(v, i) == f(bit(y, i), bit(c, i)));
        }
    }
    lemma_bits_determine(v, c);
}

proof fn lemma_all_bits_zero()
    ensures
        forall|i: nat| #[trigger] bit(0, i) == false,
{
    assert forall|i: nat| #[trigger] bit(0, i) == false by {
        lemma_bits_of_zero(i);
    }
}

proof fn lemma_all_bits_minus_one()
    ensures
        forall|i: nat| #[trigger] bit(-1, i) == true,
{
    assert forall|i: nat| #[trigger] bit(-1, i) == true by {
        lemma_bits_of_minus_one(i);
    }
}

/// The bitwise and of intervals holds the bitwise and of any integers they
/// hold.
pub proof fn law_bitand_sound(
    a: (Ext, Ext),
    b: (Ext, Ext),
    r: (Ext, Ext),
    x: int,
    y: int,
    v: int,
)
    requires
        iv_contains(a, x),
        iv_contains(b, y),
        bitand_post(a, b, r),
        bitwise(x, y, v, and_fn()),
    ensures
        iv_contains(r, v),
{
    lemma_all_bits_zero();
    lemma_all_bits_minus_one();
    if iv_is_bottom(a) || iv_is_bottom(b) || iv_is_top(a) || iv_is_top(b) {
    } else if a == iv_const(0) || b == iv_const(0) {
        lemma_and_zero(if a == iv_const(0) { y } else { x }, v);
    } else if a == iv_const(-1) {
        lemma_neutral(-1, y, v, and_fn(), true, true);
    } else if b == iv_const(-1) {
        lemma_neutral(-1, x, v, and_fn(), true, false);
    } else if let (Some(p), Some(q)) = (iv_singleton(a), iv_singleton(b)) {
        let w = iv_singleton(r).unwrap();
        lemma_bitwise_unique(x, y, v, w, and_fn());
    }
}

/// The bitwise or of intervals holds the bitwise or of any integers they
/// hold.
pub proof fn law_bitor_sound(
    a: (Ext, Ext),
    b: (Ext, Ext),
    r: (Ext, Ext),
    x: int,
    y: int,
    v: int,
)
    requires
        iv_contains(a, x),
        iv_contains(b, y),
        bitor_post(a, b, r),
        bitwise(x, y, v, or_fn()),
    ensures
        iv_contains(r, v),
{
    lemma_all_bits_zero();
    lemma_all_bits_minus_one();
    if iv_is_bottom(a) || iv_is_bottom(b) || iv_is_top(a) || iv_is_top(b) {
    } else if a == iv_const(-1) {
        lemma_absorbing(-1, y, v, or_fn(), true, true);
    } else if b == iv_const(-1) {
        lemma_absorbing(-1, x, v, or_fn(), true, false);
    } else if a == iv_const(0) {
        lemma_neutral(0, y, v, or_fn(), false, true);
    } else if b == iv_const(0) {
        lemma_neutral(0, x, v, or_fn(), false, false);
    } else if let (Some(p), Some(q)) = (iv_singleton(a), iv_singleton(b)) {
        let w = iv_singleton(r).unwrap();
        lemma_bitwise_unique(x, y, v, w, or_fn());
    }
}

/// The bitwise exclusive or of intervals holds the bitwise exclusive or of
/// any integers they hold.
pub proof fn law_bitxor_sound(
    a: (Ext, Ext),
    b: (Ext, Ext),
    r: (Ext, Ext),
    x: int,
    y: int,
    v: int,
)
    requires
        iv_contains(a, x),
        iv_contains(b, y),
        bitxor_post(a, b, r),
        bitwise(x, y, v, xor_fn()),
    ensures
        iv_contains(r, v),
{
    lemma_all_bits_zero();
    if iv_is_bottom(a) || iv_is_bottom(b) || iv_is_top(a) || iv_is_top(b) {
    } else if a == iv_const(0) {
        lemma_neutral(0, y, v, xor_fn(), false, true);
    } else if b == iv_const(0) {
        lemma_neutral(0, x, v, xor_fn(), false, false);
    } else if let (Some(p), Some(q)) = (iv_singleton(a), iv_singleton(b)) {
        let w = iv_singleton(r).unwrap();
        lemma_bitwise_unique(x, y, v, w, xor_fn());
    }
}

/// Shifting intervals left holds the shift of any integers they hold, for a
/// shift amount that fits in a `u32`.
pub proof fn law_shl_sound(a: (Ext, Ext), b: (Ext, Ext), r: (Ext, Ext), x: int, k: int)
    requires
        iv_contains(a, x),
        iv_contains(b, k),
        0 <= k <= u32::MAX,
        shl_post(a, b, r),
    ensures
        iv_contains(r, shl_value(x, k)),
{
}

/// Shifting intervals right holds the shift of any integers they hold, for
/// a shift amount that fits in a `u32`.
pub proof fn law_shr_sound(a: (Ext, Ext), b: (Ext, Ext), r: (Ext, Ext), x: int, k: int)
    requires
        iv_contains(a, x),
        iv_contains(b, k),
        0 <= k <= u32::MAX,
        shr_post(a, b, r),
    ensures
        iv_contains(r, shr_value(x, k)),
{
}


// ---------------------------------------------------------------------------
// Multiplication and division
// ---------------------------------------------------------------------------

/// `v` lies between `p` and `q`, in either order.
pub open spec fn ext_between(v: Ext, p: Ext, q: Ext) -> bool {
    (ext_le(p, v) && ext_le(v, q)) || (ext_le(q, v) && ext_le(v, p))
}

/// The least of four points is at most each of them, the greatest at least.
proof fn lemma_hull_bounds(m0: Ext, m1: Ext, m2: Ext, m3: Ext)
    ensures
        ext_le(ext_min4(m0, m1, m2, m3), m0),
        ext_le(ext_min4(m0, m1, m2, m3), m1),
        ext_le(ext_min4(m0, m1, m2, m3), m2),
        ext_le(ext_min4(m0, m1, m2, m3), m3),
        ext_le(m0, ext_max4(m0, m1, m2, m3)),
        ext_le(m1, ext_max4(m0, m1, m2, m3)),
        ext_le(m2, ext_max4(m0, m1, m2, m3)),
        ext_le(m3, ext_max4(m0, m1, m2, m3)),
{
}

/// A point between two points that lie between two corners each lies in the
/// hull of the four corners.
proof fn lemma_in_hull(v: Ext, p: Ext, q: Ext, m0: Ext, m1: Ext, m2: Ext, m3: Ext)
    requires
        ext_between(v, p, q),
        ext_between(p, m0, m1),
        ext_between(q, m2, m3),
    ensures
        ext_le(ext_min4(m0, m1, m2, m3), v),
        ext_le(v, ext_max4(m0, m1, m2, m3)),
{
    lemma_hull_bounds(m0, m1, m2, m3);
}

proof fn lemma_ext_mul_commutes(a: Ext, b: Ext)
    ensures
        ext_mul(a, b) == ext_mul(b, a),
{
    match (a, b) {
        (Ext::Fin(x), Ext::Fin(y)) => {
            assert(x * y == y * x) by (nonlinear_arith);
        },
        _ => {
            assert(ext_sign(a) * ext_sign(b) == ext_sign(b) * ext_sign(a)) by (nonlinear_arith);
        },
    }
}

/// For a fixed integer factor, the product is monotone in the other factor:
/// `x * y` lies between `a * y` and `b * y` when `x` lies between `a` and `b`.
proof fn lemma_mul_between_left(a: Ext, b: Ext, x: int, y: int)
    requires
        ext_le(a, Ext::Fin(x)),
        ext_le(Ext::Fin(x), b),
    ensures
        ext_between(Ext::Fin(x * y), ext_mul(a, Ext::Fin(y)), ext_mul(b, Ext::Fin(y))),
{
    if let Ext::Fin(p) = a {
        if y >= 0 {
            assert(p * y <= x * y) by (nonlinear_arith)
                requires
                    p <= x,
                    y >= 0,
            ;
        } else {
            assert(p * y >= x * y) by (nonlinear_arith)
                requires
                    p <= x,
                    y < 0,
            ;
        }
    }
    if let Ext::Fin(q) = b {
        if y >= 0 {
            assert(x * y <= q * y) by (nonlinear_arith)
                requires
                    x <= q,
                    y >= 0,
            ;
        } else {
            assert(x * y >= q * y) by (nonlinear_arith)
                requires
                    x <= q,
                    y < 0,
            ;
        }
    }
    if y == 0 {
        assert(x * y == 0);
    }
}

/// Signs are monotone.
proof fn lemma_sign_monotone(c: Ext, v: Ext)
    requires
        ext_le(c, v),
    ensures
        ext_sign(c) <= ext_sign(v),
{
}

/// For a fixed bound, the product is monotone in the other factor: `e * y`
/// lies between `e * c` and `e * d` when `y` lies between `c` and `d`.
proof fn lemma_mul_between_right(e: Ext, c: Ext, d: Ext, y: int)
    requires
        ext_le(c, Ext::Fin(y)),
        ext_le(Ext::Fin(y), d),
    ensures
        ext_between(ext_mul(e, Ext::Fin(y)), ext_mul(e, c), ext_mul(e, d)),
{
    match e {
        Ext::Fin(x) => {
            lemma_mul_between_left(c, d, y, x);
            lemma_ext_mul_commutes(e, c);
            lemma_ext_mul_commutes(e, d);
            lemma_ext_mul_commutes(e, Ext::Fin(y));
            lemma_ext_mul_commutes(c, Ext::Fin(x));
            lemma_ext_mul_commutes(d, Ext::Fin(x));
            assert(y * x == x * y) by (nonlinear_arith);
        },
        _ => {
            lemma_sign_monotone(c, Ext::Fin(y));
            lemma_sign_monotone(Ext::Fin(y), d);
        },
    }
}

/// The product of intervals holds the product of any integers they hold.
pub proof fn law_mul_sound(a: (Ext, Ext), b: (Ext, Ext), x: int, y: int)
    requires
        iv_contains(a, x),
        iv_contains(b, y),
    ensures
        iv_contains(iv_mul(a, b), x * y),
{
    let p = ext_mul(a.0, Ext::Fin(y));
    let q = ext_mul(a.1, Ext::Fin(y));
    lemma_mul_between_left(a.0, a.1, x, y);
    lemma_mul_between_right(a.0, b.0, b.1, y);
    lemma_mul_between_right(a.1, b.0, b.1, y);
    lemma_in_hull(
        Ext::Fin(x * y),
        p,
        q,
        ext_mul(a.0, b.0),
        ext_mul(a.0, b.1),
        ext_mul(a.1, b.0),
        ext_mul(a.1, b.1),
    );
}


/// Dividing by `-y` negates the quotient rounded toward zero.
proof fn lemma_trunc_neg_divisor(x: int, y: int)
    requires
        y != 0,
    ensures
        trunc_div(x, -y) == -trunc_div(x, y),
{
}

/// A nonnegative dividend over a positive divisor has a nonnegative
/// quotient; a negative one a nonpositive quotient.
proof fn lemma_trunc_sign(x: int, y: int)
    requires
        y > 0,
    ensures
        x >= 0 ==> trunc_div(x, y) >= 0,
        x < 0 ==> trunc_div(x, y) <= 0,
{
    if x >= 0 {
        lemma_div_is_ordered(0, x, y);
    } else {
        lemma_div_is_ordered(0, -x, y);
    }
}

/// Over a positive divisor the quotient grows with the dividend.
proof fn lemma_trunc_monotone_dividend(x1: int, x2: int, y: int)
    requires
        x1 <= x2,
        y > 0,
    ensures
        trunc_div(x1, y) <= trunc_div(x2, y),
{
    if x1 >= 0 {
        lemma_div_is_ordered(x1, x2, y);
    } else if x2 < 0 {
        lemma_div_is_ordered(-x2, -x1, y);
    } else {
        lemma_trunc_sign(x1, y);
        lemma_trunc_sign(x2, y);
    }
}

/// Over growing positive divisors the quotient of a nonnegative dividend
/// shrinks and that of a negative dividend grows.
proof fn lemma_trunc_monotone_divisor(x: int, y1: int, y2: int)
    requires
        0 < y1 <= y2,
    ensures
        x >= 0 ==> trunc_div(x, y1) >= trunc_div(x, y2),
        x < 0 ==> trunc_div(x, y1) <= trunc_div(x, y2),
{
    if x >= 0 {
        lemma_div_is_ordered_by_denominator(x, y1, y2);
    } else {
        lemma_div_is_ordered_by_denominator(-x, y1, y2);
    }
}

/// For a fixed nonzero integer divisor, the quotient `x / y` lies between
/// `a / y` and `b / y` when `x` lies between `a` and `b`.
proof fn lemma_div_between_left(a: Ext, b: Ext, x: int, y: int)
    requires
        ext_le(a, Ext::Fin(x)),
        ext_le(Ext::Fin(x), b),
        y != 0,
    ensures
        ext_between(Ext::Fin(trunc_div(x, y)), ext_div(a, Ext::Fin(y)), ext_div(b, Ext::Fin(y))),
{
    if y > 0 {
        if let Ext::Fin(p) = a {
            lemma_trunc_monotone_dividend(p, x, y);
        }
        if let Ext::Fin(q) = b {
            lemma_trunc_monotone_dividend(x, q, y);
        }
        assert(ext_le(ext_div(a, Ext::Fin(y)), Ext::Fin(trunc_div(x, y))));
        assert(ext_le(Ext::Fin(trunc_div(x, y)), ext_div(b, Ext::Fin(y))));
    } else {
        lemma_trunc_neg_divisor(x, -y);
        if let Ext::Fin(p) = a {
            lemma_trunc_monotone_dividend(p, x, -y);
            lemma_trunc_neg_divisor(p, -y);
        }
        if let Ext::Fin(q) = b {
            lemma_trunc_monotone_dividend(x, q, -y);
            lemma_trunc_neg_divisor(q, -y);
        }
        assert(ext_le(Ext::Fin(trunc_div(x, y)), ext_div(a, Ext::Fin(y))));
        assert(ext_le(ext_div(b, Ext::Fin(y)), Ext::Fin(trunc_div(x, y))));
    }
}

/// For a fixed dividend and divisors of one strict sign, the quotient
/// `e / y` lies between `e / c` and `e / d` when `y` lies between `c` and
/// `d`.
proof fn lemma_div_between_right(e: Ext, c: Ext, d: Ext, y: int)
    requires
        ext_le(c, Ext::Fin(y)),
        ext_le(Ext::Fin(y), d),
        ext_lt(Ext::Fin(0), c) || ext_lt(d, Ext::Fin(0)),
    ensures
        ext_between(ext_div(e, Ext::Fin(y)), ext_div(e, c), ext_div(e, d)),
{
    if let Ext::Fin(x) = e {
        if ext_lt(Ext::Fin(0), c) {
            let c1 = c->Fin_0;
            lemma_trunc_monotone_divisor(x, c1, y);
            lemma_trunc_sign(x, y);
            if let Ext::Fin(d1) = d {
                lemma_trunc_monotone_divisor(x, y, d1);
            }
        } else {
            let d1 = d->Fin_0;
            lemma_trunc_neg_divisor(x, -y);
            lemma_trunc_neg_divisor(x, -d1);
            lemma_trunc_monotone_divisor(x, -d1, -y);
            lemma_trunc_sign(x, -y);
            if let Ext::Fin(c1) = c {
                lemma_trunc_neg_divisor(x, -c1);
                lemma_trunc_monotone_divisor(x, -y, -c1);
            }
        }
    }
}

/// The quotient of intervals holds the quotient (rounded toward zero) of
/// any integers they hold, when the divisor interval lies wholly on one side
/// of zero.
pub proof fn law_div_sound(a: (Ext, Ext), b: (Ext, Ext), x: int, y: int)
    requires
        iv_contains(a, x),
        iv_contains(b, y),
        ext_lt(Ext::Fin(0), b.0) || ext_lt(b.1, Ext::Fin(0)),
    ensures
        y != 0,
        iv_contains(iv_div(a, b), trunc_div(x, y)),
{
    let p = ext_div(a.0, Ext::Fin(y));
    let q = ext_div(a.1, Ext::Fin(y));
    lemma_div_between_left(a.0, a.1, x, y);
    lemma_div_between_right(a.0, b.0, b.1, y);
    lemma_div_between_right(a.1, b.0, b.1, y);
    lemma_in_hull(
        Ext::Fin(trunc_div(x, y)),
        p,
        q,
        ext_div(a.0, b.0),
        ext_div(a.0, b.1),
        ext_div(a.1, b.0),
        ext_div(a.1, b.1),
    );
}

/// The least of four points is one of them, and so is the greatest.
proof fn lemma_min4_max4_pick(c0: Ext, c1: Ext, c2: Ext, c3: Ext)
    ensures
        ext_min4(c0, c1, c2, c3) == c0 || ext_min4(c0, c1, c2, c3) == c1 || ext_min4(c0, c1, c2, c3)
            == c2 || ext_min4(c0, c1, c2, c3) == c3,
        ext_max4(c0, c1, c2, c3) == c0 || ext_max4(c0, c1, c2, c3) == c1 || ext_max4(c0, c1, c2, c3)
            == c2 || ext_max4(c0, c1, c2, c3) == c3,
{
}

/// The product of two intervals with integer bounds is tight: its low bound
/// and its high bound are each the product of an integer of the first
/// interval and an integer of the second. With soundness, it is exactly the
/// interval from the least to the greatest product of their integers.
pub proof fn law_mul_tight(al: int, ah: int, bl: int, bh: int)
    requires
        al <= ah,
        bl <= bh,
    ensures
        ({
            let a = (Ext::Fin(al), Ext::Fin(ah));
            let b = (Ext::Fin(bl), Ext::Fin(bh));
            &&& exists|x: int, y: int|
                iv_contains(a, x) && iv_contains(b, y) && iv_mul(a, b).0 == Ext::Fin(x * y)
            &&& exists|x: int, y: int|
                iv_contains(a, x) && iv_contains(b, y) && iv_mul(a, b).1 == Ext::Fin(x * y)
        }),
{
    let a = (Ext::Fin(al), Ext::Fin(ah));
    let b = (Ext::Fin(bl), Ext::Fin(bh));
    let c0 = ext_mul(a.0, b.0);
    let c1 = ext_mul(a.0, b.1);
    let c2 = ext_mul(a.1, b.0);
    let c3 = ext_mul(a.1, b.1);
    assert(iv_mul(a, b) == (ext_min4(c0, c1, c2, c3), ext_max4(c0, c1, c2, c3)));
    lemma_min4_max4_pick(c0, c1, c2, c3);
    assert(iv_contains(a, al) && iv_contains(a, ah) && iv_contains(b, bl) && iv_contains(b, bh));
    let lo = iv_mul(a, b).0;
    let hi = iv_mul(a, b).1;
    if lo == c0 {
        assert(iv_contains(a, al) && iv_contains(b, bl) && lo == Ext::Fin(al * bl));
    } else if lo == c1 {
        assert(iv_contains(a, al) && iv_contains(b, bh) && lo == Ext::Fin(al * bh));
    } else if lo == c2 {
        assert(iv_contains(a, ah) && iv_contains(b, bl) && lo == Ext::Fin(ah * bl));
    } else {
        assert(iv_contains(a, ah) && iv_contains(b, bh) && lo == Ext::Fin(ah * bh));
    }
    if hi == c0 {
        assert(iv_contains(a, al) && iv_contains(b, bl) && hi == Ext::Fin(al * bl));
    } else if hi == c1 {
        assert(iv_contains(a, al) && iv_contains(b, bh) && hi == Ext::Fin(al * bh));
    } else if hi == c2 {
        assert(iv_contains(a, ah) && iv_contains(b, bl) && hi == Ext::Fin(ah * bl));
    } else {
        assert(iv_contains(a, ah) && iv_contains(b, bh) && hi == Ext::Fin(ah * bh));
    }
}

} // verus!
