//! Single-precision values as their 32-bit patterns: the tests and
//! selections that need no arithmetic. A pattern is a sign bit, eight
//! exponent bits and twenty-three fraction bits; comparisons follow the
//! IEEE-754 rules, under which a NaN is neither above nor below anything and
//! the two zeros are equal.

use vstd::arithmetic::mul::lemma_mul_strict_inequality;
use vstd::arithmetic::power2::{
    lemma2_to64, lemma_pow2_adds, lemma_pow2_pos, lemma_pow2_strictly_increases,
    lemma_pow2_unfold, pow2,
};
use vstd::prelude::*;

verus! {

/// The sign bit of a pattern.
pub const SIGN_BIT: u32 = 0x8000_0000;

/// Pattern of positive infinity: all exponent bits set, no fraction bit.
pub const INF_BITS: u32 = 0x7f80_0000;

/// Pattern of a quiet NaN with an empty payload.
pub const NAN_BITS: u32 = 0x7fc0_0000;

/// Pattern of `0.0`.
pub const ZERO_BITS: u32 = 0;

/// Pattern of `1.0`.
pub const ONE_BITS: u32 = 0x3f80_0000;

/// One more than the largest fraction: the leading bit of a normal value,
/// which the pattern does not store.
pub const FRACTION_ONE: u32 = 0x80_0000;

/// One more than the largest numerator of a unit fraction: `2^24`.
pub const UNIT_ONE: u32 = 0x100_0000;

/// The pattern without its sign bit.
pub open spec fn magnitude(b: u32) -> u32 {
    if b >= SIGN_BIT {
        (b - SIGN_BIT) as u32
    } else {
        b
    }
}

pub open spec fn is_nan(b: u32) -> bool {
    magnitude(b) > INF_BITS
}

/// Plus or minus zero.
pub open spec fn is_zero(b: u32) -> bool {
    magnitude(b) == 0
}

/// Neither infinite nor NaN.
pub open spec fn is_finite(b: u32) -> bool {
    magnitude(b) < INF_BITS
}

/// The pattern with its sign bit flipped: the negated value.
pub open spec fn negated(b: u32) -> u32 {
    if b >= SIGN_BIT {
        (b - SIGN_BIT) as u32
    } else {
        (b + SIGN_BIT) as u32
    }
}

/// Where a pattern that is no NaN stands on the number line, in units that
/// keep the order of the values: both zeros stand at 0.
pub open spec fn rank(b: u32) -> int {
    if b >= SIGN_BIT {
        -(magnitude(b) as int)
    } else {
        b as int
    }
}

/// The exponent field of a pattern.
pub open spec fn exponent(b: u32) -> nat {
    (magnitude(b) / FRACTION_ONE) as nat
}

/// The fraction field of a pattern.
pub open spec fn fraction(b: u32) -> nat {
    (magnitude(b) % FRACTION_ONE) as nat
}

/// The magnitude of the value of a pattern that is neither infinite nor
/// NaN, in units of `2^-149`, the smallest value above zero: the fraction
/// alone where the exponent field is zero, else the fraction with its
/// leading bit, doubled once for every step of the exponent above one.
pub open spec fn size(b: u32) -> nat {
    if exponent(b) == 0 {
        fraction(b)
    } else {
        ((FRACTION_ONE + fraction(b)) * pow2((exponent(b) - 1) as nat)) as nat
    }
}

/// The value of a pattern that is neither infinite nor NaN, in units of
/// `2^-149`.
pub open spec fn scaled(b: u32) -> int {
    if b >= SIGN_BIT {
        -(size(b) as int)
    } else {
        size(b) as int
    }
}

/// Whether the fraction `x / 2^24` is below the value of `eps`. The
/// fraction is `x * 2^125` units of `2^-149`.
pub open spec fn unit_below(x: u32, eps: u32) -> bool {
    if is_nan(eps) {
        false
    } else if is_finite(eps) {
        x * pow2(125) < scaled(eps)
    } else {
        eps < SIGN_BIT
    }
}

/// `a > b` as values.
pub open spec fn gt(a: u32, b: u32) -> bool {
    !is_nan(a) && !is_nan(b) && rank(a) > rank(b)
}

/// `a < b` as values.
pub open spec fn lt(a: u32, b: u32) -> bool {
    gt(b, a)
}

/// `a <= b` as values.
pub open spec fn le(a: u32, b: u32) -> bool {
    !is_nan(a) && !is_nan(b) && rank(a) <= rank(b)
}

/// Some element of `xs` is infinite or NaN.
pub open spec fn any_non_finite(xs: Seq<u32>) -> bool {
    exists|i: int| 0 <= i < xs.len() && !is_finite(#[trigger] xs[i])
}

/// `v` limited to `[lo, hi]`; a NaN stays as it is.
pub open spec fn clamped(v: u32, lo: u32, hi: u32) -> u32 {
    if lt(v, lo) {
        lo
    } else if gt(v, hi) {
        hi
    } else {
        v
    }
}

/// `v` limited to `[-max_abs, max_abs]`, the upper limit tried first.
pub open spec fn clamped_abs(v: u32, max_abs: u32) -> u32 {
    let u = if gt(v, max_abs) {
        max_abs
    } else {
        v
    };
    if lt(u, negated(max_abs)) {
        negated(max_abs)
    } else {
        u
    }
}

/// Index of the largest of the first `n` elements of `v`, scanning from the
/// front and moving only to a strictly greater element.
pub open spec fn argmax_upto(v: Seq<u32>, n: nat) -> nat
    decreases n,
{
    if n <= 1 {
        0
    } else {
        let p = argmax_upto(v, (n - 1) as nat);
        if gt(v[n - 1], v[p as int]) {
            (n - 1) as nat
        } else {
            p
        }
    }
}

/// The least of the first `n` elements of `v`, scanning from the front
/// and moving only to a strictly smaller element; zero where there is none.
pub open spec fn min_upto(v: Seq<u32>, n: nat) -> u32
    decreases n,
{
    if n == 0 {
        ZERO_BITS
    } else if n == 1 {
        v[0]
    } else {
        let m = min_upto(v, (n - 1) as nat);
        if lt(v[n - 1], m) {
            v[n - 1]
        } else {
            m
        }
    }
}

/// The greatest of the first `n` elements of `v`, scanning from the front
/// and moving only to a strictly greater element; zero where there is none.
pub open spec fn max_upto(v: Seq<u32>, n: nat) -> u32
    decreases n,
{
    if n == 0 {
        ZERO_BITS
    } else if n == 1 {
        v[0]
    } else {
        let m = max_upto(v, (n - 1) as nat);
        if gt(v[n - 1], m) {
            v[n - 1]
        } else {
            m
        }
    }
}

/// Derivative of the Huber loss with threshold one at the error `e`: `e`
/// itself where `|e| <= 1`, else the sign of `e` as plus or minus one; a
/// quiet NaN where `e` is a NaN.
pub open spec fn huber_slope(e: u32) -> u32 {
    if le(magnitude(e), ONE_BITS) {
        e
    } else if is_nan(e) {
        NAN_BITS
    } else if e >= SIGN_BIT {
        (ONE_BITS + SIGN_BIT) as u32
    } else {
        ONE_BITS
    }
}

/// A vector of `n` zeros but for `g` at index `a`.
pub open spec fn one_hot_seq(n: nat, a: nat, g: u32) -> Seq<u32> {
    Seq::new(n, |i: int| if i == a { g } else { ZERO_BITS })
}

pub fn is_finite_bits(b: u32) -> (r: bool)
    ensures
        r == is_finite(b),
{
    let m: u32 = if b >= SIGN_BIT {
        b - SIGN_BIT
    } else {
        b
    };
    m < INF_BITS
}

pub fn is_zero_bits(b: u32) -> (r: bool)
    ensures
        r == is_zero(b),
{
    b == 0 || b == SIGN_BIT
}

pub fn is_nan_bits(b: u32) -> (r: bool)
    ensures
        r == is_nan(b),
{
    let m: u32 = if b >= SIGN_BIT {
        b - SIGN_BIT
    } else {
        b
    };
    m > INF_BITS
}

pub fn negate_bits(b: u32) -> (r: u32)
    ensures
        r == negated(b),
{
    if b >= SIGN_BIT {
        b - SIGN_BIT
    } else {
        b + SIGN_BIT
    }
}

fn rank_bits(b: u32) -> (r: i64)
    ensures
        r == rank(b),
{
    if b >= SIGN_BIT {
        let m: u32 = b - SIGN_BIT;
        -(m as i64)
    } else {
        b as i64
    }
}

pub fn gt_bits(a: u32, b: u32) -> (r: bool)
    ensures
        r == gt(a, b),
{
    !is_nan_bits(a) && !is_nan_bits(b) && rank_bits(a) > rank_bits(b)
}

pub fn lt_bits(a: u32, b: u32) -> (r: bool)
    ensures
        r == lt(a, b),
{
    gt_bits(b, a)
}

pub fn le_bits(a: u32, b: u32) -> (r: bool)
    ensures
        r == le(a, b),
{
    !is_nan_bits(a) && !is_nan_bits(b) && rank_bits(a) <= rank_bits(b)
}

/// The pattern of the fraction `x / 2^24`, which single precision holds
/// exactly.
pub fn unit_to_bits(x: u32) -> (r: u32)
    requires
        x < UNIT_ONE,
    ensures
        r < SIGN_BIT,
        is_finite(r),
        scaled(r) == x * pow2(125),
{
    if x == 0 {
        assert(0 * pow2(125) == 0);
        return 0;
    }
    // Double until the leading bit of a normal value is reached.
    let mut m: u32 = x;
    let mut k: u32 = 0;
    proof {
        lemma2_to64();
    }
    while m < FRACTION_ONE
        invariant
            1 <= x,
            m == x * pow2(k as nat),
            pow2(k as nat) <= m < UNIT_ONE,
            k <= 23,
            pow2(23) == FRACTION_ONE,
        decreases UNIT_ONE - m,
    {
        proof {
            lemma_pow2_pos(k as nat);
            lemma_pow2_unfold((k + 1) as nat);
            assert(x * (2 * pow2(k as nat)) == 2 * (x * pow2(k as nat))) by (nonlinear_arith);
            if k >= 23 {
                assert(pow2(k as nat) >= pow2(23)) by {
                    if k > 23 {
                        lemma_pow2_strictly_increases(23, k as nat);
                    }
                }
            }
        }
        m = m * 2;
        k += 1;
    }
    let e: u32 = 126 - k;
    let r: u32 = e * FRACTION_ONE + (m - FRACTION_ONE);
    proof {
        assert(magnitude(r) == r);
        assert(exponent(r) == e && fraction(r) == m - FRACTION_ONE) by {
            vstd::arithmetic::div_mod::lemma_fundamental_div_mod_converse(
                r as int,
                FRACTION_ONE as int,
                e as int,
                (m - FRACTION_ONE) as int,
            );
        }
        let low = pow2((e - 1) as nat);
        lemma_pow2_adds(k as nat, (e - 1) as nat);
        assert(pow2(125) == pow2(k as nat) * low);
        assert(size(r) == m * low);
        assert(m * low == x * (pow2(k as nat) * low)) by (nonlinear_arith)
            requires
                m == x * pow2(k as nat),
        ;
    }
    r
}

/// Whether the fraction `x / 2^24` is below the value of `eps`.
pub fn unit_below_bits(x: u32, eps: u32) -> (r: bool)
    requires
        x < UNIT_ONE,
    ensures
        r == unit_below(x, eps),
{
    let u: u32 = unit_to_bits(x);
    proof {
        below_is_less_than(x, u, eps);
    }
    lt_bits(u, eps)
}

pub fn has_non_finite(xs: &[u32]) -> (r: bool)
    ensures
        r == any_non_finite(xs@),
{
    let mut i: usize = 0;
    while i < xs.len()
        invariant
            i <= xs.len(),
            forall|k: int| 0 <= k < i ==> is_finite(#[trigger] xs@[k]),
        decreases xs.len() - i,
    {
        if !is_finite_bits(xs[i]) {
            return true;
        }
        i += 1;
    }
    false
}

/// Limits `v` to `[lo, hi]`.
pub fn clamp(v: u32, lo: u32, hi: u32) -> (r: u32)
    requires
        le(lo, hi),
    ensures
        r == clamped(v, lo, hi),
{
    if lt_bits(v, lo) {
        lo
    } else if gt_bits(v, hi) {
        hi
    } else {
        v
    }
}

/// Limits `v` to `[-max_abs, max_abs]`.
pub fn clamp_abs(v: u32, max_abs: u32) -> (r: u32)
    ensures
        r == clamped_abs(v, max_abs),
{
    let u: u32 = if gt_bits(v, max_abs) {
        max_abs
    } else {
        v
    };
    let low: u32 = negate_bits(max_abs);
    if lt_bits(u, low) {
        low
    } else {
        u
    }
}

/// The next pattern up has the larger size.
proof fn size_steps_up(m: u32)
    requires
        m < SIGN_BIT - 1,
    ensures
        size(m) < size((m + 1) as u32),
{
    let e = exponent(m);
    let f = fraction(m);
    let n = (m + 1) as u32;
    assert(magnitude(m) == m && magnitude(n) == n);
    if f + 1 < FRACTION_ONE {
        assert(exponent(n) == e && fraction(n) == f + 1);
        if e > 0 {
            let p = pow2((e - 1) as nat);
            lemma_pow2_pos((e - 1) as nat);
            lemma_mul_strict_inequality(
                (FRACTION_ONE + f) as int,
                (FRACTION_ONE + f + 1) as int,
                p as int,
            );
        }
    } else {
        assert(exponent(n) == e + 1 && fraction(n) == 0);
        lemma2_to64();
        if e > 0 {
            lemma_pow2_unfold(e);
            let p = pow2((e - 1) as nat);
            lemma_pow2_pos((e - 1) as nat);
            assert(pow2(e) == 2 * p);
            assert(FRACTION_ONE * (2 * p) == (2 * FRACTION_ONE) * p) by (nonlinear_arith);
            lemma_mul_strict_inequality(
                (FRACTION_ONE + f) as int,
                (2 * FRACTION_ONE) as int,
                p as int,
            );
        }
    }
}

/// Of two patterns without sign the greater has the greater size.
pub proof fn size_grows_with_magnitude(a: u32, b: u32)
    requires
        a < b < SIGN_BIT,
    ensures
        size(a) < size(b),
    decreases b - a,
{
    if a + 1 < b {
        size_grows_with_magnitude(a, (b - 1) as u32);
    }
    size_steps_up((b - 1) as u32);
}

/// The order of ranks is the order of values: of two patterns that are no
/// NaN, one stands below the other on the number line exactly where its
/// value is the smaller, and both stand at one place exactly where their
/// values are equal.
pub proof fn rank_orders_values(a: u32, b: u32)
    ensures
        rank(a) < rank(b) <==> scaled(a) < scaled(b),
        rank(a) == rank(b) <==> scaled(a) == scaled(b),
{
    let x = magnitude(a);
    let y = magnitude(b);
    assert(size(a) == size(x) && size(b) == size(y));
    if x < y {
        size_grows_with_magnitude(x, y);
    }
    if y < x {
        size_grows_with_magnitude(y, x);
    }
    if 0 < x {
        size_grows_with_magnitude(0, x);
    }
    if 0 < y {
        size_grows_with_magnitude(0, y);
    }
    assert(size(0) == 0);
}

/// To hold the fraction `x / 2^24` against a value is to hold its
/// pattern `u` against the value's pattern.
pub proof fn below_is_less_than(x: u32, u: u32, eps: u32)
    requires
        u < SIGN_BIT,
        is_finite(u),
        scaled(u) == x * pow2(125),
    ensures
        lt(u, eps) == unit_below(x, eps),
{
    rank_orders_values(u, eps);
}

/// A value that is no NaN, limited to `[lo, hi]`, lies in `[lo, hi]`.
pub proof fn clamped_is_within(v: u32, lo: u32, hi: u32)
    requires
        le(lo, hi),
        !is_nan(v),
    ensures
        le(lo, clamped(v, lo, hi)),
        le(clamped(v, lo, hi), hi),
{
}

/// A value that is no NaN, limited by a bound that is no NaN and not below
/// zero, lies between the negated bound and the bound.
pub proof fn clamped_abs_is_within(v: u32, max_abs: u32)
    requires
        !is_nan(v),
        !is_nan(max_abs),
        rank(max_abs) >= 0,
    ensures
        le(negated(max_abs), clamped_abs(v, max_abs)),
        le(clamped_abs(v, max_abs), max_abs),
{
}

/// Index of the largest element, the first one among equals.
pub fn argmax(v: &[u32]) -> (r: usize)
    requires
        v@.len() > 0,
    ensures
        r == argmax_upto(v@, v@.len()),
        r < v@.len(),
{
    let mut best_i: usize = 0;
    let mut best_v: u32 = v[0];
    let mut i: usize = 1;
    while i < v.len()
        invariant
            1 <= i <= v.len(),
            best_i == argmax_upto(v@, i as nat),
            best_i < i,
            best_v == v@[best_i as int],
        decreases v.len() - i,
    {
        if gt_bits(v[i], best_v) {
            best_v = v[i];
            best_i = i;
        }
        i += 1;
    }
    best_i
}

/// On a vector without NaN, `argmax_upto` names an element that nothing
/// exceeds and that exceeds everything before it.
pub proof fn argmax_is_first_maximum(v: Seq<u32>, n: nat)
    requires
        1 <= n <= v.len(),
        forall|i: int| 0 <= i < n ==> !is_nan(#[trigger] v[i]),
    ensures
        argmax_upto(v, n) < n,
        forall|i: int| 0 <= i < n ==> !gt(#[trigger] v[i], v[argmax_upto(v, n) as int]),
        forall|i: int|
            0 <= i < argmax_upto(v, n) ==> gt(v[argmax_upto(v, n) as int], #[trigger] v[i]),
    decreases n,
{
    if n > 1 {
        argmax_is_first_maximum(v, (n - 1) as nat);
    }
}

/// The least and the greatest element of a vector, for diagnostics; both
/// zero for an empty one.
pub fn min_max(v: &[u32]) -> (r: (u32, u32))
    ensures
        r.0 == min_upto(v@, v@.len()),
        r.1 == max_upto(v@, v@.len()),
{
    if v.len() == 0 {
        return (ZERO_BITS, ZERO_BITS);
    }
    let mut mn: u32 = v[0];
    let mut mx: u32 = v[0];
    let mut i: usize = 1;
    while i < v.len()
        invariant
            1 <= i <= v.len(),
            mn == min_upto(v@, i as nat),
            mx == max_upto(v@, i as nat),
        decreases v.len() - i,
    {
        if lt_bits(v[i], mn) {
            mn = v[i];
        }
        if gt_bits(v[i], mx) {
            mx = v[i];
        }
        i += 1;
    }
    (mn, mx)
}

/// Derivative of the Huber loss with threshold one.
pub fn huber_grad(e: u32) -> (r: u32)
    ensures
        r == huber_slope(e),
{
    let m: u32 = if e >= SIGN_BIT {
        e - SIGN_BIT
    } else {
        e
    };
    if le_bits(m, ONE_BITS) {
        e
    } else if is_nan_bits(e) {
        NAN_BITS
    } else if e >= SIGN_BIT {
        ONE_BITS + SIGN_BIT
    } else {
        ONE_BITS
    }
}

/// The output gradient of one sample: zero but for `g` at the action taken.
pub fn one_hot(n: usize, a: usize, g: u32) -> (r: Vec<u32>)
    requires
        a < n,
    ensures
        r@ == one_hot_seq(n as nat, a as nat, g),
{
    let mut r: Vec<u32> = Vec::new();
    let mut i: usize = 0;
    while i < n
        invariant
            i <= n,
            r@.len() == i,
            forall|k: int| 0 <= k < i ==> r@[k] == (if k == a { g } else { ZERO_BITS }),
        decreases n - i,
    {
        r.push(if i == a { g } else { ZERO_BITS });
        i += 1;
    }
    assert(r@ =~= one_hot_seq(n as nat, a as nat, g));
    r
}

} // verus!
