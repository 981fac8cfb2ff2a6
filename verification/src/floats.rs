//! What single- and double-precision arithmetic comes to, computed exactly.
//!
//! A positive floating-point number is a fraction `m / u` where `u` is a power
//! of two and `m` has as many bits as the precision holds. The quotient or the
//! product of two such numbers is the nearest number of that form, ties to the
//! even one.

use vstd::prelude::*;

use crate::sizes;
use crate::text;

verus! {

/// Half of the first whole number that single precision cannot tell from its
/// neighbours.
pub const SINGLE: u64 = 0x80_0000;

/// Half of the first whole number that double precision cannot tell from its
/// neighbours.
pub const DOUBLE: u64 = 0x10_0000_0000_0000;

/// How far `num * u` is from reaching `den * t`.
pub open spec fn shortfall(num: nat, den: nat, t: nat, u: nat) -> nat {
    if num * u >= den * t {
        0
    } else {
        (den * t - num * u) as nat
    }
}

/// The first of `u`, `2 u`, `4 u`, ... that makes `num / den` at least `t`.
pub open spec fn unit_for(num: nat, den: nat, t: nat, u: nat) -> nat
    decreases shortfall(num, den, t, u),
    via unit_for_decreases
{
    if num == 0 || u == 0 || num * u >= den * t {
        u
    } else {
        unit_for(num, den, t, 2 * u)
    }
}

#[via_fn]
proof fn unit_for_decreases(num: nat, den: nat, t: nat, u: nat) {
    assert(num * (2 * u) == 2 * (num * u)) by (nonlinear_arith);
    if num > 0 && u > 0 {
        assert(num * u > 0) by (nonlinear_arith)
            requires
                num > 0,
                u > 0,
        ;
    }
}

/// The floating-point number nearest to `num / den`, where that is less than
/// `2 t`: its numerator over [`unit_for`].
pub open spec fn significand(num: nat, den: nat, t: nat) -> nat {
    sizes::rounded(num * unit_for(num, den, t, 1), den)
}

/// The spacing of single-precision numbers around a whole number, at least 1.
pub open spec fn single_gap(n: nat) -> nat
    decreases n,
{
    if n < 2 * SINGLE {
        1
    } else {
        2 * single_gap(n / 2)
    }
}

/// The single-precision number nearest to a whole number.
pub open spec fn single_whole(n: nat) -> nat {
    sizes::rounded(n, single_gap(n)) * single_gap(n)
}

/// The floating-point number nearest to `num / den`, as a fraction.
pub fn quotient(num: u128, den: u128, t: u128) -> (r: (u128, u128))
    requires
        0 < num <= 0x10_0000_0000_0000_0000_0000_0000,
        0 < den <= 0x4000_0000_0000_0000,
        0 < t <= 0x10_0000_0000_0000,
    ensures
        r.1 == unit_for(num as nat, den as nat, t as nat, 1),
        r.0 == significand(num as nat, den as nat, t as nat),
        t <= r.0 <= 0x2000_0000_0000_0000_0000_0000_0000_0000,
        num < 2 * (den * t) ==> r.0 <= 2 * t,
        0 < r.1 <= 2 * (den * t),
        num >= den ==> r.1 <= 2 * t,
{
    let ghost n = num as nat;
    let ghost d = den as nat;
    let ghost tt = t as nat;
    proof {
        assert(0 < den * t <= 0x4000_0000_0000_0000 * 0x10_0000_0000_0000) by (nonlinear_arith)
            requires
                0 < den <= 0x4000_0000_0000_0000,
                0 < t <= 0x10_0000_0000_0000,
        ;
    }
    let goal: u128 = den * t;
    let mut u: u128 = 1;
    let mut product: u128 = num;
    while product < goal
        invariant
            0 < num <= 0x10_0000_0000_0000_0000_0000_0000,
            0 < u,
            n == num,
            d == den,
            tt == t,
            goal == den * t,
            0 < goal <= 0x4000_0000_0000_0000 * 0x10_0000_0000_0000,
            product == num * u,
            u == 1 || product < 2 * goal,
            u <= product,
            unit_for(n, d, tt, 1) == unit_for(n, d, tt, u as nat),
        decreases
                if product < goal {
                    goal - product
                } else {
                    0
                },
    {
        proof {
            assert(num * (2 * u) == 2 * (num * u)) by (nonlinear_arith);
        }
        u = 2 * u;
        product = 2 * product;
    }
    proof {
        let p = product as nat;
        assert(p / d >= tt) by (nonlinear_arith)
            requires
                p >= d * tt,
                d > 0,
        ;
        if p < 2 * (d * tt) {
            assert(p / d < 2 * tt) by (nonlinear_arith)
                requires
                    p < 2 * (d * tt),
                    d > 0,
            ;
            if num >= den {
                assert(u <= 2 * t) by (nonlinear_arith)
                    requires
                        num * u < 2 * (den * t),
                        num >= den,
                        den > 0,
                        u > 0,
                        t > 0,
                ;
            }
        }
    }
    let m: u128 = sizes::round(product, den);
    (m, u)
}

/// The single-precision number nearest to a whole number.
pub fn nearest_single(n: u32) -> (r: u128)
    ensures
        r == single_whole(n as nat),
        r <= n + 0x200,
        n > 0 ==> r > 0,
{
    let mut unit: u128 = 1;
    let mut m: u32 = n;
    let ghost total = single_gap(n as nat);
    proof {
        reveal_with_fuel(single_gap, 10);
        assert(total <= 0x100);
    }
    while m >= 2 * SINGLE as u32
        invariant
            1 <= unit,
            total == unit * single_gap(m as nat),
            total <= 0x100,
            total == single_gap(n as nat),
            m >= 1 || n == 0,
            n < 2 * SINGLE ==> unit == 1,
            m <= n,
        decreases m,
    {
        proof {
            let h = single_gap(m as nat / 2);
            assert(single_gap(m as nat) == 2 * h);
            assert(unit * (2 * h) == (2 * unit) * h) by (nonlinear_arith);
            lemma_gap_positive(m as nat / 2);
            assert(2 * unit <= total) by (nonlinear_arith)
                requires
                    total == (2 * unit) * h,
                    h >= 1,
                    unit >= 1,
            ;
        }
        unit = 2 * unit;
        m = m / 2;
    }
    assert(unit == total) by (nonlinear_arith)
        requires
            total == unit * single_gap(m as nat),
            single_gap(m as nat) == 1,
    ;
    let q: u128 = sizes::round(n as u128, unit);
    proof {
        let nn = n as nat;
        let w = unit as nat;
        let k = nn / w;
        assert(w * k + nn % w == nn && nn % w < w) by (nonlinear_arith)
            requires
                0 < w,
                k == nn / w,
        ;
        assert(q * unit <= nn + w && (nn >= w ==> q * unit > 0)) by (nonlinear_arith)
            requires
                q == k || q == k + 1,
                w * k + nn % w == nn,
                nn % w < w,
                unit == w,
                w > 0,
        ;
        if nn < w {
            assert(nn < 0x100);
        }
    }
    q * unit
}

proof fn lemma_gap_positive(n: nat)
    ensures
        single_gap(n) >= 1,
    decreases n,
{
    if n >= 2 * SINGLE {
        lemma_gap_positive(n / 2);
    }
}

// ---------------------------------------------------------------------------
// Counts.
// ---------------------------------------------------------------------------
/// A count in units of `den`, with a suffix: one decimal below ten units.
pub open spec fn in_units(n: nat, den: nat, suffix: Seq<char>) -> Seq<char> {
    let x = sizes::nearest(n);
    let u = unit_for(x, den, DOUBLE as nat, 1);
    let m = significand(x, den, DOUBLE as nat);
    (if m >= 10 * u {
        text::decimal(sizes::rounded(m, u))
    } else {
        sizes::one_decimal(m, u)
    }) + suffix
}

/// "999", "1.2K", "45K", "3.4M".
pub open spec fn count_label(n: nat) -> Seq<char> {
    if n >= 1_000_000 {
        in_units(n, 1_000_000, "M"@)
    } else if n >= 1_000 {
        in_units(n, 1_000, "K"@)
    } else {
        text::decimal(n)
    }
}

/// `num / den` with one decimal.
fn push_tenths(num: u128, den: u128) -> (s: String)
    requires
        0 < den <= 0x4000_0000_0000_0000,
        num <= 0x20_0000_0000_0000,
    ensures
        s@ == sizes::one_decimal(num as nat, den as nat),
{
    let t: u128 = sizes::round(num * 10, den);
    let mut s = text::decimal_string((t / 10) as u64);
    s.push('.');
    s.push(text::digit_char((t % 10) as u64));
    assert(s@ =~= sizes::one_decimal(num as nat, den as nat));
    s
}

/// A count in units of `den`, with a suffix.
fn count_in(n: u64, den: u128, suffix: &str) -> (s: String)
    requires
        1000 <= den <= 1_000_000,
        n >= den,
        den < 1_000_000 ==> n < 1_000_000,
    ensures
        s@ == in_units(n as nat, den as nat, suffix@),
{
    let x: u128 = sizes::nearest_double(n);
    proof {
        sizes::lemma_nearest(n as nat);
        assert(1000 * 0x10_0000_0000_0000 <= den * 0x10_0000_0000_0000 <= 1_000_000
            * 0x10_0000_0000_0000) by (nonlinear_arith)
            requires
                1000 <= den <= 1_000_000,
        ;
    }
    let (m, u) = quotient(x, den, DOUBLE as u128);
    let mut s = if m >= 10 * u {
        text::decimal_string(sizes::round(m, u) as u64)
    } else {
        push_tenths(m, u)
    };
    s.append(suffix);
    s
}

/// A count at a glance.
pub fn compact_count(n: u64) -> (s: String)
    ensures
        s@ == count_label(n as nat),
{
    if n >= 1_000_000 {
        count_in(n, 1_000_000, "M")
    } else if n >= 1_000 {
        count_in(n, 1_000, "K")
    } else {
        text::decimal_string(n)
    }
}

// ---------------------------------------------------------------------------
// Display boxes.
// ---------------------------------------------------------------------------
/// The factor that fits a side of `n` pixels into `limit`: numerator and
/// denominator of the single-precision quotient.
pub open spec fn fit(limit: nat, n: nat) -> (nat, nat) {
    let w = single_whole(n);
    (significand(limit, w, SINGLE as nat), unit_for(limit, w, SINGLE as nat, 1))
}

/// The smaller of two fractions.
pub open spec fn smaller(a: (nat, nat), b: (nat, nat)) -> (nat, nat) {
    if a.0 * b.1 <= b.0 * a.1 {
        a
    } else {
        b
    }
}

/// The factor that an image is shown at: never enlarged.
pub open spec fn scale_of(max_w: nat, max_h: nat, w: nat, h: nat) -> (nat, nat) {
    smaller(smaller(fit(max_w, w), fit(max_h, h)), (1, 1))
}

/// A side of `n` pixels at a factor: the single-precision product, rounded to
/// whole pixels, half away from zero, and at least one.
pub open spec fn scaled(n: nat, f: (nat, nat)) -> nat {
    let num = single_whole(n) * f.0;
    let m = significand(num, f.1, SINGLE as nat);
    let u = unit_for(num, f.1, SINGLE as nat, 1);
    let r = (2 * m + u) / (2 * u);
    if r < 1 {
        1
    } else if r > 65535 {
        65535
    } else {
        r
    }
}

/// The box of an image with declared dimensions.
pub open spec fn box_of(max_w: nat, max_h: nat, w: nat, h: nat) -> (nat, nat) {
    let f = scale_of(max_w, max_h, w, h);
    (scaled(w, f), scaled(h, f))
}

/// A fraction that is at most a whole number rounds to at most that.
proof fn lemma_rounded_at_most(num: nat, den: nat, k: nat)
    requires
        den > 0,
        num <= k * den,
    ensures
        sizes::rounded(num, den) <= k,
{
    let q = num / den;
    let r = num % den;
    assert(num == den * q + r && r < den) by (nonlinear_arith)
        requires
            den > 0,
            q == num / den,
            r == num % den,
    ;
    assert(q < k || (q == k && r == 0)) by (nonlinear_arith)
        requires
            num == den * q + r,
            num <= k * den,
            den > 0,
            r >= 0,
            q >= 0,
            k >= 0,
    ;
}

/// A fraction that is at least a whole number rounds to at least that.
proof fn lemma_rounded_at_least(num: nat, den: nat, k: nat)
    requires
        den > 0,
        num >= k * den,
    ensures
        sizes::rounded(num, den) >= k,
{
    assert(num / den >= k) by (nonlinear_arith)
        requires
            den > 0,
            num >= k * den,
    ;
}

/// Rounding adds half at most.
proof fn lemma_rounded_near(num: nat, den: nat)
    requires
        den > 0,
    ensures
        2 * (sizes::rounded(num, den) * den) <= 2 * num + den,
{
    let q = num / den;
    let r = num % den;
    assert(num == den * q + r && r < den) by (nonlinear_arith)
        requires
            den > 0,
            q == num / den,
            r == num % den,
    ;
    assert((q + 1) * den == den * q + den) by (nonlinear_arith);
    assert(q * den == den * q) by (nonlinear_arith);
}

/// The unit is one that reaches the goal.
proof fn lemma_unit_reaches(num: nat, den: nat, t: nat, u: nat)
    requires
        num > 0,
        u > 0,
    ensures
        num * unit_for(num, den, t, u) >= den * t,
        unit_for(num, den, t, u) >= u,
    decreases shortfall(num, den, t, u),
{
    if num * u < den * t {
        assert(num * (2 * u) == 2 * (num * u)) by (nonlinear_arith);
        assert(num * u > 0) by (nonlinear_arith)
            requires
                num > 0,
                u > 0,
        ;
        lemma_unit_reaches(num, den, t, 2 * u);
    }
}

/// A whole number of few bits is a single-precision number.
proof fn lemma_single_exact(n: nat)
    requires
        n < 2 * SINGLE,
    ensures
        single_whole(n) == n,
{
    assert(single_gap(n) == 1);
    assert(n / 1 == n && n % 1 == 0) by (nonlinear_arith);
    assert(sizes::rounded(n, 1) == n);
    assert(single_whole(n) == n * 1);
}

/// A side grows at no factor of at most one.
proof fn lemma_scaled_shrinks(n: nat, f: (nat, nat))
    requires
        n > 0,
        0 < f.0 <= f.1,
    ensures
        1 <= scaled(n, f) <= n,
{
    if n < 2 * SINGLE {
        lemma_single_exact(n);
        let num = n * f.0;
        let u = unit_for(num, f.1, SINGLE as nat, 1);
        let m = significand(num, f.1, SINGLE as nat);
        assert(num > 0) by (nonlinear_arith)
            requires
                n > 0,
                f.0 > 0,
                num == n * f.0,
        ;
        lemma_unit_reaches(num, f.1, SINGLE as nat, 1);
        assert(num * u <= (n * u) * f.1) by (nonlinear_arith)
            requires
                num == n * f.0,
                f.0 <= f.1,
                n >= 0,
                u >= 0,
        ;
        lemma_rounded_at_most(num * u, f.1, n * u);
        assert((2 * m + u) / (2 * u) <= n) by (nonlinear_arith)
            requires
                m <= n * u,
                u > 0,
        ;
    }
}

/// At the factor one a side of few bits stays as it is.
proof fn lemma_scaled_keeps(n: nat, f: (nat, nat))
    requires
        0 < n <= 1000,
        0 < f.0 == f.1,
    ensures
        scaled(n, f) == n,
{
    lemma_scaled_shrinks(n, f);
    lemma_single_exact(n);
    let num = n * f.0;
    let u = unit_for(num, f.1, SINGLE as nat, 1);
    let m = significand(num, f.1, SINGLE as nat);
    assert(num > 0) by (nonlinear_arith)
        requires
            n > 0,
            f.0 > 0,
            num == n * f.0,
    ;
    lemma_unit_reaches(num, f.1, SINGLE as nat, 1);
    assert(num * u >= (n * u) * f.1) by (nonlinear_arith)
        requires
            num == n * f.0,
            f.0 == f.1,
    ;
    lemma_rounded_at_least(num * u, f.1, n * u);
    assert((2 * m + u) / (2 * u) >= n) by (nonlinear_arith)
        requires
            m >= n * u,
            u > 0,
    ;
}

/// A factor that fits a side into a limit, or a smaller one, brings the side
/// within the limit.
proof fn lemma_scaled_fits(limit: nat, n: nat, f: (nat, nat))
    requires
        0 < limit <= 1000,
        0 < n <= u32::MAX,
        f.0 > 0,
        f.1 > 0,
        f.0 * fit(limit, n).1 <= fit(limit, n).0 * f.1,
    ensures
        scaled(n, f) <= limit,
{
    let w = single_whole(n);
    lemma_single_positive(n);
    let t = SINGLE as nat;
    // The factor itself: its numerator is off by half at most.
    let v = unit_for(limit, w, t, 1);
    let k = significand(limit, w, t);
    lemma_unit_reaches(limit, w, t, 1);
    lemma_rounded_near(limit * v, w);
    // The product.
    let num = w * f.0;
    assert(num > 0) by (nonlinear_arith)
        requires
            w > 0,
            f.0 > 0,
            num == w * f.0,
    ;
    let u = unit_for(num, f.1, t, 1);
    let m = significand(num, f.1, t);
    lemma_unit_reaches(num, f.1, t, 1);
    lemma_rounded_near(num * u, f.1);
    // 2 w k <= 2 limit v + w, and w t <= limit v.
    assert(2 * t * (w * k) <= (2 * t + 1) * (limit * v)) by (nonlinear_arith)
        requires
            2 * (k * w) <= 2 * (limit * v) + w,
            w * t <= limit * v,
            t > 0,
    ;
    // num v = w f.0 v <= w k f.1.
    assert(num * v <= (w * k) * f.1) by (nonlinear_arith)
        requires
            num == w * f.0,
            f.0 * v <= k * f.1,
            w >= 0,
    ;
    assert(2 * t * (num * v) <= ((2 * t + 1) * limit * f.1) * v) by (nonlinear_arith)
        requires
            num * v <= (w * k) * f.1,
            2 * t * (w * k) <= (2 * t + 1) * (limit * v),
            t > 0,
            f.1 >= 0,
    ;
    assert(2 * t * num <= (2 * t + 1) * limit * f.1) by (nonlinear_arith)
        requires
            2 * t * (num * v) <= ((2 * t + 1) * limit * f.1) * v,
            v > 0,
    ;
    // So num is less than (limit + 1/16) f.1.
    assert(16 * num <= (16 * limit + 1) * f.1) by (nonlinear_arith)
        requires
            2 * t * num <= (2 * t + 1) * limit * f.1,
            t == 0x80_0000,
            limit <= 1000,
            f.1 >= 0,
    ;
    // The unit is not small.
    assert(u >= 4) by (nonlinear_arith)
        requires
            num * u >= f.1 * t,
            16 * num <= (16 * limit + 1) * f.1,
            limit <= 1000,
            t == 0x80_0000,
            f.1 > 0,
    ;
    // 2 m f.1 <= 2 num u + f.1.
    assert(16 * m <= (16 * limit + 1) * u + 8) by (nonlinear_arith)
        requires
            2 * (m * f.1) <= 2 * (num * u) + f.1,
            16 * num <= (16 * limit + 1) * f.1,
            f.1 > 0,
            u >= 0,
    ;
    assert((2 * m + u) / (2 * u) <= limit) by (nonlinear_arith)
        requires
            16 * m <= (16 * limit + 1) * u + 8,
            u >= 4,
    ;
}

/// The smaller of two fractions is at most each of them.
proof fn lemma_smaller(a: (nat, nat), b: (nat, nat), c: (nat, nat))
    requires
        a.1 > 0,
        b.1 > 0,
        c.1 > 0,
        a.0 * c.1 <= c.0 * a.1 || b.0 * c.1 <= c.0 * b.1,
    ensures
        smaller(a, b).0 * c.1 <= c.0 * smaller(a, b).1,
{
    if a.0 * b.1 <= b.0 * a.1 {
        if b.0 * c.1 <= c.0 * b.1 {
            assert(a.0 * c.1 <= c.0 * a.1) by (nonlinear_arith)
                requires
                    a.0 * b.1 <= b.0 * a.1,
                    b.0 * c.1 <= c.0 * b.1,
                    a.1 > 0,
                    b.1 > 0,
                    c.1 > 0,
            ;
        }
    } else if a.0 * c.1 <= c.0 * a.1 {
        assert(b.0 * c.1 <= c.0 * b.1) by (nonlinear_arith)
            requires
                a.0 * b.1 > b.0 * a.1,
                a.0 * c.1 <= c.0 * a.1,
                a.1 > 0,
                b.1 > 0,
                c.1 > 0,
        ;
    }
}

/// A factor is a fraction, and one that need not shrink is at least one.
proof fn lemma_fit(limit: nat, n: nat)
    requires
        0 < limit <= 1000,
        0 < n <= u32::MAX,
    ensures
        fit(limit, n).0 > 0,
        fit(limit, n).1 > 0,
        n <= limit ==> fit(limit, n).0 >= fit(limit, n).1,
{
    let w = single_whole(n);
    let t = SINGLE as nat;
    let v = unit_for(limit, w, t, 1);
    lemma_single_positive(n);
    lemma_unit_reaches(limit, w, t, 1);
    assert(limit * v >= t * w) by (nonlinear_arith)
        requires
            limit * v >= w * t,
    ;
    lemma_rounded_at_least(limit * v, w, t);
    if n <= limit {
        lemma_single_exact(n);
        assert(limit * v >= v * w) by (nonlinear_arith)
            requires
                limit >= w,
        ;
        lemma_rounded_at_least(limit * v, w, v);
    }
}

/// A positive whole number is a positive one in single precision.
proof fn lemma_single_positive(n: nat)
    requires
        0 < n <= u32::MAX,
    ensures
        single_whole(n) > 0,
{
    if n < 2 * SINGLE {
        lemma_single_exact(n);
    } else {
        reveal_with_fuel(single_gap, 10);
        let g = single_gap(n);
        assert(0 < g <= 0x100);
        lemma_rounded_at_least(n, g, 1);
        assert(sizes::rounded(n, g) * g > 0) by (nonlinear_arith)
            requires
                sizes::rounded(n, g) >= 1,
                g > 0,
        ;
    }
}

/// What is shown is no larger than declared and within the limits, and what is
/// within them is shown as declared.
pub proof fn law_boxes_are_capped_and_never_enlarged(max_w: nat, max_h: nat, w: nat, h: nat)
    requires
        0 < max_w <= 1000,
        0 < max_h <= 1000,
        0 < w <= u32::MAX,
        0 < h <= u32::MAX,
    ensures
        1 <= box_of(max_w, max_h, w, h).0 <= w,
        1 <= box_of(max_w, max_h, w, h).1 <= h,
        box_of(max_w, max_h, w, h).0 <= max_w,
        box_of(max_w, max_h, w, h).1 <= max_h,
        w <= max_w && h <= max_h ==> box_of(max_w, max_h, w, h) == (w, h),
{
    let a = fit(max_w, w);
    let b = fit(max_h, h);
    let one = (1nat, 1nat);
    let f = scale_of(max_w, max_h, w, h);
    lemma_fit(max_w, w);
    lemma_fit(max_h, h);
    lemma_smaller(a, b, a);
    lemma_smaller(a, b, b);
    lemma_smaller(smaller(a, b), one, a);
    lemma_smaller(smaller(a, b), one, b);
    lemma_smaller(smaller(a, b), one, one);
    assert(f.0 * 1 <= 1 * f.1);
    lemma_scaled_shrinks(w, f);
    lemma_scaled_shrinks(h, f);
    lemma_scaled_fits(max_w, w, f);
    lemma_scaled_fits(max_h, h, f);
    if w <= max_w && h <= max_h {
        assert(f.0 == f.1);
        lemma_scaled_keeps(w, f);
        lemma_scaled_keeps(h, f);
    }
}

/// The factor that fits a side into a limit.
fn fit_side(limit: u128, n: u32) -> (r: (u128, u128))
    requires
        0 < limit <= 1000,
        n > 0,
    ensures
        (r.0 as nat, r.1 as nat) == fit(limit as nat, n as nat),
        0 < r.0 <= 0x100_0000 * 1000,
        0 < r.1 <= 0x200_0000_0000_0000,
{
    let w: u128 = nearest_single(n);
    let ghost t = SINGLE as u128;
    proof {
        assert(2 * (w * 0x80_0000) <= 0x200_0000_0000_0000) by (nonlinear_arith)
            requires
                w <= 0x1_0000_0200,
        ;
        assert(w * 0x80_0000 >= 0x80_0000) by (nonlinear_arith)
            requires
                w >= 1,
        ;
    }
    quotient(limit, w, SINGLE as u128)
}

/// The smaller of two fractions.
fn min_fraction(a: (u128, u128), b: (u128, u128)) -> (r: (u128, u128))
    requires
        0 < a.0 <= 0x4_0000_0000,
        0 < a.1 <= 0x200_0000_0000_0000,
        0 < b.0 <= 0x4_0000_0000,
        0 < b.1 <= 0x200_0000_0000_0000,
    ensures
        (r.0 as nat, r.1 as nat) == smaller((a.0 as nat, a.1 as nat), (b.0 as nat, b.1 as nat)),
        r == a || r == b,
{
    proof {
        assert(a.0 * b.1 <= 0x4_0000_0000 * 0x200_0000_0000_0000) by (nonlinear_arith)
            requires
                0 < a.0 <= 0x4_0000_0000,
                0 < b.1 <= 0x200_0000_0000_0000,
        ;
        assert(b.0 * a.1 <= 0x4_0000_0000 * 0x200_0000_0000_0000) by (nonlinear_arith)
            requires
                0 < b.0 <= 0x4_0000_0000,
                0 < a.1 <= 0x200_0000_0000_0000,
        ;
    }
    if a.0 * b.1 <= b.0 * a.1 {
        a
    } else {
        b
    }
}

/// A side at a factor.
fn scale_side(n: u32, f: (u128, u128)) -> (r: u16)
    requires
        n > 0,
        0 < f.0 <= 0x4_0000_0000,
        0 < f.1 <= 0x200_0000_0000_0000,
    ensures
        r == scaled(n as nat, (f.0 as nat, f.1 as nat)),
{
    let w: u128 = nearest_single(n);
    proof {
        assert(0 < w * f.0 <= 0x2_0000_0000 * 0x4_0000_0000) by (nonlinear_arith)
            requires
                0 < w <= 0x2_0000_0000,
                0 < f.0 <= 0x4_0000_0000,
        ;
        assert(2 * (f.1 * 0x80_0000) <= 2 * (0x200_0000_0000_0000 * 0x80_0000)) by (
        nonlinear_arith)
            requires
                f.1 <= 0x200_0000_0000_0000,
        ;
    }
    let (m, u) = quotient(w * f.0, f.1, SINGLE as u128);
    let r: u128 = (2 * m + u) / (2 * u);
    if r < 1 {
        1
    } else if r > 65535 {
        65535
    } else {
        r as u16
    }
}

/// The box of an image with declared dimensions.
fn fit_box(max_w: u128, max_h: u128, w: u32, h: u32) -> (r: (u16, u16))
    requires
        0 < max_w <= 1000,
        0 < max_h <= 1000,
        w > 0,
        h > 0,
    ensures
        (r.0 as nat, r.1 as nat) == box_of(max_w as nat, max_h as nat, w as nat, h as nat),
        1 <= r.0 <= w,
        1 <= r.1 <= h,
        r.0 <= max_w,
        r.1 <= max_h,
        w <= max_w && h <= max_h ==> r.0 == w && r.1 == h,
{
    proof {
        law_boxes_are_capped_and_never_enlarged(max_w as nat, max_h as nat, w as nat, h as nat);
    }
    let one: (u128, u128) = (1, 1);
    let f = min_fraction(min_fraction(fit_side(max_w, w), fit_side(max_h, h)), one);
    (scale_side(w, f), scale_side(h, f))
}

/// The least side of an image's box, where its shape allows for it.
pub const MIN_SIDE: u16 = 24;

/// The box of an image with the declared dimensions: a square that is smaller
/// than the least box is raised to it. Any other shape would be distorted by
/// that, and is shown as small as it comes out.
pub open spec fn image_box(width: Option<u32>, height: Option<u32>) -> (nat, nat) {
    match (width, height) {
        (Some(w), Some(h)) => if w > 0 && h > 0 {
            if w == h && w < MIN_SIDE {
                (MIN_SIDE as nat, MIN_SIDE as nat)
            } else {
                box_of(240, 360, w as nat, h as nat)
            }
        } else {
            (240nat, 180nat)
        },
        _ => (240nat, 180nat),
    }
}

/// The box that an image message is shown in: true to the declared dimensions
/// within 240 by 360, a standard box without them. Tiny squares are enlarged.
/// Known before the bytes arrive, so that a finishing download never changes
/// the row's height.
pub fn image_display_size(width: Option<u32>, height: Option<u32>) -> (r: (u16, u16))
    ensures
        (r.0 as nat, r.1 as nat) == image_box(width, height),
        r.0 <= 240 && r.1 <= 360,
        match (width, height) {
            (Some(w), Some(h)) => w > 0 && h > 0 && (w != h || w >= MIN_SIDE) ==> r.0 <= w && r.1
                <= h && (w <= 240 && h <= 360 ==> r.0 == w && r.1 == h),
            _ => true,
        },
{
    match (width, height) {
        (Some(w), Some(h)) => if w > 0 && h > 0 {
            if w == h && w < MIN_SIDE as u32 {
                (MIN_SIDE, MIN_SIDE)
            } else {
                fit_box(240, 360, w, h)
            }
        } else {
            (240, 180)
        },
        _ => (240, 180),
    }
}

/// The box of a sticker with the declared dimensions.
pub open spec fn sticker_box(width: Option<u32>, height: Option<u32>) -> (nat, nat) {
    match (width, height) {
        (Some(w), Some(h)) => if w > 0 && h > 0 {
            box_of(160, 160, w as nat, h as nat)
        } else {
            (128nat, 128nat)
        },
        _ => (128nat, 128nat),
    }
}

/// The box that a sticker is shown in: true to the declared dimensions within
/// 160 by 160 and never enlarged, a standard box without them.
pub fn sticker_display_size(width: Option<u32>, height: Option<u32>) -> (r: (u16, u16))
    ensures
        (r.0 as nat, r.1 as nat) == sticker_box(width, height),
        r.0 <= 160 && r.1 <= 160,
        match (width, height) {
            (Some(w), Some(h)) => w > 0 && h > 0 ==> r.0 <= w && r.1 <= h && (w <= 160 && h <= 160
                ==> r.0 == w && r.1 == h),
            _ => true,
        },
{
    match (width, height) {
        (Some(w), Some(h)) => if w > 0 && h > 0 {
            fit_box(160, 160, w, h)
        } else {
            (128, 128)
        },
        _ => (128, 128),
    }
}

// ---------------------------------------------------------------------------
// Comparing bit patterns.
// ---------------------------------------------------------------------------
/// Whether the bit pattern is no number.
pub open spec fn not_a_number(bits: u32) -> bool {
    0x7F80_0000 < bits < 0x8000_0000 || bits > 0xFF80_0000
}

/// The place of a single-precision number among the others: the patterns of
/// positive numbers are in order, those of negative ones mirror them.
pub open spec fn place(bits: u32) -> int {
    if bits < 0x8000_0000 {
        bits as int
    } else {
        0x8000_0000 - bits
    }
}

/// Whether the one number is at most the other.
pub open spec fn not_above(a: u32, b: u32) -> bool {
    !not_a_number(a) && !not_a_number(b) && place(a) <= place(b)
}

/// Whether the one number is less than the other.
pub open spec fn below(a: u32, b: u32) -> bool {
    !not_a_number(a) && !not_a_number(b) && place(a) < place(b)
}

/// Whether the bit pattern is no number.
pub fn is_nan(bits: u32) -> (r: bool)
    ensures
        r == not_a_number(bits),
{
    (0x7F80_0000 < bits && bits < 0x8000_0000) || bits > 0xFF80_0000
}

/// The place of a single-precision number among the others.
fn place_of(bits: u32) -> (r: i64)
    ensures
        r == place(bits),
{
    if bits < 0x8000_0000 {
        bits as i64
    } else {
        0x8000_0000i64 - (bits as i64)
    }
}

/// Whether the one number is at most the other.
pub fn is_at_most(a: u32, b: u32) -> (r: bool)
    ensures
        r == not_above(a, b),
{
    !is_nan(a) && !is_nan(b) && place_of(a) <= place_of(b)
}

/// Whether the one number is less than the other.
pub fn is_below(a: u32, b: u32) -> (r: bool)
    ensures
        r == below(a, b),
{
    !is_nan(a) && !is_nan(b) && place_of(a) < place_of(b)
}

/// A whole number of thousands or millions reads as that number: with one
/// decimal below ten, without one from there on. Less than a thousand is
/// written out.
pub proof fn law_whole_counts_read_as_such(k: nat)
    requires
        0 < k < 1000,
    ensures
        count_label(k) == text::decimal(k),
        k < 10 ==> count_label(k * 1000) == text::decimal(k) + seq!['.', '0'] + "K"@,
        k >= 10 ==> count_label(k * 1000) == text::decimal(k) + "K"@,
        k < 10 ==> count_label(k * 1_000_000) == text::decimal(k) + seq!['.', '0'] + "M"@,
        k >= 10 ==> count_label(k * 1_000_000) == text::decimal(k) + "M"@,
{
    lemma_in_units(k, 1000, "K"@);
    lemma_in_units(k, 1_000_000, "M"@);
}

proof fn lemma_in_units(k: nat, den: nat, suffix: Seq<char>)
    requires
        0 < k < 1000,
        0 < den <= 1_000_000,
    ensures
        k < 10 ==> in_units(k * den, den, suffix) == text::decimal(k) + seq!['.', '0'] + suffix,
        k >= 10 ==> in_units(k * den, den, suffix) == text::decimal(k) + suffix,
{
    let n = k * den;
    assert(0 < n < 1_000_000_000) by (nonlinear_arith)
        requires
            n == k * den,
            0 < k < 1000,
            0 < den <= 1_000_000,
    ;
    sizes::lemma_nearest(n);
    let t = DOUBLE as nat;
    let u = unit_for(n, den, t, 1);
    lemma_unit_reaches(n, den, t, 1);
    assert(n * u == (k * u) * den) by (nonlinear_arith)
        requires
            n == k * den,
    ;
    sizes::lemma_rounded_exact(k * u, den);
    let m = significand(n, den, t);
    assert(m == k * u);
    sizes::lemma_rounded_exact(k, u);
    assert(k >= 10 ==> k * u >= 10 * u) by (nonlinear_arith)
        requires
            u >= 1,
    ;
    assert(k < 10 ==> k * u < 10 * u) by (nonlinear_arith)
        requires
            u >= 1,
    ;
    assert(k * u * 10 == (10 * k) * u) by (nonlinear_arith);
    sizes::lemma_rounded_exact(10 * k, u);
    assert((10 * k) / 10 == k && (10 * k) % 10 == 0);
    assert(text::digit(0) == '0');
}

/// Without usable dimensions an image and a sticker have their standard boxes;
/// a tiny square image is enlarged to where it can be seen; what fits its box
/// keeps its size.
pub proof fn law_the_boxes_of_images(w: u32, h: u32)
    ensures
        image_box(None, None) == (240nat, 180nat),
        image_box(Some(w), None) == (240nat, 180nat),
        image_box(None, Some(h)) == (240nat, 180nat),
        image_box(Some(0u32), Some(h)) == (240nat, 180nat),
        image_box(Some(w), Some(0u32)) == (240nat, 180nat),
        0 < w < 24 ==> image_box(Some(w), Some(w)) == (24nat, 24nat),
        0 < w <= 240 && 0 < h <= 360 && (w != h || w >= 24) ==> image_box(Some(w), Some(h)) == (
            w as nat,
            h as nat,
        ),
        w > 0 && h > 0 ==> image_box(Some(w), Some(h)).0 <= 240 && image_box(Some(w), Some(h)).1
            <= 360,
        sticker_box(None, None) == (128nat, 128nat),
        sticker_box(Some(w), None) == (128nat, 128nat),
        0 < w <= 160 && 0 < h <= 160 ==> sticker_box(Some(w), Some(h)) == (w as nat, h as nat),
        w > 0 && h > 0 ==> sticker_box(Some(w), Some(h)).0 <= 160 && sticker_box(
            Some(w),
            Some(h),
        ).1 <= 160,
{
    if w > 0 && h > 0 {
        law_boxes_are_capped_and_never_enlarged(240, 360, w as nat, h as nat);
        law_boxes_are_capped_and_never_enlarged(160, 160, w as nat, h as nat);
    }
}

} // verus!
