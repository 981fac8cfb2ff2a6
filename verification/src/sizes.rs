//! Byte counts at a glance.
//!
//! A count is divided by a power of two and shown with one or two decimals,
//! correctly rounded, ties to the even digit. Counts beyond 2^53 are first
//! rounded to 53 significant bits, which is all that a double-precision
//! number holds.

use vstd::prelude::*;

use crate::text;

verus! {

pub const KIB: u64 = 1024;

pub const MIB: u64 = 1048576;

pub const GIB: u64 = 1073741824;

/// The first count that needs more than 53 bits.
pub const EXACT: u64 = 0x20_0000_0000_0000;

// ---------------------------------------------------------------------------
// The model.
// ---------------------------------------------------------------------------
/// `num / den` rounded to the nearest integer, ties to the even one.
pub open spec fn rounded(num: nat, den: nat) -> nat {
    let q = num / den;
    let r = num % den;
    if 2 * r > den || (2 * r == den && q % 2 == 1) {
        q + 1
    } else {
        q
    }
}

/// The spacing of double-precision numbers around `n`, at least 1.
pub open spec fn spacing(n: nat) -> nat
    decreases n,
{
    if n < EXACT {
        1
    } else {
        2 * spacing(n / 2)
    }
}

/// The double-precision number nearest to `n`.
pub open spec fn nearest(n: nat) -> nat {
    rounded(n, spacing(n)) * spacing(n)
}

/// `num / den` with one decimal.
pub open spec fn one_decimal(num: nat, den: nat) -> Seq<char> {
    let t = rounded(num * 10, den);
    text::decimal(t / 10) + seq!['.', text::digit(t % 10)]
}

/// `num / den` with two decimals.
pub open spec fn two_decimals(num: nat, den: nat) -> Seq<char> {
    let t = rounded(num * 100, den);
    text::decimal(t / 100) + seq!['.', text::digit((t / 10) % 10), text::digit(t % 10)]
}

/// "999 bytes", "1.0 KB", "1.0 MB", "17.00 GB".
pub open spec fn bytes_label(bytes: nat) -> Seq<char> {
    if bytes < KIB {
        text::decimal(bytes) + " bytes"@
    } else if bytes < MIB {
        one_decimal(bytes, KIB as nat) + " KB"@
    } else if bytes < GIB {
        one_decimal(bytes, MIB as nat) + " MB"@
    } else {
        two_decimals(nearest(bytes), GIB as nat) + " GB"@
    }
}

/// "412 B", "3.2 KB", "8.1 MB".
pub open spec fn size_label(bytes: nat) -> Seq<char> {
    if bytes >= MIB {
        one_decimal(nearest(bytes), MIB as nat) + " MB"@
    } else if bytes >= KIB {
        one_decimal(bytes, KIB as nat) + " KB"@
    } else {
        text::decimal(bytes) + " B"@
    }
}

// ---------------------------------------------------------------------------
// The functions.
// ---------------------------------------------------------------------------
/// `num / den` rounded to the nearest integer, ties to the even one.
pub fn round(num: u128, den: u128) -> (r: u128)
    requires
        0 < den <= 0x4000_0000_0000_0000,
    ensures
        r == rounded(num as nat, den as nat),
        r <= num,
{
    proof {
        assert(num / den <= num && num % den < den) by (nonlinear_arith)
            requires
                0 < den,
        ;
        assert(den * (num / den) + num % den == num) by (nonlinear_arith)
            requires
                0 < den,
        ;
    }
    let q: u128 = num / den;
    let rest: u128 = num % den;
    if 2 * rest > den || (2 * rest == den && q % 2 == 1) {
        proof {
            assert(q + 1 <= num) by (nonlinear_arith)
                requires
                    den * q + rest == num,
                    rest > 0,
                    den > 0,
                    q >= 0,
            ;
        }
        q + 1
    } else {
        q
    }
}

/// The double-precision number nearest to `n`.
pub fn nearest_double(n: u64) -> (r: u128)
    ensures
        r == nearest(n as nat),
        r <= 0x2_0000_0000_0000_0000,
{
    let mut unit: u128 = 1;
    let mut m: u64 = n;
    proof {
        lemma_spacing(n as nat);
    }
    let ghost total = spacing(n as nat);
    while m >= EXACT
        invariant
            1 <= unit,
            total == unit * spacing(m as nat),
            total <= 0x800,
            total == spacing(n as nat),
        decreases m,
    {
        proof {
            assert(spacing(m as nat) == 2 * spacing(m as nat / 2));
            assert(unit * (2 * spacing(m as nat / 2)) == (2 * unit) * spacing(m as nat / 2))
                by (nonlinear_arith);
            lemma_spacing_positive(m as nat / 2);
            assert(2 * unit <= total) by (nonlinear_arith)
                requires
                    total == (2 * unit) * spacing(m as nat / 2),
                    spacing(m as nat / 2) >= 1,
                    unit >= 1,
            ;
        }
        unit = 2 * unit;
        m = m / 2;
    }
    assert(unit == total) by (nonlinear_arith)
        requires
            total == unit * spacing(m as nat),
            spacing(m as nat) == 1,
    ;
    let q: u128 = round(n as u128, unit);
    proof {
        lemma_rounded_bound(n as nat, unit as nat);
    }
    q * unit
}

/// A positive spacing.
proof fn lemma_spacing_positive(n: nat)
    ensures
        spacing(n) >= 1,
    decreases n,
{
    if n >= EXACT {
        lemma_spacing_positive(n / 2);
    }
}

/// The spacing of a 64-bit count is at most 2^11.
proof fn lemma_spacing(n: nat)
    requires
        n <= u64::MAX,
    ensures
        spacing(n) <= 0x800,
{
    reveal_with_fuel(spacing, 13);
}

/// Rounding moves a count by at most half a unit.
proof fn lemma_rounded_bound(n: nat, unit: nat)
    requires
        0 < unit <= 0x800,
        n <= u64::MAX,
    ensures
        rounded(n, unit) * unit <= n + unit,
        rounded(n, unit) * unit <= 0x2_0000_0000_0000_0000,
{
    assert(unit * (n / unit) + n % unit == n) by (nonlinear_arith)
        requires
            0 < unit,
    ;
    let q = n / unit;
    assert((q + 1) * unit == q * unit + unit) by (nonlinear_arith);
    assert(q * unit == unit * q) by (nonlinear_arith);
}

/// A count of at most 53 bits is exact, and a larger one stays large.
pub proof fn lemma_nearest(n: nat)
    requires
        n <= u64::MAX,
    ensures
        n < EXACT ==> nearest(n) == n,
        n >= EXACT ==> nearest(n) >= EXACT - 0x800,
{
    if n < EXACT {
        assert(n / 1 == n && n % 1 == 0) by (nonlinear_arith);
        assert(rounded(n, 1) == n);
        assert(nearest(n) == rounded(n, 1) * 1) by {
            assert(spacing(n) == 1);
        }
    } else {
        lemma_spacing(n);
        lemma_spacing_positive(n);
        let u = spacing(n);
        let q = n / u;
        assert(u * q + n % u == n && n % u < u) by (nonlinear_arith)
            requires
                0 < u,
                q == n / u,
        ;
        assert(rounded(n, u) * u >= n - u) by (nonlinear_arith)
            requires
                rounded(n, u) >= q,
                u * q + n % u == n,
                n % u < u,
                u > 0,
        ;
    }
}

/// `num / den` with one decimal.
fn push_one_decimal(num: u128, den: u128) -> (s: String)
    requires
        1024 <= den <= 0x4000_0000_0000_0000,
        num <= 0x2_0000_0000_0000_0000,
    ensures
        s@ == one_decimal(num as nat, den as nat),
{
    let t: u128 = round(num * 10, den);
    proof {
        lemma_quotient_bound((num * 10) as nat, den as nat);
    }
    let whole: u64 = (t / 10) as u64;
    let tenth: u64 = (t % 10) as u64;
    let mut s = text::decimal_string(whole);
    s.push('.');
    s.push(text::digit_char(tenth));
    assert(s@ =~= one_decimal(num as nat, den as nat));
    s
}

/// `num / den` with two decimals.
fn push_two_decimals(num: u128, den: u128) -> (s: String)
    requires
        1024 <= den <= 0x4000_0000_0000_0000,
        num <= 0x2_0000_0000_0000_0000,
    ensures
        s@ == two_decimals(num as nat, den as nat),
{
    let t: u128 = round(num * 100, den);
    proof {
        lemma_quotient_bound((num * 100) as nat, den as nat);
    }
    let whole: u64 = (t / 100) as u64;
    let tenth: u64 = ((t / 10) % 10) as u64;
    let hundredth: u64 = (t % 10) as u64;
    let mut s = text::decimal_string(whole);
    s.push('.');
    s.push(text::digit_char(tenth));
    s.push(text::digit_char(hundredth));
    assert(s@ =~= two_decimals(num as nat, den as nat));
    s
}

/// A quotient by at least 1024 fits 64 bits.
proof fn lemma_quotient_bound(num: nat, den: nat)
    requires
        1024 <= den,
        num <= 100 * 0x2_0000_0000_0000_0000,
    ensures
        rounded(num, den) <= 0x4000_0000_0000_0000,
{
    assert(num / den <= num / 1024) by (nonlinear_arith)
        requires
            1024 <= den,
    ;
}

/// Byte counts at a glance; an archive runs from a few kilobytes to gigabytes.
pub fn format_bytes(bytes: u64) -> (s: String)
    ensures
        s@ == bytes_label(bytes as nat),
{
    if bytes < KIB {
        text::join2(text::decimal_string(bytes).as_str(), " bytes")
    } else if bytes < MIB {
        text::join2(push_one_decimal(bytes as u128, KIB as u128).as_str(), " KB")
    } else if bytes < GIB {
        text::join2(push_one_decimal(bytes as u128, MIB as u128).as_str(), " MB")
    } else {
        text::join2(push_two_decimals(nearest_double(bytes), GIB as u128).as_str(), " GB")
    }
}

/// The size tag on a staged-attachment chip.
pub fn human_size(bytes: usize) -> (s: String)
    ensures
        s@ == size_label(bytes as nat),
{
    let b: u64 = bytes as u64;
    if b >= MIB {
        text::join2(push_one_decimal(nearest_double(b), MIB as u128).as_str(), " MB")
    } else if b >= KIB {
        text::join2(push_one_decimal(b as u128, KIB as u128).as_str(), " KB")
    } else {
        text::join2(text::decimal_string(b).as_str(), " B")
    }
}

// ---------------------------------------------------------------------------
// Laws.
// ---------------------------------------------------------------------------
/// A multiple rounds to its factor.
pub proof fn lemma_rounded_exact(k: nat, den: nat)
    requires
        den > 0,
    ensures
        rounded(k * den, den) == k,
{
    assert((k * den) / den == k && (k * den) % den == 0) by (nonlinear_arith)
        requires
            den > 0,
    ;
}

proof fn lemma_tenths(k: nat, den: nat)
    requires
        den > 0,
    ensures
        one_decimal(k * den, den) == text::decimal(k) + seq!['.', '0'],
{
    assert(k * den * 10 == (10 * k) * den) by (nonlinear_arith);
    lemma_rounded_exact(10 * k, den);
    assert((10 * k) / 10 == k && (10 * k) % 10 == 0);
    assert(text::digit(0) == '0');
}

/// A whole number of kilobytes or megabytes reads as that number.
pub proof fn law_whole_units_read_as_such(k: nat)
    requires
        0 < k < 1024,
    ensures
        bytes_label(k) == text::decimal(k) + " bytes"@,
        bytes_label(k * 1024) == text::decimal(k) + seq!['.', '0'] + " KB"@,
        bytes_label(k * 1048576) == text::decimal(k) + seq!['.', '0'] + " MB"@,
        size_label(k) == text::decimal(k) + " B"@,
        size_label(k * 1024) == text::decimal(k) + seq!['.', '0'] + " KB"@,
        size_label(k * 1048576) == text::decimal(k) + seq!['.', '0'] + " MB"@,
{
    lemma_tenths(k, 1024);
    lemma_tenths(k, 1048576);
    lemma_nearest(k * 1048576);
}

/// Rounding goes to the nearest, and to the even one where two are as near.
pub proof fn law_rounding_is_to_the_nearest(num: nat, den: nat)
    requires
        den > 0,
    ensures
        2 * (rounded(num, den) * den) <= 2 * num + den,
        2 * num <= 2 * (rounded(num, den) * den) + den,
        2 * (num % den) == den ==> rounded(num, den) % 2 == 0,
{
    let q = num / den;
    let r = num % den;
    assert(num == q * den + r && r < den) by (nonlinear_arith)
        requires
            den > 0,
            q == num / den,
            r == num % den,
    ;
    assert((q + 1) * den == q * den + den) by (nonlinear_arith);
}

} // verus!
