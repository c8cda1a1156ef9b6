//! Sizes with one decimal.

use crate::util::text::{decimal, show};
use vstd::prelude::*;

verus! {

/// The distance of neighbouring doubles near `n`: the smallest power of two at
/// or above `u` for which `n` has at most 53 binary digits.
pub open spec fn spacing(n: nat, u: nat) -> nat
    decreases n / u,
{
    if u == 0 {
        1
    } else if n / u < 0x20_0000_0000_0000 {
        u
    } else {
        proof {
            lemma_halves(n, u);
        }
        spacing(n, u * 2)
    }
}

/// Twice the divisor, half the quotient.
pub proof fn lemma_halves(n: nat, u: nat)
    requires
        u > 0,
        n / u >= 1,
    ensures
        n / (u * 2) < n / u,
{
    assert(n / (u * 2) == n / u / 2) by {
        vstd::arithmetic::div_mod::lemma_div_denominator(n as int, u as int, 2);
    }
}

/// The double nearest to `n`, the even one of two that are equally near.
pub open spec fn double(n: nat) -> nat {
    let u = spacing(n, 1);
    let q = n / u;
    let r = n % u;
    if r * 2 > u || (r * 2 == u && q % 2 == 1) {
        (q + 1) * u
    } else {
        q * u
    }
}

/// `n / unit` in tenths, rounded to the nearest, to the even one of two that
/// are equally near.
pub open spec fn tenths(n: nat, unit: nat) -> nat {
    let q = n * 10 / unit;
    let r = n * 10 % unit;
    if r * 2 > unit || (r * 2 == unit && q % 2 == 1) {
        q + 1
    } else {
        q
    }
}

/// `bytes / unit` with one decimal, as a division of doubles prints it.
pub open spec fn one_decimal(bytes: nat, unit: nat) -> Seq<char> {
    let t = tenths(double(bytes), unit);
    decimal(t / 10) + "."@ + decimal(t % 10)
}

/// The double nearest to `n`.
fn to_double(n: u64) -> (r: u128)
    ensures
        r == double(n as nat),
        r <= 0x2_0000_0000_0000_0000,
{
    let mut u: u64 = 1;
    while n / u >= 0x20_0000_0000_0000
        invariant
            1 <= u <= 4096,
            spacing(n as nat, 1) == spacing(n as nat, u as nat),
        decreases n / u,
    {
        proof {
            lemma_halves(n as nat, u as nat);
            assert(u <= 2048) by (nonlinear_arith)
                requires
                    u >= 1,
                    n / u >= 0x20_0000_0000_0000,
                    n <= 0xffff_ffff_ffff_ffff,
            ;
        }
        u = u * 2;
    }
    let q: u64 = n / u;
    let r: u64 = n % u;
    let m: u64 = if r * 2 > u || (r * 2 == u && q % 2 == 1) {
        q + 1
    } else {
        q
    };
    assert(m as int * u as int <= 0x20_0000_0000_0000 * 4096) by (nonlinear_arith)
        requires
            0 <= m <= 0x20_0000_0000_0000,
            1 <= u <= 4096,
    ;
    m as u128 * u as u128
}

/// `bytes / unit` with one decimal, as a division of doubles prints it.
pub fn show_one_decimal(bytes: u64, unit: u64) -> (r: String)
    requires
        unit > 0,
    ensures
        r@ == one_decimal(bytes as nat, unit as nat),
{
    let d: u128 = to_double(bytes);
    let q: u128 = d * 10 / unit as u128;
    let rest: u128 = d * 10 % unit as u128;
    let t: u128 = if rest * 2 > unit as u128 || (rest * 2 == unit as u128 && q % 2 == 1) {
        q + 1
    } else {
        q
    };
    assert(q <= d * 10) by (nonlinear_arith)
        requires
            q == d * 10 / unit as int,
            unit >= 1,
            d >= 0,
    ;
    let whole: u128 = t / 10;
    let tenth: u128 = t % 10;
    let mut r = show_big(whole);
    r.append(".");
    r.append(show(tenth as u64).as_str());
    r
}

/// `n` in decimal.
fn show_big(n: u128) -> (r: String)
    ensures
        r@ == decimal(n as nat),
    decreases n,
{
    if n <= 0xffff_ffff_ffff_ffff {
        show(n as u64)
    } else {
        let mut r = show_big(n / 10);
        let d: u8 = (n % 10) as u8;
        r.push((48 + d) as char);
        r
    }
}

/// A size with the unit that fits it: bytes, or K, M and G with one decimal.
pub open spec fn size_text(bytes: nat) -> Seq<char> {
    if bytes >= 1_073_741_824 {
        one_decimal(bytes, 1_073_741_824) + "G"@
    } else if bytes >= 1_048_576 {
        one_decimal(bytes, 1_048_576) + "M"@
    } else if bytes >= 1024 {
        one_decimal(bytes, 1024) + "K"@
    } else {
        decimal(bytes) + "B"@
    }
}

/// Format byte size as a human-readable string.
pub fn format_size(bytes: u64) -> (r: String)
    ensures
        r@ == size_text(bytes as nat),
{
    if bytes >= 1_073_741_824 {
        let mut r = show_one_decimal(bytes, 1_073_741_824);
        r.append("G");
        r
    } else if bytes >= 1_048_576 {
        let mut r = show_one_decimal(bytes, 1_048_576);
        r.append("M");
        r
    } else if bytes >= 1024 {
        let mut r = show_one_decimal(bytes, 1024);
        r.append("K");
        r
    } else {
        let mut r = show(bytes);
        r.append("B");
        r
    }
}

/// One decimal is the nearest there is: it is never further from the size than
/// half a tenth of the unit. Sizes below 2^53 bytes are not rounded before.
pub proof fn law_one_decimal_is_the_nearest(n: nat, unit: nat)
    requires
        unit > 0,
    ensures
        tenths(n, unit) * unit * 2 <= n * 10 * 2 + unit,
        n * 10 * 2 <= tenths(n, unit) * unit * 2 + unit,
        n < 0x20_0000_0000_0000 ==> double(n) == n,
{
    let q = n * 10 / unit;
    let r = n * 10 % unit;
    vstd::arithmetic::div_mod::lemma_fundamental_div_mod((n * 10) as int, unit as int);
    assert(unit * q == q * unit) by (nonlinear_arith);
    assert((q + 1) * unit == q * unit + unit) by (nonlinear_arith);
    assert(r < unit) by (nonlinear_arith)
        requires
            r == n * 10 % unit,
            unit > 0,
    ;
    assert(n * 10 == q * unit + r);
    assert(tenths(n, unit) * unit == if r * 2 > unit || (r * 2 == unit && q % 2 == 1) {
        q * unit + unit
    } else {
        q * unit
    });
    assert(n / 1 == n && n % 1 == 0);
    if n < 0x20_0000_0000_0000 {
        assert(spacing(n, 1) == 1);
    }
}

/// The unit fits the size: bytes, then kibibytes, mebibytes and gibibytes.
pub proof fn law_unit_fits_the_size(bytes: nat)
    ensures
        size_text(bytes).last() == 'B' <==> bytes < 1024,
        size_text(bytes).last() == 'K' <==> 1024 <= bytes < 1024 * 1024,
        size_text(bytes).last() == 'M' <==> 1024 * 1024 <= bytes < 1024 * 1024 * 1024,
        size_text(bytes).last() == 'G' <==> bytes >= 1024 * 1024 * 1024,
{
    reveal_strlit("B");
    reveal_strlit("K");
    reveal_strlit("M");
    reveal_strlit("G");
}

/// Where the size lies halfway between two decimals, the even one is taken.
pub proof fn law_halves_go_to_even(n: nat, unit: nat)
    requires
        unit > 0,
        n * 10 % unit * 2 == unit,
    ensures
        tenths(n, unit) % 2 == 0,
{
}

/// The text is the whole units, a full stop and the tenths.
pub proof fn law_tenths_are_written(bytes: nat, unit: nat, x: nat, y: nat)
    requires
        tenths(double(bytes), unit) == x * 10 + y,
        y < 10,
    ensures
        one_decimal(bytes, unit) == decimal(x) + "."@ + decimal(y),
{
    assert((x * 10 + y) / 10 == x);
    assert((x * 10 + y) % 10 == y);
}

/// A size that does not fit into 53 bits is rounded to the nearest multiple of
/// the smallest power of two that makes it fit, to an even one from halfway.
pub proof fn law_large_sizes_are_rounded(n: nat)
    ensures
        ({
            let u = spacing(n, 1);
            &&& u > 0
            &&& n / u < 0x20_0000_0000_0000
            &&& u > 1 ==> u % 2 == 0 && n / (u / 2) >= 0x20_0000_0000_0000
            &&& double(n) == n / u * u || double(n) == (n / u + 1) * u
            &&& n % u * 2 < u ==> double(n) == n / u * u
            &&& n % u * 2 > u ==> double(n) == (n / u + 1) * u
            &&& n % u * 2 == u ==> (double(n) == n / u * u <==> n / u % 2 == 0)
        }),
{
    lemma_spacing(n, 1);
    let u = spacing(n, 1);
    assert((n / u + 1) * u == n / u * u + u) by (nonlinear_arith)
        requires
            u > 0,
    ;
}

/// The spacing is the smallest that makes the quotient fit.
proof fn lemma_spacing(n: nat, u: nat)
    requires
        u > 0,
    ensures
        spacing(n, u) >= u,
        n / spacing(n, u) < 0x20_0000_0000_0000,
        spacing(n, u) > u ==> spacing(n, u) % 2 == 0 && n / (spacing(n, u) / 2)
            >= 0x20_0000_0000_0000,
    decreases n / u,
{
    if n / u >= 0x20_0000_0000_0000 {
        lemma_halves(n, u);
        lemma_spacing(n, u * 2);
    }
}

} // verus!
