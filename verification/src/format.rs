//! Human-readable formatting of byte counts and uptimes, built on exact
//! integer arithmetic.

use vstd::prelude::*;

verus! {

/// The character for one decimal digit.
pub open spec fn digit_char(d: int) -> char {
    if d == 0 {
        '0'
    } else if d == 1 {
        '1'
    } else if d == 2 {
        '2'
    } else if d == 3 {
        '3'
    } else if d == 4 {
        '4'
    } else if d == 5 {
        '5'
    } else if d == 6 {
        '6'
    } else if d == 7 {
        '7'
    } else if d == 8 {
        '8'
    } else {
        '9'
    }
}

/// The decimal digits of `n`, most significant first.
pub open spec fn dec_digits(n: int) -> Seq<char>
    decreases n,
{
    if n < 10 {
        seq![digit_char(n)]
    } else {
        dec_digits(n / 10).push(digit_char(n % 10))
    }
}

fn digit_char_exec(d: u64) -> (c: char)
    requires
        d < 10,
    ensures
        c == digit_char(d as int),
{
    if d == 0 {
        '0'
    } else if d == 1 {
        '1'
    } else if d == 2 {
        '2'
    } else if d == 3 {
        '3'
    } else if d == 4 {
        '4'
    } else if d == 5 {
        '5'
    } else if d == 6 {
        '6'
    } else if d == 7 {
        '7'
    } else if d == 8 {
        '8'
    } else {
        '9'
    }
}

/// Append the decimal digits of `n` to a string.
fn push_u64(n: u64, out: &mut String)
    ensures
        final(out)@ == old(out)@ + dec_digits(n as int),
    decreases n,
{
    if n < 10 {
        let ghost before = out@;
        out.push(digit_char_exec(n));
        assert(out@ =~= before + dec_digits(n as int));
    } else {
        push_u64(n / 10, out);
        let ghost mid = out@;
        out.push(digit_char_exec(n % 10));
        assert(out@ =~= old(out)@ + dec_digits(n as int));
    }
}

/// The decimal representation of an unsigned value.
pub fn u64_to_string(n: u64) -> (r: String)
    ensures
        r@ == dec_digits(n as int),
{
    let mut s = String::new();
    push_u64(n, &mut s);
    assert(s@ =~= dec_digits(n as int));
    s
}

/// Two-digit rendering of a fraction in hundredths (always two
/// characters, zero-padded).
pub open spec fn pad2(f: int) -> Seq<char> {
    if f < 10 {
        seq!['0', digit_char(f)]
    } else {
        dec_digits(f)
    }
}

/// 1024 raised to the `k`th power.
pub open spec fn pow1024(k: int) -> int
    decreases k,
{
    if k <= 0 {
        1
    } else {
        1024 * pow1024(k - 1)
    }
}

/// Which of the five units a byte count is shown in: the largest unit
/// that keeps the displayed value at least 1, capped at terabytes.
pub open spec fn spec_unit_index(b: int) -> int {
    if b < 1024 {
        0
    } else if b < 1024 * 1024 {
        1
    } else if b < 1024 * 1024 * 1024 {
        2
    } else if b < 1024 * 1024 * 1024 * 1024 {
        3
    } else {
        4
    }
}

/// The display suffix of each unit.
pub open spec fn unit_suffix(k: int) -> Seq<char> {
    if k == 0 {
        "B"@
    } else if k == 1 {
        "KB"@
    } else if k == 2 {
        "MB"@
    } else if k == 3 {
        "GB"@
    } else {
        "TB"@
    }
}

/// `num / den` rounded to the nearest integer, ties to even — the rounding
/// that standard fixed-precision float formatting applies.
pub open spec fn round_half_even(num: int, den: int) -> int {
    let q = num / den;
    let r = num % den;
    if 2 * r > den {
        q + 1
    } else if 2 * r < den {
        q
    } else if q % 2 == 1 {
        q + 1
    } else {
        q
    }
}

/// A byte count, scaled to its unit and shown with two decimal places
/// rounded to nearest (ties to even, a full carry rolling into the whole
/// part), a space, and the unit suffix.
pub open spec fn spec_format_bytes(b: int) -> Seq<char> {
    let k = spec_unit_index(b);
    let p = pow1024(k);
    let total = round_half_even(b * 100, p);
    dec_digits(total / 100) + seq!['.'] + pad2(total % 100) + seq![' '] + unit_suffix(k)
}

/// Format a byte count for display.
pub fn format_bytes(bytes: u64) -> (r: String)
    ensures
        r@ == spec_format_bytes(bytes as int),
{
    proof {
        assert(pow1024(0) == 1);
        assert(pow1024(1) == 1024);
        assert(pow1024(2) == 1024 * 1024);
        assert(pow1024(3) == 1024 * 1024 * 1024);
        assert(pow1024(4) == 1024 * 1024 * 1024 * 1024);
    }
    let p: u64 = if bytes < 1024 {
        1
    } else if bytes < 1048576 {
        1024
    } else if bytes < 1073741824 {
        1048576
    } else if bytes < 1099511627776 {
        1073741824
    } else {
        1099511627776
    };
    let whole0 = bytes / p;
    let rem = bytes % p;
    let num = rem * 100;
    let q2 = num / p;
    let r2 = num % p;
    let rounded: u64 = if 2 * r2 > p {
        q2 + 1
    } else if 2 * r2 < p {
        q2
    } else if q2 % 2 == 1 {
        q2 + 1
    } else {
        q2
    };
    proof {
        let bi = bytes as int;
        let pi = p as int;
        let w0 = whole0 as int;
        let re = rem as int;
        vstd::arithmetic::div_mod::lemma_fundamental_div_mod(bi, pi);
        vstd::arithmetic::div_mod::lemma_fundamental_div_mod(re * 100, pi);
        assert(q2 as int <= 99) by (nonlinear_arith)
            requires
                re * 100 == pi * (q2 as int) + r2 as int,
                0 <= r2 as int,
                0 <= re < pi,
        ;
        assert(bi * 100 == (w0 * 100 + q2 as int) * pi + r2 as int) by (nonlinear_arith)
            requires
                bi == pi * w0 + re,
                re * 100 == pi * (q2 as int) + r2 as int,
        ;
        vstd::arithmetic::div_mod::lemma_fundamental_div_mod_converse(
            bi * 100,
            pi,
            w0 * 100 + q2 as int,
            r2 as int,
        );
        assert((w0 * 100 + q2 as int) % 2 == (q2 as int) % 2) by (nonlinear_arith);
        assert(round_half_even(bi * 100, pi) == w0 * 100 + rounded as int);
        if rounded == 100 {
            // the carry case cannot arise in the bytes unit, so the whole
            // part stays far below the machine limit
            assert(p >= 1024);
            assert(w0 * 1024 <= w0 * pi) by (nonlinear_arith)
                requires
                    1024 <= pi,
                    0 <= w0,
            ;
            assert(w0 * 1024 <= bi);
            assert(whole0 < u64::MAX);
        }
    }
    let (whole, frac): (u64, u64) = if rounded == 100 {
        (whole0 + 1, 0)
    } else {
        (whole0, rounded)
    };
    proof {
        let total = round_half_even(bytes as int * 100, p as int);
        vstd::arithmetic::div_mod::lemma_fundamental_div_mod_converse(
            total,
            100,
            whole as int,
            frac as int,
        );
        assert(whole as int == total / 100);
        assert(frac as int == total % 100);
    }
    let mut s = String::new();
    push_u64(whole, &mut s);
    s.push('.');
    if frac < 10 {
        s.push('0');
        push_u64(frac, &mut s);
    } else {
        push_u64(frac, &mut s);
    }
    s.push(' ');
    if bytes < 1024 {
        s.append("B");
    } else if bytes < 1048576 {
        s.append("KB");
    } else if bytes < 1073741824 {
        s.append("MB");
    } else if bytes < 1099511627776 {
        s.append("GB");
    } else {
        s.append("TB");
    }
    assert(s@ =~= spec_format_bytes(bytes as int));
    s
}

/// An uptime in seconds, shown as days, hours and minutes, omitting the
/// leading fields that are zero (minutes always shown).
pub open spec fn spec_format_uptime(seconds: int) -> Seq<char> {
    let days = seconds / 86400;
    let hours = (seconds % 86400) / 3600;
    let minutes = (seconds % 3600) / 60;
    if days > 0 {
        dec_digits(days) + "d "@ + dec_digits(hours) + "h "@ + dec_digits(minutes) + "m"@
    } else if hours > 0 {
        dec_digits(hours) + "h "@ + dec_digits(minutes) + "m"@
    } else {
        dec_digits(minutes) + "m"@
    }
}

/// Format an uptime for display.
pub fn format_uptime(seconds: u64) -> (r: String)
    ensures
        r@ == spec_format_uptime(seconds as int),
{
    let days = seconds / 86400;
    let hours = (seconds % 86400) / 3600;
    let minutes = (seconds % 3600) / 60;
    let mut s = String::new();
    if days > 0 {
        push_u64(days, &mut s);
        s.append("d ");
        push_u64(hours, &mut s);
        s.append("h ");
        push_u64(minutes, &mut s);
        s.append("m");
    } else if hours > 0 {
        push_u64(hours, &mut s);
        s.append("h ");
        push_u64(minutes, &mut s);
        s.append("m");
    } else {
        push_u64(minutes, &mut s);
        s.append("m");
    }
    assert(s@ =~= spec_format_uptime(seconds as int));
    s
}

} // verus!
