//! Human-readable file sizes, as the commands print them: bytes below one
//! kibibyte, else the size divided as an `f64` and written with one decimal.
//!
//! The `f64` work is done exactly in integers: `n as f64` rounds `n` to 53
//! significant bits (ties to even), dividing by a power of two is exact, and
//! `{:.1}` writes the exact quotient rounded to tenths (ties to even).
use vstd::prelude::*;
use crate::number::{decimal, decimal_spec, digit_char};
use crate::text::push_text;

verus! {

/// `2^e`.
pub open spec fn pow2(e: nat) -> nat
    decreases e,
{
    if e == 0 {
        1
    } else {
        2 * pow2((e - 1) as nat)
    }
}

/// The largest integer plus one that an `f64` holds with every smaller
/// integer: `2^53`.
pub open spec fn f64_exact_limit() -> nat {
    9007199254740992
}

/// How many low bits of `n` an `f64` cannot hold: the bits beyond 53.
pub open spec fn excess_bits(n: nat) -> nat
    decreases n,
{
    if n < f64_exact_limit() {
        0
    } else {
        1 + excess_bits(n / 2)
    }
}

/// `a / d` rounded to the nearest integer, ties to the even one.
pub open spec fn div_round_even(a: nat, d: nat) -> nat {
    let q = a / d;
    let r = a % d;
    if 2 * r > d || (2 * r == d && q % 2 == 1) {
        q + 1
    } else {
        q
    }
}

/// The value of `n as f64`: `n` rounded to 53 significant bits, ties to even.
pub open spec fn f64_of(n: nat) -> nat {
    let p = pow2(excess_bits(n));
    div_round_even(n, p) * p
}

/// The number of tenths that `{:.1}` writes for `n as f64 / 2^k`.
pub open spec fn tenths(n: nat, k: nat) -> nat {
    div_round_even(f64_of(n) * 10, pow2(k))
}

/// A number of tenths written with one decimal, as `{:.1}` writes it.
pub open spec fn one_decimal(t: nat) -> Seq<char> {
    decimal_spec(t / 10) + seq!['.', digit_char(t % 10)]
}

/// One kibibyte.
pub const KB: u64 = 1024;

/// One mebibyte.
pub const MB: u64 = 1048576;

/// One gibibyte.
pub const GB: u64 = 1073741824;

/// The size text of `history` and `list`: bytes below 1 KB, else KB below
/// 1 MB, else MB, with one decimal.
pub open spec fn format_size_spec(bytes: nat) -> Seq<char> {
    if bytes < 1024 {
        decimal_spec(bytes) + " B"@
    } else if bytes < 1048576 {
        one_decimal(tenths(bytes, 10)) + " KB"@
    } else {
        one_decimal(tenths(bytes, 20)) + " MB"@
    }
}

/// The size text of `pull`: as for `history`, with GB from 1 GB on.
pub open spec fn format_size_pull_spec(size: nat) -> Seq<char> {
    if size >= 1073741824 {
        one_decimal(tenths(size, 30)) + " GB"@
    } else if size >= 1048576 {
        one_decimal(tenths(size, 20)) + " MB"@
    } else if size >= 1024 {
        one_decimal(tenths(size, 10)) + " KB"@
    } else {
        decimal_spec(size) + " B"@
    }
}

/// Law: below one gibibyte, `pull` writes a size exactly as `history` and
/// `list` do.
pub proof fn law_size_texts_agree_below_gb(n: nat)
    requires
        n < 1073741824,
    ensures
        format_size_pull_spec(n) == format_size_spec(n),
{
}

/// Law: a size below `2^53` bytes is held exactly by an `f64`.
pub proof fn law_f64_exact_below_limit(n: nat)
    requires
        n < f64_exact_limit(),
    ensures
        f64_of(n) == n,
{
    assert(excess_bits(n) == 0);
    assert(pow2(0) == 1);
    assert(n / 1 == n && n % 1 == 0) by (nonlinear_arith);
}

proof fn lemma_pow2_values()
    ensures
        pow2(10) == 1024,
        pow2(20) == 1048576,
        pow2(30) == 1073741824,
{
    reveal_with_fuel(pow2, 31);
}

/// The value of `n as f64`.
fn f64_value(n: u64) -> (r: u128)
    ensures
        r as nat == f64_of(n as nat),
        r <= 18446744073709555712,
{
    let mut p: u64 = 1;
    let ghost mut e: nat = 0;
    while n / p >= 9007199254740992
        invariant
            1 <= p <= 4096,
            p as nat == pow2(e),
            excess_bits(n as nat) == e + excess_bits((n / p) as nat),
        decreases 4096 - p,
    {
        proof {
            assert(p * 9007199254740992 <= n) by (nonlinear_arith)
                requires
                    n / p >= 9007199254740992,
                    p >= 1,
            ;
            assert(p < 2048) by (nonlinear_arith)
                requires
                    p * 9007199254740992 <= n,
                    n <= 18446744073709551615u64,
            ;
            vstd::arithmetic::div_mod::lemma_div_denominator(n as int, p as int, 2);
            assert((n as int / p as int) / 2 == n as int / (p as int * 2));
        }
        p = p * 2;
        proof {
            e = e + 1;
        }
    }
    let q = n / p;
    let r = n % p;
    let rounded: u64 = if 2 * r > p || (2 * r == p && q % 2 == 1) {
        q + 1
    } else {
        q
    };
    proof {
        assert(rounded <= 9007199254740992);
        assert(rounded as nat == div_round_even(n as nat, p as nat));
    }
    proof {
        vstd::arithmetic::div_mod::lemma_fundamental_div_mod(n as int, p as int);
        assert((rounded as int) * (p as int) <= (n as int) + (p as int)) by (nonlinear_arith)
            requires
                rounded <= q + 1,
                n == p * q + r,
                r >= 0,
        ;
    }
    let v = (rounded as u128) * (p as u128);
    v
}

/// The number of tenths that `{:.1}` writes for `n as f64 / d`, where `d`
/// is `2^k`.
fn tenths_of(n: u64, d: u128, k: Ghost<nat>) -> (t: u64)
    requires
        d as nat == pow2(k@),
        1024 <= d <= 1073741824,
    ensures
        t as nat == tenths(n as nat, k@),
{
    let f = f64_value(n);
    let num = f * 10;
    let q = num / d;
    let r = num % d;
    let t = if 2 * r > d || (2 * r == d && q % 2 == 1) {
        q + 1
    } else {
        q
    };
    proof {
        assert(q <= num / 1024) by (nonlinear_arith)
            requires
                q == num / d,
                d >= 1024,
        ;
    }
    t as u64
}

fn write_one_decimal(out: &mut String, t: u64)
    ensures
        final(out)@ == old(out)@ + one_decimal(t as nat),
{
    let whole = decimal(t / 10);
    push_text(out, whole.as_str());
    out.push('.');
    let d = t % 10;
    let c = crate::number::char_of_digit(d as u32);
    out.push(c);
    assert(final(out)@ =~= old(out)@ + one_decimal(t as nat));
}

/// The size text that `history` and `list` print.
pub fn format_size(bytes: u64) -> (r: String)
    ensures
        r@ == format_size_spec(bytes as nat),
{
    proof {
        lemma_pow2_values();
    }
    if bytes < KB {
        let mut r = decimal(bytes);
        push_text(&mut r, " B");
        r
    } else if bytes < MB {
        let mut r = String::new();
        write_one_decimal(&mut r, tenths_of(bytes, 1024, Ghost(10)));
        push_text(&mut r, " KB");
        r
    } else {
        let mut r = String::new();
        write_one_decimal(&mut r, tenths_of(bytes, 1048576, Ghost(20)));
        push_text(&mut r, " MB");
        r
    }
}

/// The size text that `pull` prints.
pub fn format_size_pull(size: u64) -> (r: String)
    ensures
        r@ == format_size_pull_spec(size as nat),
{
    proof {
        lemma_pow2_values();
    }
    if size >= GB {
        let mut r = String::new();
        write_one_decimal(&mut r, tenths_of(size, 1073741824, Ghost(30)));
        push_text(&mut r, " GB");
        r
    } else if size >= MB {
        let mut r = String::new();
        write_one_decimal(&mut r, tenths_of(size, 1048576, Ghost(20)));
        push_text(&mut r, " MB");
        r
    } else if size >= KB {
        let mut r = String::new();
        write_one_decimal(&mut r, tenths_of(size, 1024, Ghost(10)));
        push_text(&mut r, " KB");
        r
    } else {
        let mut r = decimal(size);
        push_text(&mut r, " B");
        r
    }
}

} // verus!
