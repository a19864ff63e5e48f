//! File sizes for display ("1.50 KB"), computed exactly in integers with
//! the rounding that the float rendering `{:.2}` of `size / unit` has.

use vstd::arithmetic::div_mod::lemma_div_denominator;
use vstd::arithmetic::power2::{lemma2_to64, lemma_pow2_adds, lemma_pow2_pos, lemma_pow2_unfold, pow2};
use vstd::prelude::*;

use crate::text::{dec, digit_char, digit_to_char, push_char, push_decimal, push_str};

verus! {

/// How many low bits of `n` do not fit in the 53-bit significand of an f64.
pub open spec fn dropped_bits(n: nat) -> nat
    decreases n,
{
    if n < pow2(53) || n == 0 {
        0
    } else {
        1 + dropped_bits(n / 2)
    }
}

/// The value of `n as f64`: `n` rounded to 53 significant bits, to the
/// nearest representable value and to the even one on a tie.
pub open spec fn f64_value(n: nat) -> nat {
    let s = dropped_bits(n);
    if s == 0 {
        n
    } else {
        let p = pow2(s);
        let q = n / p;
        let r = n % p;
        let h = p / 2;
        (if r > h || (r == h && q % 2 == 1) {
            q + 1
        } else {
            q
        }) * p
    }
}

/// `num / den` rounded to the nearest integer, ties to even.
pub open spec fn div_round_even(num: nat, den: nat) -> nat {
    let q = num / den;
    let r = num % den;
    if 2 * r > den || (2 * r == den && q % 2 == 1) {
        q + 1
    } else {
        q
    }
}

/// `num / den` with two decimals (`{:.2}`).
pub open spec fn two_decimals(num: nat, den: nat) -> Seq<char> {
    let c = div_round_even(num * 100, den);
    dec(c / 100) + seq!['.', digit_char((c % 100) / 10), digit_char(c % 10)]
}

pub open spec fn kib() -> nat {
    1024
}

pub open spec fn mib() -> nat {
    1024 * 1024
}

pub open spec fn gib() -> nat {
    1024 * 1024 * 1024
}

/// A size in bytes, in the largest of GB, MB and KB that it reaches, with two
/// decimals; below 1 KB, the plain number of bytes.
pub open spec fn size_text(size: nat) -> Seq<char> {
    if size >= gib() {
        two_decimals(f64_value(size), gib()) + " GB"@
    } else if size >= mib() {
        two_decimals(f64_value(size), mib()) + " MB"@
    } else if size >= kib() {
        two_decimals(f64_value(size), kib()) + " KB"@
    } else {
        dec(size) + " B"@
    }
}

proof fn lemma_pow2_53()
    ensures
        pow2(53) == 0x20_0000_0000_0000,
        pow2(64) == 0x1_0000_0000_0000_0000,
{
    lemma2_to64();
    lemma_pow2_adds(32, 21);
}

proof fn lemma_small_is_exact(n: nat)
    requires
        n < 0x20_0000_0000_0000,
    ensures
        f64_value(n) == n,
{
    lemma_pow2_53();
}

/// `n as f64`, as an integer.
fn f64_rounded(n: u64) -> (v: u128)
    ensures
        v == f64_value(n as nat),
        v <= 0x1_0000_0000_0000_0000,
{
    proof {
        lemma_pow2_53();
    }
    let mut m: u64 = n;
    let mut s: u64 = 0;
    let mut p: u64 = 1;
    proof {
        lemma2_to64();
    }
    while m >= 0x20_0000_0000_0000
        invariant
            p == pow2(s as nat),
            m == n as nat / pow2(s as nat),
            s <= 11,
            p <= 2048,
            dropped_bits(n as nat) == s + dropped_bits(m as nat),
            pow2(53) == 0x20_0000_0000_0000,
        decreases m,
    {
        proof {
            lemma2_to64();
            lemma_pow2_pos(s as nat);
            lemma_div_denominator(n as int, pow2(s as nat) as int, 2);
            lemma_pow2_unfold((s + 1) as nat);
            if s == 11 {
                assert(p == 2048);
                assert(n as nat / 2048 < 0x20_0000_0000_0000) by (nonlinear_arith)
                    requires
                        n <= u64::MAX,
                ;
                assert(m == n as nat / 2048);
                assert(false);
            }
            assert(s <= 10);
            if s + 1 < 11 {
                vstd::arithmetic::power2::lemma_pow2_strictly_increases((s + 1) as nat, 11);
            }
        }
        m = m / 2;
        s = s + 1;
        p = p * 2;
    }
    if s == 0 {
        return n as u128;
    }
    proof {
        lemma_pow2_unfold(s as nat);
    }
    let q = m;
    let r = n % p;
    let h = p / 2;
    let q2: u64 = if r > h || (r == h && q % 2 == 1) {
        q + 1
    } else {
        q
    };
    proof {
        assert(q as nat * p as nat <= n) by (nonlinear_arith)
            requires
                q == n as nat / p as nat,
                p > 0,
        ;
        assert(q2 as nat * p as nat <= 0x1_0000_0000_0000_0000) by (nonlinear_arith)
            requires
                q < 0x20_0000_0000_0000,
                q2 <= q + 1,
                p <= 2048,
        ;
    }
    (q2 as u128) * (p as u128)
}

/// Appends `num / den` with two decimals.
fn push_two_decimals(s: &mut String, num: u128, den: u128)
    requires
        0 < den,
        num <= 0x1_0000_0000_0000_0000,
        den >= 1024,
        den <= 0x4000_0000,
    ensures
        final(s)@ == old(s)@ + two_decimals(num as nat, den as nat),
{
    let scaled = num * 100;
    let q = scaled / den;
    let r = scaled % den;
    let c: u128 = if 2 * r > den || (2 * r == den && q % 2 == 1) {
        q + 1
    } else {
        q
    };
    assert(c == div_round_even(num as nat * 100, den as nat));
    proof {
        assert(q <= scaled / 1024) by (nonlinear_arith)
            requires
                q == scaled / den,
                den >= 1024,
        ;
    }
    let whole = c / 100;
    let frac = c % 100;
    push_decimal(s, whole as u64);
    push_char(s, '.');
    push_char(s, digit_to_char((frac / 10) as u64));
    push_char(s, digit_to_char((frac % 10) as u64));
}

/// Format file size for display
pub fn format_size(size: u64) -> (r: String)
    ensures
        r@ == size_text(size as nat),
{
    let mut out = String::new();
    if size >= 1024 * 1024 * 1024 {
        let v = f64_rounded(size);
        push_two_decimals(&mut out, v, 1024 * 1024 * 1024);
        push_str(&mut out, " GB");
    } else if size >= 1024 * 1024 {
        proof {
            lemma_small_is_exact(size as nat);
        }
        push_two_decimals(&mut out, size as u128, 1024 * 1024);
        push_str(&mut out, " MB");
    } else if size >= 1024 {
        proof {
            lemma_small_is_exact(size as nat);
        }
        push_two_decimals(&mut out, size as u128, 1024);
        push_str(&mut out, " KB");
    } else {
        push_decimal(&mut out, size);
        push_str(&mut out, " B");
    }
    out
}

} // verus!
