//! Exact integer model of the IEEE-754 binary64 arithmetic that the token
//! count goes through: the rounding of an integer to the nearest double, of a
//! quotient of doubles, and of a double printed with one decimal.

use vstd::prelude::*;

verus! {

/// `2^e`.
pub open spec fn two_pow(e: nat) -> nat
    decreases e,
{
    if e == 0 {
        1
    } else {
        2 * two_pow((e - 1) as nat)
    }
}

/// Number of binary digits of `n` (0 for 0).
pub open spec fn bit_len(n: nat) -> nat
    decreases n,
{
    if n == 0 {
        0
    } else {
        1 + bit_len(n / 2)
    }
}

/// `n / d` rounded to the nearest integer, ties to even.
pub open spec fn round_half_even(n: nat, d: nat) -> nat
    recommends
        d > 0,
{
    let q = n / d;
    let r = n % d;
    if 2 * r > d {
        q + 1
    } else if 2 * r < d {
        q
    } else if q % 2 == 0 {
        q
    } else {
        q + 1
    }
}

/// The double nearest to the integer `n` (ties to even), as an integer:
/// `n` itself when it has at most 53 bits, else `n` rounded to 53 significant bits.
pub open spec fn nearest_double(n: nat) -> nat {
    if bit_len(n) <= 53 {
        n
    } else {
        let s = (bit_len(n) - 53) as nat;
        round_half_even(n, two_pow(s)) * two_pow(s)
    }
}

/// `t / 1_000_000` computed in doubles (`t as f64 / 1_000_000.0`) and printed
/// with one decimal (`{:.1}`), counted in tenths. The quotient `x / 10^6` of
/// the double `x` nearest to `t` is rounded to 53 significant bits: with
/// `2^e <= x / 10^6 < 2^(e+1)` its value is `m / 2^k`, `k = 52 - e`; the
/// printed decimal rounds it to the nearest tenth, ties to even.
pub open spec fn millions_tenths(t: nat) -> nat {
    let x = nearest_double(t);
    let e = (bit_len(x / 1_000_000) - 1) as nat;
    let k = (52 - e) as nat;
    let m = round_half_even(x * two_pow(k), 1_000_000);
    round_half_even(m * 10, two_pow(k))
}

pub proof fn lemma_two_pow_adds(a: nat, b: nat)
    ensures
        two_pow(a + b) == two_pow(a) * two_pow(b),
    decreases a,
{
    if a > 0 {
        let a1 = (a - 1) as nat;
        lemma_two_pow_adds(a1, b);
        assert(a + b == (a1 + b) + 1);
        assert(two_pow(a + b) == 2 * two_pow(a1 + b));
        assert(two_pow(a) == 2 * two_pow(a1));
        let x = two_pow(a1);
        let y = two_pow(b);
        assert(2 * (x * y) == (2 * x) * y) by (nonlinear_arith);
    } else {
        assert(two_pow(0) == 1);
        assert(1 * two_pow(b) == two_pow(b));
    }
}

pub proof fn lemma_two_pow_positive(a: nat)
    ensures
        two_pow(a) >= 1,
    decreases a,
{
    if a > 0 {
        lemma_two_pow_positive((a - 1) as nat);
    }
}

pub proof fn lemma_two_pow_monotone(a: nat, b: nat)
    requires
        a <= b,
    ensures
        1 <= two_pow(a) <= two_pow(b),
    decreases b,
{
    lemma_two_pow_positive(a);
    if b > a {
        lemma_two_pow_monotone(a, (b - 1) as nat);
    }
}

pub proof fn lemma_bit_len_bounds(n: nat)
    requires
        n > 0,
    ensures
        bit_len(n) >= 1,
        two_pow((bit_len(n) - 1) as nat) <= n < two_pow(bit_len(n)),
    decreases n,
{
    let h = n / 2;
    assert(bit_len(n) == 1 + bit_len(h));
    if n > 1 {
        lemma_bit_len_bounds(h);
        let b = bit_len(h);
        assert(two_pow(b) == 2 * two_pow((b - 1) as nat));
        assert(two_pow(bit_len(n)) == 2 * two_pow(b));
    } else {
        assert(bit_len(0) == 0);
        assert(two_pow(1) == 2 * two_pow(0));
    }
}

pub proof fn lemma_bit_len_below(n: nat, k: nat)
    requires
        n < two_pow(k),
    ensures
        bit_len(n) <= k,
    decreases k,
{
    if n > 0 {
        lemma_two_pow_positive(k);
        if k == 0 {
            assert(false);
        } else {
            assert(two_pow(k) == 2 * two_pow((k - 1) as nat));
            lemma_bit_len_below(n / 2, (k - 1) as nat);
        }
    }
}

pub proof fn lemma_bit_len_monotone(a: nat, b: nat)
    requires
        a <= b,
    ensures
        bit_len(a) <= bit_len(b),
    decreases b,
{
    if a > 0 {
        lemma_bit_len_monotone(a / 2, b / 2);
    }
}

pub proof fn lemma_two_pow_values()
    ensures
        two_pow(8) == 256,
        two_pow(16) == 65536,
        two_pow(32) == 4294967296,
        two_pow(64) == 18446744073709551616,
        two_pow(128) == 340282366920938463463374607431768211456,
        two_pow(10) == 1024,
        two_pow(52) == 4503599627370496,
        two_pow(53) == 9007199254740992,
        two_pow(63) == 9223372036854775808,
{
    reveal_with_fuel(two_pow, 9);
    lemma_two_pow_adds(8, 8);
    assert(two_pow(16) == 256 * 256);
    lemma_two_pow_adds(16, 16);
    assert(two_pow(32) == 65536 * 65536);
    lemma_two_pow_adds(32, 32);
    assert(two_pow(64) == 4294967296 * 4294967296);
    lemma_two_pow_adds(64, 64);
    assert(two_pow(128) == 18446744073709551616 * 18446744073709551616);
    lemma_two_pow_adds(32, 16);
    assert(two_pow(48) == 4294967296 * 65536);
    lemma_two_pow_adds(48, 4);
    assert(two_pow(52) == 281474976710656 * 16);
    lemma_two_pow_adds(52, 1);
    assert(two_pow(53) == 4503599627370496 * 2);
    lemma_two_pow_adds(48, 8);
    assert(two_pow(56) == 281474976710656 * 256);
    lemma_two_pow_adds(56, 7);
    assert(two_pow(63) == 72057594037927936 * 128);
    lemma_two_pow_adds(8, 2);
}

/// Number of binary digits of `n`.
pub fn bit_length(n: u128) -> (r: u32)
    ensures
        r == bit_len(n as nat),
        r <= 128,
{
    let mut x = n;
    let mut c: u32 = 0;
    proof {
        lemma_two_pow_values();
        lemma_bit_len_below(n as nat, 128);
    }
    while x > 0
        invariant
            bit_len(n as nat) == c + bit_len(x as nat),
            c + bit_len(x as nat) <= 128,
        decreases x,
    {
        x = x / 2;
        c = c + 1;
    }
    c
}

/// `2^e`.
pub fn pow2_u128(e: u32) -> (r: u128)
    requires
        e < 128,
    ensures
        r == two_pow(e as nat),
{
    let mut p: u128 = 1;
    let mut i: u32 = 0;
    while i < e
        invariant
            i <= e < 128,
            p == two_pow(i as nat),
        decreases e - i,
    {
        proof {
            lemma_two_pow_monotone((i + 1) as nat, 127);
            lemma_two_pow_values();
            lemma_two_pow_adds(127, 1);
        }
        p = p * 2;
        i = i + 1;
    }
    p
}

/// `n / d` rounded to the nearest integer, ties to even.
pub fn round_half_even_u128(n: u128, d: u128) -> (r: u128)
    requires
        d > 0,
    ensures
        r == round_half_even(n as nat, d as nat),
        r <= n / d + 1,
{
    let q = n / d;
    let r = n % d;
    proof {
        vstd::arithmetic::div_mod::lemma_fundamental_div_mod(n as int, d as int);
        if d >= 2 {
            vstd::arithmetic::div_mod::lemma_div_is_ordered_by_denominator(n as int, 2, d as int);
        }
    }
    if r > d - r {
        q + 1
    } else if r < d - r {
        q
    } else if q % 2 == 0 {
        q
    } else {
        q + 1
    }
}


/// `t as f64 / 1_000_000.0`, printed with one decimal, counted in tenths.
pub fn millions_in_tenths(t: u64) -> (r: u64)
    requires
        1_000_000 <= t <= i64::MAX,
    ensures
        r == millions_tenths(t as nat),
{
    proof {
        lemma_two_pow_values();
        lemma_bit_len_below(t as nat, 63);
        lemma_bit_len_bounds(t as nat);
    }
    let n = t as u128;
    let bl = bit_length(n);
    let x: u128 = if bl <= 53 {
        n
    } else {
        let s = bl - 53;
        proof {
            lemma_two_pow_monotone(s as nat, 10);
            lemma_two_pow_positive(s as nat);
        }
        let p = pow2_u128(s);
        let h = round_half_even_u128(n, p);
        proof {
            vstd::arithmetic::div_mod::lemma_fundamental_div_mod(n as int, p as int);
            assert(h * p <= n + p) by (nonlinear_arith)
                requires
                    h <= n / p + 1,
                    n == p * (n / p) + n % p,
                    0 <= n % p,
                    p >= 1,
            ;
            assert(h * p >= n - p) by (nonlinear_arith)
                requires
                    h >= n / p,
                    n == p * (n / p) + n % p,
                    n % p < p,
                    p >= 1,
            ;
            lemma_two_pow_monotone(52, (bl - 1) as nat);
        }
        h * p
    };
    assert(1_000_000 <= x <= 9223372036854775808 + 1024);
    let q = x / 1_000_000;
    proof {
        lemma_bit_len_bounds(q as nat);
        lemma_bit_len_below(q as nat, 53);
    }
    let e = bit_length(q) - 1;
    let k = 52 - e;
    proof {
        lemma_two_pow_monotone(k as nat, 52);
        lemma_two_pow_adds((e + 1) as nat, k as nat);
        assert(e + 1 + k == 53);
    }
    let pk = pow2_u128(k);
    proof {
        let tp = two_pow((e + 1) as nat);
        assert(x < tp * 1_000_000) by (nonlinear_arith)
            requires
                q < tp,
                q == x / 1_000_000,
        ;
        assert(x * pk < tp * pk * 1_000_000) by (nonlinear_arith)
            requires
                x < tp * 1_000_000,
                pk >= 1,
        ;
        assert(tp * pk == 9007199254740992);
    }
    let xk = x * pk;
    let m = round_half_even_u128(xk, 1_000_000);
    proof {
        assert(xk / 1_000_000 < 9007199254740992);
    }
    let d = round_half_even_u128(m * 10, pk);
    proof {
        let mm = (m * 10) as int;
        let pp = pk as int;
        assert(mm / pp <= mm) by (nonlinear_arith)
            requires
                pp >= 1,
                mm >= 0,
        ;
    }
    d as u64
}

} // verus!
