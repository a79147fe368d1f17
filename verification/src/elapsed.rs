//! Times that have passed, as they are shown: numbers of seconds in the binary format of 64 bits,
//! rounded to a few decimal places.

use vstd::prelude::*;
use vstd::arithmetic::power2::{
    lemma2_to64, lemma2_to64_rest, lemma_pow2_adds, lemma_pow2_pos, lemma_pow2_strictly_increases,
    lemma_pow2_unfold, pow2,
};
use crate::approx::{
    half_even, law_integers_are_exact, law_nearest_exists, lemma_exponent, lemma_half_even_scaled,
    lemma_integers_are_not_small, lemma_nearest_is, lemma_scaled_integer, lemma_shifted, nearest,
    nearest_bits, product, round, rounds_to, Approx, ApproxView, LOW_EXPONENT,
};
use crate::natural::Natural;

verus! {

/// The number of seconds of a time in nanoseconds. The part of a second is rounded by itself, and
/// then together with the whole seconds.
pub open spec fn seconds(nanos: nat) -> ApproxView {
    let whole = nanos / 1000000000;
    let part = nearest(nanos % 1000000000, 1000000000, 0);
    if nanos % 1000000000 == 0 {
        nearest(whole, 1, 0)
    } else {
        nearest(whole * pow2((-part.1) as nat) + part.0, 1, part.1)
    }
}

/// A time in tenths of a second, rounded from its number of seconds.
pub open spec fn tenths(nanos: nat) -> nat {
    nearest_bits(seconds(nanos).0 * 10, 1, seconds(nanos).1)
}

/// The number of milliseconds of a time: the thousandfold of its seconds.
pub open spec fn milliseconds(nanos: nat) -> ApproxView {
    nearest(seconds(nanos).0 * 1000, 1, seconds(nanos).1)
}

/// A time in whole milliseconds, rounded from its number of milliseconds.
pub open spec fn millis(nanos: nat) -> nat {
    nearest_bits(milliseconds(nanos).0, 1, milliseconds(nanos).1)
}

/// The integer nearest to `n * 2^k`.
fn nearest_integer(n: u128, k: i32) -> (r: u128)
    requires
        n < 0x1_0000_0000_0000_0000,
        k <= 60,
    ensures
        r == nearest_bits(n as nat, 1, k as int),
{
    proof {
        lemma2_to64();
        lemma2_to64_rest();
    }
    if k >= 0 {
        let mut m: u128 = n;
        let mut i: i32 = 0;
        assert(n * 1 == n) by (nonlinear_arith);
        while i < k
            invariant
                0 <= i <= k <= 60,
                n < 0x1_0000_0000_0000_0000,
                m == n * pow2(i as nat),
            decreases k - i,
        {
            proof {
                lemma2_to64();
                lemma2_to64_rest();
                lemma_pow2_unfold((i + 1) as nat);
                lemma_pow2_strictly_increases(i as nat, 60);
                let p = pow2(i as nat);
                assert(n * (2 * p) == (n * p) * 2) by (nonlinear_arith);
                assert(n * p <= 0x1_0000_0000_0000_0000 * 0x1000_0000_0000_0000)
                    by (nonlinear_arith)
                    requires
                        0 <= n < 0x1_0000_0000_0000_0000,
                        0 <= p <= 0x1000_0000_0000_0000,
                ;
            }
            m = m * 2;
            i = i + 1;
        }
        assert(half_even(m as nat, 1) == m);
        m
    } else if k < -66 {
        proof {
            let p = pow2((-k) as nat);
            lemma_pow2_adds(64, 2);
            lemma_pow2_strictly_increases(66, (-k) as nat);
            assert(1 * p == p) by (nonlinear_arith);
            assert(half_even(n as nat, p) == 0) by {
                vstd::arithmetic::div_mod::lemma_basic_div(n as int, p as int);
                vstd::arithmetic::div_mod::lemma_small_mod(n as nat, p);
            }
        }
        0
    } else {
        let mut p: u128 = 1;
        let mut i: i32 = 0;
        while i < -k
            invariant
                0 <= i <= -k <= 66,
                p == pow2(i as nat),
            decreases -k - i,
        {
            proof {
                lemma2_to64();
                lemma2_to64_rest();
                lemma_pow2_unfold((i + 1) as nat);
                lemma_pow2_adds(64, 2);
                lemma_pow2_strictly_increases(i as nat, 66);
            }
            p = p * 2;
            i = i + 1;
        }
        proof {
            lemma_pow2_pos((-k) as nat);
            let q = pow2((-k) as nat);
            assert(1 * q == q) by (nonlinear_arith);
            lemma_pow2_adds(64, 2);
            if -k < 66 {
                lemma_pow2_strictly_increases((-k) as nat, 66);
            }
        }
        let q: u128 = n / p;
        let r: u128 = n % p;
        if 2 * r > p || (2 * r == p && q % 2 == 1) {
            q + 1
        } else {
            q
        }
    }
}

/// The number of seconds of a time in nanoseconds.
fn seconds_of(nanos: u128) -> (r: Approx)
    ensures
        r.wf(),
        r@ == seconds(nanos as nat),
        r.exponent <= 48,
{
    let whole: u128 = nanos / 1000000000;
    let rest: u128 = nanos % 1000000000;
    let mut n = Natural::of(whole);
    let mut t: i32 = 0;
    proof {
        lemma2_to64();
        lemma2_to64_rest();
        lemma_pow2_adds(64, 36);
        lemma_pow2_adds(36, 64);
        assert(pow2(100) == pow2(64) * pow2(36));
        assert(pow2(64) * pow2(36) == 0x1_0000_0000_0000_0000 * 0x10_0000_0000);
        assert(whole < pow2(100));
    }
    if rest > 0 {
        proof {
            assert(1000000000 * 1 == 1000000000nat) by (nonlinear_arith);
            lemma_exponent(rest as nat, 1000000000, 0, 0);
            law_nearest_exists(rest as nat, 1000000000, 0);
        }
        let part = match round(&Natural::of(rest), &Natural::of(1000000000), 0) {
            Some(x) => x,
            None => Approx { bits: 0, exponent: 0 },
        };
        t = part.exponent;
        let mut i: i32 = -53;
        assert(whole * 1 == whole) by (nonlinear_arith);
        while i > t
            invariant
                LOW_EXPONENT <= t <= i <= -53,
                n@ == whole * pow2((-53 - i) as nat),
            decreases i - t,
        {
            n.times_plus(2, 0);
            i = i - 1;
            proof {
                lemma_pow2_unfold((-53 - i) as nat);
                let p = pow2((-53 - i - 1) as nat);
                assert(whole * (2 * p) == (whole * p) * 2) by (nonlinear_arith);
            }
        }
        let ghost p = pow2((-53 - t) as nat);
        let high: u32 = (part.bits / 0x800_0000) as u32;
        let low: u32 = (part.bits % 0x800_0000) as u32;
        n.times_plus(0x400_0000, high);
        n.times_plus(0x800_0000, low);
        proof {
            lemma_pow2_adds((-53 - t) as nat, 53);
            assert((whole * p * 0x400_0000 + high) * 0x800_0000 + low == whole * (p
                * 0x20_0000_0000_0000) + (high * 0x800_0000 + low)) by (nonlinear_arith);
            let k = (-t) as nat;
            let q = pow2(k);
            lemma_pow2_pos(k);
            lemma_pow2_adds(100, k);
            lemma_pow2_adds(k, 101);
            lemma_pow2_unfold(101);
            if k > 53 {
                lemma_pow2_strictly_increases(53, k);
            }
            let h = pow2(100);
            assert(whole * q + part.bits < 1 * (q * (2 * h))) by (nonlinear_arith)
                requires
                    0 <= whole < h,
                    0 < q,
                    part.bits <= q,
                    h >= 2,
            ;
            lemma_exponent(n@, 1, t as int, 101 - t);
        }
    } else {
        proof {
            assert(1 * pow2(100) == pow2(100)) by (nonlinear_arith);
            lemma_exponent(n@, 1, 0, 100);
        }
    }
    match round(&n, &Natural::of(1), t) {
        Some(x) => x,
        None => Approx { bits: 0, exponent: 0 },
    }
}

/// A time in tenths of a second, rounded from its number of seconds.
pub fn tenths_of(nanos: u128) -> (r: u128)
    ensures
        r == tenths(nanos as nat),
{
    let x = seconds_of(nanos);
    nearest_integer((x.bits as u128) * 10, x.exponent)
}

/// A time in whole milliseconds, rounded from its number of milliseconds.
pub fn millis_of(nanos: u128) -> (r: u128)
    ensures
        r == millis(nanos as nat),
{
    let x = seconds_of(nanos);
    proof {
        lemma2_to64();
        lemma2_to64_rest();
        assert(1 * pow2(64) == pow2(64)) by (nonlinear_arith);
        lemma_exponent((x.bits * 1000) as nat, 1, x.exponent as int, 64);
    }
    let y = match product(x, 1000) {
        Some(y) => y,
        None => Approx { bits: 0, exponent: 0 },
    };
    nearest_integer(y.bits as u128, y.exponent)
}

// ---------------------------------------------------------------------------
// Laws
// ---------------------------------------------------------------------------

/// A number of whole seconds is shown exactly: ten tenths and a thousand milliseconds for each.
pub proof fn law_whole_seconds_are_exact(s: nat)
    requires
        s < 0x800_0000_0000,
    ensures
        tenths(s * 1_000_000_000) == 10 * s,
        millis(s * 1_000_000_000) == 1000 * s,
{
    lemma2_to64();
    let nanos = s * 1_000_000_000;
    assert(nanos / 1_000_000_000 == s && nanos % 1_000_000_000 == 0);
    law_integers_are_exact(s, 0);
    assert(s * pow2(0) == s);
    let y = nearest(s, 1, 0);
    let k = (-y.1) as nat;
    lemma_shown(y, s, 1, k);
}

/// Half a second is shown exactly too: as five tenths and five hundred milliseconds.
pub proof fn law_half_seconds_are_exact(s: nat)
    requires
        s < 0x400_0000_0000,
    ensures
        tenths(s * 1_000_000_000 + 500_000_000) == 10 * s + 5,
        millis(s * 1_000_000_000 + 500_000_000) == 1000 * s + 500,
{
    lemma2_to64();
    lemma2_to64_rest();
    let nanos = s * 1_000_000_000 + 500_000_000;
    assert(nanos / 1_000_000_000 == s && nanos % 1_000_000_000 == 500_000_000);
    let half: ApproxView = (pow2(52), -53);
    assert(rounds_to(500_000_000, 1_000_000_000, 0, half)) by {
        assert(500_000_000 * pow2(53) == pow2(52) * 1_000_000_000);
        lemma_half_even_scaled(pow2(52), 1, 1_000_000_000);
        assert(half_even(pow2(52), 1) == pow2(52));
    }
    lemma_nearest_is(500_000_000, 1_000_000_000, 0, half);
    let m: nat = 2 * s + 1;
    let n = s * pow2(53) + pow2(52);
    assert(n == m * pow2(52)) by (nonlinear_arith)
        requires
            n == s * pow2(53) + pow2(52),
            m == 2 * s + 1,
            pow2(53) == 2 * pow2(52),
    ;
    law_integers_are_exact(m, -52);
    assert(n > 0);
    let x = nearest(n, 1, -52);
    lemma_integers_are_not_small(n, -52);
    lemma_shifted(n, 1, -52, -1);
    let y: ApproxView = (x.0, x.1 - 1);
    assert(seconds(nanos) == y);
    let k = (-x.1) as nat;
    lemma_shown(y, m, 2, k);
}

/// What is shown of `z / c` seconds, for a `c` of one or two.
proof fn lemma_shown(y: ApproxView, z: nat, c: nat, k: nat)
    requires
        c == 1 || c == 2,
        y.0 == z * pow2(k),
        y.1 == -(k as int) - (c - 1),
        1000 * z < 0x20_0000_0000_0000,
    ensures
        c * nearest_bits(y.0 * 10, 1, y.1) == 10 * z,
        c * nearest_bits(nearest(y.0 * 1000, 1, y.1).0, 1, nearest(y.0 * 1000, 1, y.1).1) == 1000 * z,
{
    lemma2_to64();
    let e = (k + c - 1) as nat;
    lemma_pow2_adds(k, (c - 1) as nat);
    let p = pow2(k);
    let q = pow2(e);
    assert(q == p * c);
    let a: nat = if c == 1 {
        10 * z
    } else {
        5 * z
    };
    let b: nat = if c == 1 {
        1000 * z
    } else {
        500 * z
    };
    assert(y.0 * 10 == a * q && y.0 * 1000 == b * q) by (nonlinear_arith)
        requires
            y.0 == z * p,
            q == p * c,
            c * a == 10 * z,
            c * b == 1000 * z,
    ;
    lemma_scaled_integer(a, e);
    law_integers_are_exact(b, y.1);
    assert((-y.1) as nat == e);
    let w = nearest(y.0 * 1000, 1, y.1);
    lemma_scaled_integer(b, (-w.1) as nat);
}

} // verus!
