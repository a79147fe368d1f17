//! Numbers without a sign in the binary format of 64 bits: 53 significant bits, and exponents from
//! -1074 to 971. Operations are rounded to the nearest number, and to the even one of two.

use vstd::prelude::*;
use vstd::arithmetic::power2::{
    lemma2_to64, lemma2_to64_rest, lemma_pow2_adds, lemma_pow2_pos, lemma_pow2_strictly_increases,
    lemma_pow2_unfold, pow2,
};
use crate::natural::Natural;

verus! {

/// The smallest exponent.
pub const LOW_EXPONENT: i32 = -1074;

/// The largest exponent.
pub const HIGH_EXPONENT: i32 = 971;

/// The number `bits * 2^exponent`.
#[derive(Debug, Clone, Copy, PartialEq, Eq, Structural)]
pub struct Approx {
    pub bits: u64,
    pub exponent: i32,
}

/// A number as a value: its significant bits and its exponent, which has no upper limit.
pub type ApproxView = (nat, int);

impl View for Approx {
    type V = ApproxView;

    open spec fn view(&self) -> ApproxView {
        (self.bits as nat, self.exponent as int)
    }
}

impl Approx {
    /// Whether the number is one of the format.
    pub open spec fn wf(&self) -> bool {
        self.bits <= 0x20_0000_0000_0000 && LOW_EXPONENT <= self.exponent <= HIGH_EXPONENT
    }
}

/// Whether `n / d` is less than `2^k`.
pub open spec fn below(n: nat, d: nat, k: int) -> bool {
    if k >= 0 {
        n < d * pow2(k as nat)
    } else {
        n * pow2((-k) as nat) < d
    }
}

/// The integer nearest to `n / d`, and the even one of two.
pub open spec fn half_even(n: nat, d: nat) -> nat {
    let q = n / d;
    let r = n % d;
    if 2 * r > d || (2 * r == d && q % 2 == 1) {
        q + 1
    } else {
        q
    }
}

/// The integer nearest to `n * 2^k / d`.
pub open spec fn nearest_bits(n: nat, d: nat, k: int) -> nat {
    if k >= 0 {
        half_even(n * pow2(k as nat), d)
    } else {
        half_even(n, d * pow2((-k) as nat))
    }
}

/// Whether `x` is the nearest number to `n * 2^t / d`: its exponent is the smallest that leaves no
/// more than 53 bits.
pub open spec fn rounds_to(n: nat, d: nat, t: int, x: ApproxView) -> bool {
    &&& x.1 >= LOW_EXPONENT
    &&& below(n, d, x.1 + 53 - t)
    &&& x.1 > LOW_EXPONENT ==> !below(n, d, x.1 + 52 - t)
    &&& x.0 == nearest_bits(n, d, t - x.1)
}

/// The nearest number to `n * 2^t / d`.
pub open spec fn nearest(n: nat, d: nat, t: int) -> ApproxView {
    choose|x: ApproxView| rounds_to(n, d, t, x)
}

/// Whether a number is not too large for the format.
pub open spec fn finite(x: ApproxView) -> bool {
    x.1 < HIGH_EXPONENT || (x.1 == HIGH_EXPONENT && x.0 < 0x20_0000_0000_0000)
}

/// The whole part of a number, at most what 64 bits hold.
pub open spec fn whole(x: ApproxView) -> u64 {
    let n = if x.1 >= 0 {
        x.0 * pow2(x.1 as nat)
    } else {
        x.0 / pow2((-x.1) as nat)
    };
    if n <= u64::MAX {
        n as u64
    } else {
        u64::MAX
    }
}

// ---------------------------------------------------------------------------
// Proofs
// ---------------------------------------------------------------------------

/// `n * 2^j < d * 2^i` says that `n / d` is less than `2^(i - j)`.
proof fn lemma_below(n: nat, d: nat, i: nat, j: nat)
    ensures
        n * pow2(j) < d * pow2(i) <==> below(n, d, i - j),
{
    if i >= j {
        let k = (i - j) as nat;
        lemma_pow2_adds(k, j);
        lemma_pow2_pos(j);
        let p = pow2(j);
        let q = pow2(k);
        assert(n * p < d * (q * p) <==> n < d * q) by (nonlinear_arith)
            requires
                p > 0,
        ;
    } else {
        let k = (j - i) as nat;
        lemma_pow2_adds(k, i);
        lemma_pow2_pos(i);
        let p = pow2(i);
        let q = pow2(k);
        assert(n * (q * p) < d * p <==> n * q < d) by (nonlinear_arith)
            requires
                p > 0,
        ;
    }
}

proof fn lemma_below_grows(n: nat, d: nat, k: int, l: int)
    requires
        k <= l,
        below(n, d, k),
    ensures
        below(n, d, l),
{
    let j = if k < 0 {
        (-k) as nat
    } else {
        0nat
    };
    let i = (k + j) as nat;
    let h = (l + j) as nat;
    lemma_below(n, d, i, j);
    lemma_below(n, d, h, j);
    if i < h {
        lemma_pow2_strictly_increases(i, h);
    }
    let a = pow2(i);
    let b = pow2(h);
    assert(d * a <= d * b) by (nonlinear_arith)
        requires
            a <= b,
    ;
}

pub proof fn lemma_half_even_scaled(n: nat, d: nat, c: nat)
    requires
        d > 0,
        c > 0,
    ensures
        half_even(n * c, d * c) == half_even(n, d),
{
    let q = n / d;
    let r = n % d;
    assert(n == q * d + r) by (nonlinear_arith)
        requires
            d > 0,
            q == n / d,
            r == n % d,
    ;
    let a = n * c;
    let b = d * c;
    assert(a == q * b + r * c) by (nonlinear_arith)
        requires
            n == q * d + r,
            a == n * c,
            b == d * c,
    ;
    assert(0 <= r * c < b) by (nonlinear_arith)
        requires
            0 <= r < d,
            c > 0,
            b == d * c,
    ;
    vstd::arithmetic::div_mod::lemma_fundamental_div_mod_converse(
        a as int,
        b as int,
        q as int,
        (r * c) as int,
    );
    assert(2 * (r * c) > d * c <==> 2 * r > d) by (nonlinear_arith)
        requires
            c > 0,
    ;
    assert(2 * (r * c) == d * c <==> 2 * r == d) by (nonlinear_arith)
        requires
            c > 0,
    ;
}

proof fn lemma_bits(n: nat, d: nat, i: nat, j: nat)
    requires
        d > 0,
    ensures
        half_even(n * pow2(j), d * pow2(i)) == nearest_bits(n, d, j - i),
{
    if j >= i {
        let k = (j - i) as nat;
        lemma_pow2_adds(k, i);
        lemma_pow2_pos(i);
        let p = pow2(i);
        let q = pow2(k);
        assert(n * (q * p) == (n * q) * p) by (nonlinear_arith);
        lemma_half_even_scaled(n * q, d, p);
        if k == 0 {
            assert(nearest_bits(n, d, 0) == half_even(n * pow2(0), d));
        }
    } else {
        let k = (i - j) as nat;
        lemma_pow2_adds(k, j);
        lemma_pow2_pos(j);
        lemma_pow2_pos(k);
        let p = pow2(j);
        let q = pow2(k);
        assert(d * (q * p) == (d * q) * p) by (nonlinear_arith);
        assert(d * q > 0) by (nonlinear_arith)
            requires
                d > 0,
                q > 0,
        ;
        lemma_half_even_scaled(n, d * q, p);
    }
}

/// There is only one nearest number.
pub proof fn lemma_nearest_is(n: nat, d: nat, t: int, x: ApproxView)
    requires
        rounds_to(n, d, t, x),
    ensures
        nearest(n, d, t) == x,
{
    let y = nearest(n, d, t);
    assert(rounds_to(n, d, t, y));
    if x.1 < y.1 {
        lemma_below_grows(n, d, x.1 + 53 - t, y.1 + 52 - t);
    } else if y.1 < x.1 {
        lemma_below_grows(n, d, y.1 + 53 - t, x.1 + 52 - t);
    }
}

proof fn lemma_power_outgrows(n: nat)
    ensures
        n < pow2(n),
    decreases n,
{
    lemma2_to64();
    if n > 0 {
        lemma_power_outgrows((n - 1) as nat);
        lemma_pow2_unfold(n);
    }
}

proof fn lemma_nearest_from(n: nat, d: nat, t: int, e: int) -> (x: ApproxView)
    requires
        d > 0,
        e >= LOW_EXPONENT,
        e > LOW_EXPONENT ==> !below(n, d, e + 52 - t),
    ensures
        rounds_to(n, d, t, x),
    decreases n - (e + 53 - t),
{
    let k = e + 53 - t;
    if below(n, d, k) {
        (nearest_bits(n, d, t - e), e)
    } else {
        if k >= n {
            lemma_power_outgrows(n);
            let p = pow2(n);
            assert(n < d * p) by (nonlinear_arith)
                requires
                    n < p,
                    d >= 1,
            ;
            assert(below(n, d, n as int));
            lemma_below_grows(n, d, n as int, k);
        }
        lemma_nearest_from(n, d, t, e + 1)
    }
}

/// The nearest number is one.
pub proof fn law_nearest_exists(n: nat, d: nat, t: int)
    requires
        d > 0,
    ensures
        rounds_to(n, d, t, nearest(n, d, t)),
{
    let x = lemma_nearest_from(n, d, t, LOW_EXPONENT as int);
}

/// A number that is too large has a whole part beyond 64 bits.
pub proof fn lemma_too_large(n: nat, d: nat, t: int)
    requires
        d > 0,
        !finite(nearest(n, d, t)),
    ensures
        whole(nearest(n, d, t)) == u64::MAX,
{
    law_nearest_exists(n, d, t);
    lemma_positive(n, d, t);
    let x = nearest(n, d, t);
    lemma2_to64();
    lemma_pow2_strictly_increases(64, x.1 as nat);
    let q = pow2(x.1 as nat);
    assert(x.0 * q >= q) by (nonlinear_arith)
        requires
            x.0 >= 1,
            q >= 0,
    ;
}

/// A number of more than the smallest size does not vanish.
proof fn lemma_positive(n: nat, d: nat, t: int)
    requires
        d > 0,
        nearest(n, d, t).1 > LOW_EXPONENT,
    ensures
        nearest(n, d, t).0 > 0,
{
    law_nearest_exists(n, d, t);
    let x = nearest(n, d, t);
    let k = t - x.1;
    if below(n, d, -k) {
        lemma_below_grows(n, d, -k, 52 - k);
    }
    lemma2_to64();
    if k >= 0 {
        let a = n * pow2(k as nat);
        if k == 0 {
            assert(d * 1 == d && n * 1 == n) by (nonlinear_arith);
        }
        assert(a / d >= 1) by (nonlinear_arith)
            requires
                a >= d,
                d > 0,
        ;
    } else {
        let b = d * pow2((-k) as nat);
        lemma_pow2_pos((-k) as nat);
        let p = pow2((-k) as nat);
        assert(b > 0) by (nonlinear_arith)
            requires
                b == d * p,
                d > 0,
                p > 0,
        ;
        assert(n / b >= 1) by (nonlinear_arith)
            requires
                n >= b,
                b > 0,
        ;
    }
}

/// A number below `2^(k + t)` has an exponent to match.
pub proof fn lemma_exponent(n: nat, d: nat, t: int, k: int)
    requires
        d > 0,
        below(n, d, k),
    ensures
        nearest(n, d, t).1 == LOW_EXPONENT || nearest(n, d, t).1 <= k + t - 53,
        nearest(n, d, t).1 >= LOW_EXPONENT,
{
    law_nearest_exists(n, d, t);
    let x = nearest(n, d, t);
    if x.1 > LOW_EXPONENT && x.1 > k + t - 53 {
        lemma_below_grows(n, d, k, x.1 + 52 - t);
    }
}

/// Whether a number is an integer.
pub open spec fn is_integer(x: ApproxView, z: nat) -> bool {
    x.1 <= 0 && x.0 == z * pow2((-x.1) as nat)
}

/// Integers of at most 53 bits are not rounded.
pub proof fn law_integers_are_exact(z: nat, t: int)
    requires
        z < 0x20_0000_0000_0000,
        t <= 0,
    ensures
        is_integer(nearest(z * pow2((-t) as nat), 1, t), z),
        finite(nearest(z * pow2((-t) as nat), 1, t)),
        whole(nearest(z * pow2((-t) as nat), 1, t)) == z,
{
    let u = (-t) as nat;
    let n = z * pow2(u);
    law_nearest_exists(n, 1, t);
    let x = nearest(n, 1, t);
    lemma2_to64();
    lemma2_to64_rest();
    lemma_pow2_pos(u);
    if x.1 > 0 {
        let h = (x.1 + 52 - t) as nat;
        lemma_pow2_adds(53, u);
        if 53 + u < h {
            lemma_pow2_strictly_increases(53 + u, h);
        }
        let p = pow2(u);
        assert(z * p < 0x20_0000_0000_0000 * p) by (nonlinear_arith)
            requires
                z < 0x20_0000_0000_0000,
                p > 0,
        ;
        assert(false);
    }
    let e = (-x.1) as nat;
    if t >= x.1 {
        let k = (t - x.1) as nat;
        lemma_pow2_adds(u, k);
        let (p, q) = (pow2(u), pow2(k));
        assert((z * p) * q == z * (p * q)) by (nonlinear_arith);
        assert(half_even(n * q, 1) == n * q);
    } else {
        let k = (x.1 - t) as nat;
        lemma_pow2_adds(e, k);
        lemma_pow2_pos(k);
        let (p, q) = (pow2(e), pow2(k));
        let m = z * p;
        assert(n == m * q) by (nonlinear_arith)
            requires
                n == z * (p * q),
                m == z * p,
        ;
        assert(1 * q == q) by (nonlinear_arith);
        vstd::arithmetic::div_mod::lemma_fundamental_div_mod_converse(
            n as int,
            q as int,
            m as int,
            0,
        );
    }
    lemma_pow2_pos(e);
    vstd::arithmetic::div_mod::lemma_div_multiples_vanish(z as int, pow2(e) as int);
    assert(z * pow2(e) == pow2(e) * z) by (nonlinear_arith);
    if x.1 == 0 {
        assert(z * 1 == z && x.0 * 1 == x.0) by (nonlinear_arith);
    }
}

// ---------------------------------------------------------------------------
// Operations
// ---------------------------------------------------------------------------

fn divide(a: &Natural, b: &Natural) -> (r: u64)
    requires
        a@ < b@,
    ensures
        r == half_even(a@ * pow2(53), b@),
        r <= 0x20_0000_0000_0000,
{
    let mut rest = a.clone_number();
    let mut q: u64 = 0;
    let mut i: u32 = 0;
    proof {
        lemma2_to64();
        lemma2_to64_rest();
        assert(a@ * 1 == 0 * b@ + a@) by (nonlinear_arith);
    }
    while i < 53
        invariant
            i <= 53,
            rest@ < b@,
            q < pow2(i as nat),
            pow2(53) == 0x20_0000_0000_0000,
            a@ * pow2(i as nat) == q * b@ + rest@,
        decreases 53 - i,
    {
        let ghost r0 = rest@;
        let ghost q0 = q;
        proof {
            lemma_pow2_unfold((i + 1) as nat);
            if i < 52 {
                lemma_pow2_strictly_increases((i + 1) as nat, 53);
            }
        }
        rest.times_plus(2, 0);
        q = q * 2;
        if !rest.less(b) {
            rest.minus(b);
            q = q + 1;
        }
        i = i + 1;
        proof {
            let p = pow2((i - 1) as nat);
            let y = b@;
            assert(a@ * (2 * p) == q * y + rest@) by (nonlinear_arith)
                requires
                    a@ * p == q0 * y + r0,
                    (q == q0 * 2 && rest@ == r0 * 2) || (q == q0 * 2 + 1 && rest@ == r0 * 2 - y),
            ;
        }
    }
    let ghost n = a@ * pow2(53);
    proof {
        vstd::arithmetic::div_mod::lemma_fundamental_div_mod_converse(
            n as int,
            b@ as int,
            q as int,
            rest@ as int,
        );
    }
    rest.times_plus(2, 0);
    if b.less(&rest) {
        q + 1
    } else if rest.less(b) || q % 2 == 0 {
        q
    } else {
        q + 1
    }
}

/// The nearest number to `n * 2^t / d`; nothing where it is too large.
pub fn round(n: &Natural, d: &Natural, t: i32) -> (r: Option<Approx>)
    requires
        d@ > 0,
        LOW_EXPONENT <= t <= HIGH_EXPONENT,
    ensures
        match r {
            Some(x) => x.wf() && x@ == nearest(n@, d@, t as int) && finite(x@),
            None => !finite(nearest(n@, d@, t as int)),
        },
{
    let mut a = n.clone_number();
    let mut b = d.clone_number();
    let mut s: i32 = t;
    let ghost (n0, d0) = (n@, d@);
    let ghost mut i: nat = 0;
    let ghost mut j: nat = 0;
    proof {
        lemma2_to64();
        lemma2_to64_rest();
        assert(d0 * 1 == d0) by (nonlinear_arith);
        assert(n0 * 1 == n0) by (nonlinear_arith);
    }
    while s < -1021 || !a.less(&b)
        invariant
            n0 == n@,
            d0 == d@,
            a@ == n0,
            b@ == d0 * pow2(i),
            s == t + i,
            LOW_EXPONENT <= t <= HIGH_EXPONENT,
            s <= 1100,
            s > -1021 && i > 0 ==> n0 >= d0 * pow2((i - 1) as nat),
            d0 > 0,
        decreases 1101 - s,
    {
        if s >= 1100 {
            proof {
                lemma_below(n0, d0, i, 0);
                lemma2_to64();
                assert(n0 * 1 == n0) by (nonlinear_arith);
                law_nearest_exists(n0, d0, t as int);
                let x = nearest(n0, d0, t as int);
                if x.1 + 53 <= s {
                    lemma_below_grows(n0, d0, x.1 + 53 - t, i as int);
                }
            }
            return None;
        }
        b.times_plus(2, 0);
        s = s + 1;
        proof {
            lemma_pow2_unfold(i + 1);
            let p = pow2(i);
            assert(d0 * (2 * p) == (d0 * p) * 2) by (nonlinear_arith);
            i = i + 1;
        }
    }
    while s > -1021 && twice_is_less(&a, &b)
        invariant
            a@ == n0 * pow2(j),
            b@ == d0 * pow2(i),
            a@ < b@,
            s == t + i - j,
            -1021 <= s <= 1100,
        decreases s + 1021,
    {
        a.times_plus(2, 0);
        s = s - 1;
        proof {
            lemma_pow2_unfold(j + 1);
            let p = pow2(j);
            assert(n0 * (2 * p) == (n0 * p) * 2) by (nonlinear_arith);
            j = j + 1;
        }
    }
    let bits: u64 = divide(&a, &b);
    let exponent: i32 = s - 53;
    proof {
        lemma_below(n0, d0, i, j);
        lemma_below(n0, d0, i, j + 1);
        lemma_pow2_unfold(j + 1);
        let p = pow2(j);
        assert(n0 * (2 * p) == (n0 * p) * 2) by (nonlinear_arith);
        lemma_pow2_adds(j, 53);
        let c = pow2(53);
        assert(n0 * (p * c) == (n0 * p) * c) by (nonlinear_arith);
        lemma_bits(n0, d0, i, j + 53);
        lemma_nearest_is(n0, d0, t as int, (bits as nat, exponent as int));
    }
    if exponent > HIGH_EXPONENT || (exponent == HIGH_EXPONENT && bits >= 0x20_0000_0000_0000) {
        None
    } else {
        Some(Approx { bits, exponent })
    }
}

fn twice_is_less(a: &Natural, b: &Natural) -> (r: bool)
    ensures
        r == (2 * a@ < b@),
{
    let mut c = a.clone_number();
    c.times_plus(2, 0);
    c.less(b)
}

/// The number nearest to an integer.
pub fn of_integer(n: u64) -> (r: Approx)
    ensures
        r.wf(),
        r@ == nearest(n as nat, 1, 0),
        r.exponent <= 11,
        n > 0 ==> r.exponent >= -52 && r.bits > 0,
{
    proof {
        lemma2_to64();
        lemma2_to64_rest();
        assert(1 * pow2(64) == pow2(64)) by (nonlinear_arith);
        lemma_exponent(n as nat, 1, 0, 64);
        law_nearest_exists(n as nat, 1, 0);
        let x = nearest(n as nat, 1, 0);
        if n > 0 {
            if x.1 + 53 <= 0 {
                let p = pow2((-(x.1 + 53)) as nat);
                lemma_pow2_pos((-(x.1 + 53)) as nat);
                assert(n * p >= 1) by (nonlinear_arith)
                    requires
                        n >= 1,
                        p >= 1,
                ;
                if x.1 + 53 == 0 {
                    assert(1 * pow2(0) == 1) by (nonlinear_arith)
                        requires
                            pow2(0) == 1,
                    ;
                }
            }
            lemma_positive(n as nat, 1, 0);
        }
    }
    match round(&Natural::of(n as u128), &Natural::of(1), 0) {
        Some(x) => x,
        None => Approx { bits: 0, exponent: 0 },
    }
}

/// The product with an integer; nothing where it is too large.
pub fn product(x: Approx, by: u64) -> (r: Option<Approx>)
    requires
        x.wf(),
    ensures
        match r {
            Some(y) => y.wf() && y@ == nearest((x.bits * by) as nat, 1, x.exponent as int) && finite(
                y@,
            ),
            None => !finite(nearest((x.bits * by) as nat, 1, x.exponent as int)),
        },
{
    assert(x.bits * by <= 0x20_0000_0000_0000 * 0xffff_ffff_ffff_ffff && x.bits * by >= 0)
        by (nonlinear_arith)
        requires
            0 <= x.bits <= 0x20_0000_0000_0000,
            0 <= by <= 0xffff_ffff_ffff_ffff,
    ;
    let n: u128 = (x.bits as u128) * (by as u128);
    round(&Natural::of(n), &Natural::of(1), x.exponent)
}

/// The percentage that one integer is of another: at most a hundred, and zero of zero. The two, their
/// quotient and its hundredfold are rounded one after the other.
pub open spec fn percentage(part: u64, all: u64) -> ApproxView {
    if all == 0 || part == 0 {
        (0, LOW_EXPONENT as int)
    } else if part >= all {
        nearest(100, 1, 0)
    } else {
        let a = nearest(part as nat, 1, 0);
        let b = nearest(all as nat, 1, 0);
        let q = nearest(a.0, b.0, a.1 - b.1);
        nearest(q.0 * 100, 1, q.1)
    }
}

/// The percentage that one integer is of another.
pub fn percent(part: u64, all: u64) -> (r: Approx)
    ensures
        r.wf(),
        r@ == percentage(part, all),
{
    if all == 0 || part == 0 {
        return Approx { bits: 0, exponent: LOW_EXPONENT };
    }
    if part >= all {
        return of_integer(100);
    }
    let a = of_integer(part);
    let b = of_integer(all);
    let t: i32 = a.exponent - b.exponent;
    proof {
        lemma2_to64();
        lemma2_to64_rest();
        let d = b.bits as nat;
        assert(a.bits < d * pow2(54)) by (nonlinear_arith)
            requires
                a.bits <= 0x20_0000_0000_0000,
                d >= 1,
                pow2(54) == 0x40_0000_0000_0000,
        ;
        lemma_exponent(a.bits as nat, d, t as int, 54);
    }
    let q = match round(&Natural::of(a.bits as u128), &Natural::of(b.bits as u128), t) {
        Some(q) => q,
        None => {
            return Approx { bits: 0, exponent: 0 };
        },
    };
    proof {
        assert(q.bits * 100 < 1 * pow2(60)) by (nonlinear_arith)
            requires
                q.bits <= 0x20_0000_0000_0000,
                pow2(60) == 0x1000_0000_0000_0000,
        ;
        lemma_exponent((q.bits * 100) as nat, 1, q.exponent as int, 60);
    }
    match product(q, 100) {
        Some(p) => p,
        None => Approx { bits: 0, exponent: 0 },
    }
}

impl Approx {
    /// The whole part of the number, at most what 64 bits hold.
    pub fn truncate(&self) -> (r: u64)
        requires
            self.wf(),
        ensures
            r == whole(self@),
    {
        if self.exponent < 0 {
            let mut n: u64 = self.bits;
            let mut k: i32 = self.exponent;
            let ghost mut j: nat = 0;
            proof {
                lemma2_to64();
                assert((self.bits as nat) / 1 == self.bits);
            }
            while k < 0
                invariant
                    k <= 0,
                    j == k - self.exponent,
                    n == (self.bits as nat) / pow2(j),
                    n <= self.bits,
                decreases -k,
            {
                proof {
                    lemma_pow2_unfold(j + 1);
                    lemma_pow2_pos(j);
                    vstd::arithmetic::div_mod::lemma_div_denominator(
                        self.bits as int,
                        pow2(j) as int,
                        2,
                    );
                    assert(pow2(j) * 2 == 2 * pow2(j)) by (nonlinear_arith);
                    j = j + 1;
                }
                n = n / 2;
                k = k + 1;
            }
            n
        } else {
            let mut n: u128 = self.bits as u128;
            let mut k: i32 = 0;
            proof {
                lemma2_to64();
                assert(self.bits * 1 == self.bits) by (nonlinear_arith);
            }
            while k < self.exponent && n <= 0xffff_ffff_ffff_ffff
                invariant
                    self.wf(),
                    0 <= k <= self.exponent,
                    n == self.bits * pow2(k as nat),
                    n <= 0x1_ffff_ffff_ffff_fffe,
                decreases self.exponent - k,
            {
                proof {
                    lemma_pow2_unfold((k + 1) as nat);
                    let p = pow2(k as nat);
                    assert(self.bits * (2 * p) == (self.bits * p) * 2) by (nonlinear_arith);
                }
                n = n * 2;
                k = k + 1;
            }
            proof {
                if k < self.exponent {
                    lemma_pow2_strictly_increases(k as nat, self.exponent as nat);
                }
                let p = pow2(k as nat);
                let q = pow2(self.exponent as nat);
                assert(self.bits * p <= self.bits * q) by (nonlinear_arith)
                    requires
                        p <= q,
                        self.bits >= 0,
                ;
            }
            if n > 0xffff_ffff_ffff_ffff {
                u64::MAX
            } else {
                n as u64
            }
        }
    }
}

// ---------------------------------------------------------------------------
// Bounds
// ---------------------------------------------------------------------------

/// Whether a number is at most an integer.
pub open spec fn at_most(x: ApproxView, z: nat) -> bool {
    if x.1 >= 0 {
        x.0 * pow2(x.1 as nat) <= z
    } else {
        x.0 <= z * pow2((-x.1) as nat)
    }
}

/// Whether `n * 2^t` is at most `d`.
spec fn scaled_at_most(n: nat, t: int, d: nat) -> bool {
    if t >= 0 {
        n * pow2(t as nat) <= d
    } else {
        n <= d * pow2((-t) as nat)
    }
}

proof fn lemma_half_even_at_most(n: nat, d: nat, m: nat)
    requires
        d > 0,
        n <= m * d,
    ensures
        half_even(n, d) <= m,
{
    let q = n / d;
    let r = n % d;
    assert(n == q * d + r && 0 <= r < d) by (nonlinear_arith)
        requires
            d > 0,
            q == n / d,
            r == n % d,
    ;
    assert(q <= m && (q == m ==> r == 0)) by (nonlinear_arith)
        requires
            n == q * d + r,
            0 <= r < d,
            n <= m * d,
            d > 0,
    ;
}

/// Rounding does not go beyond an integer of at most 53 bits.
proof fn lemma_rounds_at_most(n: nat, d: nat, t: int, z: nat)
    requires
        d > 0,
        z < 0x20_0000_0000_0000,
        scaled_at_most(n, t, z * d),
    ensures
        at_most(nearest(n, d, t), z),
{
    lemma2_to64();
    lemma2_to64_rest();
    let x = nearest(n, d, t);
    law_nearest_exists(n, d, t);
    let c = pow2(53);
    if t >= 0 {
        let p = pow2(t as nat);
        lemma_below(n, d, 53, t as nat);
        assert(n * p < d * c) by (nonlinear_arith)
            requires
                n * p <= z * d,
                z < c,
                d > 0,
        ;
    } else {
        let u = (-t) as nat;
        let p = pow2(u);
        lemma_pow2_pos(u);
        lemma_pow2_adds(53, u);
        lemma_below(n, d, 53 + u, 0);
        assert(n * 1 < d * (c * p)) by (nonlinear_arith)
            requires
                n <= (z * d) * p,
                z < c,
                d > 0,
                p > 0,
        ;
    }
    lemma_exponent(n, d, t, 53 - t);
    let e = (-x.1) as nat;
    let q = pow2(e);
    lemma_pow2_pos(e);
    let m = z * q;
    if t >= 0 {
        let j = (t - x.1) as nat;
        let p = pow2(t as nat);
        lemma_pow2_adds(t as nat, e);
        lemma_bits(n, d, 0, j);
        assert(d * 1 == d) by (nonlinear_arith);
        assert(n * (p * q) <= m * d) by (nonlinear_arith)
            requires
                n * p <= z * d,
                m == z * q,
        ;
        lemma_half_even_at_most(n * pow2(j), d, m);
    } else {
        let u = (-t) as nat;
        let p = pow2(u);
        lemma_pow2_pos(u);
        lemma_bits(n, d, u, e);
        assert(n * q <= m * (d * p)) by (nonlinear_arith)
            requires
                n <= (z * d) * p,
                m == z * q,
        ;
        assert(d * p > 0) by (nonlinear_arith)
            requires
                d > 0,
                p > 0,
        ;
        lemma_half_even_at_most(n * q, d * p, m);
    }
    if x.1 == 0 {
        assert(x.0 * 1 == x.0 && z * 1 == z) by (nonlinear_arith);
    }
}

proof fn lemma_half_even_grows(n: nat, m: nat, d: nat)
    requires
        d > 0,
        n <= m,
    ensures
        half_even(n, d) <= half_even(m, d),
{
    let (q, r) = (n / d, n % d);
    let (p, s) = (m / d, m % d);
    assert(n == q * d + r && 0 <= r < d) by (nonlinear_arith)
        requires
            d > 0,
            q == n / d,
            r == n % d,
    ;
    assert(m == p * d + s && 0 <= s < d) by (nonlinear_arith)
        requires
            d > 0,
            p == m / d,
            s == m % d,
    ;
    assert(q < p || (q == p && r <= s)) by (nonlinear_arith)
        requires
            q * d + r <= p * d + s,
            0 <= r < d,
            0 <= s < d,
    ;
}

/// Of two integers the smaller is not rounded to the larger number.
proof fn lemma_rounding_keeps_order(n: nat, m: nat)
    requires
        0 < n <= m,
    ensures
        scaled_at_most(
            nearest(n, 1, 0).0,
            nearest(n, 1, 0).1 - nearest(m, 1, 0).1,
            nearest(m, 1, 0).0,
        ),
{
    lemma2_to64();
    lemma2_to64_rest();
    let (x, y) = (nearest(n, 1, 0), nearest(m, 1, 0));
    law_nearest_exists(n, 1, 0);
    law_nearest_exists(m, 1, 0);
    if x.1 > y.1 {
        let k = y.1 + 53;
        assert(below(n, 1, k)) by {
            let j = if k < 0 {
                (-k) as nat
            } else {
                0nat
            };
            lemma_pow2_pos(j);
            lemma_below(n, 1, (k + j) as nat, j);
            lemma_below(m, 1, (k + j) as nat, j);
            let p = pow2(j);
            assert(n * p <= m * p) by (nonlinear_arith)
                requires
                    n <= m,
                    p > 0,
            ;
        }
        lemma_below_grows(n, 1, k, x.1 + 52);
        assert(false);
    }
    if x.1 == y.1 {
        let k = -x.1;
        if k >= 0 {
            let p = pow2(k as nat);
            assert(n * p <= m * p) by (nonlinear_arith)
                requires
                    n <= m,
                    p >= 0,
            ;
            lemma_half_even_grows(n * p, m * p, 1);
        } else {
            let p = pow2((-k) as nat);
            lemma_pow2_pos((-k) as nat);
            assert(1 * p == p) by (nonlinear_arith);
            lemma_half_even_grows(n, m, p);
        }
        assert(x.0 * 1 == x.0) by (nonlinear_arith);
    } else {
        let g = (y.1 - x.1) as nat;
        // The larger number has all its bits: it is at least 2^52 in its last place.
        assert(y.0 >= 0x10_0000_0000_0000) by {
            lemma_full_bits(m);
        }
        assert(x.0 <= 0x20_0000_0000_0000) by {
            lemma_few_bits(n);
        }
        lemma_pow2_unfold(g);
        lemma_pow2_pos((g - 1) as nat);
        let h = pow2((g - 1) as nat);
        assert(x.0 <= y.0 * (2 * h)) by (nonlinear_arith)
            requires
                x.0 <= 0x20_0000_0000_0000,
                y.0 >= 0x10_0000_0000_0000,
                h >= 1,
        ;
    }
}

/// A rounded integer has at most 53 bits and what rounding up adds.
proof fn lemma_few_bits(n: nat)
    ensures
        nearest(n, 1, 0).0 <= 0x20_0000_0000_0000,
{
    lemma2_to64();
    lemma2_to64_rest();
    law_nearest_exists(n, 1, 0);
    let x = nearest(n, 1, 0);
    let c = pow2(53);
    if x.1 <= 0 {
        let u = (-x.1) as nat;
        let p = pow2(u);
        lemma_below(n, 1, 53, u);
        assert(n * p <= c * 1);
        lemma_half_even_at_most(n * p, 1, c);
    } else {
        let u = x.1 as nat;
        let p = pow2(u);
        lemma_pow2_pos(u);
        lemma_pow2_adds(53, u);
        lemma_below(n, 1, 53 + u, 0);
        assert(n * 1 == n && 1 * (c * p) == c * p && 1 * p == p) by (nonlinear_arith);
        lemma_half_even_at_most(n, p, c);
    }
}

/// A rounded integer other than the smallest numbers has 53 bits.
proof fn lemma_full_bits(n: nat)
    requires
        nearest(n, 1, 0).1 > LOW_EXPONENT,
    ensures
        nearest(n, 1, 0).0 >= 0x10_0000_0000_0000,
{
    lemma2_to64();
    lemma2_to64_rest();
    law_nearest_exists(n, 1, 0);
    let x = nearest(n, 1, 0);
    let c = pow2(52);
    if x.1 <= 0 {
        let u = (-x.1) as nat;
        let p = pow2(u);
        lemma_below(n, 1, 52, u);
        assert(1 * c == c) by (nonlinear_arith);
        assert(half_even(n * p, 1) == n * p);
    } else {
        let u = x.1 as nat;
        let p = pow2(u);
        lemma_pow2_pos(u);
        lemma_pow2_adds(52, u);
        lemma_below(n, 1, 52 + u, 0);
        assert(n * 1 == n && 1 * (c * p) == c * p && 1 * p == p) by (nonlinear_arith);
        let q = n / p;
        assert(q >= c) by (nonlinear_arith)
            requires
                n >= c * p,
                p > 0,
                q == n / p,
        ;
    }
}

/// A percentage is at most a hundred.
pub proof fn law_percentage_is_limited(part: u64, all: u64)
    ensures
        at_most(percentage(part, all), 100),
{
    lemma2_to64();
    if all == 0 || part == 0 {
        lemma_pow2_pos(1074);
    } else if part >= all {
        assert(100 * pow2(0) <= 100 * 1) by (nonlinear_arith)
            requires
                pow2(0) == 1,
        ;
        lemma_rounds_at_most(100, 1, 0, 100);
    } else {
        let a = nearest(part as nat, 1, 0);
        let b = nearest(all as nat, 1, 0);
        lemma_rounding_keeps_order(part as nat, all as nat);
        law_nearest_exists(all as nat, 1, 0);
        if b.1 > LOW_EXPONENT {
            lemma_positive(all as nat, 1, 0);
        } else {
            lemma_below(all as nat, 1, 0, (-(b.1 + 53)) as nat);
            lemma_pow2_pos((-(b.1 + 53)) as nat);
            let p = pow2((-(b.1 + 53)) as nat);
            assert(all * p >= 1) by (nonlinear_arith)
                requires
                    all >= 1,
                    p >= 1,
            ;
            assert(false);
        }
        assert(1 * b.0 == b.0) by (nonlinear_arith);
        lemma_rounds_at_most(a.0, b.0, a.1 - b.1, 1);
        let q = nearest(a.0, b.0, a.1 - b.1);
        if q.1 >= 0 {
            let p = pow2(q.1 as nat);
            assert((q.0 * 100) * p <= 100 * 1) by (nonlinear_arith)
                requires
                    q.0 * p <= 1,
            ;
        } else {
            let p = pow2((-q.1) as nat);
            assert(q.0 * 100 <= (100 * 1) * p) by (nonlinear_arith)
                requires
                    q.0 <= 1 * p,
            ;
        }
        lemma_rounds_at_most(q.0 * 100, 1, q.1, 100);
    }
}

// ---------------------------------------------------------------------------
// Laws
// ---------------------------------------------------------------------------

/// Rounding goes to the nearest integer, and to the even one where two are equally near.
pub proof fn law_rounding_goes_to_the_nearest(n: nat, d: nat)
    requires
        d > 0,
    ensures
        2 * (half_even(n, d) * d) <= 2 * n + d,
        2 * n <= 2 * (half_even(n, d) * d) + d,
        2 * (half_even(n, d) * d) == 2 * n + d || 2 * n == 2 * (half_even(n, d) * d) + d ==> half_even(
            n,
            d,
        ) % 2 == 0,
{
    let q = n / d;
    let r = n % d;
    assert(n == q * d + r && r < d) by (nonlinear_arith)
        requires
            d > 0,
            q == n / d,
            r == n % d,
    ;
    assert((q + 1) * d == q * d + d) by (nonlinear_arith);
}

/// An integer that was scaled by a power of two is found again.
pub proof fn lemma_scaled_integer(z: nat, k: nat)
    ensures
        nearest_bits(z * pow2(k), 1, -(k as int)) == z,
{
    lemma_pow2_pos(k);
    lemma2_to64();
    if k == 0 {
        assert(z * pow2(0) * pow2(0) == z) by (nonlinear_arith)
            requires
                pow2(0) == 1,
        ;
        assert(half_even(z, 1) == z);
    } else {
        lemma_half_even_scaled(z, 1, pow2(k));
        assert(half_even(z, 1) == z);
    }
}

/// A number that is not one of the smallest keeps its bits where its exponent changes.
pub proof fn lemma_shifted(n: nat, d: nat, t: int, by: int)
    requires
        d > 0,
        nearest(n, d, t).1 > LOW_EXPONENT,
        nearest(n, d, t).1 + by > LOW_EXPONENT,
    ensures
        nearest(n, d, t + by) == (nearest(n, d, t).0, nearest(n, d, t).1 + by),
{
    law_nearest_exists(n, d, t);
    let x = nearest(n, d, t);
    let y: ApproxView = (x.0, x.1 + by);
    assert(y.1 + 53 - (t + by) == x.1 + 53 - t);
    assert(y.1 + 52 - (t + by) == x.1 + 52 - t);
    assert((t + by) - y.1 == t - x.1);
    assert(rounds_to(n, d, t + by, y));
    lemma_nearest_is(n, d, t + by, y);
}

/// An integer other than zero is not one of the smallest numbers.
pub proof fn lemma_integers_are_not_small(n: nat, t: int)
    requires
        n > 0,
        -200 <= t <= 0,
    ensures
        nearest(n, 1, t).1 > LOW_EXPONENT + 500,
{
    law_nearest_exists(n, 1, t);
    let x = nearest(n, 1, t);
    if x.1 <= LOW_EXPONENT + 500 {
        let k = x.1 + 53 - t;
        assert(k < 0);
        lemma_pow2_pos((-k) as nat);
        let p = pow2((-k) as nat);
        assert(n * p >= 1) by (nonlinear_arith)
            requires
                n > 0,
                p > 0,
        ;
        assert(false);
    }
}

/// A power of two can stand in the number or in the exponent.
proof fn lemma_power_moves(n: nat, j: nat)
    requires
        n > 0,
    ensures
        nearest(n * pow2(j), 1, 0) == nearest(n, 1, j as int),
{
    law_nearest_exists(n, 1, j as int);
    let x = nearest(n, 1, j as int);
    let m = n * pow2(j);
    lemma_pow2_pos(j);
    assert(m > 0) by (nonlinear_arith)
        requires
            n > 0,
            pow2(j) > 0,
            m == n * pow2(j),
    ;
    lemma_below_moves(n, j, x.1 + 53);
    lemma_below_moves(n, j, x.1 + 52);
    if x.1 <= 0 {
        let e = (-x.1) as nat;
        lemma_pow2_adds(j, e);
        let (p, q) = (pow2(j), pow2(e));
        assert((n * p) * q == n * (p * q)) by (nonlinear_arith);
    } else {
        lemma_bits(n, 1, x.1 as nat, j);
    }
    assert(nearest_bits(m, 1, 0 - x.1) == nearest_bits(n, 1, j - x.1));
    assert(rounds_to(m, 1, 0, x));
    lemma_nearest_is(m, 1, 0, x);
}

proof fn lemma_below_moves(n: nat, j: nat, k: int)
    requires
        n > 0,
    ensures
        below(n * pow2(j), 1, k) <==> below(n, 1, k - j),
{
    lemma_pow2_pos(j);
    if k >= 0 {
        lemma_below(n, 1, k as nat, j);
    } else {
        lemma_pow2_pos((-k) as nat);
        lemma_pow2_pos((j - k) as nat);
        let (p, q, r) = (pow2(j), pow2((-k) as nat), pow2((j - k) as nat));
        assert((n * p) * q >= 1) by (nonlinear_arith)
            requires
                n > 0,
                p > 0,
                q > 0,
        ;
        assert(n * r >= 1) by (nonlinear_arith)
            requires
                n > 0,
                r > 0,
        ;
    }
}

/// A half is fifty percent, a quarter is twenty-five, and so on for every power of two: exactly a
/// hundred divided by it.
pub proof fn law_halves_are_exact_percentages(part: u64, j: nat, all: u64)
    requires
        part > 0,
        0 < j < 64,
        all == part * pow2(j),
    ensures
        percentage(part, all) == (100 * pow2(46), -46 - j),
{
    lemma2_to64();
    lemma2_to64_rest();
    let n = part as nat;
    lemma_pow2_strictly_increases(0, j);
    assert(n < n * pow2(j)) by (nonlinear_arith)
        requires
            n > 0,
            pow2(j) > 1,
    ;
    let a = nearest(n, 1, 0);
    let b = nearest(all as nat, 1, 0);
    lemma_integers_are_not_small(n, 0);
    lemma_power_moves(n, j);
    lemma_shifted(n, 1, 0, j as int);
    assert(b == (a.0, a.1 + j));
    lemma_positive(n, 1, 0);
    let m = a.0;
    let t = -(j as int);
    let q: ApproxView = (pow2(52), t - 52);
    assert(rounds_to(m, m, t, q)) by {
        assert(below(m, m, 1)) by {
            assert(m < m * pow2(1)) by (nonlinear_arith)
                requires
                    m > 0,
                    pow2(1) == 2,
            ;
        }
        assert(!below(m, m, 0)) by {
            assert(m * pow2(0) == m) by (nonlinear_arith)
                requires
                    pow2(0) == 1,
            ;
        }
        lemma_half_even_scaled(pow2(52), 1, m);
        assert(half_even(pow2(52), 1) == pow2(52));
        assert(m * pow2(52) == pow2(52) * m) by (nonlinear_arith);
        assert(1 * m == m);
        assert(nearest_bits(m, m, 52) == pow2(52));
        assert(q.1 + 53 - t == 1);
        assert(q.1 + 52 - t == 0);
        assert(t - q.1 == 52);
    }
    lemma_nearest_is(m, m, t, q);
    assert(a.1 - b.1 == t);
    let w = pow2(52) * 100;
    let r: ApproxView = (100 * pow2(46), t - 46);
    assert(rounds_to(w, 1, t - 52, r)) by {
        lemma_half_even_scaled(100 * pow2(46), 1, pow2(6));
        assert(half_even(100 * pow2(46), 1) == 100 * pow2(46));
        assert((100 * pow2(46)) * pow2(6) == w);
        assert(1 * pow2(6) == pow2(6));
        assert(nearest_bits(w, 1, -6) == 100 * pow2(46));
        assert((t - 52) - r.1 == -6);
        assert(r.1 + 53 - (t - 52) == 59);
        assert(r.1 + 52 - (t - 52) == 58);
        assert(below(w, 1, 59));
        assert(!below(w, 1, 58));
    }
    lemma_nearest_is(w, 1, t - 52, r);
}

/// All of it is a hundred percent, and nothing is zero.
pub proof fn law_all_is_a_hundred_percent(part: u64, all: u64)
    ensures
        part >= all && all > 0 && part > 0 ==> whole(percentage(part, all)) == 100,
        part == 0 || all == 0 ==> whole(percentage(part, all)) == 0,
{
    lemma2_to64();
    law_integers_are_exact(100, 0);
    assert(100 * pow2(0) == 100);
    if part == 0 || all == 0 {
        let p = pow2(1074);
        lemma_pow2_pos(1074);
        assert(0nat / p == 0) by (nonlinear_arith)
            requires
                p > 0,
        ;
    }
}

} // verus!
