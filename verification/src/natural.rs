//! Natural numbers of any size.

use vstd::prelude::*;

verus! {

/// A natural number in digits of 32 bits, the lowest first.
#[derive(Debug)]
pub struct Natural {
    pub digits: Vec<u32>,
}

/// The weight of the `i`th digit.
pub open spec fn weight(i: nat) -> nat
    decreases i,
{
    if i == 0 {
        1
    } else {
        0x1_0000_0000 * weight((i - 1) as nat)
    }
}

/// The `i`th digit: those beyond the last are zero.
pub open spec fn digit_at(v: Seq<u32>, i: int) -> nat {
    if 0 <= i < v.len() {
        v[i] as nat
    } else {
        0
    }
}

/// What the lowest `n` digits stand for.
pub open spec fn low_part(v: Seq<u32>, n: nat) -> nat
    decreases n,
{
    if n == 0 {
        0
    } else {
        low_part(v, (n - 1) as nat) + digit_at(v, n - 1) * weight((n - 1) as nat)
    }
}

impl View for Natural {
    type V = nat;

    open spec fn view(&self) -> nat {
        low_part(self.digits@, self.digits@.len())
    }
}

proof fn lemma_low_part_bound(v: Seq<u32>, n: nat)
    ensures
        low_part(v, n) < weight(n),
        weight(n) > 0,
    decreases n,
{
    if n > 0 {
        let m = (n - 1) as nat;
        lemma_low_part_bound(v, m);
        let d = digit_at(v, m as int);
        let w = weight(m);
        assert(low_part(v, m) + d * w < 0x1_0000_0000 * w) by (nonlinear_arith)
            requires
                low_part(v, m) < w,
                d <= 0xffff_ffff,
        ;
    }
}

proof fn lemma_low_part_agree(a: Seq<u32>, b: Seq<u32>, n: nat)
    requires
        forall|i: int| 0 <= i < n ==> digit_at(a, i) == digit_at(b, i),
    ensures
        low_part(a, n) == low_part(b, n),
    decreases n,
{
    if n > 0 {
        lemma_low_part_agree(a, b, (n - 1) as nat);
    }
}

/// The digits beyond the last add nothing; a higher part is nothing or outweighs the lower one.
proof fn lemma_low_part_grows(v: Seq<u32>, n: nat, m: nat)
    requires
        n <= m,
    ensures
        low_part(v, m) == low_part(v, n) || low_part(v, m) >= weight(n),
        low_part(v, n) <= low_part(v, m),
        v.len() <= n ==> low_part(v, m) == low_part(v, n),
    decreases m,
{
    if n < m {
        let k = (m - 1) as nat;
        lemma_low_part_grows(v, n, k);
        let d = digit_at(v, k as int);
        if d > 0 {
            lemma_weight_grows(n, k);
            let w = weight(k);
            assert(d * w >= w) by (nonlinear_arith)
                requires
                    d >= 1,
                    w >= 0,
            ;
        } else {
            assert(d * weight(k) == 0) by (nonlinear_arith)
                requires
                    d == 0,
            ;
        }
    }
}

proof fn lemma_weight_grows(n: nat, m: nat)
    requires
        n <= m,
    ensures
        0 < weight(n) <= weight(m),
    decreases m,
{
    if n < m {
        lemma_weight_grows(n, (m - 1) as nat);
    } else if m > 0 {
        lemma_weight_grows((n - 1) as nat, (m - 1) as nat);
    }
}

impl Natural {
    fn digit(&self, i: usize) -> (r: u32)
        ensures
            r == digit_at(self.digits@, i as int),
    {
        if i < self.digits.len() {
            self.digits[i]
        } else {
            0
        }
    }

    /// The same number.
    pub fn clone_number(&self) -> (r: Natural)
        ensures
            r@ == self@,
    {
        Natural { digits: self.digits.clone() }
    }

    /// The number with this value.
    pub fn of(x: u128) -> (r: Natural)
        ensures
            r@ == x,
    {
        let mut digits: Vec<u32> = Vec::new();
        let mut rest: u128 = x;
        proof {
            assert(rest * weight(0) == x) by (nonlinear_arith)
                requires
                    weight(0) == 1,
                    rest == x,
            ;
        }
        while rest > 0
            invariant
                low_part(digits@, digits@.len()) + rest * weight(digits@.len()) == x,
            decreases rest,
        {
            let low: u32 = (rest % 0x1_0000_0000) as u32;
            let high: u128 = rest / 0x1_0000_0000;
            let ghost before = digits@;
            let ghost n = digits@.len();
            digits.push(low);
            proof {
                lemma_low_part_agree(before, digits@, n);
                let w = weight(n);
                assert(weight((n + 1) as nat) == 0x1_0000_0000 * w);
                assert(low * w + high * (0x1_0000_0000 * w) == rest * w) by (nonlinear_arith)
                    requires
                        rest == high * 0x1_0000_0000 + low,
                ;
            }
            rest = high;
        }
        proof {
            assert(0 * weight(digits@.len()) == 0) by (nonlinear_arith);
        }
        Natural { digits }
    }

    /// Multiplies the number and adds to it.
    pub fn times_plus(&mut self, by: u32, more: u32)
        ensures
            final(self)@ == old(self)@ * by + more,
    {
        let ghost start = self.digits@;
        let n: usize = self.digits.len();
        let mut carry: u64 = more as u64;
        let mut i: usize = 0;
        proof {
            assert(carry * 1 == carry) by (nonlinear_arith);
            assert(low_part(start, 0) * by == 0) by (nonlinear_arith)
                requires
                    low_part(start, 0) == 0,
            ;
        }
        while i < n
            invariant
                i <= n,
                n == start.len(),
                self.digits@.len() == n,
                carry <= 0xffff_ffff,
                forall|j: int| i <= j < n ==> self.digits@[j] == start[j],
                low_part(self.digits@, i as nat) + carry * weight(i as nat) == low_part(
                    start,
                    i as nat,
                ) * by + more,
            decreases n - i,
        {
            let ghost before = self.digits@;
            let d: u32 = self.digits[i];
            assert(d * by <= 0xffff_ffff * 0xffff_ffff && d * by >= 0) by (nonlinear_arith)
                requires
                    0 <= d <= 0xffff_ffff,
                    0 <= by <= 0xffff_ffff,
            ;
            let x: u64 = (d as u64) * (by as u64) + carry;
            let low: u32 = (x % 0x1_0000_0000) as u32;
            let high: u64 = x / 0x1_0000_0000;
            self.digits.set(i, low);
            proof {
                lemma_low_part_agree(before, self.digits@, i as nat);
                let w = weight(i as nat);
                let p = low_part(before, i as nat);
                let s = low_part(start, i as nat);
                assert(weight((i + 1) as nat) == 0x1_0000_0000 * w);
                assert(low_part(self.digits@, (i + 1) as nat) == p + low * w);
                assert(low_part(start, (i + 1) as nat) == s + d * w);
                assert((p + low * w) + high * (0x1_0000_0000 * w) == (s + d * w) * by + more)
                    by (nonlinear_arith)
                    requires
                        p + carry * w == s * by + more,
                        d * by + carry == high * 0x1_0000_0000 + low,
                ;
            }
            carry = high;
            i = i + 1;
        }
        if carry > 0 {
            let ghost before = self.digits@;
            self.digits.push(carry as u32);
            proof {
                lemma_low_part_agree(before, self.digits@, n as nat);
            }
        } else {
            assert(carry * weight(n as nat) == 0) by (nonlinear_arith)
                requires
                    carry == 0,
            ;
        }
    }

    /// Whether the number is less than another.
    pub fn less(&self, other: &Natural) -> (r: bool)
        ensures
            r == (self@ < other@),
    {
        let a: usize = self.digits.len();
        let b: usize = other.digits.len();
        let n: usize = if a < b {
            b
        } else {
            a
        };
        let mut i: usize = n;
        proof {
            lemma_low_part_grows(self.digits@, a as nat, n as nat);
            lemma_low_part_grows(other.digits@, b as nat, n as nat);
        }
        while i > 0
            invariant
                i <= n,
                self@ - other@ == low_part(self.digits@, i as nat) - low_part(
                    other.digits@,
                    i as nat,
                ),
            decreases i,
        {
            let x: u32 = self.digit(i - 1);
            let y: u32 = other.digit(i - 1);
            if x != y {
                proof {
                    let m = (i - 1) as nat;
                    lemma_low_part_bound(self.digits@, m);
                    lemma_low_part_bound(other.digits@, m);
                    let w = weight(m);
                    let p = low_part(self.digits@, m);
                    let q = low_part(other.digits@, m);
                    if x < y {
                        assert(p + x * w < q + y * w) by (nonlinear_arith)
                            requires
                                p < w,
                                q >= 0,
                                x + 1 <= y,
                        ;
                    } else {
                        assert(q + y * w < p + x * w) by (nonlinear_arith)
                            requires
                                q < w,
                                p >= 0,
                                y + 1 <= x,
                        ;
                    }
                }
                return x < y;
            }
            i = i - 1;
        }
        false
    }

    /// Takes another number away.
    pub fn minus(&mut self, other: &Natural)
        requires
            other@ <= old(self)@,
        ensures
            final(self)@ == old(self)@ - other@,
    {
        let ghost start = self.digits@;
        let ghost them = other.digits@;
        let n: usize = self.digits.len();
        let mut borrow: u64 = 0;
        let mut i: usize = 0;
        proof {
            assert(0 * weight(0) == 0) by (nonlinear_arith);
        }
        while i < n
            invariant
                i <= n,
                n == start.len(),
                them == other.digits@,
                self.digits@.len() == n,
                borrow <= 1,
                forall|j: int| i <= j < n ==> self.digits@[j] == start[j],
                low_part(self.digits@, i as nat) + low_part(them, i as nat) == low_part(
                    start,
                    i as nat,
                ) + borrow * weight(i as nat),
            decreases n - i,
        {
            let ghost before = self.digits@;
            let d: u64 = self.digits[i] as u64;
            let y: u64 = other.digit(i) as u64;
            let x: u64 = d + 0x1_0000_0000 - y - borrow;
            let low: u32 = (x % 0x1_0000_0000) as u32;
            let next: u64 = if x < 0x1_0000_0000 {
                1
            } else {
                0
            };
            self.digits.set(i, low);
            proof {
                lemma_low_part_agree(before, self.digits@, i as nat);
                let w = weight(i as nat);
                let p = low_part(before, i as nat);
                let q = low_part(them, i as nat);
                let s = low_part(start, i as nat);
                assert(weight((i + 1) as nat) == 0x1_0000_0000 * w);
                assert(low + y + borrow == d + next * 0x1_0000_0000);
                assert((p + low * w) + (q + y * w) == (s + d * w) + next * (0x1_0000_0000 * w))
                    by (nonlinear_arith)
                    requires
                        p + q == s + borrow * w,
                        low + y + borrow == d + next * 0x1_0000_0000,
                ;
            }
            borrow = next;
            i = i + 1;
        }
        proof {
            let m = if them.len() > n {
                them.len()
            } else {
                n as nat
            };
            lemma_low_part_grows(them, n as nat, m);
            lemma_low_part_grows(them, them.len(), m);
            lemma_low_part_bound(start, n as nat);
            lemma_low_part_bound(self.digits@, n as nat);
            let w = weight(n as nat);
            if borrow == 1 {
                assert(borrow * w == w) by (nonlinear_arith)
                    requires
                        borrow == 1,
                ;
            } else {
                assert(borrow * w == 0) by (nonlinear_arith)
                    requires
                        borrow == 0,
                ;
            }
        }
    }
}

} // verus!
