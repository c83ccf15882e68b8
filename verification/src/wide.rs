//! Unsigned 256-bit integers, wide enough for the products of two Q64.64 sqrt prices and
//! a liquidity. A value is held as two 128-bit halves; every operation is stated over
//! the mathematical value `hi * 2^128 + lo`.
use vstd::prelude::*;
use vstd::arithmetic::div_mod::{
    lemma_div_denominator, lemma_fundamental_div_mod, lemma_fundamental_div_mod_converse,
    lemma_mod_bound, lemma_mod_multiples_vanish,
};
use vstd::arithmetic::mul::{lemma_mul_inequality, lemma_mul_is_associative};
use vstd::arithmetic::power2::{lemma2_to64, lemma_pow2_adds, lemma_pow2_pos, pow2};
use vstd::bits::lemma_u128_shr_is_div;

verus! {

/// 2^64.
pub open spec fn two64() -> nat {
    0x1_0000_0000_0000_0000
}

/// 2^128.
pub open spec fn two128() -> nat {
    0x1_0000_0000_0000_0000_0000_0000_0000_0000nat
}

/// 2^256.
pub open spec fn two256() -> nat {
    115792089237316195423570985008687907853269984665640564039457584007913129639936nat
}

/// A 256-bit unsigned integer `hi * 2^128 + lo`.
#[derive(Clone, Copy)]
pub struct U256 {
    pub hi: u128,
    pub lo: u128,
}

/// `pow2` agrees with the literal constants used above.
pub proof fn lemma_pow2_constants()
    ensures
        pow2(64) == two64(),
        pow2(128) == two128(),
        pow2(256) == two256(),
        pow2(32) == 0x1_0000_0000,
{
    lemma2_to64();
    lemma_pow2_adds(64, 64);
    lemma_pow2_adds(128, 128);
    assert(two128() * two128() == two256());
}

/// `x == (x / d) * d + x % d` with `0 <= x % d < d`.
proof fn lemma_divmod(x: int, d: int)
    requires
        d > 0,
    ensures
        x == d * (x / d) + x % d,
        0 <= x % d < d,
{
    lemma_fundamental_div_mod(x, d);
    lemma_mod_bound(x, d);
}

/// The product of two numbers written in base `2^64` digits.
proof fn lemma_mul_by_halves(a0: int, a1: int, b0: int, b1: int)
    by (nonlinear_arith)
    ensures
        (a1 * 0x1_0000_0000_0000_0000 + a0) * (b1 * 0x1_0000_0000_0000_0000 + b0) == (a1 * b1)
            * 0x1_0000_0000_0000_0000_0000_0000_0000_0000int + (a0 * b1 + a1 * b0)
            * 0x1_0000_0000_0000_0000 + a0 * b0,
{
}

/// A product of two values below `2^64` is at most `(2^64 - 1)^2`.
proof fn lemma_digit_product(a: int, b: int)
    by (nonlinear_arith)
    requires
        0 <= a < 0x1_0000_0000_0000_0000,
        0 <= b < 0x1_0000_0000_0000_0000,
    ensures
        0 <= a * b <= 0xffff_ffff_ffff_fffe_0000_0000_0000_0001,
{
}

impl U256 {
    /// The integer this value stands for.
    pub open spec fn value(self) -> nat {
        self.hi as nat * two128() + self.lo as nat
    }

    /// Every value lies below `2^256`.
    pub proof fn lemma_value_bound(self)
        ensures
            self.value() < two256(),
    {
    }

    pub fn zero() -> (r: U256)
        ensures
            r.value() == 0,
    {
        U256 { hi: 0, lo: 0 }
    }

    pub fn from_u128(x: u128) -> (r: U256)
        ensures
            r.value() == x,
    {
        U256 { hi: 0, lo: x }
    }

    pub fn is_zero(&self) -> (b: bool)
        ensures
            b == (self.value() == 0),
    {
        self.hi == 0 && self.lo == 0
    }

    /// `self <= other`.
    pub fn le(&self, other: &U256) -> (b: bool)
        ensures
            b == (self.value() <= other.value()),
    {
        self.hi < other.hi || (self.hi == other.hi && self.lo <= other.lo)
    }

    /// `self + other`, where the sum fits.
    pub fn add(&self, other: &U256) -> (r: U256)
        requires
            self.value() + other.value() < two256(),
        ensures
            r.value() == self.value() + other.value(),
    {
        if self.lo <= u128::MAX - other.lo {
            U256 { hi: self.hi + other.hi, lo: self.lo + other.lo }
        } else {
            let lo = self.lo - (u128::MAX - other.lo) - 1;
            U256 { hi: self.hi + other.hi + 1, lo }
        }
    }

    /// `self - other`, where `other <= self`.
    pub fn sub(&self, other: &U256) -> (r: U256)
        requires
            other.value() <= self.value(),
        ensures
            r.value() == self.value() - other.value(),
    {
        if self.lo >= other.lo {
            U256 { hi: self.hi - other.hi, lo: self.lo - other.lo }
        } else {
            let lo = u128::MAX - (other.lo - self.lo) + 1;
            U256 { hi: self.hi - other.hi - 1, lo }
        }
    }

    /// `self << 64`, dropping the bits shifted past 256.
    pub fn shl64(&self) -> (r: U256)
        ensures
            r.value() == (self.value() * two64()) % two256(),
    {
        let h0 = self.hi % 0x1_0000_0000_0000_0000;
        let l0 = self.lo % 0x1_0000_0000_0000_0000;
        let l1 = self.lo / 0x1_0000_0000_0000_0000;
        let r = U256 { hi: h0 * 0x1_0000_0000_0000_0000 + l1, lo: l0 * 0x1_0000_0000_0000_0000 };
        proof {
            lemma_divmod(self.hi as int, two64() as int);
            lemma_divmod(self.lo as int, two64() as int);
            let h1 = self.hi / 0x1_0000_0000_0000_0000;
            assert(self.value() * two64() == (h1 as int) * two256() + r.value());
            lemma_fundamental_div_mod_converse(
                (self.value() * two64()) as int,
                two256() as int,
                h1 as int,
                r.value() as int,
            );
        }
        r
    }

    /// `self >> 64`.
    pub fn shr64(&self) -> (r: U256)
        ensures
            r.value() == self.value() / two64(),
    {
        let h0 = self.hi % 0x1_0000_0000_0000_0000;
        let h1 = self.hi / 0x1_0000_0000_0000_0000;
        let l1 = self.lo / 0x1_0000_0000_0000_0000;
        let r = U256 { hi: h1, lo: h0 * 0x1_0000_0000_0000_0000 + l1 };
        proof {
            lemma_divmod(self.hi as int, two64() as int);
            lemma_divmod(self.lo as int, two64() as int);
            let l0 = self.lo % 0x1_0000_0000_0000_0000;
            assert(self.value() == r.value() * two64() + l0);
            lemma_fundamental_div_mod_converse(
                self.value() as int,
                two64() as int,
                r.value() as int,
                l0 as int,
            );
        }
        r
    }

    /// `self >> 32`.
    pub fn shr32(&self) -> (r: U256)
        ensures
            r.value() == self.value() / 0x1_0000_0000,
    {
        let h0 = self.hi % 0x1_0000_0000;
        let h1 = self.hi / 0x1_0000_0000;
        let l1 = self.lo / 0x1_0000_0000;
        let r = U256 { hi: h1, lo: h0 * 0x1_0000_0000_0000_0000_0000_0000 + l1 };
        proof {
            lemma_divmod(self.hi as int, 0x1_0000_0000);
            lemma_divmod(self.lo as int, 0x1_0000_0000);
            let l0 = self.lo % 0x1_0000_0000;
            assert(self.value() == r.value() * 0x1_0000_0000 + l0);
            lemma_fundamental_div_mod_converse(
                self.value() as int,
                0x1_0000_0000,
                r.value() as int,
                l0 as int,
            );
        }
        r
    }

    /// `self >> 96`.
    pub fn shr96(&self) -> (r: U256)
        ensures
            r.value() == self.value() / 0x1_0000_0000_0000_0000_0000_0000,
    {
        let a = self.shr64();
        let r = a.shr32();
        proof {
            lemma_div_denominator(self.value() as int, two64() as int, 0x1_0000_0000);
        }
        r
    }

    /// Whether the low 64 bits are all zero: `self % 2^64 == 0`.
    pub fn low64_is_zero(&self) -> (b: bool)
        ensures
            b == (self.value() % two64() == 0),
    {
        proof {
            lemma_divmod(self.lo as int, two64() as int);
            let q = self.hi as int * 0x1_0000_0000_0000_0000 + self.lo as int / 0x1_0000_0000_0000_0000;
            assert(self.value() == q * two64() + self.lo % 0x1_0000_0000_0000_0000);
            lemma_fundamental_div_mod_converse(
                self.value() as int,
                two64() as int,
                q,
                (self.lo % 0x1_0000_0000_0000_0000) as int,
            );
        }
        self.lo % 0x1_0000_0000_0000_0000 == 0
    }

    /// `self <= u64::MAX`.
    pub fn fits_u64(&self) -> (b: bool)
        ensures
            b == (self.value() <= u64::MAX),
    {
        self.hi == 0 && self.lo <= u64::MAX as u128
    }

    /// `self <= u128::MAX`.
    pub fn fits_u128(&self) -> (b: bool)
        ensures
            b == (self.value() <= u128::MAX),
    {
        self.hi == 0
    }

    /// The value as a `u64`, where it fits.
    pub fn as_u64(&self) -> (r: u64)
        requires
            self.value() <= u64::MAX,
        ensures
            r == self.value(),
    {
        self.lo as u64
    }

    /// The value as a `u128`, where it fits.
    pub fn as_u128(&self) -> (r: u128)
        requires
            self.value() <= u128::MAX,
        ensures
            r == self.value(),
    {
        self.lo
    }
}

/// `a * b`, exactly.
pub fn mul_u128(a: u128, b: u128) -> (r: U256)
    ensures
        r.value() == a as nat * b as nat,
{
    let a0 = a % 0x1_0000_0000_0000_0000;
    let a1 = a / 0x1_0000_0000_0000_0000;
    let b0 = b % 0x1_0000_0000_0000_0000;
    let b1 = b / 0x1_0000_0000_0000_0000;
    proof {
        lemma_divmod(a as int, two64() as int);
        lemma_divmod(b as int, two64() as int);
        lemma_digit_product(a0 as int, b0 as int);
        lemma_digit_product(a0 as int, b1 as int);
        lemma_digit_product(a1 as int, b0 as int);
        lemma_digit_product(a1 as int, b1 as int);
    }
    let p00 = a0 * b0;
    let p01 = a0 * b1;
    let p10 = a1 * b0;
    let p11 = a1 * b1;
    proof {
        lemma_divmod(p00 as int, two64() as int);
    }
    let mid = p01 + p00 / 0x1_0000_0000_0000_0000;
    proof {
        lemma_divmod(mid as int, two64() as int);
    }
    let mid2 = p10 + mid % 0x1_0000_0000_0000_0000;
    proof {
        lemma_divmod(mid2 as int, two64() as int);
    }
    let lo = (mid2 % 0x1_0000_0000_0000_0000) * 0x1_0000_0000_0000_0000 + p00
        % 0x1_0000_0000_0000_0000;
    let hi = p11 + mid / 0x1_0000_0000_0000_0000 + mid2 / 0x1_0000_0000_0000_0000;
    let r = U256 { hi, lo };
    proof {
        lemma_mul_by_halves(a0 as int, a1 as int, b0 as int, b1 as int);
        assert(a as int == a1 * 0x1_0000_0000_0000_0000 + a0);
        assert(b as int == b1 * 0x1_0000_0000_0000_0000 + b0);
    }
    r
}

/// `a * b` for a 256-bit `a`, where the product fits in 256 bits.
pub fn mul_u256_u128(a: &U256, b: u128) -> (r: U256)
    requires
        a.value() * b < two256(),
    ensures
        r.value() == a.value() * b,
{
    let low = mul_u128(a.lo, b);
    proof {
        assert(a.value() * b == a.hi as int * b * two128() + a.lo as int * b) by (nonlinear_arith)
            requires
                a.value() == a.hi as int * two128() + a.lo as int,
                two128() == 0x1_0000_0000_0000_0000_0000_0000_0000_0000int,
        ;
        assert(a.hi as int * b < two128()) by (nonlinear_arith)
            requires
                a.hi as int * b * two128() <= a.value() * b,
                a.value() * b < two256(),
                two128() == 0x1_0000_0000_0000_0000_0000_0000_0000_0000int,
                two256() == two128() * two128(),
        ;
    }
    let high = U256 { hi: a.hi * b, lo: 0 };
    low.add(&high)
}

/// `x / 2^i == 2 * (x / 2^(i+1)) + (x / 2^i) % 2`.
proof fn lemma_prefix_step(x: nat, i: nat)
    ensures
        x / pow2(i) == 2 * (x / pow2(i + 1)) + (x / pow2(i)) % 2,
{
    lemma_pow2_pos(i);
    lemma_pow2_adds(i, 1);
    lemma2_to64();
    lemma_div_denominator(x as int, pow2(i) as int, 2);
    lemma_divmod((x / pow2(i)) as int, 2);
}

impl U256 {
    /// Bit `j` of the value, as 0 or 1.
    pub fn bit(&self, j: u32) -> (b: u128)
        requires
            j < 256,
        ensures
            b == (self.value() / pow2(j as nat)) % 2,
    {
        let x = if j >= 128 {
            self.hi >> (j - 128)
        } else {
            self.lo >> j
        };
        let b = x & 1;
        proof {
            assert(x & 1 == x % 2) by (bit_vector);
            lemma_pow2_constants();
            if j >= 128 {
                let k = (j - 128) as nat;
                lemma_u128_shr_is_div(self.hi, (j - 128) as u128);
                lemma_pow2_adds(128, k);
                lemma_pow2_pos(k);
                lemma_div_denominator(self.value() as int, two128() as int, pow2(k) as int);
                lemma_fundamental_div_mod_converse(
                    self.value() as int,
                    two128() as int,
                    self.hi as int,
                    self.lo as int,
                );
            } else {
                let k = (128 - j) as nat;
                lemma_u128_shr_is_div(self.lo, j as u128);
                lemma_pow2_adds(j as nat, k);
                lemma_pow2_pos(j as nat);
                lemma_pow2_adds(1, (k - 1) as nat);
                lemma2_to64();
                let pj = pow2(j as nat) as int;
                lemma_divmod(self.lo as int, pj);
                let q = self.hi as int * pow2(k) + self.lo as int / pj;
                assert(self.hi as int * two128() == self.hi as int * pow2(k) * pj) by {
                    lemma_mul_is_associative(self.hi as int, pow2(k) as int, pj);
                }
                assert(self.value() == pj * q + self.lo as int % pj) by (nonlinear_arith)
                    requires
                        self.value() == self.hi as int * two128() + self.lo as int,
                        self.hi as int * two128() == self.hi as int * pow2(k) * pj,
                        self.lo as int == pj * (self.lo as int / pj) + self.lo as int % pj,
                        q == self.hi as int * pow2(k) + self.lo as int / pj,
                ;
                lemma_fundamental_div_mod_converse(self.value() as int, pj, q, self.lo as int % pj);
                let h = self.hi as int * pow2((k - 1) as nat);
                assert(pow2(k) == 2 * pow2((k - 1) as nat));
                assert(q == 2 * h + self.lo as int / pj) by (nonlinear_arith)
                    requires
                        pow2(k) == 2 * pow2((k - 1) as nat),
                        h == self.hi as int * pow2((k - 1) as nat),
                        q == self.hi as int * pow2(k) + self.lo as int / pj,
                ;
                lemma_mod_multiples_vanish(h, self.lo as int / pj, 2);
            }
        }
        b
    }

    /// Quotient and remainder of `self * 2^64` by `d`, for `self < d` (so the quotient is
    /// below `2^64`), without forming the 320-bit product.
    pub fn div_shl64(&self, d: &U256) -> (res: (u128, U256))
        requires
            self.value() < d.value(),
        ensures
            res.0 == self.value() * two64() / d.value(),
            res.1.value() == self.value() * two64() % d.value(),
            res.0 < two64(),
    {
        let mut q: u128 = 0;
        let mut r = *self;
        let mut k: u32 = 0;
        proof {
            lemma2_to64();
        }
        while k < 64
            invariant
                k <= 64,
                r.value() < d.value(),
                q < pow2(k as nat),
                self.value() * pow2(k as nat) == q * d.value() + r.value(),
            decreases 64 - k,
        {
            let ghost old_q = q as int;
            let ghost old_r = r.value() as int;
            proof {
                lemma_pow2_adds(k as nat, 1);
                lemma2_to64();
                lemma_pow2_constants();
                assert(pow2((k + 1) as nat) == pow2(k as nat) * 2);
                assert(pow2(k as nat) <= pow2(63)) by {
                    vstd::arithmetic::power2::lemma_pow2_strictly_increases(k as nat, 64);
                    if k < 63 {
                        vstd::arithmetic::power2::lemma_pow2_strictly_increases(k as nat, 63);
                    }
                }
                assert(self.value() * pow2((k + 1) as nat) == 2 * (self.value() * pow2(k as nat)))
                    by (nonlinear_arith)
                    requires pow2((k + 1) as nat) == pow2(k as nat) * 2;
                vstd::arithmetic::power2::lemma2_to64_rest();
                assert(q < 0x8000_0000_0000_0000);
            }
            let e = d.sub(&r);
            if e.le(&r) {
                r = r.sub(&e);
                q = 2 * q + 1;
                proof {
                    assert(2 * old_q + 1 < pow2((k + 1) as nat));
                    assert(2 * (old_q * d.value() + old_r) == (2 * old_q + 1) * d.value() + r.value())
                        by (nonlinear_arith)
                        requires r.value() == old_r - (d.value() - old_r);
                }
            } else {
                r = r.add(&r);
                q = 2 * q;
                proof {
                    assert(2 * old_q < pow2((k + 1) as nat));
                    assert(2 * (old_q * d.value() + old_r) == (2 * old_q) * d.value() + r.value())
                        by (nonlinear_arith)
                        requires r.value() == 2 * old_r;
                }
            }
            k = k + 1;
        }
        proof {
            lemma_pow2_constants();
            lemma_fundamental_div_mod_converse(
                (self.value() * two64()) as int,
                d.value() as int,
                q as int,
                r.value() as int,
            );
        }
        (q, r)
    }

    /// Quotient and remainder: `(self / d, self % d)`.
    pub fn div_mod(&self, d: &U256) -> (res: (U256, U256))
        requires
            d.value() > 0,
        ensures
            res.0.value() == self.value() / d.value(),
            res.1.value() == self.value() % d.value(),
    {
        let mut q = U256::zero();
        let mut r = U256::zero();
        let one = U256::from_u128(1);
        let mut i: u32 = 256;
        proof {
            lemma_pow2_constants();
            lemma_divmod(self.value() as int, two256() as int);
            lemma_fundamental_div_mod_converse(self.value() as int, two256() as int, 0, self.value() as int);
        }
        while i > 0
            invariant
                i <= 256,
                d.value() > 0,
                one.value() == 1,
                self.value() / pow2(i as nat) == q.value() * d.value() + r.value(),
                r.value() < d.value(),
            decreases i,
        {
            i = i - 1;
            let b = self.bit(i);
            let ghost prefix = self.value() / pow2(i as nat);
            proof {
                lemma_prefix_step(self.value(), i as nat);
                lemma_pow2_pos(i as nat);
                assert(prefix <= self.value()) by {
                    vstd::arithmetic::div_mod::lemma_div_is_ordered_by_denominator(
                        self.value() as int, 1, pow2(i as nat) as int);
                    vstd::arithmetic::power2::lemma2_to64();
                }
            }
            let e = d.sub(&r);
            let e_b = if b == 1 {
                e.sub(&one)
            } else {
                e
            };
            let ghost old_q = q.value();
            if e_b.le(&r) {
                r = r.sub(&e_b);
                proof {
                    assert(prefix == 2 * (old_q * d.value()) + d.value() + r.value());
                    assert((2 * old_q + 1) * d.value() == 2 * (old_q * d.value()) + d.value())
                        by (nonlinear_arith);
                    assert(2 * old_q + 1 <= (2 * old_q + 1) * d.value()) by (nonlinear_arith)
                        requires d.value() >= 1, old_q >= 0;
                }
                let q2 = q.add(&q);
                q = q2.add(&one);
            } else {
                let r2 = r.add(&r);
                r = r2.add(&U256::from_u128(b));
                proof {
                    assert(prefix == 2 * (old_q * d.value()) + r.value());
                    assert((2 * old_q) * d.value() == 2 * (old_q * d.value())) by (nonlinear_arith);
                    assert(2 * old_q <= (2 * old_q) * d.value()) by (nonlinear_arith)
                        requires d.value() >= 1, old_q >= 0;
                }
                q = q.add(&q);
            }
        }
        proof {
            vstd::arithmetic::power2::lemma2_to64();
            assert(pow2(0) == 1);
            assert(self.value() / 1 == self.value());
            lemma_fundamental_div_mod_converse(
                self.value() as int,
                d.value() as int,
                q.value() as int,
                r.value() as int,
            );
        }
        (q, r)
    }
}

} // verus!
