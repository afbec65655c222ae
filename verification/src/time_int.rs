//! The unsigned integers that can count ticks.

use vstd::prelude::*;

verus! {

/// An unsigned integer type, 32 or 64 bits wide, that holds a tick count.
///
/// Contracts speak of a tick count through [`TimeInt::as_int`], its value as
/// a mathematical integer, and of the type's range through
/// [`TimeInt::max_int`].
pub trait TimeInt: Copy + Sized {
    /// The value as a mathematical integer.
    spec fn as_int(self) -> int;

    /// The largest value of the type.
    spec fn max_int() -> int;

    /// Every value lies within the type's range.
    proof fn lemma_bounds(x: Self)
        ensures
            0 <= x.as_int() <= Self::max_int(),
    ;

    /// The range covers 32 bits and fits in 64.
    proof fn lemma_max_int()
        ensures
            u32::MAX <= Self::max_int() <= u64::MAX,
    ;

    /// Two tick counts with the same value are the same.
    proof fn lemma_as_int_injective(x: Self, y: Self)
        requires
            x.as_int() == y.as_int(),
        ensures
            x == y,
    ;

    /// Promotes the value to the intermediate width used by conversions.
    fn widen(self) -> (w: u128)
        ensures
            w == self.as_int(),
    ;

    /// Narrows an intermediate value, if the type can hold it.
    fn narrow(w: u128) -> (r: Option<Self>)
        ensures
            match r {
                Some(x) => x.as_int() == w && w <= Self::max_int(),
                None => w > Self::max_int(),
            },
    ;

    /// Builds a tick count from a small integer.
    fn from_u32(v: u32) -> (r: Self)
        ensures
            r.as_int() == v,
    ;

    /// The largest tick count.
    fn max_value() -> (r: Self)
        ensures
            r.as_int() == Self::max_int(),
    ;

    /// The sum, or `None` where it does not fit.
    fn checked_add(self, rhs: Self) -> (r: Option<Self>)
        ensures
            match r {
                Some(s) => s.as_int() == self.as_int() + rhs.as_int() && s.as_int()
                    <= Self::max_int(),
                None => self.as_int() + rhs.as_int() > Self::max_int(),
            },
    {
        proof {
            Self::lemma_bounds(self);
            Self::lemma_bounds(rhs);
            Self::lemma_max_int();
        }
        Self::narrow(self.widen() + rhs.widen())
    }

    /// The difference, or `None` where `rhs` is the larger.
    fn checked_sub(self, rhs: Self) -> (r: Option<Self>)
        ensures
            match r {
                Some(d) => d.as_int() == self.as_int() - rhs.as_int() && rhs.as_int()
                    <= self.as_int(),
                None => self.as_int() < rhs.as_int(),
            },
    {
        proof {
            Self::lemma_bounds(self);
            Self::lemma_bounds(rhs);
        }
        let a = self.widen();
        let b = rhs.widen();
        if a < b {
            None
        } else {
            Self::narrow(a - b)
        }
    }

    /// The product, or `None` where it does not fit.
    fn checked_mul(self, rhs: Self) -> (r: Option<Self>)
        ensures
            match r {
                Some(p) => p.as_int() == self.as_int() * rhs.as_int() && p.as_int()
                    <= Self::max_int(),
                None => self.as_int() * rhs.as_int() > Self::max_int(),
            },
    {
        proof {
            Self::lemma_bounds(self);
            Self::lemma_bounds(rhs);
            Self::lemma_max_int();
            lemma_product_fits(self.as_int(), rhs.as_int());
        }
        Self::narrow(self.widen() * rhs.widen())
    }

    /// The quotient with the remainder dropped, or `None` where `rhs` is
    /// zero.
    fn checked_div(self, rhs: Self) -> (r: Option<Self>)
        ensures
            match r {
                Some(q) => rhs.as_int() != 0 && q.as_int() == self.as_int() / rhs.as_int(),
                None => rhs.as_int() == 0,
            },
    {
        proof {
            Self::lemma_bounds(self);
            Self::lemma_bounds(rhs);
        }
        let a = self.widen();
        let b = rhs.widen();
        if b == 0 {
            None
        } else {
            proof {
                lemma_quotient_is_smaller(a as int, b as int);
            }
            Self::narrow(a / b)
        }
    }

    /// The difference modulo the width of the type.
    fn wrapping_sub(self, rhs: Self) -> (r: Self)
        ensures
            r.as_int() == wrapped(self.as_int() - rhs.as_int(), Self::max_int()),
    {
        proof {
            Self::lemma_bounds(self);
            Self::lemma_bounds(rhs);
            Self::lemma_max_int();
        }
        let a = self.widen();
        let b = rhs.widen();
        let d = if a >= b {
            a - b
        } else {
            Self::max_value().widen() - b + 1 + a
        };
        proof {
            lemma_wrapped_difference(a as int, b as int, Self::max_int());
        }
        match Self::narrow(d) {
            Some(r) => r,
            None => vstd::pervasive::unreached(),
        }
    }

    /// Whether `self` is strictly below `rhs`.
    fn less_than(self, rhs: Self) -> (r: bool)
        ensures
            r == (self.as_int() < rhs.as_int()),
    {
        self.widen() < rhs.widen()
    }
}

/// The product of two values of up to 64 bits fits in 128 bits.
proof fn lemma_product_fits(a: int, b: int)
    requires
        0 <= a <= u64::MAX,
        0 <= b <= u64::MAX,
    ensures
        0 <= a * b <= 0xffff_ffff_ffff_ffff * 0xffff_ffff_ffff_ffff,
{
    assert(0 <= a * b <= 0xffff_ffff_ffff_ffff * 0xffff_ffff_ffff_ffff) by (nonlinear_arith)
        requires
            0 <= a <= 0xffff_ffff_ffff_ffff,
            0 <= b <= 0xffff_ffff_ffff_ffff,
    ;
}

/// A quotient is not larger than its dividend.
proof fn lemma_quotient_is_smaller(a: int, b: int)
    requires
        0 <= a,
        0 < b,
    ensures
        0 <= a / b <= a,
{
    assert(0 <= a / b <= a) by (nonlinear_arith)
        requires
            0 <= a,
            0 < b,
    ;
}

/// `x` reduced into `0 ..= max`, as a counter of that range wraps.
pub open spec fn wrapped(x: int, max: int) -> int {
    x % (max + 1)
}

/// The wrapped difference of two values in range, without a modulus.
pub proof fn lemma_wrapped_difference(a: int, b: int, max: int)
    requires
        0 <= a <= max,
        0 <= b <= max,
    ensures
        a >= b ==> wrapped(a - b, max) == a - b,
        a < b ==> wrapped(a - b, max) == a - b + max + 1,
        0 <= wrapped(a - b, max) <= max,
{
    let m = max + 1;
    if a >= b {
        vstd::arithmetic::div_mod::lemma_small_mod((a - b) as nat, m as nat);
    } else {
        vstd::arithmetic::div_mod::lemma_small_mod((a - b + m) as nat, m as nat);
        vstd::arithmetic::div_mod::lemma_mod_add_multiples_vanish(a - b, m);
    }
}

impl TimeInt for u32 {
    open spec fn as_int(self) -> int {
        self as int
    }

    open spec fn max_int() -> int {
        u32::MAX as int
    }

    proof fn lemma_bounds(x: Self) {
    }

    proof fn lemma_max_int() {
    }

    proof fn lemma_as_int_injective(x: Self, y: Self) {
    }

    fn widen(self) -> (w: u128) {
        self as u128
    }

    fn narrow(w: u128) -> (r: Option<Self>) {
        if w <= u32::MAX as u128 {
            Some(w as u32)
        } else {
            None
        }
    }

    fn from_u32(v: u32) -> (r: Self) {
        v
    }

    fn max_value() -> (r: Self) {
        u32::MAX
    }
}

impl TimeInt for u64 {
    open spec fn as_int(self) -> int {
        self as int
    }

    open spec fn max_int() -> int {
        u64::MAX as int
    }

    proof fn lemma_bounds(x: Self) {
    }

    proof fn lemma_max_int() {
    }

    proof fn lemma_as_int_injective(x: Self, y: Self) {
    }

    fn widen(self) -> (w: u128) {
        self as u128
    }

    fn narrow(w: u128) -> (r: Option<Self>) {
        if w <= u64::MAX as u128 {
            Some(w as u64)
        } else {
            None
        }
    }

    fn from_u32(v: u32) -> (r: Self) {
        v as u64
    }

    fn max_value() -> (r: Self) {
        u64::MAX
    }
}

} // verus!
