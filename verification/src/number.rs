//! The numeric domain of the language: exact rationals held in 64-bit
//! parts, modelled by unbounded-integer pairs at the specification level.

use vstd::prelude::*;

verus! {

/// A runtime number: the exact rational `num / den`, with `den >= 1`.
/// Operations whose exact result has no 64-bit representation report
/// overflow instead of rounding.
#[derive(Debug, Clone, Copy, PartialEq, Eq)]
pub struct NumberValue {
    pub num: i64,
    pub den: i64,
}

/// The mathematical value of a `NumberValue`: a rational written as a
/// pair of unbounded integers with a positive denominator.
pub struct Rat {
    pub num: int,
    pub den: int,
}

impl NumberValue {
    /// The denominator is always at least 1.
    pub open spec fn wf(self) -> bool {
        self.den >= 1
    }
}

impl View for NumberValue {
    type V = Rat;

    open spec fn view(&self) -> Rat {
        Rat { num: self.num as int, den: self.den as int }
    }
}

/// `a == b` as rationals, by cross multiplication (valid for positive
/// denominators).
pub open spec fn rat_eq(a: Rat, b: Rat) -> bool {
    a.num * b.den == b.num * a.den
}

/// `a < b` as rationals, by cross multiplication (valid for positive
/// denominators).
pub open spec fn rat_lt(a: Rat, b: Rat) -> bool {
    a.num * b.den < b.num * a.den
}

/// `a <= b` as rationals.
pub open spec fn rat_le(a: Rat, b: Rat) -> bool {
    a.num * b.den <= b.num * a.den
}

pub open spec fn rat_neg(a: Rat) -> Rat {
    Rat { num: -a.num, den: a.den }
}

pub open spec fn rat_add(a: Rat, b: Rat) -> Rat {
    Rat { num: a.num * b.den + b.num * a.den, den: a.den * b.den }
}

pub open spec fn rat_sub(a: Rat, b: Rat) -> Rat {
    Rat { num: a.num * b.den - b.num * a.den, den: a.den * b.den }
}

pub open spec fn rat_mul(a: Rat, b: Rat) -> Rat {
    Rat { num: a.num * b.num, den: a.den * b.den }
}

/// `a / b` as a rational with a positive denominator; meaningful only
/// for `b.num != 0`.
pub open spec fn rat_div(a: Rat, b: Rat) -> Rat {
    if b.num >= 0 {
        Rat { num: a.num * b.den, den: a.den * b.num }
    } else {
        Rat { num: -(a.num * b.den), den: -(a.den * b.num) }
    }
}

/// Whether the rational's parts fit back into a `NumberValue`.
pub open spec fn rat_fits(r: Rat) -> bool {
    &&& i64::MIN <= r.num <= i64::MAX
    &&& 1 <= r.den <= i64::MAX
}

/// The product of two values in 64-bit range stays far inside 128-bit
/// range.
pub(crate) proof fn lemma_mul_i64_range(a: int, b: int)
    by (nonlinear_arith)
    requires
        -0x8000_0000_0000_0000 <= a <= 0x7fff_ffff_ffff_ffff,
        -0x8000_0000_0000_0000 <= b <= 0x7fff_ffff_ffff_ffff,
    ensures
        -0x4000_0000_0000_0000_0000_0000_0000_0000 <= a * b
            <= 0x4000_0000_0000_0000_0000_0000_0000_0000,
{
}

/// The product of a value in 64-bit range with a positive 64-bit value
/// leaves room for one more addition inside 128-bit range.
pub(crate) proof fn lemma_mul_i64_den_range(a: int, b: int)
    by (nonlinear_arith)
    requires
        -0x8000_0000_0000_0000 <= a <= 0x7fff_ffff_ffff_ffff,
        1 <= b <= 0x7fff_ffff_ffff_ffff,
    ensures
        -0x3fff_ffff_ffff_ffff_8000_0000_0000_0000 <= a * b
            <= 0x3fff_ffff_ffff_ffff_8000_0000_0000_0000,
{
}

/// The product of two positive values in 64-bit range is at least 1.
pub(crate) proof fn lemma_mul_pos(a: int, b: int)
    by (nonlinear_arith)
    requires
        a >= 1,
        b >= 1,
    ensures
        a * b >= 1,
{
}

impl NumberValue {
    /// Packs exact 128-bit parts into a `NumberValue` when they fit.
    pub(crate) fn from_parts(p: i128, q: i128) -> (r: Option<NumberValue>)
        requires
            q >= 1,
        ensures
            r is Some <==> rat_fits((Rat { num: p as int, den: q as int })),
            (match r {
                Some(c) => c.wf() && c@ == (Rat { num: p as int, den: q as int }),
                None => true,
            }),
    {
        if -0x8000_0000_0000_0000i128 <= p && p <= 0x7fff_ffff_ffff_ffffi128
            && q <= 0x7fff_ffff_ffff_ffffi128 {
            Some(NumberValue { num: p as i64, den: q as i64 })
        } else {
            None
        }
    }

    /// Numeric negation; `None` exactly when the result does not fit.
    pub fn neg(&self) -> (r: Option<NumberValue>)
        requires
            self.wf(),
        ensures
            r is Some <==> rat_fits(rat_neg(self@)),
            (match r {
                Some(c) => c.wf() && c@ == rat_neg(self@),
                None => true,
            }),
    {
        if self.num == i64::MIN {
            None
        } else {
            Some(NumberValue { num: -self.num, den: self.den })
        }
    }

    /// Exact rational addition; `None` exactly when the result's parts
    /// exceed 64 bits.
    pub fn add(&self, other: &NumberValue) -> (r: Option<NumberValue>)
        requires
            self.wf(),
            other.wf(),
        ensures
            r is Some <==> rat_fits(rat_add(self@, other@)),
            (match r {
                Some(c) => c.wf() && c@ == rat_add(self@, other@),
                None => true,
            }),
    {
        proof {
            lemma_mul_i64_den_range(self.num as int, other.den as int);
            lemma_mul_i64_den_range(other.num as int, self.den as int);
            lemma_mul_i64_range(self.den as int, other.den as int);
            lemma_mul_pos(self.den as int, other.den as int);
        }
        let p = (self.num as i128) * (other.den as i128)
            + (other.num as i128) * (self.den as i128);
        let q = (self.den as i128) * (other.den as i128);
        Self::from_parts(p, q)
    }

    /// Exact rational subtraction; `None` exactly when the result's parts
    /// exceed 64 bits.
    pub fn sub(&self, other: &NumberValue) -> (r: Option<NumberValue>)
        requires
            self.wf(),
            other.wf(),
        ensures
            r is Some <==> rat_fits(rat_sub(self@, other@)),
            (match r {
                Some(c) => c.wf() && c@ == rat_sub(self@, other@),
                None => true,
            }),
    {
        proof {
            lemma_mul_i64_den_range(self.num as int, other.den as int);
            lemma_mul_i64_den_range(other.num as int, self.den as int);
            lemma_mul_i64_range(self.den as int, other.den as int);
            lemma_mul_pos(self.den as int, other.den as int);
        }
        let p = (self.num as i128) * (other.den as i128)
            - (other.num as i128) * (self.den as i128);
        let q = (self.den as i128) * (other.den as i128);
        Self::from_parts(p, q)
    }

    /// Exact rational multiplication; `None` exactly when the result's
    /// parts exceed 64 bits.
    pub fn mul(&self, other: &NumberValue) -> (r: Option<NumberValue>)
        requires
            self.wf(),
            other.wf(),
        ensures
            r is Some <==> rat_fits(rat_mul(self@, other@)),
            (match r {
                Some(c) => c.wf() && c@ == rat_mul(self@, other@),
                None => true,
            }),
    {
        proof {
            lemma_mul_i64_range(self.num as int, other.num as int);
            lemma_mul_i64_range(self.den as int, other.den as int);
            lemma_mul_pos(self.den as int, other.den as int);
        }
        let p = (self.num as i128) * (other.num as i128);
        let q = (self.den as i128) * (other.den as i128);
        Self::from_parts(p, q)
    }

    /// Exact rational division by a nonzero number; `None` exactly when
    /// the result's parts exceed 64 bits.
    pub fn div(&self, other: &NumberValue) -> (r: Option<NumberValue>)
        requires
            self.wf(),
            other.wf(),
            other@.num != 0,
        ensures
            r is Some <==> rat_fits(rat_div(self@, other@)),
            (match r {
                Some(c) => c.wf() && c@ == rat_div(self@, other@),
                None => true,
            }),
    {
        proof {
            lemma_mul_i64_range(self.num as int, other.den as int);
            lemma_mul_i64_range(self.den as int, other.num as int);
        }
        let p = (self.num as i128) * (other.den as i128);
        let q = (self.den as i128) * (other.num as i128);
        if other.num >= 1 {
            proof {
                lemma_mul_pos(self.den as int, other.num as int);
            }
            Self::from_parts(p, q)
        } else {
            proof {
                lemma_mul_pos(self.den as int, -(other.num as int));
                assert((self.den as int) * (-(other.num as int))
                    == -((self.den as int) * (other.num as int))) by (nonlinear_arith);
            }
            Self::from_parts(-p, -q)
        }
    }

    /// Whether the number is zero, by numeric value.
    pub fn is_zero(&self) -> (r: bool)
        requires
            self.wf(),
        ensures
            r == (self@.num == 0),
    {
        self.num == 0
    }

    /// Numeric equality (not representation equality): `2/4` equals `1/2`.
    pub fn eq_value(&self, other: &NumberValue) -> (r: bool)
        requires
            self.wf(),
            other.wf(),
        ensures
            r == rat_eq(self@, other@),
    {
        proof {
            lemma_mul_i64_range(self.num as int, other.den as int);
            lemma_mul_i64_range(other.num as int, self.den as int);
        }
        (self.num as i128) * (other.den as i128) == (other.num as i128) * (self.den as i128)
    }

    /// Numeric `<`.
    pub fn lt(&self, other: &NumberValue) -> (r: bool)
        requires
            self.wf(),
            other.wf(),
        ensures
            r == rat_lt(self@, other@),
    {
        proof {
            lemma_mul_i64_range(self.num as int, other.den as int);
            lemma_mul_i64_range(other.num as int, self.den as int);
        }
        (self.num as i128) * (other.den as i128) < (other.num as i128) * (self.den as i128)
    }

    /// Numeric `<=`.
    pub fn le(&self, other: &NumberValue) -> (r: bool)
        requires
            self.wf(),
            other.wf(),
        ensures
            r == rat_le(self@, other@),
    {
        proof {
            lemma_mul_i64_range(self.num as int, other.den as int);
            lemma_mul_i64_range(other.num as int, self.den as int);
        }
        (self.num as i128) * (other.den as i128) <= (other.num as i128) * (self.den as i128)
    }
}

} // verus!
