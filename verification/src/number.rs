//! Binary64 numbers as bit patterns.

use vstd::prelude::*;

verus! {

/// The bit that carries the sign.
pub const SIGN_BIT: u64 = 0x8000_0000_0000_0000;

/// The bits that carry exponent and fraction.
pub const MAGNITUDE_MASK: u64 = 0x7fff_ffff_ffff_ffff;

/// The magnitude of positive infinity; every larger magnitude is a NaN.
pub const INFINITY_BITS: u64 = 0x7ff0_0000_0000_0000;

/// A text as the contracts speak of it: its characters, one by one.
pub type Chars = Seq<char>;

/// An IEEE-754 binary64 value, held as its 64 bits.
#[derive(Clone, Copy, Debug)]
pub struct Number {
    pub bits: u64,
}

/// The rounding operations that are left to the embedding program.
#[derive(Clone, Copy, Debug, PartialEq, Eq, Structural)]
pub enum ArithOp {
    Add,
    Sub,
    Mul,
    Div,
    Rem,
}

/// What the interpreters ask of the embedding program: everything that needs
/// floating-point hardware or the clock. Of reading, rounding and writing
/// only this is taken for granted: each is a function of its arguments, so
/// that the same question gets the same answer. Which answer that is, is
/// the embedding program's to say. The clock is no such function.
pub trait Arithmetic {
    /// The number that `parse` reads from `literal`.
    spec fn parsed(&self, literal: Chars) -> Number;

    /// The number that `apply` computes for `lhs op rhs`.
    spec fn applied(&self, op: ArithOp, lhs: Number, rhs: Number) -> Number;

    /// The text that `render` writes for `n`.
    spec fn rendered(&self, n: Number) -> Chars;

    /// The number that a literal of digits, with an optional fraction, denotes.
    fn parse(&self, literal: &str) -> (r: Number)
        ensures
            r == self.parsed(literal@),
    ;

    /// `lhs op rhs`, rounded as IEEE-754 prescribes.
    fn apply(&self, op: ArithOp, lhs: Number, rhs: Number) -> (r: Number)
        ensures
            r == self.applied(op, lhs, rhs),
    ;

    /// The shortest decimal text that reads back as `n`.
    fn render(&self, n: Number) -> (r: String)
        ensures
            r@ == self.rendered(n),
    ;

    /// Milliseconds since the Unix epoch.
    fn clock(&self) -> Number;
}

impl Number {
    /// Exponent and fraction, without the sign.
    pub open spec fn magnitude(self) -> u64 {
        self.bits & MAGNITUDE_MASK
    }

    pub open spec fn negative(self) -> bool {
        self.bits & SIGN_BIT != 0
    }

    pub open spec fn nan(self) -> bool {
        self.magnitude() > INFINITY_BITS
    }

    pub open spec fn zero(self) -> bool {
        self.magnitude() == 0
    }

    /// IEEE equality: a NaN equals nothing, and the two zeros are equal.
    pub open spec fn same(self, other: Number) -> bool {
        &&& !self.nan()
        &&& !other.nan()
        &&& (self.bits == other.bits || (self.zero() && other.zero()))
    }

    /// IEEE `<`: false where either side is a NaN; the two zeros are not
    /// ordered; otherwise by sign, then by magnitude.
    pub open spec fn below(self, other: Number) -> bool {
        &&& !self.nan()
        &&& !other.nan()
        &&& !(self.zero() && other.zero())
        &&& if self.negative() != other.negative() {
            self.negative()
        } else if self.negative() {
            self.magnitude() > other.magnitude()
        } else {
            self.magnitude() < other.magnitude()
        }
    }

    pub fn from_bits(bits: u64) -> (r: Number)
        ensures
            r.bits == bits,
    {
        Number { bits }
    }

    pub fn to_bits(self) -> (r: u64)
        ensures
            r == self.bits,
    {
        self.bits
    }

    pub fn is_nan(self) -> (r: bool)
        ensures
            r == self.nan(),
    {
        (self.bits & MAGNITUDE_MASK) > INFINITY_BITS
    }

    pub fn is_zero(self) -> (r: bool)
        ensures
            r == self.zero(),
    {
        (self.bits & MAGNITUDE_MASK) == 0
    }

    /// The number with the opposite sign; a NaN stays a NaN.
    pub fn negate(self) -> (r: Number)
        ensures
            r.bits == self.bits ^ SIGN_BIT,
    {
        Number { bits: self.bits ^ SIGN_BIT }
    }

    pub fn equals(self, other: Number) -> (r: bool)
        ensures
            r == self.same(other),
    {
        !self.is_nan() && !other.is_nan() && (self.bits == other.bits || (self.is_zero()
            && other.is_zero()))
    }

    pub fn less(self, other: Number) -> (r: bool)
        ensures
            r == self.below(other),
    {
        if self.is_nan() || other.is_nan() || (self.is_zero() && other.is_zero()) {
            return false;
        }
        let a_neg = (self.bits & SIGN_BIT) != 0;
        let b_neg = (other.bits & SIGN_BIT) != 0;
        let a_mag = self.bits & MAGNITUDE_MASK;
        let b_mag = other.bits & MAGNITUDE_MASK;
        if a_neg != b_neg {
            a_neg
        } else if a_neg {
            a_mag > b_mag
        } else {
            a_mag < b_mag
        }
    }

    pub fn greater(self, other: Number) -> (r: bool)
        ensures
            r == other.below(self),
    {
        other.less(self)
    }

    /// IEEE `<=`: below or equal, so false where either side is a NaN.
    pub fn less_equal(self, other: Number) -> (r: bool)
        ensures
            r == (self.below(other) || self.same(other)),
    {
        self.less(other) || self.equals(other)
    }

    pub fn greater_equal(self, other: Number) -> (r: bool)
        ensures
            r == (other.below(self) || self.same(other)),
    {
        other.less(self) || self.equals(other)
    }
}

impl PartialEq for Number {
    fn eq(&self, other: &Number) -> (r: bool) {
        self.equals(*other)
    }
}

impl vstd::std_specs::cmp::PartialEqSpecImpl for Number {
    open spec fn obeys_eq_spec() -> bool {
        true
    }

    open spec fn eq_spec(&self, other: &Number) -> bool {
        self.same(*other)
    }
}

} // verus!
