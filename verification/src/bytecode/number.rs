use vstd::prelude::*;

verus! {

/// The sign bit of a double.
pub const SIGN_MASK: u64 = 0x8000_0000_0000_0000;

/// Everything but the sign bit.
pub const MAGNITUDE_MASK: u64 = 0x7fff_ffff_ffff_ffff;

/// The magnitude of infinity: all exponent bits set, fraction clear.
pub const INFINITY_BITS: u64 = 0x7ff0_0000_0000_0000;

/// A number of the language: the bit pattern of an IEEE 754 double.
///
/// The library compares, negates and tests numbers on this pattern and leaves
/// every other operation to its caller.
#[derive(Copy, Clone, Debug)]
pub struct Number {
    pub bits: u64,
}

impl Number {
    /// The pattern without its sign bit.
    pub open spec fn magnitude(self) -> u64 {
        self.bits & MAGNITUDE_MASK
    }

    /// Whether the sign bit is set.
    pub open spec fn negative(self) -> bool {
        self.bits & SIGN_MASK != 0
    }

    /// Not-a-number: the exponent bits are all set and the fraction is not
    /// zero.
    pub open spec fn nan(self) -> bool {
        self.magnitude() > INFINITY_BITS
    }

    /// Positive or negative zero.
    pub open spec fn zero(self) -> bool {
        self.magnitude() == 0
    }

    /// Where the number stands on the number line, as an integer that grows
    /// with it. Meaningful unless the number is not-a-number.
    pub open spec fn rank(self) -> int {
        if self.negative() {
            -(self.magnitude() as int)
        } else {
            self.magnitude() as int
        }
    }

    /// IEEE equality: not-a-number equals nothing, the two zeros are equal,
    /// any other two numbers are equal when their patterns are.
    pub open spec fn ieee_eq(self, other: Number) -> bool {
        !self.nan() && !other.nan() && self.rank() == other.rank()
    }

    /// IEEE less-than: false when either side is not-a-number.
    pub open spec fn ieee_lt(self, other: Number) -> bool {
        !self.nan() && !other.nan() && self.rank() < other.rank()
    }

    /// The pattern with its sign bit flipped.
    pub open spec fn negated(self) -> Number {
        Number { bits: self.bits ^ SIGN_MASK }
    }

    pub fn new(bits: u64) -> (number: Number)
        ensures
            number.bits == bits,
    {
        Number { bits }
    }

    pub fn is_nan(&self) -> (nan: bool)
        ensures
            nan == self.nan(),
    {
        (self.bits & MAGNITUDE_MASK) > INFINITY_BITS
    }

    pub fn is_zero(&self) -> (zero: bool)
        ensures
            zero == self.zero(),
    {
        (self.bits & MAGNITUDE_MASK) == 0
    }

    /// Whether the two numbers are equal as doubles.
    pub fn equals(&self, other: &Number) -> (same: bool)
        ensures
            same == self.ieee_eq(*other),
    {
        if self.is_nan() || other.is_nan() {
            return false;
        }
        let left: u64 = self.bits & MAGNITUDE_MASK;
        let right: u64 = other.bits & MAGNITUDE_MASK;
        if left == 0 && right == 0 {
            return true;
        }
        proof {
            let a = self.bits;
            let b = other.bits;
            assert((a == b) <==> ((a & SIGN_MASK) == (b & SIGN_MASK) && (a & MAGNITUDE_MASK) == (b
                & MAGNITUDE_MASK))) by (bit_vector);
            assert((a & SIGN_MASK) == 0 || (a & SIGN_MASK) == SIGN_MASK) by (bit_vector);
            assert((b & SIGN_MASK) == 0 || (b & SIGN_MASK) == SIGN_MASK) by (bit_vector);
        }
        self.bits == other.bits
    }

    /// Whether this number is below the other as doubles.
    pub fn less_than(&self, other: &Number) -> (below: bool)
        ensures
            below == self.ieee_lt(*other),
    {
        if self.is_nan() || other.is_nan() {
            return false;
        }
        let left: u64 = self.bits & MAGNITUDE_MASK;
        let right: u64 = other.bits & MAGNITUDE_MASK;
        let left_negative: bool = (self.bits & SIGN_MASK) != 0;
        let right_negative: bool = (other.bits & SIGN_MASK) != 0;
        if left_negative {
            if right_negative {
                left > right
            } else {
                left != 0 || right != 0
            }
        } else {
            if right_negative {
                false
            } else {
                left < right
            }
        }
    }

    /// The number with its sign flipped, as negation of a double does.
    pub fn negate(&self) -> (flipped: Number)
        ensures
            flipped == self.negated(),
    {
        Number { bits: self.bits ^ SIGN_MASK }
    }

    /// Equality of doubles is symmetric, and no number that is not-a-number
    /// equals itself.
    pub proof fn lemma_eq_symmetric(a: Number, b: Number)
        ensures
            a.ieee_eq(b) == b.ieee_eq(a),
            a.nan() ==> !a.ieee_eq(a),
            !a.nan() ==> a.ieee_eq(a),
    {
    }

    /// Negating twice gives the number back, and negation keeps zero and
    /// not-a-number.
    pub proof fn lemma_negate(a: Number)
        ensures
            a.negated().negated() == a,
            a.negated().zero() == a.zero(),
            a.negated().nan() == a.nan(),
            a.negated().negative() == !a.negative(),
    {
        let x = a.bits;
        assert((x ^ SIGN_MASK) ^ SIGN_MASK == x) by (bit_vector);
        assert(((x ^ SIGN_MASK) & MAGNITUDE_MASK) == (x & MAGNITUDE_MASK)) by (bit_vector);
        assert((((x ^ SIGN_MASK) & SIGN_MASK) != 0) == !((x & SIGN_MASK) != 0)) by (bit_vector);
    }
}

} // verus!
