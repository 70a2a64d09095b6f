//! Double-precision quantities, carried by bit pattern and compared exactly.
use vstd::prelude::*;

verus! {

/// The sign bit of a binary64 pattern.
pub const SIGN_BIT: u64 = 0x8000_0000_0000_0000;

/// The pattern of positive infinity; every larger magnitude is a NaN.
pub const INFINITY_BITS: u64 = 0x7ff0_0000_0000_0000;

/// A double-precision quantity, held as its IEEE-754 binary64 bit pattern.
///
/// The derived `==` compares patterns; [`Scalar::same_value`] compares the
/// quantities, for which the two zeros are equal and a NaN equals nothing.
#[derive(Clone, Copy, Debug, PartialEq, Eq, Structural)]
pub struct Scalar {
    pub bits: u64,
}

impl Scalar {
    /// The pattern with the sign bit cleared.
    pub open spec fn magnitude(self) -> int {
        if self.bits >= SIGN_BIT {
            self.bits - SIGN_BIT
        } else {
            self.bits as int
        }
    }

    /// Whether the sign bit is set.
    pub open spec fn sign_spec(self) -> bool {
        self.bits >= SIGN_BIT
    }

    /// Whether the pattern encodes a NaN.
    pub open spec fn is_nan_spec(self) -> bool {
        self.magnitude() > INFINITY_BITS
    }

    /// The position of a non-NaN quantity on the number line: patterns of
    /// one sign grow with their magnitude, and both zeros stand at 0.
    pub open spec fn rank(self) -> int {
        if self.sign_spec() {
            -self.magnitude()
        } else {
            self.magnitude()
        }
    }

    /// `self < other` as IEEE-754 defines it: false whenever a NaN takes part.
    pub open spec fn lt_spec(self, other: Scalar) -> bool {
        !self.is_nan_spec() && !other.is_nan_spec() && self.rank() < other.rank()
    }

    /// `self <= other` as IEEE-754 defines it: false whenever a NaN takes part.
    pub open spec fn le_spec(self, other: Scalar) -> bool {
        !self.is_nan_spec() && !other.is_nan_spec() && self.rank() <= other.rank()
    }

    /// `self > other`, which is `other < self`.
    pub open spec fn gt_spec(self, other: Scalar) -> bool {
        other.lt_spec(self)
    }

    /// `self >= other`, which is `other <= self`.
    pub open spec fn ge_spec(self, other: Scalar) -> bool {
        other.le_spec(self)
    }

    /// Equality of the quantities: neither is a NaN and they stand at the
    /// same place on the number line.
    pub open spec fn same_value_spec(self, other: Scalar) -> bool {
        !self.is_nan_spec() && !other.is_nan_spec() && self.rank() == other.rank()
    }

    /// The smaller of two quantities, ignoring a NaN where the other is a number.
    pub open spec fn min_spec(self, other: Scalar) -> Scalar {
        if self.is_nan_spec() {
            other
        } else if other.is_nan_spec() {
            self
        } else if other.lt_spec(self) {
            other
        } else {
            self
        }
    }

    /// The larger of two quantities, ignoring a NaN where the other is a number.
    pub open spec fn max_spec(self, other: Scalar) -> Scalar {
        if self.is_nan_spec() {
            other
        } else if other.is_nan_spec() {
            self
        } else if self.lt_spec(other) {
            other
        } else {
            self
        }
    }

    /// The quantity with its sign flipped.
    pub open spec fn neg_spec(self) -> Scalar {
        if self.bits >= SIGN_BIT {
            Scalar { bits: (self.bits - SIGN_BIT) as u64 }
        } else {
            Scalar { bits: (self.bits + SIGN_BIT) as u64 }
        }
    }

    /// The quantity with its sign cleared.
    pub open spec fn abs_spec(self) -> Scalar {
        if self.bits >= SIGN_BIT {
            Scalar { bits: (self.bits - SIGN_BIT) as u64 }
        } else {
            self
        }
    }

    /// Positive zero.
    pub open spec fn zero_spec() -> Scalar {
        Scalar { bits: 0 }
    }

    /// The number one.
    pub open spec fn one_spec() -> Scalar {
        Scalar { bits: 0x3ff0_0000_0000_0000 }
    }

    /// Positive infinity.
    pub open spec fn infinity_spec() -> Scalar {
        Scalar { bits: INFINITY_BITS }
    }

    /// Wraps a bit pattern.
    #[verifier::when_used_as_spec(from_bits_spec)]
    pub fn from_bits(bits: u64) -> (r: Scalar)
        ensures
            r == (Scalar { bits }),
    {
        Scalar { bits }
    }

    /// The scalar with the given pattern.
    pub open spec fn from_bits_spec(bits: u64) -> Scalar {
        Scalar { bits }
    }

    /// The bit pattern.
    pub fn to_bits(self) -> (r: u64)
        ensures
            r == self.bits,
    {
        self.bits
    }

    /// Computes [`Scalar::zero_spec`].
    #[verifier::when_used_as_spec(zero_spec)]
    pub fn zero() -> (r: Scalar)
        ensures
            r == Scalar::zero_spec(),
    {
        Scalar { bits: 0 }
    }

    /// Computes [`Scalar::one_spec`].
    #[verifier::when_used_as_spec(one_spec)]
    pub fn one() -> (r: Scalar)
        ensures
            r == Scalar::one_spec(),
    {
        Scalar { bits: 0x3ff0_0000_0000_0000 }
    }

    /// Computes [`Scalar::infinity_spec`].
    #[verifier::when_used_as_spec(infinity_spec)]
    pub fn infinity() -> (r: Scalar)
        ensures
            r == Scalar::infinity_spec(),
    {
        Scalar { bits: INFINITY_BITS }
    }

    /// Computes [`Scalar::sign_spec`].
    #[verifier::when_used_as_spec(sign_spec)]
    pub fn sign(self) -> (r: bool)
        ensures
            r == self.sign_spec(),
    {
        self.bits >= SIGN_BIT
    }

    /// Computes [`Scalar::is_nan_spec`].
    #[verifier::when_used_as_spec(is_nan_spec)]
    pub fn is_nan(self) -> (r: bool)
        ensures
            r == self.is_nan_spec(),
    {
        self.abs().bits > INFINITY_BITS
    }

    /// The rank as a machine integer; it always fits.
    pub fn rank_value(self) -> (r: i64)
        ensures
            r == self.rank(),
    {
        let magnitude: u64 = self.abs().bits;
        if self.bits >= SIGN_BIT {
            -(magnitude as i64)
        } else {
            magnitude as i64
        }
    }

    /// Computes [`Scalar::lt_spec`].
    #[verifier::when_used_as_spec(lt_spec)]
    pub fn lt(self, other: Scalar) -> (r: bool)
        ensures
            r == self.lt_spec(other),
    {
        !self.is_nan() && !other.is_nan() && self.rank_value() < other.rank_value()
    }

    /// Computes [`Scalar::le_spec`].
    #[verifier::when_used_as_spec(le_spec)]
    pub fn le(self, other: Scalar) -> (r: bool)
        ensures
            r == self.le_spec(other),
    {
        !self.is_nan() && !other.is_nan() && self.rank_value() <= other.rank_value()
    }

    /// Computes [`Scalar::gt_spec`].
    #[verifier::when_used_as_spec(gt_spec)]
    pub fn gt(self, other: Scalar) -> (r: bool)
        ensures
            r == self.gt_spec(other),
    {
        other.lt(self)
    }

    /// Computes [`Scalar::ge_spec`].
    #[verifier::when_used_as_spec(ge_spec)]
    pub fn ge(self, other: Scalar) -> (r: bool)
        ensures
            r == self.ge_spec(other),
    {
        other.le(self)
    }

    /// Computes [`Scalar::same_value_spec`].
    #[verifier::when_used_as_spec(same_value_spec)]
    pub fn same_value(self, other: Scalar) -> (r: bool)
        ensures
            r == self.same_value_spec(other),
    {
        !self.is_nan() && !other.is_nan() && self.rank_value() == other.rank_value()
    }

    /// Computes [`Scalar::min_spec`].
    #[verifier::when_used_as_spec(min_spec)]
    pub fn min(self, other: Scalar) -> (r: Scalar)
        ensures
            r == self.min_spec(other),
    {
        if self.is_nan() {
            other
        } else if other.is_nan() {
            self
        } else if other.lt(self) {
            other
        } else {
            self
        }
    }

    /// Computes [`Scalar::max_spec`].
    #[verifier::when_used_as_spec(max_spec)]
    pub fn max(self, other: Scalar) -> (r: Scalar)
        ensures
            r == self.max_spec(other),
    {
        if self.is_nan() {
            other
        } else if other.is_nan() {
            self
        } else if self.lt(other) {
            other
        } else {
            self
        }
    }

    /// Computes [`Scalar::neg_spec`].
    #[verifier::when_used_as_spec(neg_spec)]
    pub fn neg(self) -> (r: Scalar)
        ensures
            r == self.neg_spec(),
    {
        if self.bits >= SIGN_BIT {
            Scalar { bits: self.bits - SIGN_BIT }
        } else {
            Scalar { bits: self.bits + SIGN_BIT }
        }
    }

    /// Computes [`Scalar::abs_spec`].
    #[verifier::when_used_as_spec(abs_spec)]
    pub fn abs(self) -> (r: Scalar)
        ensures
            r == self.abs_spec(),
    {
        if self.bits >= SIGN_BIT {
            Scalar { bits: self.bits - SIGN_BIT }
        } else {
            self
        }
    }
}

/// Two to the power 52: the weight of the hidden bit of a binary64 mantissa.
pub const HIDDEN_BIT: u64 = 0x10_0000_0000_0000;

/// `value` halved `times` times, each time rounding down.
pub open spec fn halved(value: int, times: nat) -> int
    decreases times,
{
    if times == 0 {
        value
    } else {
        halved(value, (times - 1) as nat) / 2
    }
}

impl Scalar {
    /// The quantity held between two bounds: `lo` where it lies below,
    /// `hi` where it lies above, and itself elsewhere; a NaN stays a NaN.
    pub open spec fn clamp_spec(self, lo: Scalar, hi: Scalar) -> Scalar {
        if self.lt_spec(lo) {
            lo
        } else if self.gt_spec(hi) {
            hi
        } else {
            self
        }
    }

    /// The biased exponent of the pattern, sign aside.
    pub open spec fn exponent(self) -> int {
        self.magnitude() / (HIDDEN_BIT as int)
    }

    /// The fraction bits of the pattern.
    pub open spec fn fraction(self) -> int {
        self.magnitude() % (HIDDEN_BIT as int)
    }

    /// The channel value `256 * self`, rounded down to a byte the way a
    /// conversion to an unsigned byte rounds: 0 for a NaN, for a negative
    /// quantity and for one below 1/256; 255 for one and above; and between
    /// those the mantissa, hidden bit included, halved as often as the
    /// exponent asks. (A quantity in `[1/256, 1)` is
    /// `(2^52 + fraction) * 2^(exponent - 1075)`, so 256 times it is the
    /// mantissa halved `1067 - exponent` times.)
    pub open spec fn byte_spec(self) -> int {
        if self.is_nan_spec() || self.sign_spec() || self.exponent() < 1015 {
            0
        } else if self.exponent() >= 1023 {
            255
        } else {
            halved(HIDDEN_BIT + self.fraction(), (1067 - self.exponent()) as nat)
        }
    }

    /// Computes [`Scalar::clamp_spec`].
    #[verifier::when_used_as_spec(clamp_spec)]
    pub fn clamp(self, lo: Scalar, hi: Scalar) -> (r: Scalar)
        requires
            lo.le_spec(hi),
        ensures
            r == self.clamp_spec(lo, hi),
    {
        if self.lt(lo) {
            lo
        } else if self.gt(hi) {
            hi
        } else {
            self
        }
    }

    /// The byte of a colour channel: [`Scalar::byte_spec`].
    pub fn to_byte(self) -> (r: u8)
        ensures
            r == self.byte_spec(),
    {
        if self.is_nan() || self.bits >= SIGN_BIT {
            return 0;
        }
        let exponent: u64 = self.bits / HIDDEN_BIT;
        let fraction: u64 = self.bits % HIDDEN_BIT;
        if exponent < 1015 {
            return 0;
        }
        if exponent >= 1023 {
            return 255;
        }
        let mut value: u64 = HIDDEN_BIT + fraction;
        let mut done: u64 = 0;
        let times: u64 = 1067 - exponent;
        while done < times
            invariant
                done <= times,
                45 <= times <= 52,
                value == halved(HIDDEN_BIT + fraction, done as nat),
                fraction < HIDDEN_BIT,
            decreases times - done,
        {
            value = value / 2;
            done += 1;
        }
        proof {
            lemma_halved_bound(HIDDEN_BIT + fraction, times as nat);
        }
        value as u8
    }
}

/// Halving 45 times or more brings a mantissa below 256.
pub proof fn lemma_halved_bound(value: int, times: nat)
    requires
        0 <= value < 0x20_0000_0000_0000,
        times >= 45,
    ensures
        0 <= halved(value, times) < 256,
    decreases times,
{
    if times == 45 {
        lemma_halved_steps(value, 45);
    } else {
        lemma_halved_bound(value, (times - 1) as nat);
    }
}

/// Halving `times` times divides by two that often: the result lies between
/// nothing and the start, and 45 halvings divide by 2^45.
proof fn lemma_halved_steps(value: int, times: nat)
    requires
        0 <= value,
        times <= 45,
    ensures
        0 <= halved(value, times) <= value,
        times == 45 ==> halved(value, times) == value / 0x2000_0000_0000,
        times == 44 ==> halved(value, times) == value / 0x1000_0000_0000,
        times == 43 ==> halved(value, times) == value / 0x800_0000_0000,
        times == 42 ==> halved(value, times) == value / 0x400_0000_0000,
        times == 41 ==> halved(value, times) == value / 0x200_0000_0000,
        times == 40 ==> halved(value, times) == value / 0x100_0000_0000,
{
    reveal_with_fuel(halved, 46);
}

/// The byte of a channel grows with the channel: of two numbers the larger
/// has no smaller byte.
pub proof fn lemma_byte_monotone(a: Scalar, b: Scalar)
    requires
        a.le_spec(b),
    ensures
        a.byte_spec() <= b.byte_spec(),
{
    if a.sign_spec() || a.exponent() < 1015 {
        if !(b.sign_spec() || b.exponent() < 1015 || b.exponent() >= 1023) {
            lemma_halved_bound(HIDDEN_BIT + b.fraction(), (1067 - b.exponent()) as nat);
        }
    } else if b.exponent() >= 1023 {
        if a.exponent() < 1023 {
            lemma_halved_bound(HIDDEN_BIT + a.fraction(), (1067 - a.exponent()) as nat);
        }
    } else {
        let ea = a.exponent();
        let eb = b.exponent();
        let ma = HIDDEN_BIT + a.fraction();
        let mb = HIDDEN_BIT + b.fraction();
        assert(ea <= eb);
        if ea == eb {
            lemma_halved_monotone(ma, mb, (1067 - ea) as nat);
        } else {
            lemma_halved_more(ma, (1068 - eb) as nat, (1067 - ea) as nat);
            lemma_halved_carry(ma, mb, (1067 - eb) as nat);
        }
    }
}

/// Halving keeps the order.
proof fn lemma_halved_monotone(a: int, b: int, times: nat)
    requires
        0 <= a <= b,
    ensures
        0 <= halved(a, times) <= halved(b, times),
    decreases times,
{
    if times > 0 {
        lemma_halved_monotone(a, b, (times - 1) as nat);
    }
}

/// Halving more often gives no more.
proof fn lemma_halved_more(value: int, fewer: nat, more: nat)
    requires
        0 <= value,
        fewer <= more,
    ensures
        0 <= halved(value, more) <= halved(value, fewer),
    decreases more,
{
    lemma_halved_monotone(value, value, fewer);
    if more > fewer {
        lemma_halved_more(value, fewer, (more - 1) as nat);
    }
}

/// Of two mantissas halved equally often, the smaller gives no more.
proof fn lemma_halved_carry(a: int, b: int, times: nat)
    requires
        HIDDEN_BIT <= a < 2 * HIDDEN_BIT,
        HIDDEN_BIT <= b < 2 * HIDDEN_BIT,
    ensures
        halved(a, (times + 1) as nat) <= halved(b, times),
    decreases times,
{
    if times == 0 {
        assert(halved(a, 1) == halved(a, 0) / 2);
    } else {
        lemma_halved_carry(a, b, (times - 1) as nat);
        assert(halved(a, (times + 1) as nat) == halved(a, times) / 2);
        assert(halved(b, times) == halved(b, (times - 1) as nat) / 2);
    }
}

/// Negation keeps the magnitude, moves a number to the mirrored place on the
/// number line, and is its own inverse.
pub proof fn lemma_neg_mirrors(a: Scalar)
    ensures
        a.neg_spec().magnitude() == a.magnitude(),
        a.neg_spec().is_nan_spec() == a.is_nan_spec(),
        a.neg_spec().rank() == -a.rank(),
        a.neg_spec().neg_spec() == a,
{
}

/// On numbers, `<` is a strict total order up to equality of value.
pub proof fn lemma_order_is_total(a: Scalar, b: Scalar, c: Scalar)
    ensures
        !a.lt_spec(a),
        a.lt_spec(b) && b.lt_spec(c) ==> a.lt_spec(c),
        a.le_spec(b) <==> a.lt_spec(b) || a.same_value_spec(b),
        !a.is_nan_spec() && !b.is_nan_spec() ==> a.lt_spec(b) || a.same_value_spec(b) || b.lt_spec(a),
        a.is_nan_spec() || b.is_nan_spec() ==> !a.lt_spec(b) && !a.le_spec(b) && !a.same_value_spec(b),
{
}

/// The minimum and the maximum are each one of the two arguments and, on
/// numbers, bound both of them.
pub proof fn lemma_min_max_bound(a: Scalar, b: Scalar)
    ensures
        a.min_spec(b) == a || a.min_spec(b) == b,
        a.max_spec(b) == a || a.max_spec(b) == b,
        !a.is_nan_spec() && !b.is_nan_spec() ==> a.min_spec(b).le_spec(a) && a.min_spec(b).le_spec(b),
        !a.is_nan_spec() && !b.is_nan_spec() ==> a.le_spec(a.max_spec(b)) && b.le_spec(a.max_spec(b)),
        a.min_spec(b).is_nan_spec() <==> a.is_nan_spec() && b.is_nan_spec(),
        a.max_spec(b).is_nan_spec() <==> a.is_nan_spec() && b.is_nan_spec(),
{
}

} // verus!
