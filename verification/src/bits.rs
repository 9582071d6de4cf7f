//! Single-precision numbers by their bit patterns.
//!
//! The scene model carries numbers it never does arithmetic on: it copies
//! them, compares them, and asks a few questions of them. Every one of those
//! is a question about the 32 bits of the IEEE 754 encoding, so that is what
//! the model holds. The arithmetic is the renderer's.

use vstd::prelude::*;

verus! {

/// The encoding's sign bit.
pub const SIGN: u32 = 0x8000_0000;

/// Magnitudes from here up are infinite or not numbers.
pub const INFINITE: u32 = 0x7f80_0000;

/// The encoding of 1.
pub const ONE: u32 = 0x3f80_0000;

/// The encoding of 180.
pub const HALF_TURN: u32 = 0x4334_0000;

/// The encoding of 0.99.
pub const MAX_ANISOTROPY: u32 = 0x3f7d_70a4;

/// A single-precision number, as its bits.
#[derive(Clone, Copy, Debug, PartialEq, Eq, PartialOrd, Ord, Hash, Structural)]
pub struct Num {
    /// The IEEE 754 encoding.
    pub bits: u32,
}

impl Num {
    /// The bits below the sign.
    pub open spec fn magnitude(self) -> int {
        (self.bits % SIGN) as int
    }

    /// The encoding stands for no number.
    pub open spec fn nan(self) -> bool {
        self.magnitude() > INFINITE
    }

    /// The encoding stands for a number that is not infinite.
    pub open spec fn finite(self) -> bool {
        self.magnitude() < INFINITE
    }

    /// Either zero.
    pub open spec fn zero(self) -> bool {
        self.magnitude() == 0
    }

    /// Where a number stands among the others: magnitudes are ordered as
    /// integers, and the sign bit negates. Both zeros stand at 0.
    pub open spec fn rank(self) -> int {
        if self.bits >= SIGN {
            -self.magnitude()
        } else {
            self.magnitude()
        }
    }

    /// The comparison `<`, which nothing that is no number satisfies.
    pub open spec fn below(self, other: Num) -> bool {
        !self.nan() && !other.nan() && self.rank() < other.rank()
    }

    /// The comparison `==`: the two zeros are equal, and what is no number
    /// equals nothing, itself included.
    pub open spec fn equal(self, other: Num) -> bool {
        !self.nan() && !other.nan() && self.rank() == other.rank()
    }

    /// The number with these bits.
    #[verifier::allow_in_spec]
    pub fn new(bits: u32) -> (r: Num)
        returns
            (Num { bits }),
    {
        Num { bits }
    }

    /// Whether this is no number.
    pub fn is_nan(&self) -> (r: bool)
        ensures
            r == self.nan(),
    {
        self.bits % SIGN > INFINITE
    }

    /// Whether this is a number and not infinite.
    pub fn is_finite(&self) -> (r: bool)
        ensures
            r == self.finite(),
    {
        self.bits % SIGN < INFINITE
    }

    /// Whether this is either zero.
    pub fn is_zero(&self) -> (r: bool)
        ensures
            r == self.zero(),
    {
        self.bits % SIGN == 0
    }

    /// The comparison `<`.
    pub fn is_below(&self, other: &Num) -> (r: bool)
        ensures
            r == self.below(*other),
    {
        let left: u32 = self.bits % SIGN;
        let right: u32 = other.bits % SIGN;
        if left > INFINITE || right > INFINITE {
            false
        } else if self.bits >= SIGN {
            if other.bits >= SIGN {
                left > right
            } else {
                left != 0 || right != 0
            }
        } else if other.bits >= SIGN {
            false
        } else {
            left < right
        }
    }

    /// The comparison `==`.
    pub fn equals(&self, other: &Num) -> (r: bool)
        ensures
            r == self.equal(*other),
    {
        !self.is_nan() && !other.is_nan() && (self.bits == other.bits || (self.is_zero()
            && other.is_zero()))
    }

    /// Whether this is greater than zero.
    pub fn is_positive(&self) -> (r: bool)
        ensures
            r == Num::new(0).below(*self),
    {
        Num::new(0).is_below(self)
    }

    /// Whether this is less than zero.
    pub fn is_negative(&self) -> (r: bool)
        ensures
            r == self.below(Num::new(0)),
    {
        self.is_below(&Num::new(0))
    }

    /// The number with the other sign.
    pub open spec fn flipped(self) -> Num {
        if self.bits >= SIGN {
            Num { bits: (self.bits - SIGN) as u32 }
        } else {
            Num { bits: (self.bits + SIGN) as u32 }
        }
    }

    /// The number with the other sign.
    pub fn flip(&self) -> (r: Num)
        ensures
            r == self.flipped(),
    {
        if self.bits >= SIGN {
            Num::new(self.bits - SIGN)
        } else {
            Num::new(self.bits + SIGN)
        }
    }

    /// The number held between `low` and `high`; what is no number stays so.
    pub open spec fn held(self, low: Num, high: Num) -> Num {
        if self.below(low) {
            low
        } else if high.below(self) {
            high
        } else {
            self
        }
    }

    /// The number held between `low` and `high`.
    pub fn clamp_to(&self, low: Num, high: Num) -> (r: Num)
        ensures
            r == self.held(low, high),
    {
        if self.is_below(&low) {
            low
        } else if high.is_below(self) {
            high
        } else {
            *self
        }
    }

    /// The number raised to `low` where it is not already above it; what is
    /// no number becomes `low`.
    pub open spec fn raised(self, low: Num) -> Num {
        if low.below(self) {
            self
        } else {
            low
        }
    }

    /// The number raised to `low` where it is not already above it.
    pub fn at_least(&self, low: Num) -> (r: Num)
        ensures
            r == self.raised(low),
    {
        if low.is_below(self) {
            *self
        } else {
            low
        }
    }
}

/// A number never stands below itself, and of three numbers in a row the
/// first stands below the last.
pub proof fn below_is_a_strict_order(a: Num, b: Num, c: Num)
    ensures
        !a.below(a),
        a.below(b) && b.below(c) ==> a.below(c),
{
}

/// Of two numbers exactly one of `<`, `==` and `>` holds; with anything that
/// is no number, none does.
pub proof fn comparison_is_trichotomous(a: Num, b: Num)
    ensures
        !a.nan() && !b.nan() ==> (a.below(b) || a.equal(b) || b.below(a)),
        a.below(b) ==> !a.equal(b) && !b.below(a),
        a.equal(b) ==> !b.below(a),
        a.nan() || b.nan() ==> !a.below(b) && !a.equal(b) && !b.below(a),
{
}

/// Clamping lands between the bounds, and leaves what is already there.
pub proof fn clamping_lands_between(x: Num, low: Num, high: Num)
    requires
        !low.nan(),
        !high.nan(),
        !high.below(low),
    ensures
        !x.nan() ==> !x.held(low, high).below(low) && !high.below(x.held(low, high)),
        x.nan() ==> x.held(low, high) == x,
        x.held(low, high).held(low, high) == x.held(low, high),
{
}

impl Num {
    /// Half of a number. Where the exponent can go down by one it does;
    /// below that, magnitudes are whole counts of the smallest number, and
    /// half a count goes to the even one. What is not finite stays what it is.
    pub open spec fn halved(self) -> Num {
        let magnitude = self.magnitude();
        let half: int = if !self.finite() {
            magnitude
        } else if magnitude >= 0x100_0000 {
            magnitude - 0x80_0000
        } else if magnitude % 4 == 3 {
            magnitude / 2 + 1
        } else {
            magnitude / 2
        };
        Num { bits: (self.bits - magnitude + half) as u32 }
    }

    /// Half of a number.
    pub fn half(&self) -> (r: Num)
        ensures
            r == self.halved(),
    {
        let magnitude: u32 = self.bits % SIGN;
        let half: u32 = if magnitude >= INFINITE {
            magnitude
        } else if magnitude >= 0x100_0000 {
            magnitude - 0x80_0000
        } else if magnitude % 4 == 3 {
            magnitude / 2 + 1
        } else {
            magnitude / 2
        };
        Num { bits: self.bits - magnitude + half }
    }

    /// A number that is positive and finite, or else zero.
    pub open spec fn settled(self) -> Num {
        if self.finite() && self.rank() > 0 {
            self
        } else {
            Num { bits: 0 }
        }
    }

    /// The number where it is positive and finite, or else zero.
    pub fn settle(&self) -> (r: Num)
        ensures
            r == self.settled(),
    {
        if self.is_finite() && self.is_positive() {
            *self
        } else {
            Num { bits: 0 }
        }
    }
}

/// Two numbers, such as a texture coordinate.
#[derive(Clone, Copy, Debug, PartialEq, Eq, PartialOrd, Ord, Hash, Structural)]
pub struct Vec2 {
    /// The first.
    pub x: Num,
    /// The second.
    pub y: Num,
}

/// Three numbers: a point, a direction or a color.
#[derive(Clone, Copy, Debug, PartialEq, Eq, PartialOrd, Ord, Hash, Structural)]
pub struct Vec3 {
    /// The first.
    pub x: Num,
    /// The second.
    pub y: Num,
    /// The third.
    pub z: Num,
}

/// Four numbers: a row of an affine matrix.
#[derive(Clone, Copy, Debug, PartialEq, Eq, PartialOrd, Ord, Hash, Structural)]
pub struct Vec4 {
    /// The first.
    pub x: Num,
    /// The second.
    pub y: Num,
    /// The third.
    pub z: Num,
    /// The fourth.
    pub w: Num,
}

impl Vec2 {
    /// Both components are equal.
    pub open spec fn equal(self, other: Vec2) -> bool {
        self.x.equal(other.x) && self.y.equal(other.y)
    }

    /// One number in every component.
    #[verifier::allow_in_spec]
    pub fn splat(bits: u32) -> (r: Vec2)
        returns
            (Vec2 { x: Num { bits }, y: Num { bits } }),
    {
        Vec2 { x: Num::new(bits), y: Num::new(bits) }
    }

    /// Whether both components are equal.
    pub fn equals(&self, other: &Vec2) -> (r: bool)
        ensures
            r == self.equal(*other),
    {
        self.x.equals(&other.x) && self.y.equals(&other.y)
    }
}

impl Vec3 {
    /// All components are equal.
    pub open spec fn equal(self, other: Vec3) -> bool {
        self.x.equal(other.x) && self.y.equal(other.y) && self.z.equal(other.z)
    }

    /// All components are zero.
    pub open spec fn zero(self) -> bool {
        self.x.zero() && self.y.zero() && self.z.zero()
    }

    /// The vector with these components.
    #[verifier::allow_in_spec]
    pub fn new(x: u32, y: u32, z: u32) -> (r: Vec3)
        returns
            (Vec3 { x: Num { bits: x }, y: Num { bits: y }, z: Num { bits: z } }),
    {
        Vec3 { x: Num::new(x), y: Num::new(y), z: Num::new(z) }
    }

    /// One number in every component.
    #[verifier::allow_in_spec]
    pub fn splat(bits: u32) -> (r: Vec3)
        returns
            (Vec3 { x: Num { bits }, y: Num { bits }, z: Num { bits } }),
    {
        Vec3::new(bits, bits, bits)
    }

    /// Every component raised to zero where it is not above it.
    pub open spec fn floored(self) -> Vec3 {
        Vec3 {
            x: self.x.raised(Num::new(0)),
            y: self.y.raised(Num::new(0)),
            z: self.z.raised(Num::new(0)),
        }
    }

    /// Every component raised to zero where it is not above it.
    pub fn floor(&self) -> (r: Vec3)
        ensures
            r == self.floored(),
    {
        Vec3 {
            x: self.x.at_least(Num::new(0)),
            y: self.y.at_least(Num::new(0)),
            z: self.z.at_least(Num::new(0)),
        }
    }

    /// Every component raised to zero, and held at one.
    pub open spec fn bounded(self) -> Vec3 {
        Vec3 {
            x: self.x.raised(Num::new(0)).held(Num::new(0), Num::new(ONE)),
            y: self.y.raised(Num::new(0)).held(Num::new(0), Num::new(ONE)),
            z: self.z.raised(Num::new(0)).held(Num::new(0), Num::new(ONE)),
        }
    }

    /// Every component raised to zero, and held at one.
    pub fn bound(&self) -> (r: Vec3)
        ensures
            r == self.bounded(),
    {
        Vec3 {
            x: self.x.at_least(Num::new(0)).clamp_to(Num::new(0), Num::new(ONE)),
            y: self.y.at_least(Num::new(0)).clamp_to(Num::new(0), Num::new(ONE)),
            z: self.z.at_least(Num::new(0)).clamp_to(Num::new(0), Num::new(ONE)),
        }
    }

    /// Some component is greater than zero.
    pub open spec fn positive_somewhere(self) -> bool {
        Num::new(0).below(self.x) || Num::new(0).below(self.y) || Num::new(0).below(self.z)
    }

    /// Whether some component is greater than zero.
    pub fn is_positive_somewhere(&self) -> (r: bool)
        ensures
            r == self.positive_somewhere(),
    {
        self.x.is_positive() || self.y.is_positive() || self.z.is_positive()
    }

    /// Every component is zero or less.
    pub open spec fn never_positive(self) -> bool {
        let none = Num::new(0);
        (self.x.below(none) || self.x.equal(none)) && (self.y.below(none) || self.y.equal(none)) && (
        self.z.below(none) || self.z.equal(none))
    }

    /// Whether every component is zero or less.
    pub fn is_never_positive(&self) -> (r: bool)
        ensures
            r == self.never_positive(),
    {
        let none = Num::new(0);
        (self.x.is_below(&none) || self.x.equals(&none)) && (self.y.is_below(&none)
            || self.y.equals(&none)) && (self.z.is_below(&none) || self.z.equals(&none))
    }

    /// Every component with the other sign.
    pub open spec fn opposite(self) -> Vec3 {
        Vec3 { x: self.x.flipped(), y: self.y.flipped(), z: self.z.flipped() }
    }

    /// Every component with the other sign.
    pub fn negate(&self) -> (r: Vec3)
        ensures
            r == self.opposite(),
    {
        Vec3 { x: self.x.flip(), y: self.y.flip(), z: self.z.flip() }
    }

    /// Whether all components are equal.
    pub fn equals(&self, other: &Vec3) -> (r: bool)
        ensures
            r == self.equal(*other),
    {
        self.x.equals(&other.x) && self.y.equals(&other.y) && self.z.equals(&other.z)
    }

    /// Whether all components are zero.
    pub fn is_zero(&self) -> (r: bool)
        ensures
            r == self.zero(),
    {
        self.x.is_zero() && self.y.is_zero() && self.z.is_zero()
    }
}

impl Vec4 {
    /// All components are equal.
    pub open spec fn equal(self, other: Vec4) -> bool {
        self.x.equal(other.x) && self.y.equal(other.y) && self.z.equal(other.z) && self.w.equal(
            other.w,
        )
    }

    /// Whether all components are equal.
    pub fn equals(&self, other: &Vec4) -> (r: bool)
        ensures
            r == self.equal(*other),
    {
        self.x.equals(&other.x) && self.y.equals(&other.y) && self.z.equals(&other.z)
            && self.w.equals(&other.w)
    }
}

} // verus!
