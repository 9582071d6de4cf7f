//! What comparing, clamping and halving do to a number, told by its bits.

use vstd::prelude::*;

use crate::bits::{Num, Vec3, INFINITE, ONE, SIGN};

verus! {

/// No smaller than zero, and a number: plus zero, and what is above it.
pub open spec fn upward(x: Num) -> bool {
    x.bits <= INFINITE
}

/// No greater than zero, and a number: minus zero, and what is below it.
pub open spec fn downward(x: Num) -> bool {
    SIGN <= x.bits <= SIGN + INFINITE
}

/// Every encoding is that of a number upward or downward of zero, or of no number.
pub proof fn encodings_stand_for(x: Num)
    ensures
        x.nan() == !(upward(x) || downward(x)),
        x.zero() == (x.bits == 0 || x.bits == SIGN),
        x.finite() == (x.bits < INFINITE || SIGN <= x.bits < SIGN + INFINITE),
{
}

/// Numbers upward of zero are ordered as their bits are, those downward the other
/// way round, and one downward is below one upward unless both are zero.
pub proof fn bits_order_numbers(a: Num, b: Num)
    ensures
        upward(a) && upward(b) ==> a.below(b) == (a.bits < b.bits),
        downward(a) && downward(b) ==> a.below(b) == (a.bits > b.bits),
        downward(a) && upward(b) ==> a.below(b) == !(a.bits == SIGN && b.bits == 0),
        upward(a) && downward(b) ==> !a.below(b),
        !(upward(a) || downward(a)) ==> !a.below(b) && !b.below(a) && !a.equal(b),
        upward(a) && upward(b) || downward(a) && downward(b) ==> a.equal(b) == (a.bits == b.bits),
        upward(a) && downward(b) ==> a.equal(b) == (a.bits == 0 && b.bits == SIGN),
        a.equal(b) == b.equal(a),
{
}

/// From a number to what it is held to between nothing and one.
pub open spec fn to_unit(from: Num, to: Num) -> bool {
    &&& from.bits <= ONE ==> to == from
    &&& ONE < from.bits && from.bits <= INFINITE ==> to.bits == ONE
    &&& SIGN < from.bits && from.bits <= SIGN + INFINITE ==> to.bits == 0
}

/// From a number to what it is raised to where it is not above `low`; what is no
/// number becomes `low`.
pub open spec fn to_least(low: u32, from: Num, to: Num) -> bool {
    &&& low < from.bits && from.bits <= INFINITE ==> to == from
    &&& !(low < from.bits && from.bits <= INFINITE) ==> to.bits == low
}

/// Holding a number between nothing and one.
pub proof fn holding_to_unit(x: Num)
    ensures
        to_unit(x, x.held(Num::new(0), Num::new(ONE))),
{
}

/// Raising a number to a least one.
pub proof fn raising_to_least(low: u32, x: Num)
    requires
        low <= INFINITE,
    ensures
        to_least(low, x, x.raised(Num::new(low))),
{
}

/// From a vector to what each component is raised to: nothing, where it is not
/// above it.
pub open spec fn to_nonnegative(from: Vec3, to: Vec3) -> bool {
    to_least(0, from.x, to.x) && to_least(0, from.y, to.y) && to_least(0, from.z, to.z)
}

/// A component between nothing and one.
pub open spec fn to_fraction(from: Num, to: Num) -> bool {
    &&& from.bits <= ONE ==> to == from
    &&& ONE < from.bits && from.bits <= INFINITE ==> to.bits == ONE
    &&& from.bits > INFINITE ==> to.bits == 0
}

/// From a vector to what each component is held to between nothing and one.
pub open spec fn to_fractions(from: Vec3, to: Vec3) -> bool {
    to_fraction(from.x, to.x) && to_fraction(from.y, to.y) && to_fraction(from.z, to.z)
}

/// Raising and holding a vector.
pub proof fn vectors_are_held_by_component(v: Vec3)
    ensures
        to_nonnegative(v, v.floored()),
        to_fractions(v, v.bounded()),
        v.zero() == (v.x.zero() && v.y.zero() && v.z.zero()),
        v.positive_somewhere() == (0 < v.x.bits <= INFINITE || 0 < v.y.bits <= INFINITE || 0
            < v.z.bits <= INFINITE),
        v.never_positive() ==> !v.positive_somewhere(),
        !v.positive_somewhere() && !v.x.nan() && !v.y.nan() && !v.z.nan() ==> v.never_positive(),
        v.x.nan() || v.y.nan() || v.z.nan() ==> !v.never_positive(),
{
}

/// The other sign: it differs in the highest bit alone, and twice is the number
/// again.
pub proof fn signs_flip(x: Num, v: Vec3)
    ensures
        x.flipped().bits == x.bits + SIGN || x.flipped().bits + SIGN == x.bits,
        x.flipped().flipped() == x,
        v.opposite().x == v.x.flipped(),
        v.opposite().y == v.y.flipped(),
        v.opposite().z == v.z.flipped(),
{
}

/// Half of a number is half of it: one less in the exponent where that can be told,
/// and below that half of the count of smallest units, or the even neighbour.
/// The sign stays, and what is not finite stays as it is.
pub proof fn halving_halves(x: Num)
    ensures
        (x.halved().bits >= SIGN) == (x.bits >= SIGN),
        !x.finite() ==> x.halved() == x,
        x.finite() && x.bits % SIGN >= 0x100_0000 ==> x.halved().bits + 0x80_0000 == x.bits,
        x.bits % SIGN < 0x100_0000 && x.bits % 2 == 0 ==> 2 * (x.halved().bits % SIGN) == x.bits
            % SIGN,
        x.bits % SIGN < 0x100_0000 && x.bits % 2 == 1 ==> x.halved().bits % 2 == 0 && -1 <= 2 * (
        x.halved().bits % SIGN) - x.bits % SIGN <= 1,
{
}

/// A radius settles to itself where it is one: above zero, and finite.
pub proof fn settling_keeps_radii(x: Num)
    ensures
        0 < x.bits < INFINITE ==> x.settled() == x,
        !(0 < x.bits < INFINITE) ==> x.settled().bits == 0,
{
}

} // verus!
