//! The arithmetic of lowering, as questions.
//!
//! Scene values are numbers by their bits, and here nothing is computed from
//! them. Where lowering needs a color converted, a point moved or two
//! placements composed, it asks: a [`Formula`] says what of, and the caller's
//! arithmetic answers. The same question must always get the same answer, so
//! that what is lowered is a function of the scene.

use vstd::prelude::*;

use crate::bits::{Num, Vec3, Vec4};
use crate::description::Transform;

verus! {

/// The top three rows of an affine map.
#[derive(Clone, Copy, Debug, PartialEq, Eq, Structural)]
pub struct Rows {
    /// The first row.
    pub x: Vec4,
    /// The second row.
    pub y: Vec4,
    /// The third row.
    pub z: Vec4,
}

/// Four numbers by their bits.
pub open spec fn row(x: u32, y: u32, z: u32, w: u32) -> Vec4 {
    Vec4 { x: Num { bits: x }, y: Num { bits: y }, z: Num { bits: z }, w: Num { bits: w } }
}

impl Rows {
    /// The map that changes nothing.
    #[verifier::allow_in_spec]
    pub fn identity() -> (r: Rows)
        returns
            (Rows {
                x: row(0x3f80_0000, 0, 0, 0),
                y: row(0, 0x3f80_0000, 0, 0),
                z: row(0, 0, 0x3f80_0000, 0),
            }),
    {
        let zero = Num { bits: 0 };
        let one = Num { bits: 0x3f80_0000 };
        Rows {
            x: Vec4 { x: one, y: zero, z: zero, w: zero },
            y: Vec4 { x: zero, y: one, z: zero, w: zero },
            z: Vec4 { x: zero, y: zero, z: one, w: zero },
        }
    }

    /// All zeros, where no map is meant.
    #[verifier::allow_in_spec]
    pub fn nothing() -> (r: Rows)
        returns
            (Rows { x: row(0, 0, 0, 0), y: row(0, 0, 0, 0), z: row(0, 0, 0, 0) }),
    {
        let zero = Num { bits: 0 };
        let none = Vec4 { x: zero, y: zero, z: zero, w: zero };
        Rows { x: none, y: none, z: none }
    }
}

/// Something to be computed.
#[derive(Clone, Copy, Debug, PartialEq, Eq, Structural)]
pub enum Formula {
    /// A linear Rec.709 color in the working space.
    WorkingSpace(Vec3),
    /// What a surface emits through its coat: the color times the luminance,
    /// times white mixed with the coat's color by its weight.
    Emission {
        /// The emitted color, in the working space.
        color: Vec3,
        /// Its factor.
        luminance: Num,
        /// The coat's color.
        coat_color: Vec3,
        /// The coat's weight.
        coat_weight: Num,
    },
    /// The extinction that leaves a color at a depth: minus the logarithm of
    /// each channel, held between a ten-thousandth and one, over the depth;
    /// nothing for a channel that is no number.
    Extinction {
        /// The color that is left.
        color: Vec3,
        /// The depth it is left at.
        depth: Num,
    },
    /// Each component over a number.
    Quotient {
        /// What is divided.
        value: Vec3,
        /// What it is divided by.
        by: Num,
    },
    /// An extinction raised in all channels alike until none is below the
    /// scattering.
    Repaired {
        /// The extinction.
        extinction: Vec3,
        /// The scattering.
        scattering: Vec3,
    },
    /// The sum of two.
    Sum(Vec3, Vec3),
    /// Each component of the first over that of the second.
    Ratio(Vec3, Vec3),
    /// Each component of the first times that of the second.
    Product(Vec3, Vec3),
    /// Three counts, as numbers.
    Counts(u32, u32, u32),
    /// The extinction that a mean free path means: one over the radius times
    /// each scale, but over no less than a millionth.
    Reciprocal {
        /// The radius.
        radius: Num,
        /// The scale of each channel.
        scale: Vec3,
    },
    /// The scattering whose walk arrives at a color: the single-scatter albedo
    /// of each channel times the extinction.
    Scattered {
        /// The color arrived at.
        color: Vec3,
        /// The anisotropy of the scattering.
        anisotropy: Num,
        /// The extinction.
        extinction: Vec3,
    },
    /// A direction at unit length.
    Unit(Vec3),
    /// The point halfway between two, moved onto the unit sphere.
    Midway(Vec3, Vec3),
    /// A point under a map.
    Moved(Rows, Vec3),
    /// The color of the light in a row and a column of sixteen: where the mean
    /// of the two is this far along, one less six tenths of the way, six tenths
    /// and a twentieth of it, and three tenths and seven tenths of it.
    PanelColor(u32, u32),
    /// Where that light hangs: nine meters along the columns and the rows,
    /// around the middle, and six up.
    PanelPlace(u32, u32),
    /// How much that light emits: six, and four times as far as its row and
    /// its column lie apart.
    PanelLuminance(u32, u32),
    /// How far two points lie apart.
    Distance(Vec3, Vec3),
    /// Whether a working-space color has any luminance.
    Luminous(Vec3),
    /// Whether a map mirrors.
    Mirrors(Rows),
    /// Whether two maps are one but for rounding.
    Alike(Rows, Rows),
    /// The map that a placement spells.
    Placed(Transform),
    /// The first map after the second.
    Composed(Rows, Rows),
    /// A map without its translation.
    Linear(Rows),
    /// The map that undoes a map.
    Inverse(Rows),
}

/// What was computed.
#[derive(Clone, Copy, Debug, PartialEq, Eq, Structural)]
pub enum Answer {
    /// Three numbers.
    Vector(Vec3),
    /// One number.
    Number(Num),
    /// Yes or no.
    Truth(bool),
    /// A map.
    Affine(Rows),
}

/// The answer is of the kind that the formula asks for.
pub open spec fn answers(formula: Formula, answer: Answer) -> bool {
    match formula {
        Formula::Distance(..) => answer is Number,
        Formula::PanelLuminance(..) => answer is Number,
        Formula::Luminous(..) => answer is Truth,
        Formula::Mirrors(..) => answer is Truth,
        Formula::Alike(..) => answer is Truth,
        Formula::Placed(..) => answer is Affine,
        Formula::Composed(..) => answer is Affine,
        Formula::Linear(..) => answer is Affine,
        Formula::Inverse(..) => answer is Affine,
        _ => answer is Vector,
    }
}

/// Arithmetic that answers every formula, with what it asks for, and the same
/// formula always the same.
pub open spec fn steady<M: Fn(Formula) -> Answer>(maths: M) -> bool {
    &&& forall|formula: Formula| call_requires(maths, (formula,))
    &&& forall|formula: Formula, answer: Answer|
        call_ensures(maths, (formula,), answer) ==> answers(formula, answer)
    &&& forall|formula: Formula, first: Answer, second: Answer|
        call_ensures(maths, (formula,), first) && call_ensures(maths, (formula,), second) ==> first
            == second
}

/// What the arithmetic answers.
pub open spec fn answer<M: Fn(Formula) -> Answer>(maths: M, formula: Formula) -> Answer {
    choose|answer: Answer| call_ensures(maths, (formula,), answer)
}

/// What the arithmetic answers, as three numbers.
pub open spec fn vector<M: Fn(Formula) -> Answer>(maths: M, formula: Formula) -> Vec3 {
    answer(maths, formula)->Vector_0
}

/// What the arithmetic answers, as a number.
pub open spec fn number<M: Fn(Formula) -> Answer>(maths: M, formula: Formula) -> Num {
    answer(maths, formula)->Number_0
}

/// What the arithmetic answers, as yes or no.
pub open spec fn truth<M: Fn(Formula) -> Answer>(maths: M, formula: Formula) -> bool {
    answer(maths, formula)->Truth_0
}

/// What the arithmetic answers, as a map.
pub open spec fn affine<M: Fn(Formula) -> Answer>(maths: M, formula: Formula) -> Rows {
    answer(maths, formula)->Affine_0
}

/// What came back is the answer.
proof fn asked<M: Fn(Formula) -> Answer>(maths: M, formula: Formula, found: Answer)
    requires
        steady(maths),
        call_ensures(maths, (formula,), found),
    ensures
        found == answer(maths, formula),
        answers(formula, found),
{
    assert(call_ensures(maths, (formula,), answer(maths, formula)));
}

/// Ask for three numbers.
pub fn ask_vector<M: Fn(Formula) -> Answer>(maths: &M, formula: Formula) -> (r: Vec3)
    requires
        steady(*maths),
        answers(formula, Answer::Vector(Vec3::new(0, 0, 0))),
    ensures
        r == vector(*maths, formula),
{
    let found = maths(formula);
    proof {
        asked(*maths, formula, found);
    }
    match found {
        Answer::Vector(value) => value,
        _ => Vec3::new(0, 0, 0),
    }
}

/// Ask for a number.
pub fn ask_number<M: Fn(Formula) -> Answer>(maths: &M, formula: Formula) -> (r: Num)
    requires
        steady(*maths),
        answers(formula, Answer::Number(Num::new(0))),
    ensures
        r == number(*maths, formula),
{
    let found = maths(formula);
    proof {
        asked(*maths, formula, found);
    }
    match found {
        Answer::Number(value) => value,
        _ => Num::new(0),
    }
}

/// Ask for yes or no.
pub fn ask_truth<M: Fn(Formula) -> Answer>(maths: &M, formula: Formula) -> (r: bool)
    requires
        steady(*maths),
        answers(formula, Answer::Truth(true)),
    ensures
        r == truth(*maths, formula),
{
    let found = maths(formula);
    proof {
        asked(*maths, formula, found);
    }
    match found {
        Answer::Truth(value) => value,
        _ => false,
    }
}

/// Ask for a map.
pub fn ask_affine<M: Fn(Formula) -> Answer>(maths: &M, formula: Formula) -> (r: Rows)
    requires
        steady(*maths),
        answers(formula, Answer::Affine(Rows::nothing())),
    ensures
        r == affine(*maths, formula),
{
    let found = maths(formula);
    proof {
        asked(*maths, formula, found);
    }
    match found {
        Answer::Affine(value) => value,
        _ => Rows::nothing(),
    }
}

} // verus!
