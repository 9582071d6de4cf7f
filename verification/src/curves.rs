//! Curve geometry: basis curves in, tube triangles out.
//!
//! Whatever a batch of curves was authored as, it becomes [`Strands`]:
//! polylines with a radius at every point. Linear curves pass through as they
//! are; a cubic curve is a chain of four-point spans, each cut in two until
//! its pieces lie inside the strand. A tube of three sides is then swept along
//! every strand.
//!
//! Where a basis puts a point, whether a chord strays too far and how a ring
//! is turned are handed in by the caller; which points and widths each of them
//! is asked about, where the cuts go, and how the results are joined is
//! settled here.

use vstd::prelude::*;
use vstd::string::*;

use crate::bits::{Num, Vec2, Vec3};
use crate::description::{
    CurveBasis, CurveType, CurveWrap, Curves, CurvesSource, WidthInterpolation, Widths,
};
use crate::error::{Problem, SceneError};
use crate::mesh;
use crate::mesh::Mesh;
use crate::text;
use crate::validate;

verus! {

/// Why a curve cannot be walked.
#[derive(Clone, Copy, Debug, PartialEq, Eq, Structural)]
pub enum SegmentProblem {
    /// It closes on itself.
    Periodic,
    /// Its vertex count is one that no segment rule accepts.
    Vertices {
        /// The segments it would have.
        curve_type: CurveType,
        /// Their basis.
        basis: CurveBasis,
        /// How it meets its ends.
        wrap: CurveWrap,
        /// How many vertices it has.
        count: usize,
    },
}

impl CurveType {
    /// The word for the segments.
    pub open spec fn text(self) -> Seq<char> {
        match self {
            CurveType::Linear => "linear"@,
            CurveType::Cubic => "cubic"@,
        }
    }

    /// The word for the segments.
    pub fn word(&self) -> (r: &'static str)
        ensures
            r@ == self.text(),
    {
        match self {
            CurveType::Linear => "linear",
            CurveType::Cubic => "cubic",
        }
    }
}

impl CurveBasis {
    /// The word for the basis.
    pub open spec fn text(self) -> Seq<char> {
        match self {
            CurveBasis::Bezier => "bezier"@,
            CurveBasis::BSpline => "bspline"@,
            CurveBasis::CatmullRom => "catmullRom"@,
        }
    }

    /// The word for the basis.
    pub fn word(&self) -> (r: &'static str)
        ensures
            r@ == self.text(),
    {
        match self {
            CurveBasis::Bezier => "bezier",
            CurveBasis::BSpline => "bspline",
            CurveBasis::CatmullRom => "catmullRom",
        }
    }

    /// How far the four-vertex window slides between spans.
    pub open spec fn stride(self) -> int {
        match self {
            CurveBasis::Bezier => 3,
            _ => 1,
        }
    }

    /// How far the four-vertex window slides between spans.
    pub fn vstep(self) -> (r: usize)
        ensures
            r == self.stride(),
    {
        match self {
            CurveBasis::Bezier => 3,
            CurveBasis::BSpline | CurveBasis::CatmullRom => 1,
        }
    }
}

impl CurveWrap {
    /// The word for the wrap.
    pub open spec fn text(self) -> Seq<char> {
        match self {
            CurveWrap::Nonperiodic => "nonperiodic"@,
            CurveWrap::Periodic => "periodic"@,
            CurveWrap::Pinned => "pinned"@,
        }
    }

    /// The word for the wrap.
    pub fn word(&self) -> (r: &'static str)
        ensures
            r@ == self.text(),
    {
        match self {
            CurveWrap::Nonperiodic => "nonperiodic",
            CurveWrap::Periodic => "periodic",
            CurveWrap::Pinned => "pinned",
        }
    }
}

impl SegmentProblem {
    /// The words for the problem.
    pub open spec fn text(self) -> Seq<char> {
        match self {
            SegmentProblem::Periodic =>
                "a closed loop has no root to sweep a strand from, so periodic curves are not supported"@,
            SegmentProblem::Vertices { curve_type, basis, wrap, count } => "a "@ + curve_type.text()
                + " "@ + basis.text() + " "@ + wrap.text() + " curve cannot have "@ + text::decimal(
                count as nat,
            ) + " vertices"@,
        }
    }

    /// The words for the problem.
    pub fn message(&self) -> (r: String)
        ensures
            r@ == self.text(),
    {
        match self {
            SegmentProblem::Periodic =>
                "a closed loop has no root to sweep a strand from, so periodic curves are not supported".to_owned(),
            SegmentProblem::Vertices { curve_type, basis, wrap, count } => {
                let mut text = "a ".to_owned();
                text.append(curve_type.word());
                text.append(" ");
                text.append(basis.word());
                text.append(" ");
                text.append(wrap.word());
                text.append(" curve cannot have ");
                text.append(text::spell(*count as u128).as_str());
                text.append(" vertices");
                text
            },
        }
    }
}

/// Whether a wrap actually pins: only the approximating bases have ends to
/// carry out, and a pinned bezier is a nonperiodic bezier.
pub open spec fn pins(wrap: CurveWrap, basis: CurveBasis) -> bool {
    wrap == CurveWrap::Pinned && basis != CurveBasis::Bezier
}

/// Whether a wrap actually pins.
pub fn pinned(wrap: CurveWrap, basis: CurveBasis) -> (r: bool)
    ensures
        r == pins(wrap, basis),
{
    wrap == CurveWrap::Pinned && basis != CurveBasis::Bezier
}

/// How many segments a curve of `count` vertices has, if it has any.
pub open spec fn segments_of(
    count: int,
    curve_type: CurveType,
    basis: CurveBasis,
    wrap: CurveWrap,
) -> Option<int> {
    if wrap == CurveWrap::Periodic {
        None
    } else if curve_type == CurveType::Linear || pins(wrap, basis) {
        if count >= 2 {
            Some(count - 1)
        } else {
            None
        }
    } else if count >= 4 && (count - 4) % basis.stride() == 0 {
        Some((count - 4) / basis.stride() + 1)
    } else {
        None
    }
}

/// Why a curve of `count` vertices cannot be walked.
pub open spec fn segment_problem(
    count: usize,
    curve_type: CurveType,
    basis: CurveBasis,
    wrap: CurveWrap,
) -> SegmentProblem {
    if wrap == CurveWrap::Periodic {
        SegmentProblem::Periodic
    } else {
        SegmentProblem::Vertices { curve_type, basis, wrap, count }
    }
}

/// A curve's segment count, by the rules of basis curves. What it refuses is
/// the single statement of what curve geometry the renderer accepts.
pub fn segment_count(
    count: usize,
    curve_type: CurveType,
    basis: CurveBasis,
    wrap: CurveWrap,
) -> (r: Result<usize, SegmentProblem>)
    ensures
        r is Ok == segments_of(count as int, curve_type, basis, wrap) is Some,
        r matches Ok(n) ==> segments_of(count as int, curve_type, basis, wrap) == Some(n as int),
        r matches Err(e) ==> e == segment_problem(count, curve_type, basis, wrap),
{
    if wrap == CurveWrap::Periodic {
        return Err(SegmentProblem::Periodic);
    }
    let step: usize = basis.vstep();
    if (curve_type == CurveType::Linear || pinned(wrap, basis)) && count >= 2 {
        Ok(count - 1)
    } else if curve_type == CurveType::Cubic && !pinned(wrap, basis) && count >= 4 && (count - 4)
        % step == 0 {
        Ok((count - 4) / step + 1)
    } else {
        Err(SegmentProblem::Vertices { curve_type, basis, wrap, count })
    }
}

/// Why a batch of curves cannot be walked.
#[derive(Clone, Copy, Debug, PartialEq, Eq, Structural)]
pub enum WalkProblem {
    /// A curve is none that a segment rule accepts.
    Segments(SegmentProblem),
    /// A curve takes more points than there are.
    PastThePoints {
        /// Which curve.
        curve: usize,
    },
}

impl WalkProblem {
    /// The words for the problem.
    pub open spec fn text(self) -> Seq<char> {
        match self {
            WalkProblem::Segments(problem) => problem.text(),
            WalkProblem::PastThePoints { curve } => "curve "@ + text::decimal(curve as nat)
                + " runs past the end of the points array"@,
        }
    }

    /// The words for the problem.
    pub fn message(&self) -> (r: String)
        ensures
            r@ == self.text(),
    {
        match self {
            WalkProblem::Segments(problem) => problem.message(),
            WalkProblem::PastThePoints { curve } => text::joined(
                "curve ",
                text::spell(*curve as u128).as_str(),
                " runs past the end of the points array",
            ),
        }
    }
}

// -- Strands ---------------------------------------------------------------------

/// A point of a strand, and the radius of the tube there.
#[derive(Clone, Copy, Debug, PartialEq, Eq, Structural)]
pub struct Knot {
    /// Where it is.
    pub point: Vec3,
    /// The radius.
    pub radius: Num,
}

impl Knot {
    /// The knot with a radius that is finite and not below zero.
    pub open spec fn settled(self) -> Knot {
        Knot { point: self.point, radius: self.radius.settled() }
    }
}

/// Strands: polylines with a radius at every point.
#[derive(Debug)]
pub struct Strands {
    knots: Vec<Knot>,
    offsets: Vec<usize>,
}

/// What strands are: the finished ones, and the one being built.
pub struct Bundle {
    pub strands: Seq<Seq<Knot>>,
    pub open: Seq<Knot>,
}

/// How many knots strands have together.
pub open spec fn knots_in(strands: Seq<Seq<Knot>>) -> nat
    decreases strands.len(),
{
    if strands.len() == 0 {
        0
    } else {
        knots_in(strands.drop_last()) + strands.last().len()
    }
}

impl View for Strands {
    type V = Bundle;

    closed spec fn view(&self) -> Bundle {
        Bundle {
            strands: Seq::new(
                (self.offsets@.len() - 1) as nat,
                |i: int|
                    self.knots@.subrange(self.offsets@[i] as int, self.offsets@[i + 1] as int),
            ),
            open: self.knots@.skip(self.offsets@.last() as int),
        }
    }
}

/// Where strands begin tells how many knots lie before them.
proof fn offsets_count_knots(strands: Strands, n: int)
    requires
        strands.wf(),
        0 <= n < strands.offsets@.len(),
    ensures
        knots_in(strands@.strands.take(n)) == strands.offsets@[n],
    decreases n,
{
    if n > 0 {
        offsets_count_knots(strands, n - 1);
        assert(strands@.strands.take(n).drop_last() =~= strands@.strands.take(n - 1));
        assert(strands.offsets@[n - 1] <= strands.offsets@[n]);
    }
}

impl Strands {
    #[verifier::type_invariant]
    spec fn wf(self) -> bool {
        &&& self.offsets@.len() > 0
        &&& self.offsets@[0] == 0
        &&& self.offsets@.last() <= self.knots@.len()
        &&& forall|i: int, j: int|
            #![trigger self.offsets@[i], self.offsets@[j]]
            0 <= i < j < self.offsets@.len() ==> self.offsets@[i] + 2 <= self.offsets@[j]
        &&& forall|i: int|
            0 <= i < self.knots@.len() ==> (#[trigger] self.knots@[i]).settled() == self.knots@[i]
    }

    /// No strands yet.
    pub fn new() -> (r: Strands)
        ensures
            r@.strands == Seq::<Seq<Knot>>::empty(),
            r@.open == Seq::<Knot>::empty(),
    {
        let mut offsets: Vec<usize> = Vec::new();
        offsets.push(0);
        let r = Strands { knots: Vec::new(), offsets };
        assert(r@.strands =~= Seq::<Seq<Knot>>::empty());
        assert(r@.open =~= Seq::<Knot>::empty());
        r
    }

    /// Append a point to the strand being built. Every strand's radii are
    /// finite and not below zero: this is where they are made so.
    pub fn push_point(&mut self, point: Vec3, radius: Num)
        ensures
            final(self)@.strands == old(self)@.strands,
            final(self)@.open == old(self)@.open.push((Knot { point, radius }).settled()),
    {
        proof {
            use_type_invariant(&*self);
        }
        let ghost before = *self;
        let knot = Knot { point, radius: radius.settle() };
        let mut offsets: Vec<usize> = vec![0];
        let mut knots: Vec<Knot> = Vec::new();
        std::mem::swap(&mut offsets, &mut self.offsets);
        std::mem::swap(&mut knots, &mut self.knots);
        knots.push(knot);
        self.knots = knots;
        self.offsets = offsets;
        proof {
            assert(self@.open =~= before@.open.push(knot));
            assert forall|i: int| 0 <= i < self@.strands.len() implies self@.strands[i]
                =~= before@.strands[i] by {
                assert(before.offsets@[i + 1] <= before.offsets@.last());
                assert(before.offsets@[i] <= before.offsets@[i + 1]);
            }
            assert(self@.strands =~= before@.strands);
        }
    }

    /// Finish the strand being built. One of fewer than two points has
    /// nothing to sweep, and is dropped.
    pub fn end_strand(&mut self)
        ensures
            final(self)@.open == Seq::<Knot>::empty(),
            final(self)@.strands == if old(self)@.open.len() < 2 {
                old(self)@.strands
            } else {
                old(self)@.strands.push(old(self)@.open)
            },
    {
        proof {
            use_type_invariant(&*self);
        }
        let ghost before = *self;
        let start: usize = self.offsets[self.offsets.len() - 1];
        let end: usize = self.knots.len();
        let mut offsets: Vec<usize> = vec![0];
        let mut knots: Vec<Knot> = Vec::new();
        std::mem::swap(&mut offsets, &mut self.offsets);
        std::mem::swap(&mut knots, &mut self.knots);
        if end - start < 2 {
            knots.truncate(start);
        } else {
            offsets.push(end);
        }
        self.knots = knots;
        self.offsets = offsets;
        proof {
            assert(self@.open =~= Seq::<Knot>::empty());
            assert forall|i: int| 0 <= i < before@.strands.len() implies self@.strands[i]
                =~= before@.strands[i] by {
                assert(before.offsets@[i + 1] <= before.offsets@.last());
                assert(before.offsets@[i] <= before.offsets@[i + 1]);
            }
            if before@.open.len() < 2 {
                assert(self@.strands =~= before@.strands);
            } else {
                assert(self@.strands.last() =~= before@.open);
                assert(self@.strands =~= before@.strands.push(before@.open));
            }
        }
    }

    /// How many strands there are.
    pub fn len(&self) -> (r: usize)
        ensures
            r == self@.strands.len(),
    {
        proof {
            use_type_invariant(&*self);
        }
        self.offsets.len() - 1
    }

    /// How many points there are, in the strands and in the one being built.
    pub fn points(&self) -> (r: usize)
        ensures
            r == knots_in(self@.strands) + self@.open.len(),
    {
        proof {
            use_type_invariant(&*self);
            offsets_count_knots(*self, self.offsets@.len() - 1);
            assert(self@.strands.take(self.offsets@.len() - 1) =~= self@.strands);
        }
        self.knots.len()
    }

    /// A knot, counted over all strands.
    fn knot(&self, index: usize) -> (r: Knot)
        requires
            index < knots_in(self@.strands) + self@.open.len(),
        ensures
            r == self.knots@[index as int],
            r.settled() == r,
    {
        proof {
            use_type_invariant(&*self);
            offsets_count_knots(*self, self.offsets@.len() - 1);
            assert(self@.strands.take(self.offsets@.len() - 1) =~= self@.strands);
        }
        self.knots[index]
    }

    /// One strand's knots: two or more, each with a radius that is finite and
    /// not below zero.
    pub fn strand(&self, index: usize) -> (r: &[Knot])
        requires
            index < self@.strands.len(),
        ensures
            r@ == self@.strands[index as int],
            r@.len() >= 2,
            forall|i: int| 0 <= i < r@.len() ==> (#[trigger] r@[i]).settled() == r@[i],
    {
        proof {
            use_type_invariant(&*self);
            assert(self.offsets@[index as int] + 2 <= self.offsets@[index + 1]);
            assert(self.offsets@[index + 1] <= self.offsets@.last());
        }
        let count: usize = self.offsets.len();
        vstd::slice::slice_subrange(
            self.knots.as_slice(),
            self.offsets[index],
            self.offsets[index + 1],
        )
    }
}

/// All knots, strand after strand.
pub open spec fn joined_knots(strands: Seq<Seq<Knot>>) -> Seq<Knot>
    decreases strands.len(),
{
    if strands.len() == 0 {
        Seq::empty()
    } else {
        joined_knots(strands.drop_last()) + strands.last()
    }
}

/// The knots of the strands before some place lie before it, in order.
proof fn strands_join(strands: Strands, n: int)
    requires
        strands.wf(),
        0 <= n < strands.offsets@.len(),
    ensures
        joined_knots(strands@.strands.take(n)) == strands.knots@.take(strands.offsets@[n] as int),
    decreases n,
{
    let all = strands@.strands;
    assert(strands.offsets@[n] <= strands.offsets@.last());
    if n > 0 {
        strands_join(strands, n - 1);
        assert(all.take(n).drop_last() =~= all.take(n - 1));
        assert(strands.offsets@[n - 1] <= strands.offsets@[n]);
        assert(joined_knots(all.take(n)) =~= strands.knots@.take(strands.offsets@[n] as int));
    } else {
        assert(all.take(0) =~= Seq::<Seq<Knot>>::empty());
        assert(strands.knots@.take(0) =~= Seq::<Knot>::empty());
    }
}

impl Strands {
    /// All knots, strand after strand, and behind them those of the strand
    /// being built.
    pub open spec fn all(self) -> Seq<Knot> {
        joined_knots(self@.strands) + self@.open
    }

    /// Where a point is, counted over all strands.
    pub fn point(&self, index: usize) -> (r: Vec3)
        requires
            index < knots_in(self@.strands) + self@.open.len(),
        ensures
            r == self.all()[index as int].point,
    {
        proof {
            use_type_invariant(&*self);
            self.all_are_the_knots();
        }
        self.knot(index).point
    }

    /// The radius at a point, counted over all strands: finite, and not below
    /// zero.
    pub fn radius(&self, index: usize) -> (r: Num)
        requires
            index < knots_in(self@.strands) + self@.open.len(),
        ensures
            r == self.all()[index as int].radius,
            r.finite() && r.rank() >= 0,
    {
        proof {
            use_type_invariant(&*self);
            self.all_are_the_knots();
        }
        self.knot(index).radius
    }

    proof fn all_are_the_knots(self)
        requires
            self.wf(),
        ensures
            self.all() == self.knots@,
    {
        let n = self.offsets@.len() - 1;
        strands_join(self, n);
        assert(self@.strands.take(n) =~= self@.strands);
        assert(self.all() =~= self.knots@);
    }
}

// -- Widths ----------------------------------------------------------------------

/// The encoding of one half.
pub const HALF: u32 = 0x3f00_0000;

/// One curve's widths, in the shape that its segments read them. The values
/// are diameters, but the one radius of a whole curve.
#[derive(Clone, Debug, PartialEq, Eq)]
pub enum CurveWidths {
    /// One radius all along.
    Everywhere(Num),
    /// A diameter at each segment end.
    Ends(Vec<Num>),
    /// A diameter at each control point, read through the basis.
    Controls(Vec<Num>),
}

/// One curve's widths, as values.
pub enum Stream {
    Everywhere(Num),
    Ends(Seq<Num>),
    Controls(Seq<Num>),
}

impl View for CurveWidths {
    type V = Stream;

    open spec fn view(&self) -> Stream {
        match *self {
            CurveWidths::Everywhere(radius) => Stream::Everywhere(radius),
            CurveWidths::Ends(values) => Stream::Ends(values@),
            CurveWidths::Controls(values) => Stream::Controls(values@),
        }
    }
}

/// Where a walk stands in the arrays of a batch: which curve, how many
/// vertices and segment ends lie before it, and how many of each it has.
#[derive(Clone, Copy, Debug, PartialEq, Eq, Structural)]
pub struct Cursor {
    /// Which curve.
    pub curve: usize,
    /// The vertices before it.
    pub vertex: usize,
    /// The segment ends before it.
    pub varying: usize,
    /// Its vertices.
    pub count: usize,
    /// Its segments.
    pub segments: usize,
}

/// The widths hold what a curve reads of them.
pub open spec fn feeds(widths: Widths, at: Cursor) -> bool {
    match widths.interpolation {
        WidthInterpolation::Constant => widths.values@.len() >= 1,
        WidthInterpolation::Uniform => widths.values@.len() > at.curve,
        WidthInterpolation::Varying => widths.values@.len() >= at.varying + at.segments + 1,
        WidthInterpolation::Vertex => widths.values@.len() >= at.vertex + at.count,
    }
}

/// One curve's widths out of a batch's: where none are given, a diameter of
/// one all along.
pub open spec fn selected(widths: Option<Widths>, at: Cursor, curve_type: CurveType) -> Stream {
    match widths {
        None => Stream::Everywhere(Num::new(HALF)),
        Some(widths) => match widths.interpolation {
            WidthInterpolation::Constant => Stream::Everywhere(widths.values@[0].halved()),
            WidthInterpolation::Uniform => Stream::Everywhere(
                widths.values@[at.curve as int].halved(),
            ),
            WidthInterpolation::Varying => Stream::Ends(
                widths.values@.subrange(at.varying as int, at.varying + at.segments + 1),
            ),
            WidthInterpolation::Vertex => {
                let values = widths.values@.subrange(at.vertex as int, at.vertex + at.count);
                if curve_type == CurveType::Linear {
                    Stream::Ends(values)
                } else {
                    Stream::Controls(values)
                }
            },
        },
    }
}

/// A part of some values.
fn part(values: &Vec<Num>, from: usize, to: usize) -> (r: Vec<Num>)
    requires
        from <= to <= values@.len(),
    ensures
        r@ == values@.subrange(from as int, to as int),
{
    let mut out: Vec<Num> = Vec::new();
    for i in from..to
        invariant
            from <= to <= values@.len(),
            out@ == values@.subrange(from as int, i as int),
    {
        out.push(values[i]);
        assert(out@ =~= values@.subrange(from as int, i + 1));
    }
    out
}

/// Widths with what mirrors off either end, as the points of a pinned curve
/// have it.
pub open spec fn pinned_stream<W: Fn(Num, Num) -> Num>(
    mirror: W,
    stream: Stream,
    unpacked: Stream,
) -> bool {
    match stream {
        Stream::Controls(values) => unpacked matches Stream::Controls(longer) && unpacks(
            mirror,
            values,
            longer,
        ),
        _ => unpacked == stream,
    }
}

/// `longer` is `values` with one more at either end, mirrored off it.
pub open spec fn unpacks<T, M: Fn(T, T) -> T>(mirror: M, values: Seq<T>, longer: Seq<T>) -> bool {
    let n = values.len() as int;
    &&& longer.len() == n + 2
    &&& call_ensures(mirror, (values[0], values[1]), longer[0])
    &&& call_ensures(mirror, (values[n - 1], values[n - 2]), longer[n + 1])
    &&& longer.subrange(1, n + 1) == values
}

/// Put one more value at either end, mirrored off it.
fn unpack<T: Copy, M: Fn(T, T) -> T>(mirror: &M, values: &Vec<T>) -> (r: Vec<T>)
    requires
        values@.len() >= 2,
        forall|a: T, b: T| call_requires(*mirror, (a, b)),
    ensures
        unpacks(*mirror, values@, r@),
{
    let n: usize = values.len();
    let mut out: Vec<T> = Vec::new();
    out.push(mirror(values[0], values[1]));
    let ghost head = out@;
    for i in 0..n
        invariant
            n == values@.len(),
            head.len() == 1,
            out@ == head + values@.take(i as int),
    {
        out.push(values[i]);
        assert(out@ =~= head + values@.take(i + 1));
    }
    out.push(mirror(values[n - 1], values[n - 2]));
    assert(out@.subrange(1, n + 1) =~= values@);
    out
}

/// The width rule of one segment: radii.
#[derive(Clone, Copy, Debug, PartialEq, Eq, Structural)]
pub enum SegmentWidths {
    /// One radius all along.
    Everywhere(Num),
    /// The radii at the two ends, linear between them.
    Ends(Num, Num),
    /// Four control radii through the basis.
    Cubic(Num, Num, Num, Num),
}

/// What a segment of a curve reads of its widths.
pub open spec fn segment_widths(stream: Stream, index: int, step: int) -> SegmentWidths {
    match stream {
        Stream::Everywhere(radius) => SegmentWidths::Everywhere(radius),
        Stream::Ends(values) => SegmentWidths::Ends(
            values[index].halved(),
            values[index + 1].halved(),
        ),
        Stream::Controls(values) => SegmentWidths::Cubic(
            values[index * step].halved(),
            values[index * step + 1].halved(),
            values[index * step + 2].halved(),
            values[index * step + 3].halved(),
        ),
    }
}

/// The radius at a vertex of a linear curve.
pub open spec fn vertex_radius(stream: Stream, index: int) -> Num {
    match stream {
        Stream::Everywhere(radius) => radius,
        Stream::Ends(values) => values[index].halved(),
        Stream::Controls(values) => values[index].halved(),
    }
}

impl CurveWidths {
    /// One curve's widths out of a batch's.
    pub fn select(widths: &Option<Widths>, at: &Cursor, curve_type: CurveType) -> (r: CurveWidths)
        requires
            *widths matches Some(widths) ==> feeds(widths, *at),
        ensures
            r@ == selected(*widths, *at, curve_type),
    {
        match widths {
            None => CurveWidths::Everywhere(Num::new(HALF)),
            Some(widths) => {
                let size: usize = widths.values.len();
                match widths.interpolation {
                    WidthInterpolation::Constant => CurveWidths::Everywhere(widths.values[0].half()),
                    WidthInterpolation::Uniform => CurveWidths::Everywhere(
                        widths.values[at.curve].half(),
                    ),
                    WidthInterpolation::Varying => CurveWidths::Ends(
                        part(&widths.values, at.varying, at.varying + at.segments + 1),
                    ),
                    WidthInterpolation::Vertex => {
                        let values = part(&widths.values, at.vertex, at.vertex + at.count);
                        if curve_type == CurveType::Linear {
                            CurveWidths::Ends(values)
                        } else {
                            CurveWidths::Controls(values)
                        }
                    },
                }
            },
        }
    }

    /// Put what a pinned curve's points have beyond either end on the widths
    /// that go with them.
    pub fn pin<W: Fn(Num, Num) -> Num>(self, mirror: &W) -> (r: CurveWidths)
        requires
            self@ matches Stream::Controls(values) ==> values.len() >= 2,
            forall|a: Num, b: Num| call_requires(*mirror, (a, b)),
        ensures
            pinned_stream(*mirror, self@, r@),
    {
        match self {
            CurveWidths::Controls(values) => CurveWidths::Controls(unpack(mirror, &values)),
            other => other,
        }
    }

    /// The radius at a vertex of a linear curve.
    pub fn at_vertex(&self, index: usize) -> (r: Num)
        requires
            self@ matches Stream::Ends(values) ==> index < values.len(),
            self@ matches Stream::Controls(values) ==> index < values.len(),
        ensures
            r == vertex_radius(self@, index as int),
    {
        match self {
            CurveWidths::Everywhere(radius) => *radius,
            CurveWidths::Ends(values) => values[index].half(),
            CurveWidths::Controls(values) => values[index].half(),
        }
    }

    /// What a segment reads.
    pub fn segment(&self, index: usize, step: usize) -> (r: SegmentWidths)
        requires
            self@ matches Stream::Ends(values) ==> index + 1 < values.len(),
            self@ matches Stream::Controls(values) ==> index * step + 3 < values.len(),
        ensures
            r == segment_widths(self@, index as int, step as int),
    {
        match self {
            CurveWidths::Everywhere(radius) => SegmentWidths::Everywhere(*radius),
            CurveWidths::Ends(values) => {
                let size: usize = values.len();
                SegmentWidths::Ends(values[index].half(), values[index + 1].half())
            },
            CurveWidths::Controls(values) => {
                let size: usize = values.len();
                assert(index * step >= 0) by (nonlinear_arith);
                let base: usize = index * step;
                SegmentWidths::Cubic(
                    values[base].half(),
                    values[base + 1].half(),
                    values[base + 2].half(),
                    values[base + 3].half(),
                )
            },
        }
    }
}

// -- Spans -----------------------------------------------------------------------

/// The most pieces that a cubic span is cut into, and where parameters along
/// it are counted: in eighths.
pub const MAX_SPAN_SEGMENTS: u32 = 8;

/// How often a cubic span is cut in two, one cut inside the other.
pub const MAX_SPAN_DEPTH: u32 = 3;

/// One cubic span: the basis, the four control points it reads, and the
/// widths on them.
#[derive(Clone, Copy, Debug, PartialEq, Eq, Structural)]
pub struct Span {
    /// The basis.
    pub basis: CurveBasis,
    /// The first control point.
    pub first: Vec3,
    /// The second.
    pub second: Vec3,
    /// The third.
    pub third: Vec3,
    /// The fourth.
    pub fourth: Vec3,
    /// The widths.
    pub widths: SegmentWidths,
}

/// A knot that `sample` gives for a span, at a parameter counted in eighths.
pub open spec fn samples<K: Fn(Span, u32) -> Knot>(
    sample: K,
    span: Span,
    at: u32,
    knot: Knot,
) -> bool {
    exists|raw: Knot| #[trigger] call_ensures(sample, (span, at), raw) && knot == raw.settled()
}

/// The knots that `sample` gives at some parameters, in order.
pub open spec fn samples_all<K: Fn(Span, u32) -> Knot>(
    sample: K,
    span: Span,
    places: Seq<u32>,
    knots: Seq<Knot>,
) -> bool {
    &&& knots.len() == places.len()
    &&& forall|i: int| 0 <= i < knots.len() ==> samples(sample, span, places[i], #[trigger] knots[i])
}

/// Where the pieces of a span from `near` to `far` end, if it may be cut
/// `levels` deep: it is one piece unless it is `curved`, and else it is the
/// pieces of both halves.
pub open spec fn cuts<C: Fn(Span, u32, u32) -> bool>(
    curved: C,
    span: Span,
    near: u32,
    far: u32,
    levels: nat,
    places: Seq<u32>,
) -> bool
    decreases levels,
{
    if levels == 0 {
        places == seq![far]
    } else {
        let middle = ((near + far) / 2) as u32;
        ||| call_ensures(curved, (span, near, far), false) && places == seq![far]
        ||| call_ensures(curved, (span, near, far), true) && exists|left: Seq<u32>, right: Seq<u32>|
            places == #[trigger] (left + right) && cuts(
                curved,
                span,
                near,
                middle,
                (levels - 1) as nat,
                left,
            ) && cuts(curved, span, middle, far, (levels - 1) as nat, right)
    }
}

/// A span is at least one piece and at most as many as its levels allow; the
/// pieces follow each other from its near end, and the last one ends where it
/// does.
pub proof fn pieces_follow_each_other<C: Fn(Span, u32, u32) -> bool>(
    curved: C,
    span: Span,
    near: u32,
    far: u32,
    levels: nat,
    places: Seq<u32>,
)
    requires
        cuts(curved, span, near, far, levels, places),
        near + vstd::arithmetic::power2::pow2(levels) == far || (levels == 0 && near < far),
    ensures
        1 <= places.len() <= vstd::arithmetic::power2::pow2(levels),
        places.last() == far,
        forall|i: int| 0 <= i < places.len() ==> near < #[trigger] places[i] <= far,
        forall|i: int, j: int|
            #![trigger places[i], places[j]]
            0 <= i < j < places.len() ==> places[i] < places[j],
    decreases levels,
{
    vstd::arithmetic::power2::lemma_pow2_pos(levels);
    if levels > 0 {
        let middle = ((near + far) / 2) as u32;
        let fewer = (levels - 1) as nat;
        vstd::arithmetic::power2::lemma_pow2_unfold(levels);
        vstd::arithmetic::power2::lemma_pow2_pos(fewer);
        if places != seq![far] {
            let (left, right) = choose|left: Seq<u32>, right: Seq<u32>|
                places == #[trigger] (left + right) && cuts(
                    curved,
                    span,
                    near,
                    middle,
                    fewer,
                    left,
                ) && cuts(curved, span, middle, far, fewer, right);
            pieces_follow_each_other(curved, span, near, middle, fewer, left);
            pieces_follow_each_other(curved, span, middle, far, fewer, right);
            assert forall|i: int| 0 <= i < places.len() implies near < #[trigger] places[i] <= far by {
                if i < left.len() {
                    assert(places[i] == left[i]);
                } else {
                    assert(places[i] == right[i - left.len()]);
                }
            }
            assert forall|i: int, j: int|
                #![trigger places[i], places[j]]
                0 <= i < j < places.len() implies places[i] < places[j] by {
                if j < left.len() {
                    assert(places[i] == left[i] && places[j] == left[j]);
                } else if i < left.len() {
                    assert(places[i] == left[i] && places[j] == right[j - left.len()]);
                } else {
                    assert(places[i] == right[i - left.len()] && places[j] == right[j
                        - left.len()]);
                }
            }
        }
    }
}

/// Cut a span into pieces that lie inside the strand, and put a knot where
/// each of them ends.
fn flatten<K: Fn(Span, u32) -> Knot, C: Fn(Span, u32, u32) -> bool>(
    strands: &mut Strands,
    span: Span,
    near: u32,
    far: u32,
    levels: u32,
    sample: &K,
    curved: &C,
)
    requires
        near <= far <= MAX_SPAN_SEGMENTS,
        forall|span: Span, at: u32| call_requires(*sample, (span, at)),
        forall|span: Span, near: u32, far: u32| call_requires(*curved, (span, near, far)),
    ensures
        final(strands)@.strands == old(strands)@.strands,
        exists|places: Seq<u32>, knots: Seq<Knot>|
            #![trigger cuts(*curved, span, near, far, levels as nat, places), samples_all(*sample, span, places, knots)]
            cuts(*curved, span, near, far, levels as nat, places) && samples_all(
                *sample,
                span,
                places,
                knots,
            ) && final(strands)@.open == old(strands)@.open + knots,
    decreases levels,
{
    let ghost before = strands@;
    if levels > 0 && curved(span, near, far) {
        let middle: u32 = (near + far) / 2;
        flatten(strands, span, near, middle, levels - 1, sample, curved);
        let ghost (left, first) = choose|left: Seq<u32>, first: Seq<Knot>|
            #![trigger cuts(*curved, span, near, middle, (levels - 1) as nat, left), samples_all(*sample, span, left, first)]
            cuts(*curved, span, near, middle, (levels - 1) as nat, left) && samples_all(
                *sample,
                span,
                left,
                first,
            ) && strands@.open == before.open + first;
        let ghost between = strands@;
        flatten(strands, span, middle, far, levels - 1, sample, curved);
        proof {
            let (right, second) = choose|right: Seq<u32>, second: Seq<Knot>|
                #![trigger cuts(*curved, span, middle, far, (levels - 1) as nat, right), samples_all(*sample, span, right, second)]
                cuts(*curved, span, middle, far, (levels - 1) as nat, right) && samples_all(
                    *sample,
                    span,
                    right,
                    second,
                ) && strands@.open == between.open + second;
            let places = left + right;
            let knots = first + second;
            assert forall|i: int| 0 <= i < knots.len() implies samples(
                *sample,
                span,
                places[i],
                #[trigger] knots[i],
            ) by {
                if i < first.len() {
                    assert(knots[i] == first[i]);
                } else {
                    assert(knots[i] == second[i - first.len()]);
                }
            }
            assert(cuts(*curved, span, near, far, levels as nat, places));
            assert(samples_all(*sample, span, places, knots));
            assert(strands@.open =~= before.open + knots);
        }
        return ;
    }
    let knot = sample(span, far);
    strands.push_point(knot.point, knot.radius);
    proof {
        let places = seq![far];
        let knots = seq![knot.settled()];
        assert(samples(*sample, span, far, knots[0]));
        assert(samples_all(*sample, span, places, knots));
        assert(cuts(*curved, span, near, far, levels as nat, places));
        assert(strands@.open =~= before.open + knots);
    }
}

/// The spans of a cubic curve, from its control points.
pub open spec fn spans(
    basis: CurveBasis,
    points: Seq<Vec3>,
    stream: Stream,
    segments: int,
) -> Seq<Span> {
    Seq::new(
        segments as nat,
        |i: int|
            Span {
                basis,
                first: points[i * basis.stride()],
                second: points[i * basis.stride() + 1],
                third: points[i * basis.stride() + 2],
                fourth: points[i * basis.stride() + 3],
                widths: segment_widths(stream, i, basis.stride()),
            },
    )
}

/// The knots where the pieces of one span end.
pub open spec fn flattens<K: Fn(Span, u32) -> Knot, C: Fn(Span, u32, u32) -> bool>(
    sample: K,
    curved: C,
    span: Span,
    knots: Seq<Knot>,
) -> bool {
    exists|places: Seq<u32>|
        #[trigger] cuts(curved, span, 0, MAX_SPAN_SEGMENTS, MAX_SPAN_DEPTH as nat, places)
            && samples_all(sample, span, places, knots)
}

/// The knots where the pieces of spans end, one span after the other.
pub open spec fn follows<K: Fn(Span, u32) -> Knot, C: Fn(Span, u32, u32) -> bool>(
    sample: K,
    curved: C,
    chain: Seq<Span>,
    knots: Seq<Knot>,
) -> bool
    decreases chain.len(),
{
    if chain.len() == 0 {
        knots.len() == 0
    } else {
        exists|front: Seq<Knot>, back: Seq<Knot>|
            knots == #[trigger] (front + back) && follows(
                sample,
                curved,
                chain.drop_last(),
                front,
            ) && flattens(sample, curved, chain.last(), back)
    }
}

/// The control points of a cubic curve, with those that a pinned one has
/// beyond its ends.
pub open spec fn unpacked<P: Fn(Vec3, Vec3) -> Vec3>(
    mirror: P,
    control: Seq<Vec3>,
    pinned: bool,
    points: Seq<Vec3>,
) -> bool {
    if pinned {
        unpacks(mirror, control, points)
    } else {
        points == control
    }
}

/// The widths of a cubic curve, with those that a pinned one has beyond its
/// ends.
pub open spec fn unpacked_widths<W: Fn(Num, Num) -> Num>(
    mirror: W,
    stream: Stream,
    pinned: bool,
    longer: Stream,
) -> bool {
    if pinned {
        pinned_stream(mirror, stream, longer)
    } else {
        longer == stream
    }
}

/// A linear curve as a strand: its vertices, with the radius at each.
pub open spec fn linear_knots(control: Seq<Vec3>, stream: Stream) -> Seq<Knot> {
    Seq::new(
        control.len(),
        |i: int| (Knot { point: control[i], radius: vertex_radius(stream, i) }).settled(),
    )
}

/// `knots` are the strand of a cubic curve: its root, and where the pieces of
/// its spans end.
pub open spec fn traces<
    P: Fn(Vec3, Vec3) -> Vec3,
    W: Fn(Num, Num) -> Num,
    K: Fn(Span, u32) -> Knot,
    C: Fn(Span, u32, u32) -> bool,
>(
    mirror: P,
    mirror_width: W,
    sample: K,
    curved: C,
    control: Seq<Vec3>,
    stream: Stream,
    basis: CurveBasis,
    pinned: bool,
    segments: int,
    knots: Seq<Knot>,
) -> bool {
    exists|points: Seq<Vec3>, longer: Stream, root: Knot, rest: Seq<Knot>|
        #![trigger unpacked(mirror, control, pinned, points), unpacked_widths(mirror_width, stream, pinned, longer), samples(sample, spans(basis, points, longer, segments)[0], 0, root), follows(sample, curved, spans(basis, points, longer, segments), rest)]
        unpacked(mirror, control, pinned, points) && unpacked_widths(
            mirror_width,
            stream,
            pinned,
            longer,
        ) && samples(sample, spans(basis, points, longer, segments)[0], 0, root) && follows(
            sample,
            curved,
            spans(basis, points, longer, segments),
            rest,
        ) && knots == seq![root] + rest
}

/// A linear curve's vertices are its strand.
fn push_linear(strands: &mut Strands, control: &[Vec3], widths: &CurveWidths)
    requires
        widths@ matches Stream::Ends(values) ==> control@.len() <= values.len(),
        widths@ matches Stream::Controls(values) ==> control@.len() <= values.len(),
    ensures
        final(strands)@.strands == old(strands)@.strands,
        final(strands)@.open == old(strands)@.open + linear_knots(control@, widths@),
{
    let ghost before = strands@;
    let ghost knots = linear_knots(control@, widths@);
    assert(strands@.open =~= before.open + knots.take(0));
    for i in 0..control.len()
        invariant
            widths@ matches Stream::Ends(values) ==> control@.len() <= values.len(),
            widths@ matches Stream::Controls(values) ==> control@.len() <= values.len(),
            knots == linear_knots(control@, widths@),
            strands@.strands == before.strands,
            strands@.open == before.open + knots.take(i as int),
    {
        strands.push_point(control[i], widths.at_vertex(i));
        assert(strands@.open =~= before.open + knots.take(i + 1));
    }
    assert(knots.take(control@.len() as int) =~= knots);
}

/// A copy of some points.
fn copied(control: &[Vec3]) -> (r: Vec<Vec3>)
    ensures
        r@ == control@,
{
    let mut out: Vec<Vec3> = Vec::new();
    for i in 0..control.len()
        invariant
            out@ == control@.take(i as int),
    {
        out.push(control[i]);
        assert(out@ =~= control@.take(i + 1));
    }
    assert(out@ =~= control@);
    out
}

/// The control points of a span lie among those of the curve.
proof fn spans_lie_inside(index: int, segments: int, step: int, size: int)
    requires
        0 <= index < segments,
        step >= 1,
        size >= (segments - 1) * step + 4,
    ensures
        0 <= index * step,
        index * step + 3 < size,
{
    assert(index * step <= (segments - 1) * step) by (nonlinear_arith)
        requires
            index <= segments - 1,
            step >= 1,
    ;
    assert(0 <= index * step) by (nonlinear_arith)
        requires
            0 <= index,
            step >= 1,
    ;
}

/// A cubic curve's spans, one after the other, are its strand.
fn push_cubic<
    P: Fn(Vec3, Vec3) -> Vec3,
    W: Fn(Num, Num) -> Num,
    K: Fn(Span, u32) -> Knot,
    C: Fn(Span, u32, u32) -> bool,
>(
    strands: &mut Strands,
    control: &[Vec3],
    widths: CurveWidths,
    basis: CurveBasis,
    pinned: bool,
    segments: usize,
    mirror: &P,
    mirror_width: &W,
    sample: &K,
    curved: &C,
)
    requires
        able(*mirror, *mirror_width, *sample, *curved),
        segments >= 1,
        control@.len() >= 2,
        control@.len() + (if pinned {
            2int
        } else {
            0
        }) >= (segments - 1) * basis.stride() + 4,
        widths@ matches Stream::Ends(values) ==> segments < values.len(),
        widths@ matches Stream::Controls(values) ==> values.len() == control@.len(),
    ensures
        final(strands)@.strands == old(strands)@.strands,
        exists|knots: Seq<Knot>|
            final(strands)@.open == old(strands)@.open + knots && #[trigger] traces(
                *mirror,
                *mirror_width,
                *sample,
                *curved,
                control@,
                widths@,
                basis,
                pinned,
                segments as int,
                knots,
            ),
{
    let ghost before = strands@;
    let ghost stream = widths@;
    let step: usize = basis.vstep();
    let cells = copied(control);
    let points: Vec<Vec3> = if pinned {
        unpack(mirror, &cells)
    } else {
        cells
    };
    assert(unpacked(*mirror, control@, pinned, points@));
    let widths = if pinned {
        widths.pin(mirror_width)
    } else {
        widths
    };
    assert(unpacked_widths(*mirror_width, stream, pinned, widths@));
    let ghost chain = spans(basis, points@, widths@, segments as int);
    let size: usize = points.len();
    let ghost mut rest: Seq<Knot> = Seq::empty();
    let ghost mut root: Knot = Knot { point: control@[0], radius: Num { bits: 0 } };
    let ghost head: Seq<Knot> = Seq::empty();
    assert(chain.take(0) =~= Seq::<Span>::empty());
    assert(strands@.open =~= before.open + head + rest);
    for index in 0..segments
        invariant
            able(*mirror, *mirror_width, *sample, *curved),
            step == basis.stride(),
            step >= 1,
            size == points@.len(),
            size >= (segments - 1) * step + 4,
            widths@ matches Stream::Ends(values) ==> segments < values.len(),
            widths@ matches Stream::Controls(values) ==> values.len() == size,
            chain == spans(basis, points@, widths@, segments as int),
            strands@.strands == before.strands,
            index == 0 ==> rest.len() == 0 && strands@.open == before.open,
            index > 0 ==> samples(*sample, chain[0], 0, root) && strands@.open == before.open
                + seq![root] + rest,
            follows(*sample, *curved, chain.take(index as int), rest),
    {
        proof {
            spans_lie_inside(index as int, segments as int, step as int, size as int);
        }
        let base: usize = index * step;
        let span = Span {
            basis,
            first: points[base],
            second: points[base + 1],
            third: points[base + 2],
            fourth: points[base + 3],
            widths: widths.segment(index, step),
        };
        assert(span == chain[index as int]);
        if index == 0 {
            let start = sample(span, 0);
            strands.push_point(start.point, start.radius);
            proof {
                root = start.settled();
                assert(samples(*sample, chain[0], 0, root));
                assert(strands@.open =~= before.open + seq![root] + rest);
            }
        }
        let ghost between = strands@.open;
        flatten(strands, span, 0, MAX_SPAN_SEGMENTS, MAX_SPAN_DEPTH, sample, curved);
        proof {
            let (places, knots) = choose|places: Seq<u32>, knots: Seq<Knot>|
                #![trigger cuts(*curved, span, 0, MAX_SPAN_SEGMENTS, MAX_SPAN_DEPTH as nat, places), samples_all(*sample, span, places, knots)]
                cuts(*curved, span, 0, MAX_SPAN_SEGMENTS, MAX_SPAN_DEPTH as nat, places)
                    && samples_all(*sample, span, places, knots) && strands@.open == between
                    + knots;
            let front = rest;
            let longer = chain.take(index + 1);
            assert(longer.drop_last() =~= chain.take(index as int));
            assert(longer.last() == span);
            assert(flattens(*sample, *curved, longer.last(), knots));
            assert(follows(*sample, *curved, longer.drop_last(), front));
            rest = front + knots;
            assert(follows(*sample, *curved, longer, rest));
            assert(strands@.open =~= before.open + seq![root] + rest);
        }
    }
    proof {
        assert(chain.take(segments as int) =~= chain);
        let knots = seq![root] + rest;
        assert(strands@.open =~= before.open + knots);
        assert(samples(*sample, spans(basis, points@, widths@, segments as int)[0], 0, root));
        assert(follows(*sample, *curved, spans(basis, points@, widths@, segments as int), rest));
        assert(traces(
            *mirror,
            *mirror_width,
            *sample,
            *curved,
            control@,
            stream,
            basis,
            pinned,
            segments as int,
            knots,
        ));
    }
}

/// The arithmetic can be called on anything.
pub open spec fn able<
    P: Fn(Vec3, Vec3) -> Vec3,
    W: Fn(Num, Num) -> Num,
    K: Fn(Span, u32) -> Knot,
    C: Fn(Span, u32, u32) -> bool,
>(mirror: P, mirror_width: W, sample: K, curved: C) -> bool {
    &&& forall|a: Vec3, b: Vec3| call_requires(mirror, (a, b))
    &&& forall|a: Num, b: Num| call_requires(mirror_width, (a, b))
    &&& forall|span: Span, at: u32| call_requires(sample, (span, at))
    &&& forall|span: Span, near: u32, far: u32| call_requires(curved, (span, near, far))
}

// -- The walk --------------------------------------------------------------------

/// What is wrong with the first curve from `n` on that cannot be walked.
pub open spec fn fault(
    points: int,
    counts: Seq<u32>,
    curve_type: CurveType,
    basis: CurveBasis,
    wrap: CurveWrap,
    n: int,
) -> Option<WalkProblem>
    decreases counts.len() - n,
{
    if n >= counts.len() {
        None
    } else if segments_of(counts[n] as int, curve_type, basis, wrap) is None {
        Some(
            WalkProblem::Segments(
                segment_problem(counts[n] as usize, curve_type, basis, wrap),
            ),
        )
    } else if validate::vertices_before(counts, n + 1) > points {
        Some(WalkProblem::PastThePoints { curve: n as usize })
    } else {
        fault(points, counts, curve_type, basis, wrap, n + 1)
    }
}

/// The first `n` curves can be walked.
pub open spec fn walkable(
    points: int,
    counts: Seq<u32>,
    curve_type: CurveType,
    basis: CurveBasis,
    wrap: CurveWrap,
    n: int,
) -> bool {
    forall|i: int|
        0 <= i < n ==> segments_of(#[trigger] counts[i] as int, curve_type, basis, wrap) is Some
            && validate::vertices_before(counts, i + 1) <= points
}

/// Where a walk stands at curve `n`.
pub open spec fn cursor(
    counts: Seq<u32>,
    curve_type: CurveType,
    basis: CurveBasis,
    wrap: CurveWrap,
    n: int,
) -> Cursor {
    Cursor {
        curve: n as usize,
        vertex: validate::vertices_before(counts, n) as usize,
        varying: validate::ends_before(counts, curve_type, basis, wrap, n) as usize,
        count: counts[n] as usize,
        segments: segments_of(counts[n] as int, curve_type, basis, wrap)->0 as usize,
    }
}

/// The widths hold what every curve reads that the walk comes to.
pub open spec fn served(
    points: int,
    counts: Seq<u32>,
    widths: Option<Widths>,
    curve_type: CurveType,
    basis: CurveBasis,
    wrap: CurveWrap,
) -> bool {
    widths matches Some(widths) ==> forall|n: int|
        0 <= n < counts.len() && walkable(points, counts, curve_type, basis, wrap, n + 1) ==> feeds(
            widths,
            #[trigger] cursor(counts, curve_type, basis, wrap, n),
        )
}

/// `knots` are the strand of curve `n`.
pub open spec fn walks<
    P: Fn(Vec3, Vec3) -> Vec3,
    W: Fn(Num, Num) -> Num,
    K: Fn(Span, u32) -> Knot,
    C: Fn(Span, u32, u32) -> bool,
>(
    mirror: P,
    mirror_width: W,
    sample: K,
    curved: C,
    points: Seq<Vec3>,
    counts: Seq<u32>,
    widths: Option<Widths>,
    curve_type: CurveType,
    basis: CurveBasis,
    wrap: CurveWrap,
    n: int,
    knots: Seq<Knot>,
) -> bool {
    let at = cursor(counts, curve_type, basis, wrap, n);
    let control = points.subrange(at.vertex as int, at.vertex + at.count);
    let stream = selected(widths, at, curve_type);
    match curve_type {
        CurveType::Linear => knots == linear_knots(control, stream),
        CurveType::Cubic => traces(
            mirror,
            mirror_width,
            sample,
            curved,
            control,
            stream,
            basis,
            pins(wrap, basis),
            at.segments as int,
            knots,
        ),
    }
}

/// A chain of spans has a knot for each of them, or more.
proof fn chains_have_knots<K: Fn(Span, u32) -> Knot, C: Fn(Span, u32, u32) -> bool>(
    sample: K,
    curved: C,
    chain: Seq<Span>,
    knots: Seq<Knot>,
)
    requires
        follows(sample, curved, chain, knots),
    ensures
        chain.len() <= knots.len() <= 8 * chain.len(),
    decreases chain.len(),
{
    if chain.len() > 0 {
        let (front, back) = choose|front: Seq<Knot>, back: Seq<Knot>|
            knots == #[trigger] (front + back) && follows(
                sample,
                curved,
                chain.drop_last(),
                front,
            ) && flattens(sample, curved, chain.last(), back);
        chains_have_knots(sample, curved, chain.drop_last(), front);
        let places = choose|places: Seq<u32>|
            #[trigger] cuts(
                curved,
                chain.last(),
                0,
                MAX_SPAN_SEGMENTS,
                MAX_SPAN_DEPTH as nat,
                places,
            ) && samples_all(sample, chain.last(), places, back);
        vstd::arithmetic::power2::lemma2_to64();
        pieces_follow_each_other(
            curved,
            chain.last(),
            0,
            MAX_SPAN_SEGMENTS,
            MAX_SPAN_DEPTH as nat,
            places,
        );
    }
}

/// The most knots that a curve of some vertices and segments can have.
pub open spec fn most_knots(count: int, segments: int, curve_type: CurveType) -> int {
    match curve_type {
        CurveType::Linear => count,
        CurveType::Cubic => 8 * segments + 1,
    }
}

/// The fewest knots that a curve of some vertices and segments can have.
pub open spec fn fewest_knots(count: int, segments: int, curve_type: CurveType) -> int {
    match curve_type {
        CurveType::Linear => count,
        CurveType::Cubic => segments + 1,
    }
}

/// A curve that can be walked has two knots or more: a linear one a knot for
/// each vertex, a cubic one a knot more than it has segments at least, and no
/// more than its pieces allow.
pub proof fn curves_have_knots<
    P: Fn(Vec3, Vec3) -> Vec3,
    W: Fn(Num, Num) -> Num,
    K: Fn(Span, u32) -> Knot,
    C: Fn(Span, u32, u32) -> bool,
>(
    mirror: P,
    mirror_width: W,
    sample: K,
    curved: C,
    points: Seq<Vec3>,
    counts: Seq<u32>,
    widths: Option<Widths>,
    curve_type: CurveType,
    basis: CurveBasis,
    wrap: CurveWrap,
    n: int,
    knots: Seq<Knot>,
)
    requires
        walks(
            mirror,
            mirror_width,
            sample,
            curved,
            points,
            counts,
            widths,
            curve_type,
            basis,
            wrap,
            n,
            knots,
        ),
        0 <= n < counts.len(),
        walkable(points.len() as int, counts, curve_type, basis, wrap, n + 1),
        points.len() <= usize::MAX,
    ensures
        2 <= knots.len(),
        fewest_knots(
            counts[n] as int,
            segments_of(counts[n] as int, curve_type, basis, wrap)->0,
            curve_type,
        ) <= knots.len() <= most_knots(
            counts[n] as int,
            segments_of(counts[n] as int, curve_type, basis, wrap)->0,
            curve_type,
        ),
{
    walks_fit(points.len() as int, counts, curve_type, basis, wrap, n);
    let at = cursor(counts, curve_type, basis, wrap, n);
    assert(segments_of(counts[n] as int, curve_type, basis, wrap) is Some);
    if curve_type == CurveType::Cubic {
        let control = points.subrange(at.vertex as int, at.vertex + at.count);
        let stream = selected(widths, at, curve_type);
        let pinned = pins(wrap, basis);
        let segments = at.segments as int;
        let (unpacked_points, longer, root, rest) = choose|
            unpacked_points: Seq<Vec3>,
            longer: Stream,
            root: Knot,
            rest: Seq<Knot>,
        |
            #![trigger unpacked(mirror, control, pinned, unpacked_points), unpacked_widths(mirror_width, stream, pinned, longer), samples(sample, spans(basis, unpacked_points, longer, segments)[0], 0, root), follows(sample, curved, spans(basis, unpacked_points, longer, segments), rest)]
            unpacked(mirror, control, pinned, unpacked_points) && unpacked_widths(
                mirror_width,
                stream,
                pinned,
                longer,
            ) && samples(sample, spans(basis, unpacked_points, longer, segments)[0], 0, root)
                && follows(sample, curved, spans(basis, unpacked_points, longer, segments), rest)
                && knots == seq![root] + rest;
        chains_have_knots(
            sample,
            curved,
            spans(basis, unpacked_points, longer, segments),
            rest,
        );
    }
}

/// A curve has no more segments than fit between its vertices.
pub proof fn segments_fit(count: int, curve_type: CurveType, basis: CurveBasis, wrap: CurveWrap)
    requires
        segments_of(count, curve_type, basis, wrap) is Some,
    ensures
        count >= 2,
        1 <= segments_of(count, curve_type, basis, wrap)->0 <= count - 1,
        curve_type == CurveType::Linear ==> segments_of(count, curve_type, basis, wrap)->0 == count
            - 1,
        curve_type == CurveType::Cubic ==> count + (if pins(wrap, basis) {
            2int
        } else {
            0
        }) == (segments_of(count, curve_type, basis, wrap)->0 - 1) * basis.stride() + 4,
{
    if curve_type == CurveType::Cubic && !pins(wrap, basis) {
        let step = basis.stride();
        vstd::arithmetic::div_mod::lemma_fundamental_div_mod(count - 4, step);
        assert(step * ((count - 4) / step) == ((count - 4) / step) * step) by (nonlinear_arith);
        if step == 3 {
            assert((count - 4) / 3 <= count - 4);
        } else {
            assert((count - 4) / 1 == count - 4);
        }
    }
}

/// What lies before a curve that the walk comes to can be counted.
pub proof fn walks_fit(
    points: int,
    counts: Seq<u32>,
    curve_type: CurveType,
    basis: CurveBasis,
    wrap: CurveWrap,
    n: int,
)
    requires
        0 <= n < counts.len(),
        0 <= points <= usize::MAX,
        walkable(points, counts, curve_type, basis, wrap, n + 1),
    ensures
        0 <= validate::vertices_before(counts, n),
        validate::vertices_before(counts, n) + counts[n] <= points,
        0 <= validate::ends_before(counts, curve_type, basis, wrap, n)
            <= validate::vertices_before(counts, n),
        validate::ends_before(counts, curve_type, basis, wrap, n + 1)
            <= validate::vertices_before(counts, n + 1),
        cursor(counts, curve_type, basis, wrap, n).vertex == validate::vertices_before(counts, n),
        cursor(counts, curve_type, basis, wrap, n).varying == validate::ends_before(
            counts,
            curve_type,
            basis,
            wrap,
            n,
        ),
        cursor(counts, curve_type, basis, wrap, n).count == counts[n],
        cursor(counts, curve_type, basis, wrap, n).segments == segments_of(
            counts[n] as int,
            curve_type,
            basis,
            wrap,
        )->0,
    decreases n,
{
    assert(segments_of(counts[n] as int, curve_type, basis, wrap) is Some);
    segments_fit(counts[n] as int, curve_type, basis, wrap);
    if n > 0 {
        assert(walkable(points, counts, curve_type, basis, wrap, n));
        walks_fit(points, counts, curve_type, basis, wrap, n - 1);
    }
}

/// Turn basis curves into strands: linear ones as they are, cubic ones through
/// their basis.
pub fn evaluate<
    P: Fn(Vec3, Vec3) -> Vec3,
    W: Fn(Num, Num) -> Num,
    K: Fn(Span, u32) -> Knot,
    C: Fn(Span, u32, u32) -> bool,
>(
    points: &Vec<Vec3>,
    counts: &Vec<u32>,
    widths: &Option<Widths>,
    curve_type: CurveType,
    basis: CurveBasis,
    wrap: CurveWrap,
    mirror: &P,
    mirror_width: &W,
    sample: &K,
    curved: &C,
) -> (r: Result<Strands, WalkProblem>)
    requires
        able(*mirror, *mirror_width, *sample, *curved),
        served(points@.len() as int, counts@, *widths, curve_type, basis, wrap),
    ensures
        r is Ok == fault(points@.len() as int, counts@, curve_type, basis, wrap, 0) is None,
        r matches Err(problem) ==> fault(
            points@.len() as int,
            counts@,
            curve_type,
            basis,
            wrap,
            0,
        ) == Some(problem),
        r matches Ok(strands) ==> walkable(
            points@.len() as int,
            counts@,
            curve_type,
            basis,
            wrap,
            counts@.len() as int,
        ) && strands@.open.len() == 0 && strands@.strands.len() == counts@.len() && forall|n: int|
            0 <= n < counts@.len() ==> walks(
                *mirror,
                *mirror_width,
                *sample,
                *curved,
                points@,
                counts@,
                *widths,
                curve_type,
                basis,
                wrap,
                n,
                #[trigger] strands@.strands[n],
            ),
{
    let mut strands = Strands::new();
    let mut vertex: usize = 0;
    let mut varying: usize = 0;
    let size: usize = points.len();
    let pinning = pinned(wrap, basis);
    for n in 0..counts.len()
        invariant
            able(*mirror, *mirror_width, *sample, *curved),
            served(points@.len() as int, counts@, *widths, curve_type, basis, wrap),
            size == points@.len(),
            pinning == pins(wrap, basis),
            vertex == validate::vertices_before(counts@, n as int),
            vertex <= size,
            varying == validate::ends_before(counts@, curve_type, basis, wrap, n as int),
            varying <= vertex,
            walkable(points@.len() as int, counts@, curve_type, basis, wrap, n as int),
            fault(points@.len() as int, counts@, curve_type, basis, wrap, 0) == fault(
                points@.len() as int,
                counts@,
                curve_type,
                basis,
                wrap,
                n as int,
            ),
            strands@.open.len() == 0,
            strands@.strands.len() == n,
            forall|i: int|
                0 <= i < n ==> walks(
                    *mirror,
                    *mirror_width,
                    *sample,
                    *curved,
                    points@,
                    counts@,
                    *widths,
                    curve_type,
                    basis,
                    wrap,
                    i,
                    #[trigger] strands@.strands[i],
                ),
    {
        let count: usize = counts[n] as usize;
        let segments: usize = match segment_count(count, curve_type, basis, wrap) {
            Ok(segments) => segments,
            Err(problem) => {
                return Err(WalkProblem::Segments(problem));
            },
        };
        if count > size - vertex {
            return Err(WalkProblem::PastThePoints { curve: n });
        }
        proof {
            assert(walkable(points@.len() as int, counts@, curve_type, basis, wrap, n + 1));
            walks_fit(points@.len() as int, counts@, curve_type, basis, wrap, n as int);
            segments_fit(counts@[n as int] as int, curve_type, basis, wrap);
        }
        let at = Cursor { curve: n, vertex, varying, count, segments };
        assert(at == cursor(counts@, curve_type, basis, wrap, n as int));
        let control = vstd::slice::slice_subrange(points.as_slice(), vertex, vertex + count);
        let resolved = CurveWidths::select(widths, &at, curve_type);
        let ghost before = strands@;
        assert(before.open =~= Seq::<Knot>::empty());
        match curve_type {
            CurveType::Linear => {
                push_linear(&mut strands, control, &resolved);
                assert(strands@.open =~= linear_knots(control@, resolved@));
            },
            CurveType::Cubic => {
                let ghost stream = resolved@;
                push_cubic(
                    &mut strands,
                    control,
                    resolved,
                    basis,
                    pinning,
                    segments,
                    mirror,
                    mirror_width,
                    sample,
                    curved,
                );
                proof {
                    let knots = choose|knots: Seq<Knot>|
                        strands@.open == before.open + knots && #[trigger] traces(
                            *mirror,
                            *mirror_width,
                            *sample,
                            *curved,
                            control@,
                            stream,
                            basis,
                            pinning,
                            segments as int,
                            knots,
                        );
                    assert(before.open + knots =~= knots);
                }
            },
        }
        let ghost knots = strands@.open;
        proof {
            assert(walks(
                *mirror,
                *mirror_width,
                *sample,
                *curved,
                points@,
                counts@,
                *widths,
                curve_type,
                basis,
                wrap,
                n as int,
                knots,
            ));
            curves_have_knots(
                *mirror,
                *mirror_width,
                *sample,
                *curved,
                points@,
                counts@,
                *widths,
                curve_type,
                basis,
                wrap,
                n as int,
                knots,
            );
        }
        strands.end_strand();
        assert(strands@.strands =~= before.strands.push(knots));
        assert forall|i: int| 0 <= i < n + 1 implies walks(
            *mirror,
            *mirror_width,
            *sample,
            *curved,
            points@,
            counts@,
            *widths,
            curve_type,
            basis,
            wrap,
            i,
            #[trigger] strands@.strands[i],
        ) by {
            if i < n {
                assert(strands@.strands[i] == before.strands[i]);
            }
        }
        vertex = vertex + count;
        varying = varying + segments + 1;
    }
    Ok(strands)
}

/// Where there is no bad curve, every one has segments.
proof fn no_bad_curve(
    counts: Seq<u32>,
    curve_type: CurveType,
    basis: CurveBasis,
    wrap: CurveWrap,
    n: int,
)
    requires
        0 <= n <= counts.len(),
        validate::first_bad_curve(counts, curve_type, basis, wrap, n) is None,
    ensures
        forall|i: int|
            n <= i < counts.len() ==> segments_of(
                #[trigger] counts[i] as int,
                curve_type,
                basis,
                wrap,
            ) is Some,
    decreases counts.len() - n,
{
    if n < counts.len() {
        no_bad_curve(counts, curve_type, basis, wrap, n + 1);
    }
}

/// Later curves only add to what is counted.
proof fn counts_grow(
    counts: Seq<u32>,
    curve_type: CurveType,
    basis: CurveBasis,
    wrap: CurveWrap,
    n: int,
)
    requires
        0 <= n <= counts.len(),
        forall|i: int|
            0 <= i < counts.len() ==> segments_of(
                #[trigger] counts[i] as int,
                curve_type,
                basis,
                wrap,
            ) is Some,
    ensures
        validate::vertices_before(counts, n) <= validate::vertices_before(
            counts,
            counts.len() as int,
        ),
        validate::ends_before(counts, curve_type, basis, wrap, n) <= validate::ends_before(
            counts,
            curve_type,
            basis,
            wrap,
            counts.len() as int,
        ),
    decreases counts.len() - n,
{
    if n < counts.len() {
        counts_grow(counts, curve_type, basis, wrap, n + 1);
        segments_fit(counts[n] as int, curve_type, basis, wrap);
    }
}

/// Curves that all have segments, and together no more vertices than there
/// are points, are walked to the end.
proof fn no_fault(
    points: int,
    counts: Seq<u32>,
    curve_type: CurveType,
    basis: CurveBasis,
    wrap: CurveWrap,
    n: int,
)
    requires
        0 <= n <= counts.len(),
        validate::vertices_before(counts, counts.len() as int) <= points,
        forall|i: int|
            0 <= i < counts.len() ==> segments_of(
                #[trigger] counts[i] as int,
                curve_type,
                basis,
                wrap,
            ) is Some,
    ensures
        fault(points, counts, curve_type, basis, wrap, n) is None,
    decreases counts.len() - n,
{
    if n < counts.len() {
        counts_grow(counts, curve_type, basis, wrap, n + 1);
        no_fault(points, counts, curve_type, basis, wrap, n + 1);
    }
}

/// What validation accepts, the walk does not stumble over: the widths hold
/// all that it reads, and there is no fault.
pub proof fn valid_batches_are_walked(name: Seq<char>, batch: Curves, facts: validate::Facts)
    requires
        validate::curves_problem(name, batch, facts) is None,
        batch.source is Inline,
    ensures
        match batch.source {
            CurvesSource::Inline { points, curve_vertex_counts, widths, curve_type, basis, wrap } => {
                &&& served(
                    points@.len() as int,
                    curve_vertex_counts@,
                    widths,
                    curve_type,
                    basis,
                    wrap,
                )
                &&& fault(
                    points@.len() as int,
                    curve_vertex_counts@,
                    curve_type,
                    basis,
                    wrap,
                    0,
                ) is None
            },
            _ => false,
        },
{
    if let CurvesSource::Inline { points, curve_vertex_counts, widths, curve_type, basis, wrap } =
        batch.source {
        let counts = curve_vertex_counts@;
        let size = points@.len() as int;
        no_bad_curve(counts, curve_type, basis, wrap, 0);
        no_fault(size, counts, curve_type, basis, wrap, 0);
        if let Some(stream) = widths {
            assert forall|n: int|
                0 <= n < counts.len() && walkable(
                    size,
                    counts,
                    curve_type,
                    basis,
                    wrap,
                    n + 1,
                ) implies feeds(stream, #[trigger] cursor(counts, curve_type, basis, wrap, n)) by {
                assert((*points).len() == size);
                assert((*curve_vertex_counts).len() == counts.len());
                walks_fit(size, counts, curve_type, basis, wrap, n);
                counts_grow(counts, curve_type, basis, wrap, n + 1);
            }
        }
    }
}

// -- Tubes -----------------------------------------------------------------------

/// How many sides a tube has.
pub const SIDES: u32 = 3;

/// The encoding of 1.2091996: how far a ring's corners sit from the strand's
/// axis, so that its mean width is that of the strand.
pub const RING_CIRCUMRADIUS: u32 = 0x3f9a_c70d;

/// A number that a strand has for itself, and no neighbour is likely to have.
pub open spec fn scrambled(value: u32) -> u32 {
    let first = (value ^ (value >> 16)).wrapping_mul(0x7feb_352d);
    let second = (first ^ (first >> 15)).wrapping_mul(0x846c_a68b);
    second ^ (second >> 16)
}

/// A number that a strand has for itself: the same on every run.
pub fn hash(value: u32) -> (r: u32)
    ensures
        r == scrambled(value),
{
    let first: u32 = (value ^ (value >> 16)).wrapping_mul(0x7feb_352d);
    let second: u32 = (first ^ (first >> 15)).wrapping_mul(0x846c_a68b);
    second ^ (second >> 16)
}

/// The vertices of one strand's tube: a ring of them at each knot.
#[derive(Clone, Debug, PartialEq, Eq)]
pub struct Tube {
    /// Where they are.
    pub positions: Vec<Vec3>,
    /// The normal at each.
    pub normals: Vec<Vec3>,
    /// The texture coordinates at each.
    pub uvs: Vec<Vec2>,
}

impl Tube {
    /// There is a ring of vertices at each knot.
    pub open spec fn rings(self, knots: int) -> bool {
        &&& self.positions@.len() == SIDES * knots
        &&& self.normals@.len() == SIDES * knots
        &&& self.uvs@.len() == SIDES * knots
    }
}

/// The triangles of a tube, two to each side of each segment: one corner on
/// the near ring and two ahead, wound so that they face outward.
pub open spec fn tube_triangle(base: int, index: int) -> [u32; 3] {
    let near = base + SIDES * (index / 6);
    let far = near + SIDES;
    let side = index % 6 / 2;
    let next = (side + 1) % (SIDES as int);
    if index % 2 == 0 {
        [(near + side) as u32, (near + next) as u32, (far + side) as u32]
    } else {
        [(near + next) as u32, (far + next) as u32, (far + side) as u32]
    }
}

/// The triangles of a tube over some knots, whose vertices start at `base`.
pub open spec fn tube_triangles(base: int, knots: int) -> Seq<[u32; 3]> {
    Seq::new((6 * (knots - 1)) as nat, |i: int| tube_triangle(base, i))
}

/// The triangles of all tubes, strand after strand.
pub open spec fn all_triangles(strands: Seq<Seq<Knot>>) -> Seq<[u32; 3]>
    decreases strands.len(),
{
    if strands.len() == 0 {
        Seq::empty()
    } else {
        all_triangles(strands.drop_last()) + tube_triangles(
            SIDES * knots_in(strands.drop_last()),
            strands.last().len() as int,
        )
    }
}

/// `sweep` makes this tube of a strand.
pub open spec fn sweeps<F: Fn(&[Knot], u32) -> Tube>(
    sweep: F,
    knots: Seq<Knot>,
    noise: u32,
    tube: Tube,
) -> bool {
    exists|strand: &[Knot]|
        strand@ == knots && #[trigger] call_ensures(sweep, (strand, noise), tube)
}

/// The vertex arrays are those of the strands' tubes, one after the other.
pub open spec fn tubes<F: Fn(&[Knot], u32) -> Tube>(
    sweep: F,
    strands: Seq<Seq<Knot>>,
    positions: Seq<Vec3>,
    normals: Seq<Vec3>,
    uvs: Seq<Vec2>,
) -> bool
    decreases strands.len(),
{
    if strands.len() == 0 {
        positions.len() == 0 && normals.len() == 0 && uvs.len() == 0
    } else {
        let before = (SIDES * knots_in(strands.drop_last())) as int;
        &&& tubes(
            sweep,
            strands.drop_last(),
            positions.take(before),
            normals.take(before),
            uvs.take(before),
        )
        &&& exists|tube: Tube|
            #[trigger] sweeps(
                sweep,
                strands.last(),
                scrambled((strands.len() - 1) as u32),
                tube,
            ) && tube.positions@ == positions.skip(before) && tube.normals@ == normals.skip(before)
                && tube.uvs@ == uvs.skip(before)
    }
}

/// Every tube's triangles have their corners on its own rings.
proof fn tube_triangles_stay_inside(base: int, knots: int, index: int)
    requires
        0 <= base,
        0 <= index < 6 * (knots - 1),
        base + SIDES * knots <= u32::MAX,
    ensures
        mesh::within(tube_triangle(base, index), base + SIDES * knots),
        tube_triangle(base, index)[0] >= base,
        tube_triangle(base, index)[1] >= base,
        tube_triangle(base, index)[2] >= base,
{
    let side = index % 6 / 2;
    assert(0 <= side < 3);
    assert(0 <= (side + 1) % 3 < 3);
    assert(index / 6 <= knots - 2);
}

/// More knots only come with more strands.
proof fn knots_add_up(strands: Seq<Seq<Knot>>, n: int)
    requires
        0 <= n <= strands.len(),
    ensures
        knots_in(strands.take(n)) <= knots_in(strands),
    decreases strands.len() - n,
{
    if n < strands.len() {
        knots_add_up(strands, n + 1);
        assert(strands.take(n + 1).drop_last() =~= strands.take(n));
    } else {
        assert(strands.take(n) =~= strands);
    }
}

/// Append the triangles of one tube.
fn push_triangles(triangles: &mut Vec<[u32; 3]>, base: u32, knots: usize)
    requires
        knots >= 1,
        base + SIDES * knots <= u32::MAX,
    ensures
        final(triangles)@ == old(triangles)@ + tube_triangles(base as int, knots as int),
{
    let ghost before = triangles@;
    let ghost all = tube_triangles(base as int, knots as int);
    let count: u64 = 6 * (knots as u64 - 1);
    assert(triangles@ =~= before + all.take(0));
    for i in 0..count
        invariant
            knots >= 1,
            base + SIDES * knots <= u32::MAX,
            count == 6 * (knots - 1),
            all == tube_triangles(base as int, knots as int),
            triangles@ == before + all.take(i as int),
    {
        proof {
            tube_triangles_stay_inside(base as int, knots as int, i as int);
        }
        let near: u32 = base + 3 * (i / 6) as u32;
        let far: u32 = near + 3;
        let side: u32 = (i % 6 / 2) as u32;
        let next: u32 = (side + 1) % 3;
        let triangle: [u32; 3] = if i % 2 == 0 {
            [near + side, near + next, far + side]
        } else {
            [near + next, far + next, far + side]
        };
        assert(triangle =~= all[i as int]);
        triangles.push(triangle);
        assert(triangles@ =~= before + all.take(i + 1));
    }
    assert(all.take(count as int) =~= all);
}

/// Append values.
fn extend<T: Copy>(all: &mut Vec<T>, more: &Vec<T>)
    ensures
        final(all)@ == old(all)@ + more@,
{
    let ghost before = all@;
    assert(all@ =~= before + more@.take(0));
    for i in 0..more.len()
        invariant
            all@ == before + more@.take(i as int),
    {
        all.push(more[i]);
        assert(all@ =~= before + more@.take(i + 1));
    }
    assert(more@.take(more@.len() as int) =~= more@);
}

/// Gives a tube with as many rings as there are knots.
pub open spec fn rings_all<F: Fn(&[Knot], u32) -> Tube>(sweep: F) -> bool {
    &&& forall|strand: &[Knot], noise: u32| call_requires(sweep, (strand, noise))
    &&& forall|strand: &[Knot], noise: u32, tube: Tube|
        call_ensures(sweep, (strand, noise), tube) ==> tube.rings(strand@.len() as int)
}

/// Sweep a tube along every strand. Where a strand's rings go is what `sweep`
/// says, from its knots and the number it has for itself.
pub fn tessellate<F: Fn(&[Knot], u32) -> Tube>(strands: &Strands, sweep: &F) -> (r: Mesh)
    requires
        SIDES * knots_in(strands@.strands) <= u32::MAX,
        rings_all(*sweep),
    ensures
        r.wf(),
        r.positions@.len() == SIDES * knots_in(strands@.strands),
        r.triangles@ == all_triangles(strands@.strands),
        tubes(*sweep, strands@.strands, r.positions@, r.normals@, r.uvs@),
{
    let ghost all = strands@.strands;
    let mut positions: Vec<Vec3> = Vec::new();
    let mut normals: Vec<Vec3> = Vec::new();
    let mut uvs: Vec<Vec2> = Vec::new();
    let mut triangles: Vec<[u32; 3]> = Vec::new();
    assert(all.take(0) =~= Seq::<Seq<Knot>>::empty());
    let count: usize = strands.len();
    for i in 0..count
        invariant
            all == strands@.strands,
            count == all.len(),
            SIDES * knots_in(all) <= u32::MAX,
            rings_all(*sweep),
            positions@.len() == SIDES * knots_in(all.take(i as int)),
            normals@.len() == positions@.len(),
            uvs@.len() == positions@.len(),
            triangles@ == all_triangles(all.take(i as int)),
            forall|j: int|
                0 <= j < triangles@.len() ==> mesh::within(
                    #[trigger] triangles@[j],
                    positions@.len() as int,
                ),
            tubes(*sweep, all.take(i as int), positions@, normals@, uvs@),
    {
        let strand = strands.strand(i);
        let noise: u32 = hash(i as u32);
        let tube = sweep(strand, noise);
        proof {
            let longer = all.take(i + 1);
            assert(longer.drop_last() =~= all.take(i as int));
            assert(longer.last() == strand@);
            knots_add_up(all, i + 1);
        }
        let base: u32 = positions.len() as u32;
        let ghost before = (positions@, normals@, uvs@, triangles@);
        extend(&mut positions, &tube.positions);
        extend(&mut normals, &tube.normals);
        extend(&mut uvs, &tube.uvs);
        push_triangles(&mut triangles, base, strand.len());
        proof {
            let longer = all.take(i + 1);
            let start = before.0.len() as int;
            assert(positions@.take(start) =~= before.0);
            assert(normals@.take(start) =~= before.1);
            assert(uvs@.take(start) =~= before.2);
            assert(positions@.skip(start) =~= tube.positions@);
            assert(normals@.skip(start) =~= tube.normals@);
            assert(uvs@.skip(start) =~= tube.uvs@);
            assert(sweeps(*sweep, strand@, noise, tube));
            assert(tubes(*sweep, longer, positions@, normals@, uvs@));
            let fresh = tube_triangles(base as int, strand@.len() as int);
            assert forall|j: int| 0 <= j < triangles@.len() implies mesh::within(
                #[trigger] triangles@[j],
                positions@.len() as int,
            ) by {
                if j < before.3.len() {
                    assert(triangles@[j] == before.3[j]);
                } else {
                    let k = j - before.3.len();
                    assert(triangles@[j] == fresh[k]);
                    tube_triangles_stay_inside(base as int, strand@.len() as int, k);
                }
            }
        }
    }
    assert(all.take(count as int) =~= all);
    Mesh { positions, normals, uvs, triangles }
}

// -- Batches ---------------------------------------------------------------------

/// The most knots that the first `n` curves can have.
pub open spec fn most_before(
    counts: Seq<u32>,
    curve_type: CurveType,
    basis: CurveBasis,
    wrap: CurveWrap,
    n: int,
) -> int
    decreases n,
{
    if n <= 0 {
        0
    } else {
        most_before(counts, curve_type, basis, wrap, n - 1) + most_knots(
            counts[n - 1] as int,
            segments_of(counts[n - 1] as int, curve_type, basis, wrap)->0,
            curve_type,
        )
    }
}

/// Strands that each have no more knots than their curves allow have no more
/// together.
proof fn batches_stay_small<
    P: Fn(Vec3, Vec3) -> Vec3,
    W: Fn(Num, Num) -> Num,
    K: Fn(Span, u32) -> Knot,
    C: Fn(Span, u32, u32) -> bool,
>(
    mirror: P,
    mirror_width: W,
    sample: K,
    curved: C,
    points: Seq<Vec3>,
    counts: Seq<u32>,
    widths: Option<Widths>,
    curve_type: CurveType,
    basis: CurveBasis,
    wrap: CurveWrap,
    strands: Seq<Seq<Knot>>,
    n: int,
)
    requires
        points.len() <= usize::MAX,
        0 <= n <= counts.len() == strands.len(),
        walkable(points.len() as int, counts, curve_type, basis, wrap, counts.len() as int),
        forall|i: int|
            0 <= i < counts.len() ==> walks(
                mirror,
                mirror_width,
                sample,
                curved,
                points,
                counts,
                widths,
                curve_type,
                basis,
                wrap,
                i,
                #[trigger] strands[i],
            ),
    ensures
        knots_in(strands.take(n)) <= most_before(counts, curve_type, basis, wrap, n),
    decreases n,
{
    if n > 0 {
        batches_stay_small(
            mirror,
            mirror_width,
            sample,
            curved,
            points,
            counts,
            widths,
            curve_type,
            basis,
            wrap,
            strands,
            n - 1,
        );
        assert(strands.take(n).drop_last() =~= strands.take(n - 1));
        assert(walkable(points.len() as int, counts, curve_type, basis, wrap, n));
        curves_have_knots(
            mirror,
            mirror_width,
            sample,
            curved,
            points,
            counts,
            widths,
            curve_type,
            basis,
            wrap,
            n - 1,
            strands[n - 1],
        );
    }
}

/// `strands` are those of a batch: what its curves are walked to, or what its
/// groom holds.
pub open spec fn batch_strands<
    P: Fn(Vec3, Vec3) -> Vec3,
    W: Fn(Num, Num) -> Num,
    K: Fn(Span, u32) -> Knot,
    C: Fn(Span, u32, u32) -> bool,
>(
    mirror: P,
    mirror_width: W,
    sample: K,
    curved: C,
    batch: Curves,
    groom: Bundle,
    strands: Seq<Seq<Knot>>,
) -> bool {
    match batch.source {
        CurvesSource::Inline { points, curve_vertex_counts, widths, curve_type, basis, wrap } => {
            &&& strands.len() == curve_vertex_counts@.len()
            &&& forall|n: int|
                0 <= n < strands.len() ==> walks(
                    mirror,
                    mirror_width,
                    sample,
                    curved,
                    points@,
                    curve_vertex_counts@,
                    widths,
                    curve_type,
                    basis,
                    wrap,
                    n,
                    #[trigger] strands[n],
                )
        },
        CurvesSource::Hair { .. } => strands == groom.strands,
    }
}

/// Why a batch has no geometry, if it has none.
pub open spec fn batch_problem(
    name: Seq<char>,
    batch: Curves,
    groom: Bundle,
) -> Option<Problem<Seq<char>>> {
    match batch.source {
        CurvesSource::Inline { points, curve_vertex_counts, widths, curve_type, basis, wrap } => {
            match fault(
                points@.len() as int,
                curve_vertex_counts@,
                curve_type,
                basis,
                wrap,
                0,
            ) {
                Some(problem) => Some(Problem::Unwalkable { name, problem }),
                None => if curve_vertex_counts@.len() == 0 {
                    Some(Problem::NoStrand { name })
                } else {
                    None
                },
            }
        },
        CurvesSource::Hair { .. } => if groom.strands.len() == 0 {
            Some(Problem::NoStrand { name })
        } else {
            None
        },
    }
}

/// A batch's widths hold what its curves read, and the vertices around the
/// strands that it walks to can be counted.
pub open spec fn resolvable<
    P: Fn(Vec3, Vec3) -> Vec3,
    W: Fn(Num, Num) -> Num,
    K: Fn(Span, u32) -> Knot,
    C: Fn(Span, u32, u32) -> bool,
>(
    mirror: P,
    mirror_width: W,
    sample: K,
    curved: C,
    batch: Curves,
    groom: Bundle,
) -> bool {
    match batch.source {
        CurvesSource::Inline { points, curve_vertex_counts, widths, curve_type, basis, wrap } => {
            &&& served(
                points@.len() as int,
                curve_vertex_counts@,
                widths,
                curve_type,
                basis,
                wrap,
            )
            &&& fault(
                points@.len() as int,
                curve_vertex_counts@,
                curve_type,
                basis,
                wrap,
                0,
            ) is None ==> forall|strands: Seq<Seq<Knot>>| #[trigger]
                batch_strands(mirror, mirror_width, sample, curved, batch, groom, strands)
                    ==> SIDES * knots_in(strands) <= u32::MAX
        },
        CurvesSource::Hair { .. } => SIDES * knots_in(groom.strands) <= u32::MAX,
    }
}

/// Curves without a fault are walked to the end.
proof fn faultless_curves_are_walkable(
    points: int,
    counts: Seq<u32>,
    curve_type: CurveType,
    basis: CurveBasis,
    wrap: CurveWrap,
    n: int,
)
    requires
        0 <= n <= counts.len(),
        fault(points, counts, curve_type, basis, wrap, 0) is None,
    ensures
        fault(points, counts, curve_type, basis, wrap, n) is None,
        walkable(points, counts, curve_type, basis, wrap, n),
    decreases n,
{
    if n > 0 {
        faultless_curves_are_walkable(points, counts, curve_type, basis, wrap, n - 1);
    }
}

/// A batch whose curves have few enough vertices and segments can be resolved,
/// however they bend.
pub proof fn small_batches_are_resolvable<
    P: Fn(Vec3, Vec3) -> Vec3,
    W: Fn(Num, Num) -> Num,
    K: Fn(Span, u32) -> Knot,
    C: Fn(Span, u32, u32) -> bool,
>(
    mirror: P,
    mirror_width: W,
    sample: K,
    curved: C,
    batch: Curves,
    groom: Bundle,
)
    requires
        batch.source matches CurvesSource::Inline {
            points,
            curve_vertex_counts,
            widths,
            curve_type,
            basis,
            wrap,
        } && points@.len() <= usize::MAX && served(
            points@.len() as int,
            curve_vertex_counts@,
            widths,
            curve_type,
            basis,
            wrap,
        ) && SIDES * most_before(
            curve_vertex_counts@,
            curve_type,
            basis,
            wrap,
            curve_vertex_counts@.len() as int,
        ) <= u32::MAX,
    ensures
        resolvable(mirror, mirror_width, sample, curved, batch, groom),
{
    if let CurvesSource::Inline { points, curve_vertex_counts, widths, curve_type, basis, wrap } =
        batch.source {
        let counts = curve_vertex_counts@;
        let size = points@.len() as int;
        if fault(size, counts, curve_type, basis, wrap, 0) is None {
            faultless_curves_are_walkable(
                size,
                counts,
                curve_type,
                basis,
                wrap,
                counts.len() as int,
            );
            assert forall|strands: Seq<Seq<Knot>>| #[trigger]
                batch_strands(
                    mirror,
                    mirror_width,
                    sample,
                    curved,
                    batch,
                    groom,
                    strands,
                ) implies SIDES * knots_in(strands) <= u32::MAX by {
                batches_stay_small(
                    mirror,
                    mirror_width,
                    sample,
                    curved,
                    points@,
                    counts,
                    widths,
                    curve_type,
                    basis,
                    wrap,
                    strands,
                    counts.len() as int,
                );
                assert(strands.take(counts.len() as int) =~= strands);
            }
        }
    }
}

/// Turn a batch of curves into triangles: the strands that its cells walk to,
/// or those of the groom that was read from its file, each swept by a tube. A
/// batch that sweeps nothing is refused.
pub fn resolve<
    P: Fn(Vec3, Vec3) -> Vec3,
    W: Fn(Num, Num) -> Num,
    K: Fn(Span, u32) -> Knot,
    C: Fn(Span, u32, u32) -> bool,
    F: Fn(&[Knot], u32) -> Tube,
>(
    name: &String,
    curves: &Curves,
    groom: &Strands,
    mirror: &P,
    mirror_width: &W,
    sample: &K,
    curved: &C,
    sweep: &F,
) -> (r: Result<Mesh, SceneError>)
    requires
        able(*mirror, *mirror_width, *sample, *curved),
        resolvable(*mirror, *mirror_width, *sample, *curved, *curves, groom@),
        rings_all(*sweep),
    ensures
        r is Err == batch_problem(name@, *curves, groom@) is Some,
        r matches Err(error) ==> batch_problem(name@, *curves, groom@) == Some(error@),
        r matches Ok(mesh) ==> mesh.wf() && exists|strands: Seq<Seq<Knot>>|
            #[trigger] batch_strands(
                *mirror,
                *mirror_width,
                *sample,
                *curved,
                *curves,
                groom@,
                strands,
            ) && mesh.positions@.len() == SIDES * knots_in(strands) && mesh.triangles@ == all_triangles(
                strands,
            ) && tubes(
                *sweep,
                strands,
                mesh.positions@,
                mesh.normals@,
                mesh.uvs@,
            ),
{
    match &curves.source {
        CurvesSource::Inline { points, curve_vertex_counts, widths, curve_type, basis, wrap } => {
            match evaluate(
                points,
                curve_vertex_counts,
                widths,
                *curve_type,
                *basis,
                *wrap,
                mirror,
                mirror_width,
                sample,
                curved,
            ) {
                Err(problem) => Err(Problem::Unwalkable { name: name.clone(), problem }),
                Ok(strands) => {
                    if strands.len() == 0 {
                        return Err(Problem::NoStrand { name: name.clone() });
                    }
                    proof {
                        let all = strands@.strands;
                        assert(batch_strands(
                            *mirror,
                            *mirror_width,
                            *sample,
                            *curved,
                            *curves,
                            groom@,
                            all,
                        ));
                    }
                    Ok(tessellate(&strands, sweep))
                },
            }
        },
        CurvesSource::Hair { .. } => {
            if groom.len() == 0 {
                return Err(Problem::NoStrand { name: name.clone() });
            }
            assert(batch_strands(
                *mirror,
                *mirror_width,
                *sample,
                *curved,
                *curves,
                groom@,
                groom@.strands,
            ));
            Ok(tessellate(groom, sweep))
        },
    }
}

} // verus!
