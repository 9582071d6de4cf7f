//! What curves read of their points and widths, and how their tubes are joined.

use vstd::prelude::*;

use crate::bits::{Num, Vec2, Vec3};
use crate::curves;
use crate::curves::{Cursor, Knot, SegmentWidths, Span, Stream, Tube, SIDES};
use crate::description::{CurveBasis, CurveType, CurveWrap, WidthInterpolation, Widths};

verus! {

/// How many segments curves have: a linear one or a pinned one fills the gaps
/// between its vertices, a cubic one has four vertices for its first segment and
/// for every other one more, or three more where its segments share but one
/// point. A curve of any other count has none, nor has one that closes on itself.
pub proof fn segments_take_their_vertices(
    count: int,
    curve_type: CurveType,
    basis: CurveBasis,
    wrap: CurveWrap,
    segments: int,
)
    requires
        0 <= count,
        1 <= segments,
    ensures
        wrap is Periodic ==> curves::segments_of(count, curve_type, basis, wrap) is None,
        !(wrap is Periodic) && curve_type is Linear ==> (curves::segments_of(
            count,
            curve_type,
            basis,
            wrap,
        ) == Some(segments)) == (count == segments + 1),
        wrap is Pinned && curve_type is Cubic && !(basis is Bezier) ==> (curves::segments_of(
            count,
            curve_type,
            basis,
            wrap,
        ) == Some(segments)) == (count == segments + 1),
        !(wrap is Periodic) && curve_type is Cubic && basis is Bezier ==> (curves::segments_of(
            count,
            curve_type,
            basis,
            wrap,
        ) == Some(segments)) == (count == 3 * segments + 1),
        wrap is Nonperiodic && curve_type is Cubic && !(basis is Bezier) ==> (curves::segments_of(
            count,
            curve_type,
            basis,
            wrap,
        ) == Some(segments)) == (count == segments + 3),
{
}

/// The four widths that go with four control points, as radii.
pub open spec fn halves_of(values: Seq<Num>, from: int) -> SegmentWidths {
    SegmentWidths::Cubic(
        values[from].halved(),
        values[from + 1].halved(),
        values[from + 2].halved(),
        values[from + 3].halved(),
    )
}

/// A span reads four control points in a row, and where widths go with the points,
/// the widths of those very points. One span further on they are three further
/// on where spans share but one point, and else one further on. Where widths go
/// with the ends of segments, a span reads those of its own two ends.
pub proof fn spans_read_the_widths_of_their_points(
    basis: CurveBasis,
    points: Seq<Vec3>,
    stream: Stream,
    segments: int,
    i: int,
)
    requires
        0 <= i < segments,
    ensures
        ({
            let span = curves::spans(basis, points, stream, segments)[i];
            let from = if basis is Bezier {
                3 * i
            } else {
                i
            };
            &&& curves::spans(basis, points, stream, segments).len() == segments
            &&& span.basis == basis
            &&& span.first == points[from]
            &&& span.second == points[from + 1]
            &&& span.third == points[from + 2]
            &&& span.fourth == points[from + 3]
            &&& stream matches Stream::Controls(values) ==> span.widths == halves_of(values, from)
            &&& stream matches Stream::Ends(values) ==> span.widths == SegmentWidths::Ends(
                values[i].halved(),
                values[i + 1].halved(),
            )
            &&& stream matches Stream::Everywhere(radius) ==> span.widths
                == SegmentWidths::Everywhere(radius)
        }),
{
    assert(i * 3 == 3 * i && i * 1 == i);
}

/// Where a span ends the next one begins: on one point and one width where spans
/// share one, and else with three of each in common.
pub proof fn spans_join(
    basis: CurveBasis,
    points: Seq<Vec3>,
    values: Seq<Num>,
    segments: int,
    i: int,
)
    requires
        0 <= i < segments - 1,
    ensures
        ({
            let chain = curves::spans(basis, points, Stream::Controls(values), segments);
            let (one, next) = (chain[i], chain[i + 1]);
            &&& basis is Bezier ==> next.first == one.fourth && next.widths->Cubic_0
                == one.widths->Cubic_3
            &&& !(basis is Bezier) ==> next.first == one.second && next.second == one.third
                && next.third == one.fourth && next.widths->Cubic_0 == one.widths->Cubic_1
                && next.widths->Cubic_1 == one.widths->Cubic_2 && next.widths->Cubic_2
                == one.widths->Cubic_3
        }),
{
    spans_read_the_widths_of_their_points(basis, points, Stream::Controls(values), segments, i);
    spans_read_the_widths_of_their_points(basis, points, Stream::Controls(values), segments, i + 1);
}

/// How many vertices come before a curve: those of every curve before it.
pub proof fn curves_follow_each_other(counts: Seq<u32>, n: int)
    requires
        0 <= n < counts.len(),
    ensures
        crate::validate::vertices_before(counts, 0) == 0,
        crate::validate::vertices_before(counts, n + 1) == crate::validate::vertices_before(
            counts,
            n,
        ) + counts[n],
{
}

/// The radius that a batch's widths say at vertex `i` of linear curve `n`, whose first
/// vertex is the batch's vertex `from`: a half of one where nothing is said, and
/// else a half of the one value, of the curve's value, or of the vertex's.
pub open spec fn radius_said(widths: Option<Widths>, n: int, from: int, i: int) -> Num {
    match widths {
        None => Num { bits: 0x3f00_0000 },
        Some(widths) => match widths.interpolation {
            WidthInterpolation::Constant => widths.values@[0].halved(),
            WidthInterpolation::Uniform => widths.values@[n].halved(),
            WidthInterpolation::Varying => widths.values@[from + i].halved(),
            WidthInterpolation::Vertex => widths.values@[from + i].halved(),
        },
    }
}

/// Linear curves have as many segment ends before them as vertices.
proof fn linear_ends_are_vertices(counts: Seq<u32>, basis: CurveBasis, wrap: CurveWrap, n: int)
    requires
        0 <= n <= counts.len(),
        forall|i: int|
            0 <= i < n ==> curves::segments_of(
                #[trigger] counts[i] as int,
                CurveType::Linear,
                basis,
                wrap,
            ) is Some,
    ensures
        crate::validate::ends_before(counts, CurveType::Linear, basis, wrap, n)
            == crate::validate::vertices_before(counts, n),
    decreases n,
{
    if n > 0 {
        linear_ends_are_vertices(counts, basis, wrap, n - 1);
        assert(curves::segments_of(
            counts[n - 1] as int,
            CurveType::Linear,
            basis,
            wrap,
        ) is Some);
    }
}

/// The strand of a linear curve is the curve's own vertices in order, each with the
/// radius that the widths say there, as far as that is one.
pub proof fn linear_strands_are_their_vertices<
    P: Fn(Vec3, Vec3) -> Vec3,
    W: Fn(Num, Num) -> Num,
    K: Fn(Span, u32) -> Knot,
    C: Fn(Span, u32, u32) -> bool,
>(
    mirror: P,
    mirror_width: W,
    sample: K,
    curved: C,
    points: Seq<Vec3>,
    counts: Seq<u32>,
    widths: Option<Widths>,
    basis: CurveBasis,
    wrap: CurveWrap,
    n: int,
    knots: Seq<Knot>,
    i: int,
)
    requires
        curves::walks(
            mirror,
            mirror_width,
            sample,
            curved,
            points,
            counts,
            widths,
            CurveType::Linear,
            basis,
            wrap,
            n,
            knots,
        ),
        0 <= n < counts.len(),
        curves::walkable(points.len() as int, counts, CurveType::Linear, basis, wrap, n + 1),
        curves::served(points.len() as int, counts, widths, CurveType::Linear, basis, wrap),
        points.len() <= usize::MAX,
        counts.len() <= usize::MAX,
        0 <= i < counts[n],
    ensures
        ({
            let from = crate::validate::vertices_before(counts, n);
            let radius = radius_said(widths, n, from, i);
            &&& knots.len() == counts[n]
            &&& knots[i].point == points[from + i]
            &&& 0 < radius.bits < 0x7f80_0000 ==> knots[i].radius == radius
            &&& !(0 < radius.bits < 0x7f80_0000) ==> knots[i].radius.bits == 0
        }),
{
    curves::walks_fit(points.len() as int, counts, CurveType::Linear, basis, wrap, n);
    linear_ends_are_vertices(counts, basis, wrap, n);
    assert(curves::segments_of(counts[n] as int, CurveType::Linear, basis, wrap) is Some);
    let at = curves::cursor(counts, CurveType::Linear, basis, wrap, n);
    let from = crate::validate::vertices_before(counts, n);
    if let Some(given) = widths {
        assert(curves::feeds(given, at));
    }
    let radius = radius_said(widths, n, from, i);
    crate::numbers::settling_keeps_radii(radius);
    let control = points.subrange(at.vertex as int, at.vertex + at.count);
    let stream = curves::selected(widths, at, CurveType::Linear);
    assert(control[i] == points[from + i]);
    assert(knots == curves::linear_knots(control, stream));
    if let Some(given) = widths {
        match given.interpolation {
            WidthInterpolation::Constant => {},
            WidthInterpolation::Uniform => {},
            WidthInterpolation::Varying => {
                let part = given.values@.subrange(
                    at.varying as int,
                    at.varying + at.segments + 1,
                );
                assert(stream == Stream::Ends(part));
                assert(part[i] == given.values@[from + i]);
            },
            WidthInterpolation::Vertex => {
                let part = given.values@.subrange(at.vertex as int, at.vertex + at.count);
                assert(stream == Stream::Ends(part));
                assert(part[i] == given.values@[from + i]);
            },
        }
    }
    assert(curves::vertex_radius(stream, i) == radius);
    assert(knots[i] == (Knot { point: points[from + i], radius }).settled());
}

/// A sampler that runs through the ends of spans: at the start of one it gives the
/// first point, at its end the fourth, with the width of each.
pub open spec fn meets_ends<K: Fn(Span, u32) -> Knot>(sample: K) -> bool {
    &&& forall|span: Span, knot: Knot| #[trigger]
        call_ensures(sample, (span, 0), knot) && span.widths is Cubic ==> knot == (Knot {
            point: span.first,
            radius: span.widths->Cubic_0,
        })
    &&& forall|span: Span, knot: Knot| #[trigger]
        call_ensures(sample, (span, 8), knot) && span.widths is Cubic ==> knot == (Knot {
            point: span.fourth,
            radius: span.widths->Cubic_3,
        })
}

/// The last knot of a chain of spans is where its last span ends.
proof fn chains_end_with_their_last_span<K: Fn(Span, u32) -> Knot, C: Fn(Span, u32, u32) -> bool>(
    sample: K,
    curved: C,
    chain: Seq<Span>,
    knots: Seq<Knot>,
)
    requires
        chain.len() > 0,
        curves::follows(sample, curved, chain, knots),
    ensures
        knots.len() > 0,
        curves::samples(sample, chain.last(), 8, knots.last()),
{
    let (front, back) = choose|front: Seq<Knot>, back: Seq<Knot>|
        knots == #[trigger] (front + back) && curves::follows(
            sample,
            curved,
            chain.drop_last(),
            front,
        ) && curves::flattens(sample, curved, chain.last(), back);
    let places = choose|places: Seq<u32>|
        #[trigger] curves::cuts(curved, chain.last(), 0, 8, 3, places) && curves::samples_all(
            sample,
            chain.last(),
            places,
            back,
        );
    vstd::arithmetic::power2::lemma2_to64();
    curves::pieces_follow_each_other(curved, chain.last(), 0, 8, 3, places);
    assert(back.last() == knots.last());
    assert(curves::samples(sample, chain.last(), places[places.len() - 1], back[back.len() - 1]));
}

/// A curve whose spans share one point runs from its first vertex to its last, and
/// where widths go with the vertices, from half of its first width to half of its
/// last: a hair that tapers to a point ends in one.
pub proof fn bezier_strands_run_from_end_to_end<
    P: Fn(Vec3, Vec3) -> Vec3,
    W: Fn(Num, Num) -> Num,
    K: Fn(Span, u32) -> Knot,
    C: Fn(Span, u32, u32) -> bool,
>(
    mirror: P,
    mirror_width: W,
    sample: K,
    curved: C,
    points: Seq<Vec3>,
    counts: Seq<u32>,
    widths: Widths,
    wrap: CurveWrap,
    n: int,
    knots: Seq<Knot>,
)
    requires
        curves::walks(
            mirror,
            mirror_width,
            sample,
            curved,
            points,
            counts,
            Some(widths),
            CurveType::Cubic,
            CurveBasis::Bezier,
            wrap,
            n,
            knots,
        ),
        0 <= n < counts.len(),
        curves::walkable(
            points.len() as int,
            counts,
            CurveType::Cubic,
            CurveBasis::Bezier,
            wrap,
            n + 1,
        ),
        curves::served(
            points.len() as int,
            counts,
            Some(widths),
            CurveType::Cubic,
            CurveBasis::Bezier,
            wrap,
        ),
        points.len() <= usize::MAX,
        widths.interpolation is Vertex,
        meets_ends(sample),
    ensures
        ({
            let from = crate::validate::vertices_before(counts, n);
            let to = from + counts[n] - 1;
            &&& knots.len() >= 2
            &&& knots[0] == (Knot {
                point: points[from],
                radius: widths.values@[from].halved(),
            }).settled()
            &&& knots.last() == (Knot {
                point: points[to],
                radius: widths.values@[to].halved(),
            }).settled()
        }),
{
    let curve_type = CurveType::Cubic;
    let basis = CurveBasis::Bezier;
    curves::walks_fit(points.len() as int, counts, curve_type, basis, wrap, n);
    assert(curves::segments_of(counts[n] as int, curve_type, basis, wrap) is Some);
    curves::segments_fit(counts[n] as int, curve_type, basis, wrap);
    let at = curves::cursor(counts, curve_type, basis, wrap, n);
    assert(curves::feeds(widths, at));
    let from = crate::validate::vertices_before(counts, n);
    let to = from + counts[n] - 1;
    let segments = at.segments as int;
    assert(counts[n] == 3 * segments + 1);
    let control = points.subrange(at.vertex as int, at.vertex + at.count);
    let stream = curves::selected(Some(widths), at, curve_type);
    let (long, wide, root, rest) = choose|
        long: Seq<Vec3>,
        wide: Stream,
        root: Knot,
        rest: Seq<Knot>,
    |
        #![trigger curves::unpacked(mirror, control, false, long), curves::unpacked_widths(mirror_width, stream, false, wide), curves::samples(sample, curves::spans(basis, long, wide, segments)[0], 0, root), curves::follows(sample, curved, curves::spans(basis, long, wide, segments), rest)]
        curves::unpacked(mirror, control, false, long) && curves::unpacked_widths(
            mirror_width,
            stream,
            false,
            wide,
        ) && curves::samples(sample, curves::spans(basis, long, wide, segments)[0], 0, root)
            && curves::follows(sample, curved, curves::spans(basis, long, wide, segments), rest)
            && knots == seq![root] + rest;
    let chain = curves::spans(basis, long, wide, segments);
    let values = widths.values@.subrange(at.vertex as int, at.vertex + at.count);
    assert(wide == Stream::Controls(values));
    spans_read_the_widths_of_their_points(basis, long, wide, segments, 0);
    spans_read_the_widths_of_their_points(basis, long, wide, segments, segments - 1);
    chains_end_with_their_last_span(sample, curved, chain, rest);
    assert(knots[0] == root);
    assert(knots.last() == rest.last());
    let raw = choose|raw: Knot| #[trigger]
        call_ensures(sample, (chain[0], 0), raw) && root == raw.settled();
    let tip = choose|raw: Knot| #[trigger]
        call_ensures(sample, (chain.last(), 8), raw) && rest.last() == raw.settled();
    assert(chain.last() == chain[segments - 1]);
    assert(tip == Knot { point: control[3 * segments], radius: values[3 * segments].halved() });
    assert(control[3 * segments] == points[to]);
    assert(values[3 * segments] == widths.values@[to]);
}

/// The points that a pinned curve is given beyond its ends: what was there stays, in
/// order, and each of the two new ones is the neighbour of an end mirrored in it.
pub proof fn pinned_curves_are_carried_out<T, M: Fn(T, T) -> T>(
    mirror: M,
    values: Seq<T>,
    longer: Seq<T>,
    i: int,
)
    requires
        values.len() >= 2,
        curves::unpacks(mirror, values, longer),
        0 <= i < values.len(),
    ensures
        longer.len() == values.len() + 2,
        longer[i + 1] == values[i],
        call_ensures(mirror, (values[0], values[1]), longer.first()),
        call_ensures(mirror, (values.last(), values[values.len() - 2]), longer.last()),
{
    assert(longer.subrange(1, values.len() as int + 1)[i] == longer[i + 1]);
}

/// Between two rings of a tube every side is a quad of two triangles: corners `side`
/// and the next of the near ring, then of the far one. The two share a diagonal
/// and run through it in opposite directions, so both face the same way.
pub proof fn tubes_are_closed_side_by_side(base: int, knots: int, segment: int, side: int)
    requires
        0 <= base,
        base + 3 * knots <= u32::MAX,
        0 <= segment < knots - 1,
        0 <= side < 3,
    ensures
        ({
            let next = if side == 2 {
                0
            } else {
                side + 1
            };
            let near = base + 3 * segment;
            let far = near + 3;
            let all = curves::tube_triangles(base, knots);
            let one = all[6 * segment + 2 * side];
            let two = all[6 * segment + 2 * side + 1];
            &&& all.len() == 6 * (knots - 1)
            &&& one[0] == near + side && one[1] == near + next && one[2] == far + side
            &&& two[0] == near + next && two[1] == far + next && two[2] == far + side
        }),
{
    let index = 6 * segment + 2 * side;
    assert(index / 6 == segment && index % 6 / 2 == side && index % 2 == 0);
    assert((index + 1) / 6 == segment && (index + 1) % 6 / 2 == side && (index + 1) % 2 == 1);
}

/// Strand `i` of a batch has its tube in the vertex arrays behind those of the strands
/// before it, swept with the number that is the strand's own.
pub proof fn every_strand_has_its_tube<F: Fn(&[Knot], u32) -> Tube>(
    sweep: F,
    strands: Seq<Seq<Knot>>,
    positions: Seq<Vec3>,
    normals: Seq<Vec3>,
    uvs: Seq<Vec2>,
    i: int,
)
    requires
        curves::tubes(sweep, strands, positions, normals, uvs),
        positions.len() == 3 * curves::knots_in(strands),
        normals.len() == 3 * curves::knots_in(strands),
        uvs.len() == 3 * curves::knots_in(strands),
        0 <= i < strands.len(),
    ensures
        exists|tube: Tube|
            {
                let from = 3 * curves::knots_in(strands.take(i)) as int;
                let to = from + 3 * strands[i].len();
                &&& #[trigger] curves::sweeps(sweep, strands[i], curves::scrambled(i as u32), tube)
                &&& to <= positions.len() && to <= normals.len() && to <= uvs.len()
                &&& tube.positions@ == positions.subrange(from, to)
                &&& tube.normals@ == normals.subrange(from, to)
                &&& tube.uvs@ == uvs.subrange(from, to)
            },
    decreases strands.len(),
{
    let last = strands.len() - 1;
    let before = (SIDES * curves::knots_in(strands.drop_last())) as int;
    let tube = choose|tube: Tube|
        #[trigger] curves::sweeps(sweep, strands.last(), curves::scrambled(last as u32), tube)
            && tube.positions@ == positions.skip(before) && tube.normals@ == normals.skip(before)
            && tube.uvs@ == uvs.skip(before);
    if i == last {
        assert(strands.take(i) =~= strands.drop_last());
        let to = before + 3 * strands[i].len();
        assert(positions.skip(before) =~= positions.subrange(before, to));
        assert(normals.skip(before) =~= normals.subrange(before, to));
        assert(uvs.skip(before) =~= uvs.subrange(before, to));
        assert(curves::sweeps(sweep, strands[i], curves::scrambled(i as u32), tube));
    } else {
        let front = strands.drop_last();
        every_strand_has_its_tube(
            sweep,
            front,
            positions.take(before),
            normals.take(before),
            uvs.take(before),
            i,
        );
        assert(front.take(i) =~= strands.take(i));
        let from = 3 * curves::knots_in(strands.take(i)) as int;
        let to = from + 3 * strands[i].len();
        let tube = choose|tube: Tube|
            #[trigger] curves::sweeps(sweep, front[i], curves::scrambled(i as u32), tube) && to
                <= positions.take(before).len() && tube.positions@ == positions.take(
                before,
            ).subrange(from, to) && tube.normals@ == normals.take(before).subrange(from, to)
                && tube.uvs@ == uvs.take(before).subrange(from, to);
        assert(positions.take(before).subrange(from, to) =~= positions.subrange(from, to));
        assert(normals.take(before).subrange(from, to) =~= normals.subrange(from, to));
        assert(uvs.take(before).subrange(from, to) =~= uvs.subrange(from, to));
        assert(curves::sweeps(sweep, strands[i], curves::scrambled(i as u32), tube));
    }
}

/// A curve takes its own widths out of a batch's: without any, a diameter of one; one that
/// is constant, the only value; one per curve, its own; one per segment end, those from
/// its first end on, one more than it has segments; and one per vertex, those of its
/// vertices.
pub proof fn curves_take_their_own_widths(
    widths: Option<Widths>,
    at: Cursor,
    curve_type: CurveType,
)
    requires
        widths matches Some(given) ==> curves::feeds(given, at),
    ensures
        ({
            let stream = curves::selected(widths, at, curve_type);
            &&& widths is None ==> (stream matches Stream::Everywhere(radius) && radius.bits
                == 0x3f00_0000)
            &&& widths matches Some(given) ==> match given.interpolation {
                WidthInterpolation::Constant => stream == Stream::Everywhere(
                    given.values@[0].halved(),
                ),
                WidthInterpolation::Uniform => stream == Stream::Everywhere(
                    given.values@[at.curve as int].halved(),
                ),
                WidthInterpolation::Varying => stream matches Stream::Ends(values) && values.len()
                    == at.segments + 1 && forall|i: int|
                    0 <= i <= at.segments ==> #[trigger] values[i] == given.values@[at.varying + i],
                WidthInterpolation::Vertex => {
                    let values = match stream {
                        Stream::Ends(values) => values,
                        Stream::Controls(values) => values,
                        Stream::Everywhere(_) => Seq::empty(),
                    };
                    &&& stream is Ends == curve_type is Linear
                    &&& values.len() == at.count
                    &&& forall|i: int|
                        0 <= i < at.count ==> #[trigger] values[i] == given.values@[at.vertex + i]
                },
            }
        }),
{
}

/// A span is cut where it bends and nowhere else: it is cut at all only where it is curved,
/// and every piece that is left is straight, or as short as a piece can be.
pub proof fn spans_are_cut_where_they_bend<C: Fn(Span, u32, u32) -> bool>(
    curved: C,
    span: Span,
    near: u32,
    far: u32,
    levels: nat,
    places: Seq<u32>,
    i: int,
)
    requires
        curves::cuts(curved, span, near, far, levels, places),
        near + vstd::arithmetic::power2::pow2(levels) == far,
        0 <= i < places.len(),
    ensures
        places.len() > 1 ==> call_ensures(curved, (span, near, far), true),
        ({
            let from = if i == 0 {
                near
            } else {
                places[i - 1]
            };
            places[i] == from + 1 || call_ensures(curved, (span, from, places[i]), false)
        }),
    decreases levels,
{
    vstd::arithmetic::power2::lemma2_to64();
    if levels > 0 && !(call_ensures(curved, (span, near, far), false) && places == seq![far]) {
        let middle = ((near + far) / 2) as u32;
        let fewer = (levels - 1) as nat;
        vstd::arithmetic::power2::lemma_pow2_unfold(levels);
        vstd::arithmetic::power2::lemma_pow2_pos(fewer);
        let (left, right) = choose|left: Seq<u32>, right: Seq<u32>|
            places == #[trigger] (left + right) && curves::cuts(
                curved,
                span,
                near,
                middle,
                fewer,
                left,
            ) && curves::cuts(curved, span, middle, far, fewer, right);
        curves::pieces_follow_each_other(curved, span, near, middle, fewer, left);
        if i < left.len() {
            spans_are_cut_where_they_bend(curved, span, near, middle, fewer, left, i);
            assert(places[i] == left[i]);
        } else {
            spans_are_cut_where_they_bend(
                curved,
                span,
                middle,
                far,
                fewer,
                right,
                i - left.len(),
            );
            assert(places[i] == right[i - left.len()]);
        }
    }
}

} // verus!
