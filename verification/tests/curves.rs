//! Curves: strands, widths, flattening, tubes.

use std::f32::consts::{PI, TAU};
use std::sync::Arc;

use cenote::bits::{self, Num};
use cenote::curves::{
    self, evaluate, hash, pinned, resolve, segment_count, CurveWidths, Cursor, Knot, SegmentProblem,
    SegmentWidths, Span, Strands, Tube, WalkProblem, MAX_SPAN_SEGMENTS, RING_CIRCUMRADIUS, SIDES,
};
use cenote::description::{
    CurveBasis, CurveType, CurveWrap, Curves, CurvesSource, WidthInterpolation, Widths,
};
use cenote::error::Problem;
use cenote::mesh::Mesh;
use cenote::path::FilePath;
use glam::{Vec2, Vec3};

const FLATNESS: f32 = 0.5;

fn num(value: f32) -> Num {
    Num::new(value.to_bits())
}

fn float(value: Num) -> f32 {
    f32::from_bits(value.bits)
}

fn stored(value: Vec3) -> bits::Vec3 {
    bits::Vec3 { x: num(value.x), y: num(value.y), z: num(value.z) }
}

fn loaded(value: bits::Vec3) -> Vec3 {
    Vec3::new(float(value.x), float(value.y), float(value.z))
}

fn matrix(basis: CurveBasis) -> [[f32; 4]; 4] {
    const SIXTH: f32 = 1.0 / 6.0;
    match basis {
        CurveBasis::Bezier => [
            [-1.0, 3.0, -3.0, 1.0],
            [3.0, -6.0, 3.0, 0.0],
            [-3.0, 3.0, 0.0, 0.0],
            [1.0, 0.0, 0.0, 0.0],
        ],
        CurveBasis::BSpline => [
            [-SIXTH, 3.0 * SIXTH, -3.0 * SIXTH, SIXTH],
            [3.0 * SIXTH, -6.0 * SIXTH, 3.0 * SIXTH, 0.0],
            [-3.0 * SIXTH, 0.0, 3.0 * SIXTH, 0.0],
            [SIXTH, 4.0 * SIXTH, SIXTH, 0.0],
        ],
        CurveBasis::CatmullRom => [
            [-0.5, 1.5, -1.5, 0.5],
            [1.0, -2.5, 2.0, -0.5],
            [-0.5, 0.0, 0.5, 0.0],
            [0.0, 1.0, 0.0, 0.0],
        ],
    }
}

fn span_at(span: &Span, t: f32) -> (Vec3, f32) {
    let matrix = matrix(span.basis);
    let t2 = t * t;
    let t3 = t2 * t;
    let weights: [f32; 4] = std::array::from_fn(|column| {
        t3 * matrix[0][column] + t2 * matrix[1][column] + t * matrix[2][column] + matrix[3][column]
    });
    let point = weights[0] * loaded(span.first)
        + weights[1] * loaded(span.second)
        + weights[2] * loaded(span.third)
        + weights[3] * loaded(span.fourth);
    let radius = match span.widths {
        SegmentWidths::Everywhere(radius) => float(radius),
        SegmentWidths::Ends(near, far) => float(near) + t * (float(far) - float(near)),
        SegmentWidths::Cubic(a, b, c, d) => {
            [a, b, c, d].into_iter().zip(weights).map(|(value, weight)| weight * float(value)).sum()
        }
    };
    (point, radius)
}

fn eighths(at: u32) -> f32 {
    at as f32 / MAX_SPAN_SEGMENTS as f32
}

fn sample(span: Span, at: u32) -> Knot {
    let (point, radius) = span_at(&span, eighths(at));
    Knot { point: stored(point), radius: num(radius) }
}

fn curved(span: Span, near: u32, far: u32) -> bool {
    let (t0, t1) = (eighths(near), eighths(far));
    let (a, near) = span_at(&span, t0);
    let (b, far) = span_at(&span, t1);
    let radius = near.max(far);
    let deviation = [0.25_f32, 0.5, 0.75]
        .into_iter()
        .map(|s| span_at(&span, t0 + s * (t1 - t0)).0.distance(a.lerp(b, s)))
        .fold(0.0_f32, f32::max);
    deviation > FLATNESS * radius
}

fn mirror(end: bits::Vec3, inner: bits::Vec3) -> bits::Vec3 {
    stored(2.0 * loaded(end) - loaded(inner))
}

fn mirror_width(end: Num, inner: Num) -> Num {
    num(2.0 * float(end) - float(inner))
}

fn tangent_at(points: &[Vec3], index: usize) -> Vec3 {
    let previous = index.saturating_sub(1);
    let next = (index + 1).min(points.len() - 1);
    if let Some(tangent) = (points[next] - points[previous]).try_normalize() {
        return tangent;
    }
    for other in 0..points.len() {
        if let Some(tangent) = (points[other] - points[index]).try_normalize() {
            return if other > index { tangent } else { -tangent };
        }
    }
    Vec3::Y
}

fn transport(across: Vec3, from: Vec3, tangent: Vec3, to: Vec3, next: Vec3) -> Vec3 {
    let step = to - from;
    let square = step.length_squared();
    let (mut carried, reflected) = if square > 0.0 {
        (
            across - (2.0 / square) * step.dot(across) * step,
            tangent - (2.0 / square) * step.dot(tangent) * step,
        )
    } else {
        (across, tangent)
    };
    let turn = next - reflected;
    let square = turn.length_squared();
    if square > 0.0 {
        carried -= (2.0 / square) * turn.dot(carried) * turn;
    }
    (carried - next * next.dot(carried))
        .try_normalize()
        .unwrap_or_else(|| next.any_orthonormal_vector())
}

fn sweep(knots: &[Knot], noise: u32) -> Tube {
    let points: Vec<Vec3> = knots.iter().map(|knot| loaded(knot.point)).collect();
    let v = (noise >> 16) as f32 / 65536.0;
    let phase = (noise & 0xffff) as f32 / 65536.0 * (TAU / SIDES as f32);
    let mut tube = Tube { positions: Vec::new(), normals: Vec::new(), uvs: Vec::new() };
    let mut tangent = tangent_at(&points, 0);
    let mut across = tangent.any_orthonormal_vector();
    let mut travelled = 0.0;
    let length: f32 = points.windows(2).map(|pair| pair[0].distance(pair[1])).sum();
    for index in 0..points.len() {
        if index > 0 {
            let next = tangent_at(&points, index);
            across = transport(across, points[index - 1], tangent, points[index], next);
            tangent = next;
            travelled += points[index].distance(points[index - 1]);
        }
        let up = tangent.cross(across);
        let u = if length > 0.0 { travelled / length } else { 0.0 };
        for side in 0..SIDES {
            let angle = phase + TAU * side as f32 / SIDES as f32;
            let radial = angle.cos() * across + angle.sin() * up;
            let reach = f32::from_bits(RING_CIRCUMRADIUS) * float(knots[index].radius);
            tube.positions.push(stored(points[index] + reach * radial));
            tube.normals.push(stored(radial));
            tube.uvs.push(bits::Vec2 { x: num(u), y: num(v) });
        }
    }
    tube
}

/// A mesh with its numbers as numbers.
struct Floats {
    positions: Vec<Vec3>,
    normals: Vec<Vec3>,
    uvs: Vec<Vec2>,
    triangles: Vec<[u32; 3]>,
}

fn floats(mesh: Mesh) -> Floats {
    Floats {
        positions: mesh.positions.into_iter().map(loaded).collect(),
        normals: mesh.normals.into_iter().map(loaded).collect(),
        uvs: mesh.uvs.into_iter().map(|uv| Vec2::new(float(uv.x), float(uv.y))).collect(),
        triangles: mesh.triangles,
    }
}

fn tessellate(strands: &Strands) -> Floats {
    floats(curves::tessellate(strands, &sweep))
}

fn walk(
    points: &[[f32; 3]],
    counts: &[u32],
    widths: Option<Widths>,
    curve_type: CurveType,
    basis: CurveBasis,
    wrap: CurveWrap,
) -> Result<Strands, WalkProblem> {
    let points: Vec<bits::Vec3> = points.iter().map(|&point| stored(Vec3::from(point))).collect();
    evaluate(
        &points,
        &counts.to_vec(),
        &widths,
        curve_type,
        basis,
        wrap,
        &mirror,
        &mirror_width,
        &sample,
        &curved,
    )
}

fn widths(values: &[f32], interpolation: WidthInterpolation) -> Option<Widths> {
    Some(Widths {
        values: Arc::new(values.iter().copied().map(num).collect()),
        interpolation,
    })
}

fn point(strands: &Strands, index: usize) -> Vec3 {
    loaded(strands.point(index))
}

fn radius(strands: &Strands, index: usize) -> f32 {
    float(strands.radius(index))
}

/// One straight strand, four vertices, along +Y.
fn straight() -> Vec<[f32; 3]> {
    (0..4).map(|index| [0.0, index as f32, 0.0]).collect()
}

fn linear(points: &[[f32; 3]], counts: &[u32], widths: Option<Widths>) -> Strands {
    walk(points, counts, widths, CurveType::Linear, CurveBasis::Bezier, CurveWrap::Nonperiodic)
        .expect("valid linear cells")
}

fn cubic(points: &[[f32; 3]], basis: CurveBasis, wrap: CurveWrap) -> Strands {
    walk(points, &[points.len() as u32], None, CurveType::Cubic, basis, wrap)
        .expect("valid cubic cells")
}

/// The worked examples of the basis curves schema: the segment-count table is
/// the contract, so its rows are the oracle.
#[test]
fn segment_counts_match_the_usd_table() {
    let counts = |cells: &[usize], curve_type, basis, wrap| -> Vec<usize> {
        cells
            .iter()
            .map(|&count| segment_count(count, curve_type, basis, wrap).expect("valid"))
            .collect()
    };
    assert_eq!(
        counts(&[2, 3, 2, 5], CurveType::Linear, CurveBasis::Bezier, CurveWrap::Nonperiodic),
        [1, 2, 1, 4]
    );
    assert_eq!(
        counts(&[4, 7, 10, 4, 7], CurveType::Cubic, CurveBasis::Bezier, CurveWrap::Nonperiodic),
        [1, 2, 3, 1, 2]
    );
    assert_eq!(
        counts(&[5, 4, 6, 7], CurveType::Cubic, CurveBasis::BSpline, CurveWrap::Nonperiodic),
        [2, 1, 3, 4]
    );
    // Pinned: one segment per authored gap, and two vertices is the
    // minimum the phantom points make renderable.
    assert_eq!(
        counts(&[2, 5], CurveType::Cubic, CurveBasis::CatmullRom, CurveWrap::Pinned),
        [1, 4]
    );
    // A bezier count the vstep doesn't divide, and a cubic curve too
    // short to hold a span, are refused rather than rounded.
    for count in [5, 6, 3] {
        segment_count(count, CurveType::Cubic, CurveBasis::Bezier, CurveWrap::Nonperiodic)
            .expect_err("the vstep must divide the count");
    }
}

#[test]
fn linear_curves_pass_through_verbatim() {
    let strands = linear(&straight(), &[4], None);
    assert_eq!(strands.len(), 1);
    assert_eq!(strands.points(), 4);
    for index in 0..4 {
        assert_eq!(point(&strands, index), Vec3::new(0.0, index as f32, 0.0));
        // Unauthored widths are 1: a radius of a half.
        assert!((radius(&strands, index) - 0.5).abs() < 1e-6);
    }
}

#[test]
fn periodic_curves_are_refused() {
    let error = walk(
        &straight(),
        &[4],
        None,
        CurveType::Linear,
        CurveBasis::Bezier,
        CurveWrap::Periodic,
    )
    .expect_err("periodic is out of contract")
    .message();
    assert!(error.contains("periodic"), "{error}");
}

/// A bezier span interpolates its end control points, a b-spline
/// approximates them, and pinning is what makes the approximating
/// bases pass through the authored ends.
#[test]
fn the_bases_start_and_end_where_their_definitions_say() {
    let points = [[0.0, 0.0, 0.0], [1.0, 1.0, 0.0], [2.0, 1.0, 0.0], [3.0, 0.0, 0.0]];
    let bezier = cubic(&points, CurveBasis::Bezier, CurveWrap::Nonperiodic);
    assert!(point(&bezier, 0).abs_diff_eq(Vec3::ZERO, 1e-6));
    assert!(point(&bezier, bezier.points() - 1).abs_diff_eq(Vec3::new(3.0, 0.0, 0.0), 1e-6));

    // The b-spline's one span starts at the average of its first three
    // control points weighted 1:4:1, the basis row at t = 0.
    let bspline = cubic(&points, CurveBasis::BSpline, CurveWrap::Nonperiodic);
    let expected =
        (Vec3::from(points[0]) + 4.0 * Vec3::from(points[1]) + Vec3::from(points[2])) / 6.0;
    assert!(point(&bspline, 0).abs_diff_eq(expected, 1e-6));

    // Catmull-Rom interpolates its *inner* control points.
    let catmull = cubic(&points, CurveBasis::CatmullRom, CurveWrap::Nonperiodic);
    assert!(point(&catmull, 0).abs_diff_eq(Vec3::from(points[1]), 1e-6));
    assert!(point(&catmull, catmull.points() - 1).abs_diff_eq(Vec3::from(points[2]), 1e-6));

    // Pinned: both approximating bases now reach the authored ends.
    for basis in [CurveBasis::BSpline, CurveBasis::CatmullRom] {
        let pinned = cubic(&points, basis, CurveWrap::Pinned);
        assert!(point(&pinned, 0).abs_diff_eq(Vec3::from(points[0]), 1e-5), "{basis:?} root");
        assert!(
            point(&pinned, pinned.points() - 1).abs_diff_eq(Vec3::from(points[3]), 1e-5),
            "{basis:?} tip"
        );
    }
}

/// Flattening is measured against the strand's own radius: a span with
/// no curvature never subdivides, and one whose deviation dwarfs its
/// radius runs into the cap rather than to infinity.
#[test]
fn flattening_spends_segments_only_on_curvature() {
    let collinear = [[0.0, 0.0, 0.0], [0.0, 1.0, 0.0], [0.0, 2.0, 0.0], [0.0, 3.0, 0.0]];
    let flat = cubic(&collinear, CurveBasis::Bezier, CurveWrap::Nonperiodic);
    assert_eq!(flat.points(), 2, "a straight span is one chord");

    let hairpin = [[0.0, 0.0, 0.0], [10.0, 10.0, 0.0], [-10.0, 10.0, 0.0], [0.0, 0.0, 0.0]];
    let curled = cubic(&hairpin, CurveBasis::Bezier, CurveWrap::Nonperiodic);
    assert_eq!(curled.points(), MAX_SPAN_SEGMENTS as usize + 1, "the cap holds");

    // The same hairpin at a radius wide enough to swallow its own
    // deviation collapses back to one chord: the rule is relative.
    let engulfed = walk(
        &hairpin,
        &[4],
        widths(&[200.0], WidthInterpolation::Constant),
        CurveType::Cubic,
        CurveBasis::Bezier,
        CurveWrap::Nonperiodic,
    )
    .expect("valid");
    assert_eq!(engulfed.points(), 2);
}

#[test]
fn every_width_interpolation_lands_where_it_says() {
    let points = straight();
    // Constant: one value for the whole batch.
    let constant = linear(&points, &[4], widths(&[0.4], WidthInterpolation::Constant));
    assert!((radius(&constant, 2) - 0.2).abs() < 1e-6);

    // Uniform: one per curve, two curves here, second one wider.
    let two: Vec<[f32; 3]> = points.iter().chain(points.iter()).copied().collect();
    let uniform = linear(&two, &[4, 4], widths(&[0.2, 0.6], WidthInterpolation::Uniform));
    assert!((radius(&uniform, 0) - 0.1).abs() < 1e-6);
    assert!((radius(&uniform, 4) - 0.3).abs() < 1e-6);

    // Varying and vertex agree on a linear curve: one per point.
    for interpolation in [WidthInterpolation::Varying, WidthInterpolation::Vertex] {
        let tapered = linear(&straight(), &[4], widths(&[0.8, 0.6, 0.4, 0.0], interpolation));
        assert!((radius(&tapered, 0) - 0.4).abs() < 1e-6, "{interpolation:?}");
        assert!((radius(&tapered, 3) - 0.0).abs() < 1e-6, "{interpolation:?}");
    }

    // On a cubic curve, `vertex` widths ride the basis: a bezier's
    // root reads its first control width outright.
    let cells = [[0.0, 0.0, 0.0], [0.0, 1.0, 0.0], [0.0, 2.0, 0.0], [0.0, 3.0, 0.0]];
    let cubic_widths = walk(
        &cells,
        &[4],
        widths(&[1.0, 0.6, 0.3, 0.0], WidthInterpolation::Vertex),
        CurveType::Cubic,
        CurveBasis::Bezier,
        CurveWrap::Nonperiodic,
    )
    .expect("valid");
    assert!((radius(&cubic_widths, 0) - 0.5).abs() < 1e-6);
    assert!((radius(&cubic_widths, cubic_widths.points() - 1) - 0.0).abs() < 1e-6);
}

/// A strand with nothing to sweep is dropped rather than carried: a
/// single point has no segment, and its tube would be a ring floating
/// in space.
#[test]
fn strands_too_short_to_sweep_are_dropped() {
    let mut strands = Strands::new();
    strands.push_point(stored(Vec3::ZERO), num(0.1));
    strands.push_point(stored(Vec3::Y), num(0.1));
    strands.end_strand();
    strands.push_point(stored(Vec3::splat(5.0)), num(0.1));
    strands.end_strand();
    assert_eq!(strands.len(), 1);
    assert_eq!(strands.points(), 2);
}

fn bald(source: CurvesSource) -> Result<Mesh, cenote::error::SceneError> {
    resolve(
        &"bald".to_owned(),
        &Curves { source },
        &Strands::new(),
        &mirror,
        &mirror_width,
        &sample,
        &curved,
        &sweep,
    )
}

fn inline(points: Vec<bits::Vec3>, counts: Vec<u32>, curve_type: CurveType) -> CurvesSource {
    CurvesSource::Inline {
        points: Arc::new(points),
        curve_vertex_counts: Arc::new(counts),
        widths: None,
        curve_type,
        basis: CurveBasis::Bezier,
        wrap: CurveWrap::Nonperiodic,
    }
}

/// A batch that sweeps nothing is refused rather than uploaded.
#[test]
fn a_batch_with_nothing_to_sweep_is_refused() {
    let Err(error) = bald(inline(Vec::new(), Vec::new(), CurveType::Cubic)) else {
        panic!("an empty batch has no geometry to resolve")
    };
    let error = error.message("");
    assert!(error.contains("bald"), "{error}");
    assert_eq!(error, "curves \"bald\": carry no strand long enough to sweep");
    // The same goes for a groom that held no strand.
    let hair = bald(CurvesSource::Hair { path: FilePath::new("a.hair".to_owned()) });
    assert_eq!(hair, Err(Problem::NoStrand { name: "bald".to_owned() }));
}

#[test]
fn a_batch_that_cannot_be_walked_is_refused() {
    let some = |n: usize| vec![stored(Vec3::ZERO); n];
    let past = bald(inline(some(3), vec![2, 2], CurveType::Linear)).expect_err("too few points");
    assert_eq!(
        past.message(""),
        "curves \"bald\": curve 1 runs past the end of the points array"
    );
    let short = bald(inline(some(3), vec![3], CurveType::Cubic)).expect_err("no span");
    assert_eq!(
        short,
        Problem::Unwalkable {
            name: "bald".to_owned(),
            problem: WalkProblem::Segments(SegmentProblem::Vertices {
                curve_type: CurveType::Cubic,
                basis: CurveBasis::Bezier,
                wrap: CurveWrap::Nonperiodic,
                count: 3,
            }),
        }
    );
    assert_eq!(
        short.message(""),
        "curves \"bald\": a cubic bezier nonperiodic curve cannot have 3 vertices"
    );
    let mesh = bald(inline(some(4), vec![4], CurveType::Cubic)).expect("walked");
    assert_eq!(mesh.positions.len(), 6);
}

/// The tube's analytic normals are the whole reason three sides are
/// enough: every ring vertex sits one radius off the axis, carries the
/// radial direction it sits on, and its faces wind outward to agree.
#[test]
fn the_tube_is_a_prism_wearing_a_cylinder_normal() {
    let strands = linear(&straight(), &[4], widths(&[0.5], WidthInterpolation::Constant));
    let mesh = tessellate(&strands);
    let sides = SIDES as usize;
    assert_eq!(mesh.positions.len(), 4 * sides);
    assert_eq!(mesh.triangles.len(), 3 * sides * 2);
    assert_eq!(mesh.normals.len(), mesh.positions.len());
    assert_eq!(mesh.uvs.len(), mesh.positions.len());

    for (position, normal) in mesh.positions.iter().zip(&mesh.normals) {
        // The axis is +Y, so the radial offset is the XZ part.
        let radial = Vec3::new(position.x, 0.0, position.z);
        // Width 0.5 is a radius of 0.25, circumscribed so the ring's
        // mean projection is the authored width.
        assert!(
            (radial.length() - 0.25 * f32::from_bits(RING_CIRCUMRADIUS)).abs() < 1e-5,
            "{position}"
        );
        assert!(normal.is_normalized(), "{normal}");
        assert!(normal.dot(Vec3::Y).abs() < 1e-5, "{normal} leans along +Y");
        assert!(
            radial.normalize().dot(*normal) > 0.999,
            "the stored normal is the radial direction"
        );
    }

    for triangle in &mesh.triangles {
        let [a, b, c] = triangle.map(|index| mesh.positions[index as usize]);
        let face = (b - a).cross(c - a);
        let outward: Vec3 = triangle.iter().map(|&index| mesh.normals[index as usize]).sum();
        assert!(
            face.dot(outward) > 0.0,
            "face {triangle:?} winds inward: {face} against {outward}"
        );
    }
}

/// The ring is circumscribed by exactly the factor that puts a regular
/// polygon's mean projected width, its perimeter over pi, on the
/// circle's diameter.
#[test]
fn the_ring_is_circumscribed_to_the_authored_width() {
    let sides = SIDES as f32;
    let derived = PI / (sides * (PI / sides).sin());
    assert_eq!(RING_CIRCUMRADIUS, derived.to_bits(), "{derived}");
}

/// Flattening resolves centerline detail down to a fraction of the local
/// radius and no further. Displacing a bezier's second control point by `d`
/// moves the curve `27/64 d` off its chord at the quarter point, so the span
/// survives as one chord until `d` passes `64/27` of the tolerance.
#[test]
fn flattening_is_the_floor_on_centerline_detail() {
    let bent = |displacement: f32| {
        let points = [[0.0, 0.0, 0.0], [displacement, 1.0, 0.0], [0.0, 2.0, 0.0], [0.0, 3.0, 0.0]];
        walk(
            &points,
            &[4],
            widths(&[1.0], WidthInterpolation::Constant),
            CurveType::Cubic,
            CurveBasis::Bezier,
            CurveWrap::Nonperiodic,
        )
        .expect("valid")
        .points()
    };
    let threshold = 64.0 / 27.0 * FLATNESS * 0.5;
    assert_eq!(bent(0.9 * threshold), 2, "a bulge the strand covers");
    assert!(bent(1.1 * threshold) > 2, "a bulge it does not");
}

/// `u` is arc length root to tip, `v` is one value the strand shares.
#[test]
fn the_strand_coordinates_run_root_to_tip() {
    let points = [[0.0; 3], [0.0, 1.0, 0.0], [0.0, 3.0, 0.0]];
    let mesh = tessellate(&linear(&points, &[3], None));
    let u: Vec<f32> = mesh.uvs.iter().step_by(SIDES as usize).map(|uv| uv.x).collect();
    assert_eq!(u.len(), 3);
    assert!((u[0] - 0.0).abs() < 1e-6);
    // A third of the way along by *length*, not by point index.
    assert!((u[1] - 1.0 / 3.0).abs() < 1e-6);
    assert!((u[2] - 1.0).abs() < 1e-6);
    let v = mesh.uvs[0].y;
    assert!(mesh.uvs.iter().all(|uv| (uv.y - v).abs() < 1e-9));
    assert!((0.0..1.0).contains(&v));
}

/// Neighbouring strands must not share a ring phase, and the same groom must
/// tessellate identically every time.
#[test]
fn the_per_strand_phase_is_varied_and_stable() {
    let one = straight();
    let two: Vec<[f32; 3]> = one.iter().copied().chain(one.iter().copied()).collect();
    let mesh = tessellate(&linear(&two, &[4, 4], None));
    let first = mesh.normals[0];
    let second = mesh.normals[4 * SIDES as usize];
    assert!(first.dot(second) < 0.999, "both strands start at one angle");

    let again = tessellate(&linear(&two, &[4, 4], None));
    assert_eq!(mesh.positions, again.positions);
    assert_eq!(mesh.normals, again.normals);
    assert_eq!(mesh.uvs, again.uvs);
    assert_eq!(mesh.triangles, again.triangles);
}

/// Grooms arrive hostile. A strand that doubles straight back on
/// itself turns its frame through 180 degrees, and a width stream can carry a
/// negative, a NaN, and an infinity in the same breath.
#[test]
fn hostile_widths_and_a_reversal_still_tessellate() {
    let doubled_back = [[0.0; 3], [0.0, 1.0, 0.0], [0.0, 2.0, 0.0], [0.0, 1.0, 0.0], [0.0; 3]];
    let strands = linear(
        &doubled_back,
        &[5],
        widths(&[0.2, -0.4, f32::NAN, f32::INFINITY, 0.1], WidthInterpolation::Vertex),
    );
    for index in 0..strands.points() {
        let radius = radius(&strands, index);
        assert!(radius.is_finite() && radius >= 0.0, "radius {radius}");
    }
    let mesh = tessellate(&strands);
    assert!(mesh.positions.iter().all(|p| p.is_finite()));
    assert!(mesh.normals.iter().all(|n| n.is_normalized()));
}

/// A groom with a duplicated point must not produce a frame full of NaN.
#[test]
fn coincident_points_keep_the_frame_finite() {
    let points = [[0.0; 3], [0.0, 1.0, 0.0], [0.0, 1.0, 0.0], [0.0, 2.0, 0.0]];
    let mesh = tessellate(&linear(&points, &[4], None));
    assert!(mesh.positions.iter().all(|p| p.is_finite()));
    assert!(mesh.normals.iter().all(|n| n.is_normalized()));
    assert!(mesh.uvs.iter().all(|uv| uv.is_finite()));
}

/// The frame is rotation-minimizing: carried along a curve that turns
/// through a right angle, the ring picks up no twist about the tangent
/// beyond what the turn itself forces.
#[test]
fn the_frame_adds_no_twist_of_its_own() {
    // An L: up +Y, then along +X. The reference direction starts
    // perpendicular to both and must survive the corner untouched.
    let points = [[0.0; 3], [0.0, 1.0, 0.0], [0.0, 2.0, 0.0], [1.0, 2.0, 0.0], [2.0, 2.0, 0.0]];
    let mesh = tessellate(&linear(&points, &[5], None));
    let sides = SIDES as usize;
    let out_of_plane = |ring: usize| {
        (0..sides).map(|side| mesh.normals[ring * sides + side].z).fold(f32::MIN, f32::max)
    };
    let first = out_of_plane(0);
    for ring in 1..5 {
        assert!(
            (out_of_plane(ring) - first).abs() < 1e-4,
            "ring {ring} twisted: {} vs {first}",
            out_of_plane(ring)
        );
    }
}

#[test]
fn tube_triangles_are_laid_out_side_by_side() {
    let mesh = tessellate(&linear(&straight()[..2], &[2], None));
    assert_eq!(
        mesh.triangles,
        [[0, 1, 3], [1, 4, 3], [1, 2, 4], [2, 5, 4], [2, 0, 5], [0, 3, 5]]
    );
    let two: Vec<[f32; 3]> = straight().into_iter().chain(straight()).collect();
    let mesh = tessellate(&linear(&two[..5], &[3, 2], None));
    assert_eq!(mesh.triangles.len(), 18);
    assert_eq!(mesh.triangles[12], [9, 10, 12]);
}

#[test]
fn halving_rounds_as_single_precision_does() {
    for value in [0.4f32, 1.0, -3.5, 0.0, -0.0, 1e-38, f32::MIN_POSITIVE, f32::MAX, 1e-45, 3e-45,
        4.2e-45, -7e-45, 2.3e-38, f32::INFINITY]
    {
        assert_eq!(num(value).half(), num(0.5 * value), "{value:e}");
    }
    assert!(float(num(f32::NAN).half()).is_nan());
    assert_eq!(num(-0.0).settle().bits, 0);
    assert_eq!(num(2.5).settle(), num(2.5));
}

#[test]
fn a_strand_number_is_scrambled() {
    assert_eq!(hash(0), 0);
    let mut value: u32 = 7;
    value ^= value >> 16;
    value = value.wrapping_mul(0x7feb_352d);
    value ^= value >> 15;
    value = value.wrapping_mul(0x846c_a68b);
    assert_eq!(hash(7), value ^ (value >> 16));
    assert_ne!(hash(1), hash(2));
}

#[test]
fn widths_are_selected_and_pinned() {
    assert!(pinned(CurveWrap::Pinned, CurveBasis::BSpline));
    assert!(!pinned(CurveWrap::Pinned, CurveBasis::Bezier));
    let at = Cursor { curve: 1, vertex: 2, varying: 2, count: 2, segments: 1 };
    let stream = widths(&[1.0, 2.0, 4.0, 6.0], WidthInterpolation::Vertex);
    let controls = CurveWidths::select(&stream, &at, CurveType::Cubic);
    assert_eq!(controls, CurveWidths::Controls(vec![num(4.0), num(6.0)]));
    let longer = controls.pin(&mirror_width);
    assert_eq!(
        longer,
        CurveWidths::Controls(vec![num(2.0), num(4.0), num(6.0), num(8.0)])
    );
    assert_eq!(
        longer.segment(0, 1),
        SegmentWidths::Cubic(num(1.0), num(2.0), num(3.0), num(4.0))
    );
    let varying = widths(&[1.0, 2.0, 4.0, 6.0], WidthInterpolation::Varying);
    let ends = CurveWidths::select(&varying, &at, CurveType::Cubic);
    assert_eq!(ends.segment(0, 1), SegmentWidths::Ends(num(2.0), num(3.0)));
    assert_eq!(ends.at_vertex(1), num(3.0));
    let uniform = widths(&[1.0, 2.0], WidthInterpolation::Uniform);
    assert_eq!(
        CurveWidths::select(&uniform, &at, CurveType::Linear),
        CurveWidths::Everywhere(num(1.0))
    );
    assert_eq!(
        CurveWidths::select(&None, &at, CurveType::Linear).segment(0, 1),
        SegmentWidths::Everywhere(num(0.5))
    );
}
