//! What a round makes of the scene, and what it says where it cannot.

use vstd::prelude::*;

use crate::changeset::Kind;
use crate::curves;
use crate::curves::{SegmentProblem, WalkProblem};
use crate::description::{CurveBasis, CurveType, CurveWrap, Curves, CurvesSource, Medium, Model};
use crate::error::Problem;
use crate::formula;
use crate::formula::{Answer, Formula};
use crate::geometry;
use crate::geometry::Payload;
use crate::host;
use crate::host::{Brief, Fetched, Haul, HostScene};
use crate::lower;
use crate::lower::{GridReading, SkyFormat};
use crate::orders;
use crate::texture::Identity;
use crate::validate;

verus! {

// -- Curves --------------------------------------------------------------------------------

/// Curves are walked exactly where each has a whole number of segments and takes no more
/// points than there are.
pub proof fn curves_are_walked_unless_one_fails(
    points: int,
    counts: Seq<u32>,
    curve_type: CurveType,
    basis: CurveBasis,
    wrap: CurveWrap,
)
    ensures
        curves::fault(points, counts, curve_type, basis, wrap, 0) is None == forall|n: int|
            0 <= n < counts.len() ==> curves::segments_of(
                #[trigger] counts[n] as int,
                curve_type,
                basis,
                wrap,
            ) is Some && validate::vertices_before(counts, n + 1) <= points,
{
    faults_are_found(points, counts, curve_type, basis, wrap, 0);
}

/// From a curve on, either all can be walked or one is told.
proof fn faults_are_found(
    points: int,
    counts: Seq<u32>,
    curve_type: CurveType,
    basis: CurveBasis,
    wrap: CurveWrap,
    from: int,
)
    requires
        0 <= from <= counts.len(),
    ensures
        curves::fault(points, counts, curve_type, basis, wrap, from) is None == forall|n: int|
            from <= n < counts.len() ==> curves::segments_of(
                #[trigger] counts[n] as int,
                curve_type,
                basis,
                wrap,
            ) is Some && validate::vertices_before(counts, n + 1) <= points,
    decreases counts.len() - from,
{
    if from < counts.len() {
        faults_are_found(points, counts, curve_type, basis, wrap, from + 1);
        let here = counts[from];
        if curves::fault(points, counts, curve_type, basis, wrap, from) is None {
            assert forall|n: int| from <= n < counts.len() implies curves::segments_of(
                #[trigger] counts[n] as int,
                curve_type,
                basis,
                wrap,
            ) is Some && validate::vertices_before(counts, n + 1) <= points by {}
        }
    }
}

/// The first curve that cannot be walked is told: that it is closed, or how many vertices
/// it has, or which one takes too many points.
pub proof fn the_first_bad_curve_is_told(
    points: int,
    counts: Seq<u32>,
    curve_type: CurveType,
    basis: CurveBasis,
    wrap: CurveWrap,
    from: int,
    bad: int,
)
    requires
        0 <= from <= bad < counts.len() <= usize::MAX,
        forall|n: int|
            from <= n < bad ==> curves::segments_of(
                #[trigger] counts[n] as int,
                curve_type,
                basis,
                wrap,
            ) is Some && validate::vertices_before(counts, n + 1) <= points,
    ensures
        ({
            let told = curves::fault(points, counts, curve_type, basis, wrap, from);
            let segments = curves::segments_of(counts[bad] as int, curve_type, basis, wrap);
            &&& segments is None && wrap is Periodic ==> told == Some(
                WalkProblem::Segments(SegmentProblem::Periodic),
            )
            &&& segments is None && !(wrap is Periodic) ==> (told matches Some(
                WalkProblem::Segments(
                    SegmentProblem::Vertices {
                        curve_type: told_type,
                        basis: told_basis,
                        wrap: told_wrap,
                        count,
                    },
                ),
            ) && told_type == curve_type && told_basis == basis && told_wrap == wrap && count
                == counts[bad])
            &&& segments is Some && validate::vertices_before(counts, bad + 1) > points ==> (
            told matches Some(WalkProblem::PastThePoints { curve }) && curve == bad)
        }),
    decreases bad - from,
{
    if from < bad {
        let here = counts[from];
        the_first_bad_curve_is_told(points, counts, curve_type, basis, wrap, from + 1, bad);
    }
}

/// Strands that are spelled out and strands of a file are refused where there is none;
/// those spelled out, also where one cannot be walked.
pub proof fn batches_are_refused_for(name: Seq<char>, batch: Curves, groom: curves::Bundle)
    ensures
        batch.source is Hair ==> curves::batch_problem(name, batch, groom) == if groom.strands.len()
            == 0 {
            Some(Problem::<Seq<char>>::NoStrand { name })
        } else {
            None
        },
        batch.source matches CurvesSource::Inline {
            points,
            curve_vertex_counts,
            curve_type,
            basis,
            wrap,
            ..
        } ==> {
            let told = curves::fault(
                points@.len() as int,
                curve_vertex_counts@,
                curve_type,
                basis,
                wrap,
                0,
            );
            let found = curves::batch_problem(name, batch, groom);
            &&& curve_vertex_counts@.len() == 0 ==> found == Some(
                Problem::<Seq<char>>::NoStrand { name },
            )
            &&& curve_vertex_counts@.len() > 0 ==> found is Some == told is Some
            &&& told matches Some(problem) ==> found == Some(
                Problem::<Seq<char>>::Unwalkable { name, problem },
            )
        },
{
}

// -- Geometry ------------------------------------------------------------------------------

/// What was read for an object.
pub open spec fn read(
    payloads: Map<(Kind, Seq<char>), Payload>,
    kind: Kind,
    name: Seq<char>,
    words: Seq<char>,
) -> bool {
    payloads.contains_key((kind, name)) && (payloads[(kind, name)] matches Payload::Failed(said)
        && said@ == words)
}

/// Geometry is built exactly where no changed mesh of a file and no changed curves of a
/// file failed to be read, and none of the changed curves is refused.
pub proof fn geometry_is_built_unless(
    model: Model,
    changed: Set<(Kind, Seq<char>)>,
    payloads: Map<(Kind, Seq<char>), Payload>,
)
    requires
        model.meshes.dom().finite(),
        model.curves.dom().finite(),
    ensures
        geometry::geometry_problem(model, changed, payloads) is None == {
            &&& forall|name: Seq<char>| #[trigger]
                model.meshes.contains_key(name) ==> !(changed.contains((Kind::Mesh, name))
                    && model.meshes[name].source is Ply && payloads.contains_key((Kind::Mesh, name))
                    && payloads[(Kind::Mesh, name)] is Failed)
            &&& forall|name: Seq<char>| #[trigger]
                model.curves.contains_key(name) ==> !(changed.contains((Kind::Curves, name)) && ((
                model.curves[name].source is Hair && payloads.contains_key((Kind::Curves, name))
                    && payloads[(Kind::Curves, name)] is Failed) || (!(
                model.curves[name].source is Hair && payloads.contains_key((Kind::Curves, name))
                    && payloads[(Kind::Curves, name)] is Failed) && curves::batch_problem(
                    name,
                    model.curves[name],
                    geometry::groom_of(geometry::payload_of(payloads, Kind::Curves, name)),
                ) is Some)))
        },
{
    let nobody = Seq::<char>::empty();
    let mesh_rule = geometry::mesh_trouble(changed, payloads);
    let batch_rule = geometry::batch_trouble(changed, payloads);
    orders::the_first_by_name_is_told(model.meshes, mesh_rule, nobody);
    orders::the_first_by_name_is_told(model.curves, batch_rule, nobody);
    assert forall|name: Seq<char>| #[trigger] model.meshes.contains_key(name) implies (mesh_rule(
        name,
        model.meshes[name],
    ) is Some == (changed.contains((Kind::Mesh, name)) && model.meshes[name].source is Ply
        && payloads.contains_key((Kind::Mesh, name)) && payloads[(Kind::Mesh, name)] is Failed)) by {}
    assert forall|name: Seq<char>| #[trigger] model.curves.contains_key(name) implies (batch_rule(
        name,
        model.curves[name],
    ) is Some == (changed.contains((Kind::Curves, name)) && ((model.curves[name].source is Hair
        && payloads.contains_key((Kind::Curves, name)) && payloads[(
        Kind::Curves,
        name,
    )] is Failed) || (!(model.curves[name].source is Hair && payloads.contains_key(
        (Kind::Curves, name),
    ) && payloads[(Kind::Curves, name)] is Failed) && curves::batch_problem(
        name,
        model.curves[name],
        geometry::groom_of(geometry::payload_of(payloads, Kind::Curves, name)),
    ) is Some)))) by {}
}

/// A file that could not be read is told in the reader's words, with the object's name.
pub proof fn unread_files_are_told(
    model: Model,
    changed: Set<(Kind, Seq<char>)>,
    payloads: Map<(Kind, Seq<char>), Payload>,
    name: Seq<char>,
    words: Seq<char>,
)
    ensures
        model.meshes[name].source is Ply && changed.contains((Kind::Mesh, name)) && read(
            payloads,
            Kind::Mesh,
            name,
            words,
        ) ==> geometry::mesh_trouble(changed, payloads)(name, model.meshes[name]) == Some(
            Problem::<Seq<char>>::MeshFile { name, words },
        ),
        model.curves[name].source is Hair && changed.contains((Kind::Curves, name)) && read(
            payloads,
            Kind::Curves,
            name,
            words,
        ) ==> geometry::batch_trouble(changed, payloads)(name, model.curves[name]) == Some(
            Problem::<Seq<char>>::CurvesFile { name, words },
        ),
        !changed.contains((Kind::Mesh, name)) ==> geometry::mesh_trouble(changed, payloads)(
            name,
            model.meshes[name],
        ) is None,
        !changed.contains((Kind::Curves, name)) ==> geometry::batch_trouble(changed, payloads)(
            name,
            model.curves[name],
        ) is None,
{
}

// -- Media -----------------------------------------------------------------------------------

/// A medium is lowered unless it has a grid whose file failed to be read, which is told in
/// the reader's words, or whose temperature is laid out over other voxels.
pub proof fn media_are_lowered_unless<M: Fn(Formula) -> Answer>(
    maths: M,
    medium: Medium,
    reading: Option<GridReading>,
)
    ensures
        ({
            let told = lower::medium_unread(maths, medium, reading);
            &&& medium.volume is None || reading is None ==> told is None
            &&& medium.volume is Some ==> (reading matches Some(GridReading::Failed(words))
                ==> told == Some(Problem::<Seq<char>>::Told { words: words@ }))
            &&& medium.volume matches Some(source) ==> (reading matches Some(
                GridReading::Header(header),
            ) ==> told is Some == (source.temperature_grid is Some && !formula::truth(
                maths,
                Formula::Alike(header.temperature->0, header.asset_to_index),
            )))
        }),
{
}

// -- Skies -----------------------------------------------------------------------------------

/// An image of a sky is told by how its bytes begin.
pub proof fn skies_are_told_by_their_beginning(rest: Seq<u8>)
    ensures
        lower::format_of(seq![0x76u8, 0x2f, 0x31, 0x01] + rest) == Some(SkyFormat::Exr),
        lower::format_of(seq![0x23u8, 0x3f] + rest) == Some(SkyFormat::Hdr),
        rest.len() > 0 && rest[0] != 0x76 && rest[0] != 0x23 ==> lower::format_of(rest) is None,
        rest.len() < 2 ==> lower::format_of(rest) is None,
{
    let exr = seq![0x76u8, 0x2f, 0x31, 0x01];
    let hdr = seq![0x23u8, 0x3f];
    assert((exr + rest).take(4) == exr);
    assert((hdr + rest).take(2) == hdr);
    assert(hdr[0] == 0x23 && exr[0] == 0x76);
    if (hdr + rest).len() >= 4 {
        assert((hdr + rest).take(4)[0] == hdr[0]);
    }
    if rest.len() >= 4 {
        assert(rest.take(4)[0] == rest[0]);
    }
    if rest.len() >= 2 {
        assert(rest.take(2)[0] == rest[0]);
    }
}

// -- Rounds ----------------------------------------------------------------------------------

/// What a round hands on: the geometry that was built, exactly the textures that were
/// prepared anew and those that are kept, a camera where one was touched, a sky on a
/// fresh build or where an environment was touched, and the medium of the open space
/// wherever the settings name one.
pub proof fn rounds_hand_on<M: Fn(Formula) -> Answer>(
    maths: M,
    brief: Brief,
    haul: Haul,
    scene: HostScene,
    key: Identity,
)
    requires
        scene.lowers(maths, brief, haul),
    ensures
        haul.built is Ok ==> scene.geometry@ == haul.built->Ok_0,
        scene.textures@.contains_key(key) == haul.fetched.contains_key(key),
        haul.fetched.contains_key(key) ==> !(haul.fetched[key] is Failed),
        haul.fetched.contains_key(key) ==> (scene.textures@[key] is None == haul.fetched[key] is Kept),
        haul.fetched.contains_key(key) ==> (haul.fetched[key] matches Fetched::Fresh(prepared)
            ==> scene.textures@[key] == Some(prepared)),
        scene.camera is Some == host::touched(brief.dirt, Kind::Camera),
        scene.camera is Some ==> scene.camera == Some(
            lower::settled_camera(maths, brief.camera()),
        ),
        scene.environment is Some == (brief.fresh || host::touched(brief.dirt, Kind::Environment)),
        scene.environment is Some ==> scene.environment == Some(host::heaven(maths, brief)),
        scene.global_medium is Some == brief.settings().global_medium is Some,
        brief.settings().global_medium matches Some(name) ==> scene.global_medium == Some(
            lower::all_media(maths, brief.model.media, haul.grids)[name@],
        ),
        scene.tlas_dirty == (host::touched(brief.dirt, Kind::Mesh) || host::touched(
            brief.dirt,
            Kind::Curves,
        ) || host::touched(brief.dirt, Kind::Instance) || host::touched(
            brief.dirt,
            Kind::Material,
        )),
        scene.delta_lights@ == lower::delta_lights(maths, brief.model.lights),
{
}

} // verus!
