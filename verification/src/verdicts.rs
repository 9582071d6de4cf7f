//! What is told of an object that is refused is the case: every problem names the object
//! and says of it what can be seen there.

use vstd::prelude::*;

use crate::bits::{Num, Vec3};
use crate::changeset::Kind;
use crate::curves;
use crate::curves::SegmentProblem;
use crate::description::{
    Camera, CurveWrap, Curves, CurvesSource, Environment, Geometry, Instance, Light, Material,
    Medium, Mesh, MeshSource, Model, Settings,
};
use crate::error::{Coefficient, Owner, Problem};
use crate::path::FilePath;
use crate::validate;
use crate::validate::{Facts, Sight};

verus! {

/// A problem with a file is that of its owner: there is no path, it does not start from the
/// root, or nothing is there.
pub open spec fn true_of_file(
    owner: Owner<Seq<char>>,
    path: FilePath,
    facts: Facts,
    problem: Problem<Seq<char>>,
) -> bool {
    match problem {
        Problem::NoPath { owner: of } => of == owner && path.text@.len() == 0,
        Problem::RelativePath { owner: of, path: said } => of == owner && said == path.text@
            && path.text@.len() > 0 && path.text@[0] != '/',
        Problem::MissingFile { owner: of, path: said } => of == owner && said == path.text@
            && !facts.file(path),
        _ => false,
    }
}

/// A problem with a mesh is the case.
pub open spec fn true_of_mesh(
    name: Seq<char>,
    mesh: Mesh,
    facts: Facts,
    problem: Problem<Seq<char>>,
) -> bool {
    match mesh.source {
        MeshSource::Inline { positions, normals, uvs, triangles } => match problem {
            Problem::NoGeometry { name: of } => of == name && (positions@.len() == 0
                || triangles@.len() == 0),
            Problem::NormalCount { name: of, normals: found, positions: vertices } => of == name && (
            normals matches Some(given) && given@.len() == found) && positions@.len() == vertices
                && found != vertices,
            Problem::UvCount { name: of, uvs: found, positions: vertices } => of == name && (
            uvs matches Some(given) && given@.len() == found) && positions@.len() == vertices
                && found != vertices,
            Problem::IndexOutOfBounds { name: of } => of == name && exists|i: int|
                0 <= i < triangles@.len() && ((#[trigger] triangles@[i])[0] >= positions@.len()
                    || triangles@[i][1] >= positions@.len() || triangles@[i][2]
                    >= positions@.len()),
            _ => false,
        },
        MeshSource::Ply { path } => true_of_file(Owner::Mesh(name), path, facts, problem),
        MeshSource::MediumBounds => false,
    }
}

/// What is told of a mesh is the case.
pub proof fn meshes_are_told_truly(name: Seq<char>, mesh: Mesh, facts: Facts)
    requires
        mesh.source matches MeshSource::Inline { positions, normals, uvs, .. } ==> {
            &&& positions@.len() <= usize::MAX
            &&& normals matches Some(given) ==> given@.len() <= usize::MAX
            &&& uvs matches Some(given) ==> given@.len() <= usize::MAX
        },
    ensures
        validate::mesh_problem(name, mesh, facts) matches Some(problem) ==> true_of_mesh(
            name,
            mesh,
            facts,
            problem,
        ),
{
    if let MeshSource::Inline { positions, normals, uvs, triangles } = mesh.source {
        if validate::mesh_problem(name, mesh, facts) matches Some(Problem::IndexOutOfBounds { .. }) {
            assert(validate::strays(triangles@, positions@.len() as int));
        }
    }
}

/// A problem with curves is the case.
pub open spec fn true_of_curves(
    name: Seq<char>,
    batch: Curves,
    facts: Facts,
    problem: Problem<Seq<char>>,
) -> bool {
    match batch.source {
        CurvesSource::Hair { path } => true_of_file(Owner::Curves(name), path, facts, problem),
        CurvesSource::Inline { points, curve_vertex_counts, widths, curve_type, basis, wrap } => {
            let counts = curve_vertex_counts@;
            match problem {
                Problem::NoCurves { name: of } => of == name && counts.len() == 0,
                Problem::PeriodicCurves { name: of } => of == name && wrap is Periodic,
                Problem::BadCurve { name: of, index, problem: why } => of == name && index
                    < counts.len() && curves::segments_of(
                    counts[index as int] as int,
                    curve_type,
                    basis,
                    wrap,
                ) is None && (why matches SegmentProblem::Vertices { count, .. } && count
                    == counts[index as int]),
                Problem::PointCount { name: of, vertices, curves: number, points: found } => of
                    == name && vertices == validate::vertices_before(counts, counts.len() as int)
                    && number == counts.len() && found == points@.len() && found != vertices,
                Problem::WidthCount { name: of, values, interpolation, expected } => of == name && (
                widths matches Some(given) && given.values@.len() == values && given.interpolation
                    == interpolation) && expected == validate::widths_expected(
                    interpolation,
                    counts,
                    curve_type,
                    basis,
                    wrap,
                ) && values != expected,
                _ => false,
            }
        },
    }
}

/// What is told of curves is the case.
pub proof fn curves_are_told_truly(name: Seq<char>, batch: Curves, facts: Facts)
    requires
        batch.source matches CurvesSource::Inline {
            points,
            curve_vertex_counts,
            widths,
            curve_type,
            basis,
            wrap,
        } ==> {
            let counts = curve_vertex_counts@;
            &&& points@.len() <= usize::MAX && counts.len() <= usize::MAX
            &&& 0 <= validate::vertices_before(counts, counts.len() as int) <= u128::MAX
            &&& widths matches Some(given) ==> given.values@.len() <= usize::MAX && 0
                <= validate::widths_expected(given.interpolation, counts, curve_type, basis, wrap)
                <= u128::MAX
        },
    ensures
        validate::curves_problem(name, batch, facts) matches Some(problem) ==> true_of_curves(
            name,
            batch,
            facts,
            problem,
        ),
{
    if let CurvesSource::Inline { points, curve_vertex_counts, widths, curve_type, basis, wrap } =
        batch.source {
        let counts = curve_vertex_counts@;
        if validate::first_bad_curve(counts, curve_type, basis, wrap, 0) is Some {
            bad_curves_are_bad(counts, curve_type, basis, wrap, 0);
        }
    }
}

/// The curve that is found has no segments.
proof fn bad_curves_are_bad(
    counts: Seq<u32>,
    curve_type: crate::description::CurveType,
    basis: crate::description::CurveBasis,
    wrap: CurveWrap,
    n: int,
)
    requires
        0 <= n,
        validate::first_bad_curve(counts, curve_type, basis, wrap, n) is Some,
    ensures
        ({
            let bad = validate::first_bad_curve(counts, curve_type, basis, wrap, n)->0;
            n <= bad < counts.len() && curves::segments_of(
                counts[bad] as int,
                curve_type,
                basis,
                wrap,
            ) is None
        }),
    decreases counts.len() - n,
{
    if n < counts.len() && curves::segments_of(
        counts[n] as int,
        curve_type,
        basis,
        wrap,
    ) is Some {
        bad_curves_are_bad(counts, curve_type, basis, wrap, n + 1);
    }
}

/// A problem with an instance is the case.
pub open spec fn true_of_instance(
    model: Model,
    name: Seq<char>,
    instance: Instance,
    facts: Facts,
    problem: Problem<Seq<char>>,
) -> bool {
    match problem {
        Problem::NeverGiven { kind, instance: of } => of == name && match kind {
            Kind::Mesh => instance.geometry matches Geometry::Mesh(mesh) && mesh@.len() == 0,
            Kind::Curves => instance.geometry matches Geometry::Curves(batch) && batch@.len() == 0,
            Kind::Material => instance.material@.len() == 0,
            _ => false,
        },
        Problem::Dangling { kind, instance: of, reference } => of == name && match kind {
            Kind::Mesh => instance.geometry matches Geometry::Mesh(mesh) && mesh@ == reference
                && !model.meshes.contains_key(reference),
            Kind::Curves => instance.geometry matches Geometry::Curves(batch) && batch@ == reference
                && !model.curves.contains_key(reference),
            Kind::Material => instance.material@ == reference && !model.materials.contains_key(
                reference,
            ),
            _ => false,
        },
        Problem::MissingMedium { instance: of, medium } => of == name && (
        instance.medium matches Some(bounded) && bounded@ == medium) && !model.media.contains_key(
            medium,
        ),
        Problem::UserMeshUnderGrid { instance: of } => of == name && validate::bounds_grid(
            model,
            instance,
        ) && !validate::places_shell(model, instance),
        Problem::ShellWithoutGrid { instance: of } => of == name && validate::places_shell(
            model,
            instance,
        ) && !validate::bounds_grid(model, instance),
        Problem::SingularPlacement { instance: of, element } => of == name && element
            < instance.transforms@.len() && facts.degenerate(
            instance.transforms@[element as int],
        ),
        _ => false,
    }
}

/// What is told of an instance is the case.
pub proof fn instances_are_told_truly(
    model: Model,
    name: Seq<char>,
    instance: Instance,
    facts: Facts,
)
    requires
        instance.transforms@.len() <= usize::MAX,
    ensures
        validate::instance_problem(model, name, instance, facts) matches Some(problem)
            ==> true_of_instance(model, name, instance, facts, problem),
{
    if validate::first_singular(instance.transforms@, facts, 0) is Some {
        singular_placements_are_singular(instance.transforms@, facts, 0);
    }
}

/// The placement that is found cannot be undone.
proof fn singular_placements_are_singular(
    transforms: Seq<crate::description::Transform>,
    facts: Facts,
    n: int,
)
    requires
        0 <= n,
        validate::first_singular(transforms, facts, n) is Some,
    ensures
        n <= validate::first_singular(transforms, facts, n)->0 < transforms.len(),
        facts.degenerate(transforms[validate::first_singular(transforms, facts, n)->0]),
    decreases transforms.len() - n,
{
    if n < transforms.len() && !facts.degenerate(transforms[n]) {
        singular_placements_are_singular(transforms, facts, n + 1);
    }
}

/// What is told of a material is the case of one of its textures.
pub proof fn materials_are_told_truly(name: Seq<char>, material: Material, facts: Facts, n: int)
    requires
        0 <= n,
    ensures
        validate::textures_problem(name, material, facts, n) matches Some(problem) ==> exists|k: int|
            n <= k < material.references().len() && true_of_file(
                Owner::Texture(name),
                (#[trigger] material.references()[k]).path,
                facts,
                problem,
            ),
    decreases material.references().len() - n,
{
    if n < material.references().len() {
        let path = material.references()[n].path;
        if validate::path_problem(Owner::Texture(name), path, facts) is None {
            materials_are_told_truly(name, material, facts, n + 1);
        }
    }
}

/// What is told of a light, a camera or an environment is the case.
pub proof fn views_are_told_truly(
    name: Seq<char>,
    light: Light,
    camera: Camera,
    environment: Environment,
    facts: Facts,
)
    ensures
        validate::light_problem(name, light) matches Some(problem) ==> (
        problem matches Problem::ZeroDirection { light: of } && of == name) && light is Distant,
        validate::camera_problem(name, camera, facts) matches Some(problem) ==> match problem {
            Problem::Coincident { camera: of } => of == name && validate::coincide(
                camera.look_at,
                camera.position,
            ),
            Problem::ParallelUp { camera: of } => of == name && facts.aligned(
                Sight { position: camera.position, look_at: camera.look_at, up: camera.up },
            ),
            Problem::FieldOfView { camera: of, value } => of == name && value
                == camera.vfov_degrees && !(0 < value.bits < 0x4334_0000),
            Problem::FocusDistance { camera: of, value } => of == name && camera.focus_distance
                == Some(value) && !(0 < value.bits <= 0x7f80_0000),
            Problem::Aperture { camera: of, value } => of == name && value
                == camera.aperture_radius && !(value.bits <= 0x7f80_0000 || value.bits
                == 0x8000_0000),
            _ => false,
        },
        validate::environment_problem(name, environment, facts) matches Some(problem) ==> match problem {
            Problem::SingularSky { environment: of } => of == name && facts.degenerate(
                environment.transform,
            ),
            _ => environment.path matches Some(path) && true_of_file(
                Owner::Environment(name),
                path,
                facts,
                problem,
            ),
        },
{
}

/// A channel that a medium cannot have: one below zero, without end, or no number.
pub open spec fn unphysical(value: Vec3) -> bool {
    spoiled(value.x) || spoiled(value.y) || spoiled(value.z)
}

/// A number below zero, without end, or none.
pub open spec fn spoiled(x: Num) -> bool {
    !(x.bits < 0x7f80_0000 || x.bits == 0x8000_0000)
}

/// What is told of a medium is the case.
pub proof fn media_are_told_truly(name: Seq<char>, medium: Medium, facts: Facts)
    ensures
        validate::medium_problem(name, medium, facts) matches Some(problem) ==> match problem {
            Problem::Coefficient { medium: of, what, channels } => of == name && unphysical(
                channels,
            ) && channels == match what {
                Coefficient::Absorption => medium.absorption,
                Coefficient::Scattering => medium.scattering,
            },
            Problem::Anisotropy { medium: of, value } => of == name && value == medium.anisotropy
                && value.bits % 0x8000_0000 >= 0x7f80_0000,
            Problem::NoGrid { medium: of } => of == name && (medium.volume matches Some(volume)
                && volume.grid@.len() == 0),
            _ => medium.volume matches Some(volume) && true_of_file(
                Owner::Volume(name),
                volume.path,
                facts,
                problem,
            ),
        },
{
}

/// What is told of settings is the case.
pub proof fn settings_are_told_truly(model: Model, name: Seq<char>, settings: Settings)
    ensures
        validate::settings_problem(model, name, settings) matches Some(problem) ==> match problem {
            Problem::MissingGlobalMedium { settings: of, medium } => of == name && (
            settings.global_medium matches Some(said) && said@ == medium)
                && !model.media.contains_key(medium),
            Problem::BoundedGlobalMedium { settings: of, medium } => of == name && (
            settings.global_medium matches Some(said) && said@ == medium)
                && model.media[medium].volume is Some,
            Problem::ZeroResolution { settings: of } => of == name && (settings.resolution@[0] == 0
                || settings.resolution@[1] == 0),
            Problem::ZeroBudget { settings: of } => of == name && (settings.spp == 0
                || settings.max_bounces == 0),
            Problem::TooDeep { settings: of, max_bounces } => of == name && max_bounces
                == settings.max_bounces && max_bounces > 255,
            Problem::NoiseThreshold { settings: of, value } => of == name
                && settings.noise_threshold == Some(value) && !(0 < value.bits <= 0x3f80_0000),
            _ => false,
        },
{
}

} // verus!
