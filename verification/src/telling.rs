//! What the words for a problem tell: which object it is about, and the names and numbers
//! that belong to it.

use vstd::prelude::*;
use vstd::string::*;

use crate::error;
use crate::error::{Owner, Problem};
use crate::text;

verus! {

/// The words have a part at a place.
pub open spec fn said_at(said: Seq<char>, at: int, part: Seq<char>) -> bool {
    0 <= at && at + part.len() <= said.len() && said.subrange(at, at + part.len()) == part
}

/// The words begin with a label and a name.
pub open spec fn begins(said: Seq<char>, label: Seq<char>, name: Seq<char>) -> bool {
    said_at(said, 0, label) && said_at(said, label.len() as int, name)
}

/// The words tell one thing and then another.
pub open spec fn tells2(said: Seq<char>, a: Seq<char>, b: Seq<char>) -> bool {
    exists|i: int, j: int|
        #![trigger said_at(said, i, a), said_at(said, j, b)]
        said_at(said, i, a) && said_at(said, j, b) && i + a.len() <= j
}

/// The words tell three things in order.
pub open spec fn tells3(said: Seq<char>, a: Seq<char>, b: Seq<char>, c: Seq<char>) -> bool {
    exists|i: int, j: int, k: int|
        #![trigger said_at(said, i, a), said_at(said, j, b), said_at(said, k, c)]
        said_at(said, i, a) && said_at(said, j, b) && said_at(said, k, c) && i + a.len() <= j && j
            + b.len() <= k
}

/// The words tell four things in order.
pub open spec fn tells4(
    said: Seq<char>,
    a: Seq<char>,
    b: Seq<char>,
    c: Seq<char>,
    d: Seq<char>,
) -> bool {
    exists|i: int, j: int, k: int, l: int|
        #![trigger said_at(said, i, a), said_at(said, j, b), said_at(said, k, c), said_at(said, l, d)]
        said_at(said, i, a) && said_at(said, j, b) && said_at(said, k, c) && said_at(said, l, d)
            && i + a.len() <= j && j + b.len() <= k && k + c.len() <= l
}

/// Words tell themselves, and words that are joined tell all that the two tell.
proof fn joined_words_tell_both()
    ensures
        forall|said: Seq<char>| #[trigger] said_at(said, 0, said),
        forall|said: Seq<char>| #[trigger] said_at(said, 0, Seq::empty()),
        forall|said: Seq<char>, more: Seq<char>, at: int|
            at == said.len() ==> #[trigger] said_at(said + more, at, more),
        forall|said: Seq<char>, more: Seq<char>, at: int, part: Seq<char>|
            said_at(said, at, part) ==> #[trigger] said_at(said + more, at, part),
{
    assert forall|said: Seq<char>| #[trigger] said_at(said, 0, said) by {
        assert(said.subrange(0, said.len() as int) == said);
    }
    assert forall|said: Seq<char>| #[trigger] said_at(said, 0, Seq::empty()) by {
        assert(said.subrange(0, 0) == Seq::<char>::empty());
    }
    assert forall|said: Seq<char>, more: Seq<char>, at: int| at == said.len() implies #[trigger]
        said_at(said + more, at, more) by {
        assert((said + more).subrange(at, at + more.len()) == more);
    }
    assert forall|said: Seq<char>, more: Seq<char>, at: int, part: Seq<char>|
        said_at(said, at, part) implies #[trigger] said_at(said + more, at, part) by {
        assert((said + more).subrange(at, at + part.len()) == said.subrange(at, at + part.len()));
    }
}

/// What is wrong with an edit, a mesh or curves is told with the object's name first, then
/// what it refers to and what was counted, in that order.
pub proof fn geometry_problems_tell(problem: Problem<Seq<char>>, spelled: Seq<char>)
    ensures
        ({
            let said = error::problem_text(problem, spelled);
            match problem {
                Problem::EmptyName { kind } => begins(said, "a "@, kind.text()),
                Problem::TwoGeometries { name } => begins(said, "instance \""@, name),
                Problem::NothingToRemove { kind, name } => begins(
                    said,
                    "Remove targets a "@,
                    kind.text(),
                ) && tells2(said, kind.text(), name),
                Problem::NoGeometry { name } => begins(said, "mesh \""@, name),
                Problem::NormalCount { name, normals, positions } => begins(said, "mesh \""@, name)
                    && tells3(
                        said,
                        name,
                        text::decimal(normals as nat),
                        text::decimal(positions as nat),
                    ),
                Problem::UvCount { name, uvs, positions } => begins(said, "mesh \""@, name)
                    && tells3(
                        said,
                        name,
                        text::decimal(uvs as nat),
                        text::decimal(positions as nat),
                    ),
                Problem::IndexOutOfBounds { name } => begins(said, "mesh \""@, name),
                Problem::NoPath { owner } => begins(said, Seq::empty(), error::owner_text(owner)),
                Problem::RelativePath { owner, path } => begins(
                    said,
                    Seq::empty(),
                    error::owner_text(owner),
                ) && tells2(said, error::owner_text(owner), path),
                Problem::MissingFile { owner, path } => begins(
                    said,
                    Seq::empty(),
                    error::owner_text(owner),
                ) && tells2(said, error::owner_text(owner), path),
                Problem::NoCurves { name } => begins(said, "curves \""@, name),
                Problem::PeriodicCurves { name } => begins(said, "curves \""@, name),
                Problem::BadCurve { name, index, problem } => begins(said, "curves \""@, name)
                    && tells3(said, name, text::decimal(index as nat), problem.text()),
                Problem::PointCount { name, vertices, curves, points } => begins(
                    said,
                    "curves \""@,
                    name,
                ) && tells4(
                        said,
                        name,
                        text::decimal(vertices as nat),
                        text::decimal(curves as nat),
                        text::decimal(points as nat),
                    ),
                Problem::WidthCount { name, values, interpolation, expected } => begins(
                    said,
                    "curves \""@,
                    name,
                ) && tells4(
                        said,
                        name,
                        text::decimal(values as nat),
                        error::interpolation_text(interpolation),
                        text::decimal(expected as nat),
                    ),
                _ => true,
            }
        }),
{
    let said = error::problem_text(problem, spelled);
    joined_words_tell_both();
    match problem {
        Problem::EmptyName { kind } => {
            assert(said_at(said, 0, "a "@));
            assert(said_at(said, ("a "@.len()) as int, kind.text()));
        },
        Problem::TwoGeometries { name } => {
            assert(said_at(said, 0, "instance \""@));
            assert(said_at(said, ("instance \""@.len()) as int, name));
        },
        Problem::NothingToRemove { kind, name } => {
            assert(said_at(said, 0, "Remove targets a "@));
            assert(said_at(said, ("Remove targets a "@.len()) as int, kind.text()));
            assert(said_at(
                said,
                ("Remove targets a "@.len() + kind.text().len() + " named \""@.len()) as int,
                name,
            ));
        },
        Problem::NoGeometry { name } => {
            assert(said_at(said, 0, "mesh \""@));
            assert(said_at(said, ("mesh \""@.len()) as int, name));
        },
        Problem::NormalCount { name, normals, positions } => {
            assert(said_at(said, 0, "mesh \""@));
            assert(said_at(said, ("mesh \""@.len()) as int, name));
            assert(said_at(
                said,
                ("mesh \""@.len() + name.len() + "\" has "@.len()) as int,
                text::decimal(normals as nat),
            ));
            assert(said_at(
                said,
                ("mesh \""@.len() + name.len() + "\" has "@.len()
                    + text::decimal(normals as nat).len() + " normals for "@.len()) as int,
                text::decimal(positions as nat),
            ));
        },
        Problem::UvCount { name, uvs, positions } => {
            assert(said_at(said, 0, "mesh \""@));
            assert(said_at(said, ("mesh \""@.len()) as int, name));
            assert(said_at(
                said,
                ("mesh \""@.len() + name.len() + "\" has "@.len()) as int,
                text::decimal(uvs as nat),
            ));
            assert(said_at(
                said,
                ("mesh \""@.len() + name.len() + "\" has "@.len()
                    + text::decimal(uvs as nat).len() + " uvs for "@.len()) as int,
                text::decimal(positions as nat),
            ));
        },
        Problem::IndexOutOfBounds { name } => {
            assert(said_at(said, 0, "mesh \""@));
            assert(said_at(said, ("mesh \""@.len()) as int, name));
        },
        Problem::NoPath { owner } => {
            assert(said_at(said, 0, Seq::empty()));
            assert(said_at(said, (0int) as int, error::owner_text(owner)));
        },
        Problem::RelativePath { owner, path } => {
            assert(said_at(said, 0, Seq::empty()));
            assert(said_at(said, (0int) as int, error::owner_text(owner)));
            assert(said_at(
                said,
                (error::owner_text(owner).len() + " references the relative path \""@.len()) as int,
                path,
            ));
        },
        Problem::MissingFile { owner, path } => {
            assert(said_at(said, 0, Seq::empty()));
            assert(said_at(said, (0int) as int, error::owner_text(owner)));
            assert(said_at(
                said,
                (error::owner_text(owner).len() + " references \""@.len()) as int,
                path,
            ));
        },
        Problem::NoCurves { name } => {
            assert(said_at(said, 0, "curves \""@));
            assert(said_at(said, ("curves \""@.len()) as int, name));
        },
        Problem::PeriodicCurves { name } => {
            assert(said_at(said, 0, "curves \""@));
            assert(said_at(said, ("curves \""@.len()) as int, name));
        },
        Problem::BadCurve { name, index, problem } => {
            assert(said_at(said, 0, "curves \""@));
            assert(said_at(said, ("curves \""@.len()) as int, name));
            assert(said_at(
                said,
                ("curves \""@.len() + name.len() + "\" hold curve "@.len()) as int,
                text::decimal(index as nat),
            ));
            assert(said_at(
                said,
                ("curves \""@.len() + name.len() + "\" hold curve "@.len()
                    + text::decimal(index as nat).len() + ": "@.len()) as int,
                problem.text(),
            ));
        },
        Problem::PointCount { name, vertices, curves, points } => {
            assert(said_at(said, 0, "curves \""@));
            assert(said_at(said, ("curves \""@.len()) as int, name));
            assert(said_at(
                said,
                ("curves \""@.len() + name.len() + "\" name "@.len()) as int,
                text::decimal(vertices as nat),
            ));
            assert(said_at(
                said,
                ("curves \""@.len() + name.len() + "\" name "@.len()
                    + text::decimal(vertices as nat).len() + " vertices across "@.len()) as int,
                text::decimal(curves as nat),
            ));
            assert(said_at(
                said,
                ("curves \""@.len() + name.len() + "\" name "@.len()
                    + text::decimal(vertices as nat).len() + " vertices across "@.len()
                    + text::decimal(curves as nat).len() + " curves, but carry "@.len()) as int,
                text::decimal(points as nat),
            ));
        },
        Problem::WidthCount { name, values, interpolation, expected } => {
            assert(said_at(said, 0, "curves \""@));
            assert(said_at(said, ("curves \""@.len()) as int, name));
            assert(said_at(
                said,
                ("curves \""@.len() + name.len() + "\" carry "@.len()) as int,
                text::decimal(values as nat),
            ));
            assert(said_at(
                said,
                ("curves \""@.len() + name.len() + "\" carry "@.len()
                    + text::decimal(values as nat).len() + " "@.len()) as int,
                error::interpolation_text(interpolation),
            ));
            assert(said_at(
                said,
                ("curves \""@.len() + name.len() + "\" carry "@.len()
                    + text::decimal(values as nat).len() + " "@.len()
                    + error::interpolation_text(interpolation).len()
                    + " widths, but their topology asks for "@.len()) as int,
                text::decimal(expected as nat),
            ));
        },
        _ => {},
    }
}

/// What is wrong with an instance, a light, a camera, an environment or a medium is told
/// with the object's name first, then what it refers to and the offending number.
pub proof fn object_problems_tell(problem: Problem<Seq<char>>, spelled: Seq<char>)
    ensures
        ({
            let said = error::problem_text(problem, spelled);
            match problem {
                Problem::NeverGiven { kind, instance } => begins(said, "instance \""@, instance)
                    && tells2(said, instance, kind.text()),
                Problem::Dangling { kind, instance, reference } => begins(
                    said,
                    "instance \""@,
                    instance,
                ) && tells3(said, instance, kind.text(), reference),
                Problem::MissingMedium { instance, medium } => begins(
                    said,
                    "instance \""@,
                    instance,
                ) && tells2(said, instance, medium),
                Problem::UserMeshUnderGrid { instance } => begins(said, "instance \""@, instance),
                Problem::ShellWithoutGrid { instance } => begins(said, "instance \""@, instance),
                Problem::SingularPlacement { instance, element } => begins(
                    said,
                    "instance \""@,
                    instance,
                ) && tells2(said, instance, text::decimal(element as nat)),
                Problem::ZeroDirection { light } => begins(said, "distant light \""@, light),
                Problem::Coincident { camera } => begins(said, "camera \""@, camera),
                Problem::ParallelUp { camera } => begins(said, "camera \""@, camera),
                Problem::FieldOfView { camera, .. } => begins(said, "camera \""@, camera)
                    && tells2(said, camera, spelled),
                Problem::FocusDistance { camera, .. } => begins(said, "camera \""@, camera)
                    && tells2(said, camera, spelled),
                Problem::Aperture { camera, .. } => begins(said, "camera \""@, camera)
                    && tells2(said, camera, spelled),
                Problem::SingularSky { environment } => begins(said, "environment \""@, environment),
                Problem::Coefficient { medium, what, .. } => begins(said, "medium \""@, medium)
                    && tells3(said, medium, error::coefficient_text(what), spelled),
                Problem::Anisotropy { medium, .. } => begins(said, "medium \""@, medium)
                    && tells2(said, medium, spelled),
                Problem::NoGrid { medium } => begins(said, "medium \""@, medium),
                _ => true,
            }
        }),
{
    let said = error::problem_text(problem, spelled);
    joined_words_tell_both();
    match problem {
        Problem::NeverGiven { kind, instance } => {
            assert(said_at(said, 0, "instance \""@));
            assert(said_at(said, ("instance \""@.len()) as int, instance));
            assert(said_at(
                said,
                ("instance \""@.len() + instance.len() + "\" was never given a "@.len()) as int,
                kind.text(),
            ));
        },
        Problem::Dangling { kind, instance, reference } => {
            assert(said_at(said, 0, "instance \""@));
            assert(said_at(said, ("instance \""@.len()) as int, instance));
            assert(said_at(
                said,
                ("instance \""@.len() + instance.len() + "\" references a "@.len()) as int,
                kind.text(),
            ));
            assert(said_at(
                said,
                ("instance \""@.len() + instance.len() + "\" references a "@.len()
                    + kind.text().len() + " \""@.len()) as int,
                reference,
            ));
        },
        Problem::MissingMedium { instance, medium } => {
            assert(said_at(said, 0, "instance \""@));
            assert(said_at(said, ("instance \""@.len()) as int, instance));
            assert(said_at(
                said,
                ("instance \""@.len() + instance.len() + "\" bounds a medium \""@.len()) as int,
                medium,
            ));
        },
        Problem::UserMeshUnderGrid { instance } => {
            assert(said_at(said, 0, "instance \""@));
            assert(said_at(said, ("instance \""@.len()) as int, instance));
        },
        Problem::ShellWithoutGrid { instance } => {
            assert(said_at(said, 0, "instance \""@));
            assert(said_at(said, ("instance \""@.len()) as int, instance));
        },
        Problem::SingularPlacement { instance, element } => {
            assert(said_at(said, 0, "instance \""@));
            assert(said_at(said, ("instance \""@.len()) as int, instance));
            assert(said_at(
                said,
                ("instance \""@.len() + instance.len()
                    + "\" has a non-invertible transform (element "@.len()) as int,
                text::decimal(element as nat),
            ));
        },
        Problem::ZeroDirection { light } => {
            assert(said_at(said, 0, "distant light \""@));
            assert(said_at(said, ("distant light \""@.len()) as int, light));
        },
        Problem::Coincident { camera } => {
            assert(said_at(said, 0, "camera \""@));
            assert(said_at(said, ("camera \""@.len()) as int, camera));
        },
        Problem::ParallelUp { camera } => {
            assert(said_at(said, 0, "camera \""@));
            assert(said_at(said, ("camera \""@.len()) as int, camera));
        },
        Problem::FieldOfView { camera, .. } => {
            assert(said_at(said, 0, "camera \""@));
            assert(said_at(said, ("camera \""@.len()) as int, camera));
            assert(said_at(
                said,
                ("camera \""@.len() + camera.len()
                    + "\": vertical fov must be inside (0, 180) degrees, got "@.len()) as int,
                spelled,
            ));
        },
        Problem::FocusDistance { camera, .. } => {
            assert(said_at(said, 0, "camera \""@));
            assert(said_at(said, ("camera \""@.len()) as int, camera));
            assert(said_at(
                said,
                ("camera \""@.len() + camera.len()
                    + "\": focus distance must be positive, got "@.len()) as int,
                spelled,
            ));
        },
        Problem::Aperture { camera, .. } => {
            assert(said_at(said, 0, "camera \""@));
            assert(said_at(said, ("camera \""@.len()) as int, camera));
            assert(said_at(
                said,
                ("camera \""@.len() + camera.len()
                    + "\": aperture radius must not be negative, got "@.len()) as int,
                spelled,
            ));
        },
        Problem::SingularSky { environment } => {
            assert(said_at(said, 0, "environment \""@));
            assert(said_at(said, ("environment \""@.len()) as int, environment));
        },
        Problem::Coefficient { medium, what, .. } => {
            assert(said_at(said, 0, "medium \""@));
            assert(said_at(said, ("medium \""@.len()) as int, medium));
            assert(said_at(
                said,
                ("medium \""@.len() + medium.len() + "\": "@.len()) as int,
                error::coefficient_text(what),
            ));
            assert(said_at(
                said,
                ("medium \""@.len() + medium.len() + "\": "@.len()
                    + error::coefficient_text(what).len()
                    + " must be finite and non-negative, got "@.len()) as int,
                spelled,
            ));
        },
        Problem::Anisotropy { medium, .. } => {
            assert(said_at(said, 0, "medium \""@));
            assert(said_at(said, ("medium \""@.len()) as int, medium));
            assert(said_at(
                said,
                ("medium \""@.len() + medium.len()
                    + "\": anisotropy must be finite, got "@.len()) as int,
                spelled,
            ));
        },
        Problem::NoGrid { medium } => {
            assert(said_at(said, 0, "medium \""@));
            assert(said_at(said, ("medium \""@.len()) as int, medium));
        },
        _ => {},
    }
}

/// What is wrong with the settings and with a scene as a whole is told with the name that
/// it is about, then what it refers to and what was counted.
pub proof fn scene_problems_tell(problem: Problem<Seq<char>>, spelled: Seq<char>)
    ensures
        ({
            let said = error::problem_text(problem, spelled);
            match problem {
                Problem::MissingGlobalMedium { settings, medium } => begins(
                    said,
                    "settings \""@,
                    settings,
                ) && tells2(said, settings, medium),
                Problem::BoundedGlobalMedium { settings, medium } => begins(
                    said,
                    "settings \""@,
                    settings,
                ) && tells2(said, settings, medium),
                Problem::ZeroResolution { settings } => begins(said, "settings \""@, settings),
                Problem::ZeroBudget { settings } => begins(said, "settings \""@, settings),
                Problem::TooDeep { settings, max_bounces } => begins(said, "settings \""@, settings)
                    && tells3(
                        said,
                        settings,
                        text::decimal(255u32 as nat),
                        text::decimal(max_bounces as nat),
                    ),
                Problem::NoiseThreshold { settings, .. } => begins(said, "settings \""@, settings)
                    && tells2(said, settings, spelled),
                Problem::NoneOf { kind } => begins(said, "a scene needs exactly one "@, kind.text()),
                Problem::ManyOf { kind, count } => begins(
                    said,
                    "a scene renders exactly one "@,
                    kind.text(),
                ) && tells2(said, kind.text(), text::decimal(count as nat)),
                Problem::ManyEnvironments { count } => begins(said, "a scene renders at most one environment, this one has "@, text::decimal(count as nat)),
                Problem::TooManyTextures { count, limit } => begins(
                    said,
                    "the scene references "@,
                    text::decimal(count as nat),
                ) && tells2(said, text::decimal(count as nat), text::decimal(limit as nat)),
                Problem::GlobalMediumGone { medium } => begins(said, "the global medium \""@, medium),
                Problem::UnknownEnvironment { environment, path } => begins(
                    said,
                    "environment \""@,
                    environment,
                ) && tells2(said, environment, path),
                Problem::NoStrand { name } => begins(said, "curves \""@, name),
                Problem::Unwalkable { name, problem } => begins(said, "curves \""@, name)
                    && tells2(said, name, problem.text()),
                Problem::IndexMaps { volume, temperature, grid, .. } => begins(
                    said,
                    "volume \""@,
                    volume,
                ) && tells4(said, volume, temperature, grid, spelled),
                Problem::MeshFile { name, words } => begins(said, "mesh \""@, name)
                    && tells2(said, name, words),
                Problem::CurvesFile { name, words } => begins(said, "curves \""@, name)
                    && tells2(said, name, words),
                _ => true,
            }
        }),
{
    let said = error::problem_text(problem, spelled);
    joined_words_tell_both();
    match problem {
        Problem::MissingGlobalMedium { settings, medium } => {
            assert(said_at(said, 0, "settings \""@));
            assert(said_at(said, ("settings \""@.len()) as int, settings));
            assert(said_at(
                said,
                ("settings \""@.len() + settings.len() + "\" name a global medium \""@.len()) as int,
                medium,
            ));
        },
        Problem::BoundedGlobalMedium { settings, medium } => {
            assert(said_at(said, 0, "settings \""@));
            assert(said_at(said, ("settings \""@.len()) as int, settings));
            assert(said_at(
                said,
                ("settings \""@.len() + settings.len() + "\": the global medium \""@.len()) as int,
                medium,
            ));
        },
        Problem::ZeroResolution { settings } => {
            assert(said_at(said, 0, "settings \""@));
            assert(said_at(said, ("settings \""@.len()) as int, settings));
        },
        Problem::ZeroBudget { settings } => {
            assert(said_at(said, 0, "settings \""@));
            assert(said_at(said, ("settings \""@.len()) as int, settings));
        },
        Problem::TooDeep { settings, max_bounces } => {
            assert(said_at(said, 0, "settings \""@));
            assert(said_at(said, ("settings \""@.len()) as int, settings));
            assert(said_at(
                said,
                ("settings \""@.len() + settings.len()
                    + "\": max_bounces must be at most "@.len()) as int,
                text::decimal(255u32 as nat),
            ));
            assert(said_at(
                said,
                ("settings \""@.len() + settings.len()
                    + "\": max_bounces must be at most "@.len()
                    + text::decimal(255u32 as nat).len() + ", got "@.len()) as int,
                text::decimal(max_bounces as nat),
            ));
        },
        Problem::NoiseThreshold { settings, .. } => {
            assert(said_at(said, 0, "settings \""@));
            assert(said_at(said, ("settings \""@.len()) as int, settings));
            assert(said_at(
                said,
                ("settings \""@.len() + settings.len()
                    + "\": noise_threshold must be in (0, 1], got "@.len()) as int,
                spelled,
            ));
        },
        Problem::NoneOf { kind } => {
            assert(said_at(said, 0, "a scene needs exactly one "@));
            assert(said_at(said, ("a scene needs exactly one "@.len()) as int, kind.text()));
        },
        Problem::ManyOf { kind, count } => {
            assert(said_at(said, 0, "a scene renders exactly one "@));
            assert(said_at(said, ("a scene renders exactly one "@.len()) as int, kind.text()));
            assert(said_at(
                said,
                ("a scene renders exactly one "@.len() + kind.text().len()
                    + ", this one has "@.len()) as int,
                text::decimal(count as nat),
            ));
        },
        Problem::ManyEnvironments { count } => {
            assert(said_at(said, 0, "a scene renders at most one environment, this one has "@));
            assert(said_at(
                said,
                ("a scene renders at most one environment, this one has "@.len()) as int,
                text::decimal(count as nat),
            ));
        },
        Problem::TooManyTextures { count, limit } => {
            assert(said_at(said, 0, "the scene references "@));
            assert(said_at(
                said,
                ("the scene references "@.len()) as int,
                text::decimal(count as nat),
            ));
            assert(said_at(
                said,
                ("the scene references "@.len() + text::decimal(count as nat).len()
                    + " textures; the bindless table holds "@.len()) as int,
                text::decimal(limit as nat),
            ));
        },
        Problem::GlobalMediumGone { medium } => {
            assert(said_at(said, 0, "the global medium \""@));
            assert(said_at(said, ("the global medium \""@.len()) as int, medium));
        },
        Problem::UnknownEnvironment { environment, path } => {
            assert(said_at(said, 0, "environment \""@));
            assert(said_at(said, ("environment \""@.len()) as int, environment));
            assert(said_at(
                said,
                ("environment \""@.len() + environment.len() + "\": \""@.len()) as int,
                path,
            ));
        },
        Problem::NoStrand { name } => {
            assert(said_at(said, 0, "curves \""@));
            assert(said_at(said, ("curves \""@.len()) as int, name));
        },
        Problem::Unwalkable { name, problem } => {
            assert(said_at(said, 0, "curves \""@));
            assert(said_at(said, ("curves \""@.len()) as int, name));
            assert(said_at(
                said,
                ("curves \""@.len() + name.len() + "\": "@.len()) as int,
                problem.text(),
            ));
        },
        Problem::IndexMaps { volume, temperature, grid, .. } => {
            assert(said_at(said, 0, "volume \""@));
            assert(said_at(said, ("volume \""@.len()) as int, volume));
            assert(said_at(
                said,
                ("volume \""@.len() + volume.len() + "\": temperature grid \""@.len()) as int,
                temperature,
            ));
            assert(said_at(
                said,
                ("volume \""@.len() + volume.len() + "\": temperature grid \""@.len()
                    + temperature.len()
                    + "\" maps index space differently from density grid \""@.len()) as int,
                grid,
            ));
            assert(said_at(
                said,
                ("volume \""@.len() + volume.len() + "\": temperature grid \""@.len()
                    + temperature.len()
                    + "\" maps index space differently from density grid \""@.len()
                    + grid.len() + "\" ("@.len()) as int,
                spelled,
            ));
        },
        Problem::MeshFile { name, words } => {
            assert(said_at(said, 0, "mesh \""@));
            assert(said_at(said, ("mesh \""@.len()) as int, name));
            assert(said_at(said, ("mesh \""@.len() + name.len() + "\": "@.len()) as int, words));
        },
        Problem::CurvesFile { name, words } => {
            assert(said_at(said, 0, "curves \""@));
            assert(said_at(said, ("curves \""@.len()) as int, name));
            assert(said_at(said, ("curves \""@.len() + name.len() + "\": "@.len()) as int, words));
        },
        _ => {},
    }
}

/// An owner is told by its kind and its name.
pub proof fn owners_are_told(owner: Owner<Seq<char>>)
    ensures
        ({
            let said = error::owner_text(owner);
            match owner {
                Owner::Mesh(name) => begins(said, "mesh \""@, name),
                Owner::Curves(name) => begins(said, "curves \""@, name),
                Owner::Texture(name) => begins(said, "a texture of material \""@, name),
                Owner::Environment(name) => begins(said, "environment \""@, name),
                Owner::Volume(name) => begins(said, "medium \""@, name),
            }
        }),
{
    let said = error::owner_text(owner);
    joined_words_tell_both();
    match owner {
        Owner::Mesh(name) => {
            assert(said_at(said, 0, "mesh \""@));
            assert(said_at(said, "mesh \""@.len() as int, name));
        },
        Owner::Curves(name) => {
            assert(said_at(said, 0, "curves \""@));
            assert(said_at(said, "curves \""@.len() as int, name));
        },
        Owner::Texture(name) => {
            assert(said_at(said, 0, "a texture of material \""@));
            assert(said_at(said, "a texture of material \""@.len() as int, name));
        },
        Owner::Environment(name) => {
            assert(said_at(said, 0, "environment \""@));
            assert(said_at(said, "environment \""@.len() as int, name));
        },
        Owner::Volume(name) => {
            assert(said_at(said, 0, "medium \""@));
            assert(said_at(said, "medium \""@.len() as int, name));
        },
    }
}

/// Words that a reader found are handed on as they are.
pub proof fn words_are_handed_on(words: Seq<char>, spelled: Seq<char>)
    ensures
        error::problem_text(Problem::Told { words }, spelled) == words,
{
}

} // verus!
