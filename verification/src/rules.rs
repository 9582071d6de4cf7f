//! What a scene has to keep to be accepted, said of each kind of object: an object is
//! refused exactly where it breaks one of these.

use vstd::prelude::*;

use crate::bits::{Num, Vec3};
use crate::curves;
use crate::description::{
    Camera, Curves, CurveBasis, CurveType, CurveWrap, CurvesSource, Environment, Geometry, Instance,
    Light, Material, Medium, Mesh, MeshSource, Model, Settings, TextureRef, Transform,
    WidthInterpolation,
};
use crate::error::{Owner, Problem};
use crate::laws;
use crate::path;
use crate::path::FilePath;
use crate::shading::texture_in;
use crate::validate;
use crate::validate::{Facts, Sight};

verus! {

/// The path is one that a scene may hold: absolute, and that of a file.
pub open spec fn leads_somewhere(path: FilePath, facts: Facts) -> bool {
    &&& path.text@.len() > 0
    &&& path.text@[0] == '/'
    &&& exists|i: int| 0 <= i < facts.files@.len() && (#[trigger] facts.files@[i])@ == path@
}

/// A path is refused exactly where it leads nowhere: where it is empty, where it is
/// relative, and where there is no such file.
pub proof fn paths_must_lead_somewhere(owner: Owner<Seq<char>>, path: FilePath, facts: Facts)
    ensures
        validate::path_problem(owner, path, facts) is None == leads_somewhere(path, facts),
        path.text@.len() == 0 ==> validate::path_problem(owner, path, facts) == Some(
            Problem::NoPath { owner },
        ),
        path.text@.len() > 0 && path.text@[0] != '/' ==> validate::path_problem(owner, path, facts)
            == Some(Problem::RelativePath { owner, path: path.text@ }),
{
}

/// A mesh is accepted exactly where it has positions and triangles, as many normals
/// and coordinates as positions where it has any, and names no position that is
/// not there; a file has to be one.
pub proof fn meshes_must_fit_together(name: Seq<char>, mesh: Mesh, facts: Facts)
    ensures
        mesh.source matches MeshSource::Inline { positions, normals, uvs, triangles } ==> (
        validate::mesh_problem(name, mesh, facts) is None == {
            &&& positions@.len() > 0
            &&& triangles@.len() > 0
            &&& normals matches Some(given) ==> given@.len() == positions@.len()
            &&& uvs matches Some(given) ==> given@.len() == positions@.len()
            &&& forall|i: int|
                0 <= i < triangles@.len() ==> (#[trigger] triangles@[i])[0] < positions@.len()
                    && triangles@[i][1] < positions@.len() && triangles@[i][2] < positions@.len()
        }),
        mesh.source matches MeshSource::Ply { path } ==> (validate::mesh_problem(
            name,
            mesh,
            facts,
        ) is None == leads_somewhere(path, facts)),
        mesh.source is MediumBounds ==> validate::mesh_problem(name, mesh, facts) is None,
{
    if let MeshSource::Inline { positions, normals, uvs, triangles } = mesh.source {
        if validate::strays(triangles@, positions@.len() as int) {
            let (i, j) = choose|i: int, j: int|
                0 <= i < triangles@.len() && 0 <= j < 3 && (#[trigger] triangles@[i]@[j])
                    >= positions@.len();
            assert(triangles@[i][j] >= positions@.len());
        } else {
            assert forall|i: int| 0 <= i < triangles@.len() implies (#[trigger] triangles@[i])[0]
                < positions@.len() && triangles@[i][1] < positions@.len() && triangles@[i][2]
                < positions@.len() by {
                assert(triangles@[i]@[0] < positions@.len());
                assert(triangles@[i]@[1] < positions@.len());
                assert(triangles@[i]@[2] < positions@.len());
            }
        }
    }
}

/// A batch of curves is accepted exactly where it has a curve, none closes on itself,
/// each can be walked, together they take all the points, and its widths are as
/// many as they are read; a file has to be one.
pub proof fn curves_must_fit_together(name: Seq<char>, batch: Curves, facts: Facts)
    ensures
        batch.source matches CurvesSource::Inline {
            points,
            curve_vertex_counts,
            widths,
            curve_type,
            basis,
            wrap,
        } ==> (validate::curves_problem(name, batch, facts) is None == {
            let counts = curve_vertex_counts@;
            &&& counts.len() > 0
            &&& !(wrap is Periodic)
            &&& forall|i: int|
                0 <= i < counts.len() ==> curves::segments_of(
                    #[trigger] counts[i] as int,
                    curve_type,
                    basis,
                    wrap,
                ) is Some
            &&& validate::vertices_before(counts, counts.len() as int) == points@.len()
            &&& widths matches Some(given) ==> given.values@.len() == match given.interpolation {
                WidthInterpolation::Constant => 1,
                WidthInterpolation::Uniform => counts.len() as int,
                WidthInterpolation::Varying => validate::ends_before(
                    counts,
                    curve_type,
                    basis,
                    wrap,
                    counts.len() as int,
                ),
                WidthInterpolation::Vertex => validate::vertices_before(
                    counts,
                    counts.len() as int,
                ),
            }
        }),
        batch.source matches CurvesSource::Hair { path } ==> (validate::curves_problem(
            name,
            batch,
            facts,
        ) is None == leads_somewhere(path, facts)),
{
    if let CurvesSource::Inline { points, curve_vertex_counts, widths, curve_type, basis, wrap } =
        batch.source {
        bad_curves_are_found(curve_vertex_counts@, curve_type, basis, wrap, 0);
    }
}

/// The first curve that cannot be walked is found, and none where all can.
proof fn bad_curves_are_found(
    counts: Seq<u32>,
    curve_type: CurveType,
    basis: CurveBasis,
    wrap: CurveWrap,
    n: int,
)
    requires
        0 <= n <= counts.len(),
    ensures
        validate::first_bad_curve(counts, curve_type, basis, wrap, n) is None == forall|i: int|
            n <= i < counts.len() ==> curves::segments_of(
                #[trigger] counts[i] as int,
                curve_type,
                basis,
                wrap,
            ) is Some,
    decreases counts.len() - n,
{
    if n < counts.len() {
        bad_curves_are_found(counts, curve_type, basis, wrap, n + 1);
    }
}

/// An instance is accepted exactly where its mesh or curves, its material and its
/// medium are there, it places the shell exactly where its medium has a grid, and
/// none of its placements is degenerate.
pub proof fn instances_must_resolve(
    model: Model,
    name: Seq<char>,
    instance: Instance,
    facts: Facts,
)
    ensures
        validate::instance_problem(model, name, instance, facts) is None == {
            &&& instance.geometry matches Geometry::Mesh(mesh) ==> mesh@.len() > 0
                && model.meshes.contains_key(mesh@)
            &&& instance.geometry matches Geometry::Curves(batch) ==> batch@.len() > 0
                && model.curves.contains_key(batch@)
            &&& instance.material@.len() > 0 && model.materials.contains_key(instance.material@)
            &&& instance.medium matches Some(medium) ==> model.media.contains_key(medium@)
            &&& (instance.medium matches Some(medium) && model.media[medium@].volume is Some) <==> (
            instance.geometry matches Geometry::Mesh(mesh)
                && model.meshes[mesh@].source is MediumBounds)
            &&& forall|i: int|
                0 <= i < instance.transforms@.len() ==> !facts.singular@.contains(
                    #[trigger] instance.transforms@[i],
                )
        },
{
    singular_placements_are_found(instance.transforms@, facts, 0);
}

/// The first placement that is degenerate is found, and none where none is.
proof fn singular_placements_are_found(transforms: Seq<Transform>, facts: Facts, n: int)
    requires
        0 <= n <= transforms.len(),
    ensures
        validate::first_singular(transforms, facts, n) is None == forall|i: int|
            n <= i < transforms.len() ==> !facts.singular@.contains(#[trigger] transforms[i]),
    decreases transforms.len() - n,
{
    if n < transforms.len() {
        singular_placements_are_found(transforms, facts, n + 1);
    }
}

/// A reference, where there is one, is to a file.
pub open spec fn reference_leads(reference: Option<TextureRef>, facts: Facts) -> bool {
    reference matches Some(asked) ==> leads_somewhere(asked.path, facts)
}

/// A material is accepted exactly where every texture that it refers to is a file: of
/// each of its eleven parameters that a texture can say.
pub proof fn textures_must_be_there(name: Seq<char>, material: Material, facts: Facts)
    ensures
        validate::textures_problem(name, material, facts, 0) is None == {
            &&& reference_leads(texture_in(material.base_color), facts)
            &&& reference_leads(texture_in(material.base_metalness), facts)
            &&& reference_leads(texture_in(material.specular_roughness), facts)
            &&& reference_leads(texture_in(material.emission_color), facts)
            &&& reference_leads(texture_in(material.geometry_opacity), facts)
            &&& reference_leads(material.geometry_normal, facts)
            &&& reference_leads(texture_in(material.subsurface_weight), facts)
            &&& reference_leads(texture_in(material.subsurface_color), facts)
            &&& reference_leads(texture_in(material.subsurface_radius), facts)
            &&& reference_leads(texture_in(material.subsurface_radius_scale), facts)
            &&& reference_leads(texture_in(material.subsurface_scatter_anisotropy), facts)
        },
{
    let slots = material.slots();
    references_are_looked_at(name, material, facts, 0);
    assert forall|i: int| 0 <= i < slots.len() implies (#[trigger] reference_leads(slots[i], facts)
        == (slots[i] matches Some(asked) ==> leads_somewhere(asked.path, facts))) by {}
    if validate::textures_problem(name, material, facts, 0) is None {
        assert forall|i: int| 0 <= i < slots.len() implies #[trigger] reference_leads(
            slots[i],
            facts,
        ) by {
            if slots[i] is Some {
                crate::lowering::one_value_is_there(slots, i);
                let a = choose|a: int|
                    0 <= a < material.references().len() && #[trigger] material.references()[a]
                        == slots[i]->0;
                assert(leads_somewhere(material.references()[a].path, facts));
            }
        }
        assert(reference_leads(slots[0], facts) && reference_leads(slots[1], facts)
            && reference_leads(slots[2], facts) && reference_leads(slots[3], facts)
            && reference_leads(slots[4], facts) && reference_leads(slots[5], facts)
            && reference_leads(slots[6], facts) && reference_leads(slots[7], facts)
            && reference_leads(slots[8], facts) && reference_leads(slots[9], facts)
            && reference_leads(slots[10], facts));
    }
    if reference_leads(slots[0], facts) && reference_leads(slots[1], facts) && reference_leads(
        slots[2],
        facts,
    ) && reference_leads(slots[3], facts) && reference_leads(slots[4], facts) && reference_leads(
        slots[5],
        facts,
    ) && reference_leads(slots[6], facts) && reference_leads(slots[7], facts) && reference_leads(
        slots[8],
        facts,
    ) && reference_leads(slots[9], facts) && reference_leads(slots[10], facts) {
        assert forall|a: int| 0 <= a < material.references().len() implies leads_somewhere(
            (#[trigger] material.references()[a]).path,
            facts,
        ) by {
            values_were_somewhere(slots, a);
            let i = choose|i: int|
                0 <= i < slots.len() && #[trigger] slots[i] == Some(material.references()[a]);
            assert(reference_leads(slots[i], facts));
        }
    }
}

/// Every value that is there was in some slot.
proof fn values_were_somewhere<T>(slots: Seq<Option<T>>, a: int)
    requires
        0 <= a < crate::description::present(slots).len(),
    ensures
        exists|i: int|
            0 <= i < slots.len() && #[trigger] slots[i] == Some(
                crate::description::present(slots)[a],
            ),
    decreases slots.len(),
{
    if slots.len() > 0 {
        let front = slots.drop_last();
        let some = crate::description::present(front);
        if a < some.len() {
            values_were_somewhere(front, a);
            let i = choose|i: int| 0 <= i < front.len() && #[trigger] front[i] == Some(some[a]);
            assert(slots[i] == front[i]);
        } else {
            assert(slots[slots.len() - 1] == slots.last());
        }
    }
}

/// Every reference from `n` on is looked at.
proof fn references_are_looked_at(name: Seq<char>, material: Material, facts: Facts, n: int)
    requires
        0 <= n <= material.references().len(),
    ensures
        validate::textures_problem(name, material, facts, n) is None == forall|a: int|
            n <= a < material.references().len() ==> leads_somewhere(
                (#[trigger] material.references()[a]).path,
                facts,
            ),
    decreases material.references().len() - n,
{
    if n < material.references().len() {
        references_are_looked_at(name, material, facts, n + 1);
    }
}

/// A distant light is accepted exactly where it has a direction; a point light always.
pub proof fn lights_must_have_a_direction(name: Seq<char>, at: Vec3, power: Vec3)
    ensures
        validate::light_problem(name, Light::Distant { direction: at, irradiance: power }) is None
            == !((at.x.bits == 0 || at.x.bits == 0x8000_0000) && (at.y.bits == 0 || at.y.bits
            == 0x8000_0000) && (at.z.bits == 0 || at.z.bits == 0x8000_0000)),
        validate::light_problem(name, Light::Point { position: at, intensity: power }) is None,
{
}

/// A camera is accepted exactly where it looks at something other than where it
/// stands, its up is not along the view, its field of view is above zero and below
/// a half turn, a focus distance that it says is above zero, and its aperture is
/// not below zero.
pub proof fn cameras_must_see(name: Seq<char>, camera: Camera, facts: Facts)
    ensures
        validate::camera_problem(name, camera, facts) is None == {
            &&& !(validate::no_distance(camera.look_at.x, camera.position.x)
                && validate::no_distance(camera.look_at.y, camera.position.y)
                && validate::no_distance(camera.look_at.z, camera.position.z))
            &&& !facts.parallel@.contains(
                Sight { position: camera.position, look_at: camera.look_at, up: camera.up },
            )
            &&& 0 < camera.vfov_degrees.bits < 0x4334_0000
            &&& camera.focus_distance matches Some(distance) ==> 0 < distance.bits <= 0x7f80_0000
            &&& camera.aperture_radius.bits <= 0x7f80_0000 || camera.aperture_radius.bits
                == 0x8000_0000
        },
        forall|a: Num, b: Num| #[trigger]
            validate::no_distance(a, b) == (a.finite() && b.finite() && (a.bits == b.bits || (
            a.zero() && b.zero()))),
{
}

/// An environment is accepted exactly where the file that it names is one, and its
/// placement is not degenerate.
pub proof fn skies_must_be_there(name: Seq<char>, environment: Environment, facts: Facts)
    ensures
        validate::environment_problem(name, environment, facts) is None == {
            &&& environment.path matches Some(path) ==> leads_somewhere(path, facts)
            &&& !facts.singular@.contains(environment.transform)
        },
{
}

/// A channel that takes light away and never adds any.
pub open spec fn takes_away(channel: Num) -> bool {
    channel.bits < 0x7f80_0000 || channel.bits == 0x8000_0000
}

/// A medium is accepted exactly where both its coefficients are finite and not below
/// zero in every channel, its anisotropy is finite, and its grid, where it has
/// one, is named and in a file that is one.
pub proof fn media_must_attenuate(name: Seq<char>, medium: Medium, facts: Facts)
    ensures
        validate::medium_problem(name, medium, facts) is None == {
            &&& takes_away(medium.absorption.x) && takes_away(medium.absorption.y) && takes_away(
                medium.absorption.z,
            )
            &&& takes_away(medium.scattering.x) && takes_away(medium.scattering.y) && takes_away(
                medium.scattering.z,
            )
            &&& medium.anisotropy.bits < 0x7f80_0000 || 0x8000_0000 <= medium.anisotropy.bits
                < 0xff80_0000
            &&& medium.volume matches Some(volume) ==> leads_somewhere(volume.path, facts)
                && volume.grid@.len() > 0
        },
{
}

/// Settings are accepted exactly where the medium that fills the open space, if they
/// name one, is there and has no grid, neither extent of the picture is nothing,
/// there are samples and bounces, no more bounces than a byte counts, and a noise
/// threshold that they say is above zero and no greater than one.
pub proof fn settings_must_be_countable(model: Model, name: Seq<char>, settings: Settings)
    ensures
        validate::settings_problem(model, name, settings) is None == {
            &&& settings.global_medium matches Some(medium) ==> model.media.contains_key(medium@)
                && model.media[medium@].volume is None
            &&& settings.resolution[0] > 0 && settings.resolution[1] > 0
            &&& settings.spp > 0
            &&& 0 < settings.max_bounces <= crate::error::MAX_BOUNCES_LIMIT
            &&& settings.noise_threshold matches Some(value) ==> 0 < value.bits <= 0x3f80_0000
        },
        crate::error::MAX_BOUNCES_LIMIT == 255,
{
}

/// A scene is accepted exactly where every one of its objects is.
pub proof fn scenes_are_accepted_object_by_object(model: Model, facts: Facts)
    requires
        laws::finite(model),
    ensures
        validate::model_problem(model, facts) is None == {
            &&& forall|name: Seq<char>| #[trigger]
                model.meshes.contains_key(name) ==> validate::mesh_problem(
                    name,
                    model.meshes[name],
                    facts,
                ) is None
            &&& forall|name: Seq<char>| #[trigger]
                model.curves.contains_key(name) ==> validate::curves_problem(
                    name,
                    model.curves[name],
                    facts,
                ) is None
            &&& forall|name: Seq<char>| #[trigger]
                model.instances.contains_key(name) ==> validate::instance_problem(
                    model,
                    name,
                    model.instances[name],
                    facts,
                ) is None
            &&& forall|name: Seq<char>| #[trigger]
                model.materials.contains_key(name) ==> validate::textures_problem(
                    name,
                    model.materials[name],
                    facts,
                    0,
                ) is None
            &&& forall|name: Seq<char>| #[trigger]
                model.lights.contains_key(name) ==> validate::light_problem(
                    name,
                    model.lights[name],
                ) is None
            &&& forall|name: Seq<char>| #[trigger]
                model.cameras.contains_key(name) ==> validate::camera_problem(
                    name,
                    model.cameras[name],
                    facts,
                ) is None
            &&& forall|name: Seq<char>| #[trigger]
                model.environments.contains_key(name) ==> validate::environment_problem(
                    name,
                    model.environments[name],
                    facts,
                ) is None
            &&& forall|name: Seq<char>| #[trigger]
                model.media.contains_key(name) ==> validate::medium_problem(
                    name,
                    model.media[name],
                    facts,
                ) is None
            &&& forall|name: Seq<char>| #[trigger]
                model.settings.contains_key(name) ==> validate::settings_problem(
                    model,
                    name,
                    model.settings[name],
                ) is None
        },
{
    if validate::model_problem(model, facts) is None {
        assert forall|name: Seq<char>| true implies #[trigger] kept(model, facts, name) by {
            laws::valid_models_keep_every_rule(model, facts, name);
        }
        assert forall|name: Seq<char>| #[trigger] model.meshes.contains_key(name) implies
            validate::mesh_problem(name, model.meshes[name], facts) is None by {
            assert(kept(model, facts, name));
        }
        assert forall|name: Seq<char>| #[trigger] model.curves.contains_key(name) implies
            validate::curves_problem(name, model.curves[name], facts) is None by {
            assert(kept(model, facts, name));
        }
        assert forall|name: Seq<char>| #[trigger] model.instances.contains_key(name) implies
            validate::instance_problem(model, name, model.instances[name], facts) is None by {
            assert(kept(model, facts, name));
        }
        assert forall|name: Seq<char>| #[trigger] model.materials.contains_key(name) implies
            validate::textures_problem(name, model.materials[name], facts, 0) is None by {
            assert(kept(model, facts, name));
        }
        assert forall|name: Seq<char>| #[trigger] model.lights.contains_key(name) implies
            validate::light_problem(name, model.lights[name]) is None by {
            assert(kept(model, facts, name));
        }
        assert forall|name: Seq<char>| #[trigger] model.cameras.contains_key(name) implies
            validate::camera_problem(name, model.cameras[name], facts) is None by {
            assert(kept(model, facts, name));
        }
        assert forall|name: Seq<char>| #[trigger] model.environments.contains_key(name) implies
            validate::environment_problem(name, model.environments[name], facts) is None by {
            assert(kept(model, facts, name));
        }
        assert forall|name: Seq<char>| #[trigger] model.media.contains_key(name) implies
            validate::medium_problem(name, model.media[name], facts) is None by {
            assert(kept(model, facts, name));
        }
        assert forall|name: Seq<char>| #[trigger] model.settings.contains_key(name) implies
            validate::settings_problem(model, name, model.settings[name]) is None by {
            assert(kept(model, facts, name));
        }
    }
}

/// Whatever is under a name keeps its rule.
spec fn kept(model: Model, facts: Facts, name: Seq<char>) -> bool {
    &&& model.meshes.contains_key(name) ==> validate::mesh_problem(
        name,
        model.meshes[name],
        facts,
    ) is None
    &&& model.curves.contains_key(name) ==> validate::curves_problem(
        name,
        model.curves[name],
        facts,
    ) is None
    &&& model.instances.contains_key(name) ==> validate::instance_problem(
        model,
        name,
        model.instances[name],
        facts,
    ) is None
    &&& model.materials.contains_key(name) ==> validate::textures_problem(
        name,
        model.materials[name],
        facts,
        0,
    ) is None
    &&& model.lights.contains_key(name) ==> validate::light_problem(name, model.lights[name]) is None
    &&& model.cameras.contains_key(name) ==> validate::camera_problem(
        name,
        model.cameras[name],
        facts,
    ) is None
    &&& model.environments.contains_key(name) ==> validate::environment_problem(
        name,
        model.environments[name],
        facts,
    ) is None
    &&& model.media.contains_key(name) ==> validate::medium_problem(
        name,
        model.media[name],
        facts,
    ) is None
    &&& model.settings.contains_key(name) ==> validate::settings_problem(
        model,
        name,
        model.settings[name],
    ) is None
}

} // verus!
