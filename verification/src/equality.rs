//! When an edit counts as a change: what it takes for two objects to be equal, field
//! by field. Numbers compare as numbers, so the two zeros are one and what is no
//! number equals nothing; paths compare by their steps.

use vstd::prelude::*;

use crate::bits::{Num, Vec2, Vec3, Vec4, SIGN};
use crate::changeset;
use crate::changeset::{DirtySets, Kind, Op};
use crate::description::{
    Blanks, Camera, Curves, CurvesSource, Environment, Geometry, Instance, Light, Material, Medium,
    Mesh, MeshSource, Model, Settings, Texturable, TextureRef, Transform, VolumeSource,
};
use crate::path::FilePath;
use crate::value::Same;

verus! {

/// Equal as numbers.
pub open spec fn num_alike(a: Num, b: Num) -> bool {
    a.equal(b)
}

/// Equal numbers are the same bits, or both are zeros; what is no number equals nothing.
pub proof fn equal_numbers_are_alike(a: Num, b: Num)
    ensures
        num_alike(a, b) == (!a.nan() && !b.nan() && (a.bits == b.bits || ((a.bits == 0 || a.bits
            == SIGN) && (b.bits == 0 || b.bits == SIGN)))),
{
}

/// Equal in both components.
pub open spec fn pair_alike(a: Vec2, b: Vec2) -> bool {
    num_alike(a.x, b.x) && num_alike(a.y, b.y)
}

/// Equal in all three components.
pub open spec fn vec_alike(a: Vec3, b: Vec3) -> bool {
    num_alike(a.x, b.x) && num_alike(a.y, b.y) && num_alike(a.z, b.z)
}

/// Equal in all four components.
pub open spec fn row_alike(a: Vec4, b: Vec4) -> bool {
    num_alike(a.x, b.x) && num_alike(a.y, b.y) && num_alike(a.z, b.z) && num_alike(a.w, b.w)
}

/// Both none, or equal as numbers.
pub open spec fn perhaps_alike(a: Option<Num>, b: Option<Num>) -> bool {
    a is Some == b is Some && (a is Some ==> num_alike(a->0, b->0))
}

/// Both none, or the same name.
pub open spec fn name_alike(a: Option<String>, b: Option<String>) -> bool {
    a is Some == b is Some && (a is Some ==> a->0@ == b->0@)
}

/// Both none, or the same path.
pub open spec fn path_alike(a: Option<FilePath>, b: Option<FilePath>) -> bool {
    a is Some == b is Some && (a is Some ==> a->0@ == b->0@)
}

/// The same texture, sampled alike.
pub open spec fn texture_alike(a: TextureRef, b: TextureRef) -> bool {
    &&& a.path@ == b.path@
    &&& a.color_space == b.color_space
    &&& a.channel == b.channel
    &&& perhaps_alike(a.scale, b.scale)
    &&& a.uv is Some == b.uv is Some
    &&& a.uv is Some ==> pair_alike(a.uv->0.scale, b.uv->0.scale) && pair_alike(
        a.uv->0.offset,
        b.uv->0.offset,
    )
}

/// Both none, or the same texture.
pub open spec fn reference_alike(a: Option<TextureRef>, b: Option<TextureRef>) -> bool {
    a is Some == b is Some && (a is Some ==> texture_alike(a->0, b->0))
}

/// The same number, or the same texture.
pub open spec fn scalar_alike(a: Texturable<Num>, b: Texturable<Num>) -> bool {
    match (a, b) {
        (Texturable::Constant(x), Texturable::Constant(y)) => num_alike(x, y),
        (Texturable::Texture(x), Texturable::Texture(y)) => texture_alike(x, y),
        _ => false,
    }
}

/// The same color, or the same texture.
pub open spec fn color_alike(a: Texturable<Vec3>, b: Texturable<Vec3>) -> bool {
    match (a, b) {
        (Texturable::Constant(x), Texturable::Constant(y)) => vec_alike(x, y),
        (Texturable::Texture(x), Texturable::Texture(y)) => texture_alike(x, y),
        _ => false,
    }
}

/// The same placement, said the same way.
pub open spec fn transform_alike(a: Transform, b: Transform) -> bool {
    match (a, b) {
        (
            Transform::Trs { translate, rotate_degrees, scale },
            Transform::Trs { translate: t, rotate_degrees: r, scale: s },
        ) => vec_alike(translate, t) && vec_alike(rotate_degrees, r) && vec_alike(scale, s),
        (Transform::Matrix { x, y, z }, Transform::Matrix { x: a, y: b, z: c }) => row_alike(x, a)
            && row_alike(y, b) && row_alike(z, c),
        _ => false,
    }
}

/// The same placements, in order.
pub open spec fn placements_alike(a: Seq<Transform>, b: Seq<Transform>) -> bool {
    a.len() == b.len() && forall|i: int|
        0 <= i < a.len() ==> transform_alike(#[trigger] a[i], b[i])
}

/// The same mesh, or the same curves.
pub open spec fn geometry_alike(a: Geometry, b: Geometry) -> bool {
    match (a, b) {
        (Geometry::Mesh(x), Geometry::Mesh(y)) => x@ == y@,
        (Geometry::Curves(x), Geometry::Curves(y)) => x@ == y@,
        _ => false,
    }
}

/// Both none, or the same volume.
pub open spec fn volume_alike(a: Option<VolumeSource>, b: Option<VolumeSource>) -> bool {
    &&& a is Some == b is Some
    &&& a matches Some(x) ==> {
        let y = b->0;
        &&& x.path@ == y.path@
        &&& x.grid@ == y.grid@
        &&& name_alike(x.temperature_grid, y.temperature_grid)
        &&& num_alike(x.temperature_scale, y.temperature_scale)
        &&& num_alike(x.temperature_offset, y.temperature_offset)
        &&& vec_alike(x.emission, y.emission)
    }
}

/// Two materials are equal exactly where they are in every field.
pub proof fn materials_are_equal_in_every_field(a: Material, b: Material)
    ensures
        a.same(b) == {
            &&& color_alike(a.base_color, b.base_color)
            &&& num_alike(a.base_diffuse_roughness, b.base_diffuse_roughness)
            &&& scalar_alike(a.base_metalness, b.base_metalness)
            &&& num_alike(a.specular_weight, b.specular_weight)
            &&& scalar_alike(a.specular_roughness, b.specular_roughness)
            &&& num_alike(a.specular_ior, b.specular_ior)
            &&& num_alike(a.transmission_weight, b.transmission_weight)
            &&& vec_alike(a.transmission_color, b.transmission_color)
            &&& num_alike(a.transmission_depth, b.transmission_depth)
            &&& vec_alike(a.transmission_scatter, b.transmission_scatter)
            &&& num_alike(a.transmission_scatter_anisotropy, b.transmission_scatter_anisotropy)
            &&& scalar_alike(a.subsurface_weight, b.subsurface_weight)
            &&& color_alike(a.subsurface_color, b.subsurface_color)
            &&& scalar_alike(a.subsurface_radius, b.subsurface_radius)
            &&& color_alike(a.subsurface_radius_scale, b.subsurface_radius_scale)
            &&& scalar_alike(a.subsurface_scatter_anisotropy, b.subsurface_scatter_anisotropy)
            &&& num_alike(a.coat_weight, b.coat_weight)
            &&& vec_alike(a.coat_color, b.coat_color)
            &&& num_alike(a.coat_roughness, b.coat_roughness)
            &&& num_alike(a.coat_ior, b.coat_ior)
            &&& num_alike(a.coat_darkening, b.coat_darkening)
            &&& num_alike(a.fuzz_weight, b.fuzz_weight)
            &&& vec_alike(a.fuzz_color, b.fuzz_color)
            &&& num_alike(a.fuzz_roughness, b.fuzz_roughness)
            &&& num_alike(a.emission_luminance, b.emission_luminance)
            &&& color_alike(a.emission_color, b.emission_color)
            &&& scalar_alike(a.geometry_opacity, b.geometry_opacity)
            &&& a.geometry_thin_walled == b.geometry_thin_walled
            &&& reference_alike(a.geometry_normal, b.geometry_normal)
        },
{
}

/// Two instances are equal exactly where they are in every field.
pub proof fn instances_are_equal_in_every_field(a: Instance, b: Instance)
    ensures
        a.same(b) == {
            &&& geometry_alike(a.geometry, b.geometry)
            &&& a.material@ == b.material@
            &&& placements_alike(a.transforms@, b.transforms@)
            &&& a.camera_visible == b.camera_visible
            &&& name_alike(a.medium, b.medium)
            &&& a.interior_priority == b.interior_priority
        },
{
    assert forall|i: int| 0 <= i < a.transforms@.len() implies (#[trigger] a.transforms@[i]).same(
        b.transforms@[i],
    ) == transform_alike(a.transforms@[i], b.transforms@[i]) by {}
    if placements_alike(a.transforms@, b.transforms@) {
        assert forall|i: int| 0 <= i < a.transforms@.len() implies (
        #[trigger] a.transforms@[i]).same(b.transforms@[i]) by {
            assert(transform_alike(a.transforms@[i], b.transforms@[i]));
        }
    }
}

/// Two media are equal exactly where they are in every field.
pub proof fn media_are_equal_in_every_field(a: Medium, b: Medium)
    ensures
        a.same(b) == {
            &&& vec_alike(a.absorption, b.absorption)
            &&& vec_alike(a.scattering, b.scattering)
            &&& num_alike(a.anisotropy, b.anisotropy)
            &&& volume_alike(a.volume, b.volume)
        },
{
}

/// Two cameras are equal exactly where they are in every field.
pub proof fn cameras_are_equal_in_every_field(a: Camera, b: Camera)
    ensures
        a.same(b) == {
            &&& vec_alike(a.position, b.position)
            &&& vec_alike(a.look_at, b.look_at)
            &&& vec_alike(a.up, b.up)
            &&& num_alike(a.vfov_degrees, b.vfov_degrees)
            &&& perhaps_alike(a.focus_distance, b.focus_distance)
            &&& num_alike(a.aperture_radius, b.aperture_radius)
        },
{
}

/// Two environments are equal exactly where they are in every field.
pub proof fn environments_are_equal_in_every_field(a: Environment, b: Environment)
    ensures
        a.same(b) == {
            &&& path_alike(a.path, b.path)
            &&& vec_alike(a.tint, b.tint)
            &&& transform_alike(a.transform, b.transform)
        },
{
}

/// Two sets of settings are equal exactly where they are in every field.
pub proof fn settings_are_equal_in_every_field(a: Settings, b: Settings)
    ensures
        a.same(b) == {
            &&& a.resolution[0] == b.resolution[0] && a.resolution[1] == b.resolution[1]
            &&& a.spp == b.spp
            &&& perhaps_alike(a.noise_threshold, b.noise_threshold)
            &&& a.max_bounces == b.max_bounces
            &&& a.denoise == b.denoise
            &&& a.seed == b.seed
            &&& name_alike(a.global_medium, b.global_medium)
        },
{
    assert((a.resolution@ == b.resolution@) == (a.resolution[0] == b.resolution[0]
        && a.resolution[1] == b.resolution[1])) by {
        if a.resolution[0] == b.resolution[0] && a.resolution[1] == b.resolution[1] {
            assert(a.resolution@ =~= b.resolution@);
        }
    }
}

/// Two lights are equal exactly where they are of one kind and equal in both values.
pub proof fn lights_are_equal_in_every_field(a: Light, b: Light)
    ensures
        a.same(b) == match (a, b) {
            (
                Light::Distant { direction, irradiance },
                Light::Distant { direction: d, irradiance: i },
            ) => vec_alike(direction, d) && vec_alike(irradiance, i),
            (
                Light::Point { position, intensity },
                Light::Point { position: p, intensity: i },
            ) => vec_alike(position, p) && vec_alike(intensity, i),
            _ => false,
        },
{
}

/// Two meshes that are spelled out are equal only where they spell the same: each
/// position and each triangle, and normals and coordinates where they have them;
/// two that are files, where they are one file.
pub proof fn meshes_are_equal_in_every_part(a: Mesh, b: Mesh)
    requires
        a.same(b),
    ensures
        a.source is Ply == b.source is Ply,
        a.source is MediumBounds == b.source is MediumBounds,
        a.source is Ply ==> a.source->Ply_path@ == b.source->Ply_path@,
        a.source is Inline ==> {
            let (p, q) = (a.source->Inline_positions@, b.source->Inline_positions@);
            let (t, u) = (a.source->Inline_triangles@, b.source->Inline_triangles@);
            let (n, m) = (a.source->Inline_normals, b.source->Inline_normals);
            let (c, d) = (a.source->Inline_uvs, b.source->Inline_uvs);
            &&& p.len() == q.len()
            &&& forall|i: int| 0 <= i < p.len() ==> vec_alike(#[trigger] p[i], q[i])
            &&& t.len() == u.len()
            &&& forall|i: int|
                0 <= i < t.len() ==> (#[trigger] t[i])[0] == u[i][0] && t[i][1] == u[i][1]
                    && t[i][2] == u[i][2]
            &&& n is Some == m is Some
            &&& n is Some ==> n->0@.len() == m->0@.len() && forall|i: int|
                0 <= i < n->0@.len() ==> vec_alike(#[trigger] n->0@[i], m->0@[i])
            &&& c is Some == d is Some
            &&& c is Some ==> c->0@.len() == d->0@.len() && forall|i: int|
                0 <= i < c->0@.len() ==> pair_alike(#[trigger] c->0@[i], d->0@[i])
        },
{
    if let (
        MeshSource::Inline { positions: p, normals: n, uvs: c, triangles: t },
        MeshSource::Inline { positions: q, normals: m, uvs: d, triangles: u },
    ) = (a.source, b.source) {
        assert(p.same(q) && t.same(u) && n.same(m) && c.same(d));
        assert forall|i: int| 0 <= i < p@.len() implies vec_alike(#[trigger] p@[i], q@[i]) by {
            assert(p@[i].same(q@[i]));
        }
        assert forall|i: int| 0 <= i < t@.len() implies (#[trigger] t@[i])[0] == u@[i][0]
            && t@[i][1] == u@[i][1] && t@[i][2] == u@[i][2] by {
            assert(t@[i].same(u@[i]));
        }
        if n is Some {
            assert forall|i: int| 0 <= i < n->0@.len() implies vec_alike(
                #[trigger] n->0@[i],
                m->0@[i],
            ) by {
                assert(n->0@[i].same(m->0@[i]));
            }
        }
        if c is Some {
            assert forall|i: int| 0 <= i < c->0@.len() implies pair_alike(
                #[trigger] c->0@[i],
                d->0@[i],
            ) by {
                assert(c->0@[i].same(d->0@[i]));
            }
        }
    }
}

/// Two batches of curves that are spelled out are equal only where they spell the same:
/// each point, each count, each width, and how they are read; two that are files,
/// where they are one file.
pub proof fn curves_are_equal_in_every_part(a: Curves, b: Curves)
    requires
        a.same(b),
    ensures
        a.source is Hair == b.source is Hair,
        a.source is Hair ==> a.source->Hair_path@ == b.source->Hair_path@,
        a.source is Inline ==> {
            let (p, q) = (a.source->Inline_points@, b.source->Inline_points@);
            let (c, d) = (
                a.source->Inline_curve_vertex_counts@,
                b.source->Inline_curve_vertex_counts@,
            );
            let (w, v) = (a.source->Inline_widths, b.source->Inline_widths);
            &&& p.len() == q.len()
            &&& forall|i: int| 0 <= i < p.len() ==> vec_alike(#[trigger] p[i], q[i])
            &&& c.len() == d.len()
            &&& forall|i: int| 0 <= i < c.len() ==> #[trigger] c[i] == d[i]
            &&& w is Some == v is Some
            &&& w is Some ==> w->0.interpolation == v->0.interpolation && w->0.values@.len()
                == v->0.values@.len() && forall|i: int|
                0 <= i < w->0.values@.len() ==> num_alike(
                    #[trigger] w->0.values@[i],
                    v->0.values@[i],
                )
            &&& a.source->Inline_curve_type == b.source->Inline_curve_type
            &&& a.source->Inline_basis == b.source->Inline_basis
            &&& a.source->Inline_wrap == b.source->Inline_wrap
        },
{
    if let (
        CurvesSource::Inline { points: p, curve_vertex_counts: c, widths: w, .. },
        CurvesSource::Inline { points: q, curve_vertex_counts: d, widths: v, .. },
    ) = (a.source, b.source) {
        assert(p.same(q) && c.same(d) && w.same(v));
        assert forall|i: int| 0 <= i < p@.len() implies vec_alike(#[trigger] p@[i], q@[i]) by {
            assert(p@[i].same(q@[i]));
        }
        assert forall|i: int| 0 <= i < c@.len() implies #[trigger] c@[i] == d@[i] by {
            assert(c@[i].same(d@[i]));
        }
        if w is Some {
            assert(w->0.values.same(v->0.values));
            assert forall|i: int| 0 <= i < w->0.values@.len() implies num_alike(
                #[trigger] w->0.values@[i],
                v->0.values@[i],
            ) by {
                assert(w->0.values@[i].same(v->0.values@[i]));
            }
        }
    }
}

/// A patch marks its object exactly where it makes it, or leaves it other than equal to
/// what it was; and it marks nothing else.
pub proof fn patches_mark_what_they_change(
    model: Model,
    blanks: Blanks,
    dirt: DirtySets,
    op: Op,
    kind: Kind,
    name: Seq<char>,
)
    requires
        !(op is Remove),
    ensures
        ({
            let after = changeset::op_model(model, blanks, op);
            let marked = changeset::op_dirt(model, blanks, dirt, op);
            &&& marked.removed == dirt.removed
            &&& op.aim() != (kind, name) ==> marked.changed.contains((kind, name))
                == dirt.changed.contains((kind, name))
            &&& op.aim() == (kind, name) ==> marked.changed.contains((kind, name)) == (
            dirt.changed.contains((kind, name)) || !changeset::holds(model, kind, name)
                || !changeset::same_object(after, model, kind, name))
        }),
{
    match op {
        Op::Mesh(patch) => {},
        Op::Curves(patch) => {},
        Op::Instance(patch) => {},
        Op::Material(patch) => {},
        Op::Medium(patch) => {},
        Op::Light(patch) => {},
        Op::Camera(patch) => {},
        Op::Environment(patch) => {},
        Op::Settings(patch) => {},
        Op::Remove(_, _) => {},
    }
}

} // verus!
