//! What a patch says lands, and what it does not say stays: field by field, for
//! every kind of object.

use vstd::prelude::*;

use crate::changeset;
use crate::changeset::{
    CameraPatch, CurvesPatch, EnvironmentPatch, InstancePatch, LightPatch, MaterialPatch,
    MediumPatch, MeshPatch, Op, SettingsPatch,
};
use crate::description::{Blanks, Geometry, Model};

verus! {

/// A field after a patch: what the patch says of it where it says anything, and
/// else what it was.
pub open spec fn lands<T>(said: Option<T>, before: T, after: T) -> bool {
    &&& said matches Some(value) ==> after == value
    &&& said is None ==> after == before
}

/// What is under a name, or what a name stands for when it is first mentioned.
pub open spec fn found<T>(map: Map<Seq<char>, T>, blank: T, name: Seq<char>) -> T {
    if map.contains_key(name) {
        map[name]
    } else {
        blank
    }
}

/// A patch of a mesh: every field that it says is as it says, and every field
/// that it does not say is as it was.
pub proof fn mesh_patches_land(model: Model, blanks: Blanks, patch: MeshPatch)
    ensures
        ({
            let map = changeset::op_model(model, blanks, Op::Mesh(patch)).meshes;
            let before = found(model.meshes, blanks.meshes, patch.name@);
            let after = map[patch.name@];
            &&& map.contains_key(patch.name@)
            &&& lands(patch.source, before.source, after.source)
        }),
{
}

/// A patch of a batch of curves: every field that it says is as it says, and every field
/// that it does not say is as it was.
pub proof fn curves_patches_land(model: Model, blanks: Blanks, patch: CurvesPatch)
    ensures
        ({
            let map = changeset::op_model(model, blanks, Op::Curves(patch)).curves;
            let before = found(model.curves, blanks.curves, patch.name@);
            let after = map[patch.name@];
            &&& map.contains_key(patch.name@)
            &&& lands(patch.source, before.source, after.source)
        }),
{
}

/// A patch of a material: every field that it says is as it says, and every field
/// that it does not say is as it was.
pub proof fn material_patches_land(model: Model, blanks: Blanks, patch: Box<MaterialPatch>)
    ensures
        ({
            let map = changeset::op_model(model, blanks, Op::Material(patch)).materials;
            let before = found(model.materials, blanks.materials, patch.name@);
            let after = map[patch.name@];
            &&& map.contains_key(patch.name@)
            &&& lands(patch.base_color, before.base_color, after.base_color)
            &&& lands(patch.base_diffuse_roughness, before.base_diffuse_roughness, after.base_diffuse_roughness)
            &&& lands(patch.base_metalness, before.base_metalness, after.base_metalness)
            &&& lands(patch.specular_weight, before.specular_weight, after.specular_weight)
            &&& lands(patch.specular_roughness, before.specular_roughness, after.specular_roughness)
            &&& lands(patch.specular_ior, before.specular_ior, after.specular_ior)
            &&& lands(patch.transmission_weight, before.transmission_weight, after.transmission_weight)
            &&& lands(patch.transmission_color, before.transmission_color, after.transmission_color)
            &&& lands(patch.transmission_depth, before.transmission_depth, after.transmission_depth)
            &&& lands(patch.transmission_scatter, before.transmission_scatter, after.transmission_scatter)
            &&& lands(patch.transmission_scatter_anisotropy, before.transmission_scatter_anisotropy, after.transmission_scatter_anisotropy)
            &&& lands(patch.subsurface_weight, before.subsurface_weight, after.subsurface_weight)
            &&& lands(patch.subsurface_color, before.subsurface_color, after.subsurface_color)
            &&& lands(patch.subsurface_radius, before.subsurface_radius, after.subsurface_radius)
            &&& lands(patch.subsurface_radius_scale, before.subsurface_radius_scale, after.subsurface_radius_scale)
            &&& lands(patch.subsurface_scatter_anisotropy, before.subsurface_scatter_anisotropy, after.subsurface_scatter_anisotropy)
            &&& lands(patch.coat_weight, before.coat_weight, after.coat_weight)
            &&& lands(patch.coat_color, before.coat_color, after.coat_color)
            &&& lands(patch.coat_roughness, before.coat_roughness, after.coat_roughness)
            &&& lands(patch.coat_ior, before.coat_ior, after.coat_ior)
            &&& lands(patch.coat_darkening, before.coat_darkening, after.coat_darkening)
            &&& lands(patch.fuzz_weight, before.fuzz_weight, after.fuzz_weight)
            &&& lands(patch.fuzz_color, before.fuzz_color, after.fuzz_color)
            &&& lands(patch.fuzz_roughness, before.fuzz_roughness, after.fuzz_roughness)
            &&& lands(patch.emission_luminance, before.emission_luminance, after.emission_luminance)
            &&& lands(patch.emission_color, before.emission_color, after.emission_color)
            &&& lands(patch.geometry_opacity, before.geometry_opacity, after.geometry_opacity)
            &&& lands(patch.geometry_thin_walled, before.geometry_thin_walled, after.geometry_thin_walled)
            &&& lands(patch.geometry_normal, before.geometry_normal, after.geometry_normal)
        }),
{
}

/// A patch of a medium: every field that it says is as it says, and every field
/// that it does not say is as it was.
pub proof fn medium_patches_land(model: Model, blanks: Blanks, patch: MediumPatch)
    ensures
        ({
            let map = changeset::op_model(model, blanks, Op::Medium(patch)).media;
            let before = found(model.media, blanks.media, patch.name@);
            let after = map[patch.name@];
            &&& map.contains_key(patch.name@)
            &&& lands(patch.absorption, before.absorption, after.absorption)
            &&& lands(patch.scattering, before.scattering, after.scattering)
            &&& lands(patch.anisotropy, before.anisotropy, after.anisotropy)
            &&& lands(patch.volume, before.volume, after.volume)
        }),
{
}

/// A patch of a camera: every field that it says is as it says, and every field
/// that it does not say is as it was.
pub proof fn camera_patches_land(model: Model, blanks: Blanks, patch: CameraPatch)
    ensures
        ({
            let map = changeset::op_model(model, blanks, Op::Camera(patch)).cameras;
            let before = found(model.cameras, blanks.cameras, patch.name@);
            let after = map[patch.name@];
            &&& map.contains_key(patch.name@)
            &&& lands(patch.position, before.position, after.position)
            &&& lands(patch.look_at, before.look_at, after.look_at)
            &&& lands(patch.up, before.up, after.up)
            &&& lands(patch.vfov_degrees, before.vfov_degrees, after.vfov_degrees)
            &&& lands(patch.focus_distance, before.focus_distance, after.focus_distance)
            &&& lands(patch.aperture_radius, before.aperture_radius, after.aperture_radius)
        }),
{
}

/// A patch of a environment: every field that it says is as it says, and every field
/// that it does not say is as it was.
pub proof fn environment_patches_land(model: Model, blanks: Blanks, patch: EnvironmentPatch)
    ensures
        ({
            let map = changeset::op_model(model, blanks, Op::Environment(patch)).environments;
            let before = found(model.environments, blanks.environments, patch.name@);
            let after = map[patch.name@];
            &&& map.contains_key(patch.name@)
            &&& lands(patch.path, before.path, after.path)
            &&& lands(patch.tint, before.tint, after.tint)
            &&& lands(patch.transform, before.transform, after.transform)
        }),
{
}

/// A patch of a settings object: every field that it says is as it says, and every field
/// that it does not say is as it was.
pub proof fn settings_patches_land(model: Model, blanks: Blanks, patch: SettingsPatch)
    ensures
        ({
            let map = changeset::op_model(model, blanks, Op::Settings(patch)).settings;
            let before = found(model.settings, blanks.settings, patch.name@);
            let after = map[patch.name@];
            &&& map.contains_key(patch.name@)
            &&& lands(patch.resolution, before.resolution, after.resolution)
            &&& lands(patch.spp, before.spp, after.spp)
            &&& lands(patch.noise_threshold, before.noise_threshold, after.noise_threshold)
            &&& lands(patch.max_bounces, before.max_bounces, after.max_bounces)
            &&& lands(patch.denoise, before.denoise, after.denoise)
            &&& lands(patch.seed, before.seed, after.seed)
            &&& lands(patch.global_medium, before.global_medium, after.global_medium)
        }),
{
}

/// A patch of an instance: every field that it says is as it says, and every field
/// that it does not say is as it was. A mesh or curves that it names take the
/// place of whatever was placed before.
pub proof fn instance_patches_land(model: Model, blanks: Blanks, patch: InstancePatch)
    ensures
        ({
            let map = changeset::op_model(model, blanks, Op::Instance(patch)).instances;
            let before = found(model.instances, blanks.instances, patch.name@);
            let after = map[patch.name@];
            &&& map.contains_key(patch.name@)
            &&& patch.mesh is None && patch.curves is None ==> after.geometry == before.geometry
            &&& patch.curves is None ==> (patch.mesh matches Some(mesh) ==> after.geometry
                == Geometry::Mesh(mesh))
            &&& patch.mesh is None ==> (patch.curves matches Some(curves) ==> after.geometry
                == Geometry::Curves(curves))
            &&& lands(patch.material, before.material, after.material)
            &&& lands(patch.transforms, before.transforms, after.transforms)
            &&& lands(patch.camera_visible, before.camera_visible, after.camera_visible)
            &&& lands(patch.medium, before.medium, after.medium)
            &&& lands(
                patch.interior_priority,
                before.interior_priority,
                after.interior_priority,
            )
        }),
{
}

/// A patch of a light: the light is what it says, or what it was.
pub proof fn light_patches_land(model: Model, blanks: Blanks, patch: LightPatch)
    ensures
        ({
            let map = changeset::op_model(model, blanks, Op::Light(patch)).lights;
            &&& map.contains_key(patch.name@)
            &&& lands(
                patch.light,
                found(model.lights, blanks.lights, patch.name@),
                map[patch.name@],
            )
        }),
{
}

} // verus!
