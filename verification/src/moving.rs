//! Where paths go when a change-set is moved: every path in it, and nothing but the
//! paths.

use vstd::prelude::*;

use crate::changeset::{Op, Repathed, Respell};
use crate::description::{CurvesSource, MeshSource, Texturable, TextureRef};
use crate::path::FilePath;

verus! {

/// A path before and after. Rebased, a path that starts at the root stays and any other
/// comes behind the base, with a separator between; relativized, a path under the
/// base is what is left of it behind the base, and any other stays.
pub open spec fn moved(old: FilePath, new: FilePath, base: FilePath, how: Respell) -> bool {
    let rooted = old.text@.len() > 0 && old.text@[0] == '/';
    &&& how is Rebase && rooted ==> new == old
    &&& how is Rebase && !rooted ==> {
        let parted = base.text@.len() == 0 || base.text@.last() == '/';
        &&& parted ==> new.text@ == base.text@ + old.text@
        &&& !parted ==> new.text@ == base.text@ + seq!['/'] + old.text@
    }
    &&& how is Relativize && base@.is_prefix_of(old@) ==> base@ + new@ == old@
    &&& how is Relativize && !base@.is_prefix_of(old@) ==> new == old
}

/// A texture reference before and after: its path moved, and the rest as it was.
pub open spec fn texture_moved(
    old: TextureRef,
    new: TextureRef,
    base: FilePath,
    how: Respell,
) -> bool {
    &&& moved(old.path, new.path, base, how)
    &&& new.color_space == old.color_space
    &&& new.channel == old.channel
    &&& new.scale == old.scale
    &&& new.uv == old.uv
}

/// A reference that may be none, before and after.
pub open spec fn reference_moved(
    old: Option<TextureRef>,
    new: Option<TextureRef>,
    base: FilePath,
    how: Respell,
) -> bool {
    old is Some == new is Some && (old is Some ==> texture_moved(old->0, new->0, base, how))
}

/// A parameter that a patch may say, before and after: a constant stays, and a texture's
/// path moves.
pub open spec fn parameter_moved<T>(
    old: Option<Texturable<T>>,
    new: Option<Texturable<T>>,
    base: FilePath,
    how: Respell,
) -> bool {
    match old {
        None => new is None,
        Some(Texturable::Constant(value)) => new == Some(Texturable::Constant(value)),
        Some(Texturable::Texture(reference)) => new matches Some(Texturable::Texture(after))
            && texture_moved(reference, after, base, how),
    }
}

/// A path that is respelled is moved.
pub proof fn respelled_paths_are_moved(old: FilePath, new: FilePath, base: FilePath, how: Respell)
    requires
        old.repathed(new, base, how),
    ensures
        moved(old, new, base, how),
{
    reveal_strlit("/");
    assert("/"@ =~= seq!['/']);
}

proof fn respelled_references_are_moved(
    old: TextureRef,
    new: TextureRef,
    base: FilePath,
    how: Respell,
)
    requires
        old.repathed(new, base, how),
    ensures
        texture_moved(old, new, base, how),
{
    respelled_paths_are_moved(old.path, new.path, base, how);
}

proof fn respelled_parameters_are_moved<T: Copy>(
    old: Option<Texturable<T>>,
    new: Option<Texturable<T>>,
    base: FilePath,
    how: Respell,
)
    requires
        old.repathed(new, base, how),
    ensures
        parameter_moved(old, new, base, how),
{
    if let Some(Texturable::Texture(reference)) = old {
        respelled_references_are_moved(reference, new->0->Texture_0, base, how);
    }
}

/// Moving a material's patch moves the path of every texture in it, and changes nothing
/// else.
pub proof fn material_patches_move_their_textures(
    op: Op,
    after: Op,
    base: FilePath,
    how: Respell,
)
    requires
        op.repathed(after, base, how),
        op is Material,
    ensures
        after is Material,
        ({
            let old = *op->Material_0;
            let new = *after->Material_0;
            &&& new.name == old.name
            &&& parameter_moved(old.base_color, new.base_color, base, how)
            &&& new.base_diffuse_roughness == old.base_diffuse_roughness
            &&& parameter_moved(old.base_metalness, new.base_metalness, base, how)
            &&& new.specular_weight == old.specular_weight
            &&& parameter_moved(old.specular_roughness, new.specular_roughness, base, how)
            &&& new.specular_ior == old.specular_ior
            &&& new.transmission_weight == old.transmission_weight
            &&& new.transmission_color == old.transmission_color
            &&& new.transmission_depth == old.transmission_depth
            &&& new.transmission_scatter == old.transmission_scatter
            &&& new.transmission_scatter_anisotropy == old.transmission_scatter_anisotropy
            &&& parameter_moved(old.subsurface_weight, new.subsurface_weight, base, how)
            &&& parameter_moved(old.subsurface_color, new.subsurface_color, base, how)
            &&& parameter_moved(old.subsurface_radius, new.subsurface_radius, base, how)
            &&& parameter_moved(old.subsurface_radius_scale, new.subsurface_radius_scale, base, how)
            &&& parameter_moved(old.subsurface_scatter_anisotropy, new.subsurface_scatter_anisotropy, base, how)
            &&& new.coat_weight == old.coat_weight
            &&& new.coat_color == old.coat_color
            &&& new.coat_roughness == old.coat_roughness
            &&& new.coat_ior == old.coat_ior
            &&& new.coat_darkening == old.coat_darkening
            &&& new.fuzz_weight == old.fuzz_weight
            &&& new.fuzz_color == old.fuzz_color
            &&& new.fuzz_roughness == old.fuzz_roughness
            &&& new.emission_luminance == old.emission_luminance
            &&& parameter_moved(old.emission_color, new.emission_color, base, how)
            &&& parameter_moved(old.geometry_opacity, new.geometry_opacity, base, how)
            &&& new.geometry_thin_walled == old.geometry_thin_walled
            &&& old.geometry_normal is Some == new.geometry_normal is Some
            &&& old.geometry_normal is Some ==> reference_moved(old.geometry_normal->0, new.geometry_normal->0, base, how)
        }),
{
    let old = *op->Material_0;
    let new = *after->Material_0;
    respelled_parameters_are_moved(old.base_color, new.base_color, base, how);
    respelled_parameters_are_moved(old.base_metalness, new.base_metalness, base, how);
    respelled_parameters_are_moved(old.specular_roughness, new.specular_roughness, base, how);
    respelled_parameters_are_moved(old.subsurface_weight, new.subsurface_weight, base, how);
    respelled_parameters_are_moved(old.subsurface_color, new.subsurface_color, base, how);
    respelled_parameters_are_moved(old.subsurface_radius, new.subsurface_radius, base, how);
    respelled_parameters_are_moved(old.subsurface_radius_scale, new.subsurface_radius_scale, base, how);
    respelled_parameters_are_moved(old.subsurface_scatter_anisotropy, new.subsurface_scatter_anisotropy, base, how);
    respelled_parameters_are_moved(old.emission_color, new.emission_color, base, how);
    respelled_parameters_are_moved(old.geometry_opacity, new.geometry_opacity, base, how);
    if old.geometry_normal is Some && old.geometry_normal->0 is Some {
        respelled_references_are_moved(
            old.geometry_normal->0->0,
            new.geometry_normal->0->0,
            base,
            how,
        );
    }
}

/// Moving an environment's patch moves the path of its image, and changes nothing else.
pub proof fn environment_patches_move_their_image(
    op: Op,
    after: Op,
    base: FilePath,
    how: Respell,
)
    requires
        op.repathed(after, base, how),
        op is Environment,
    ensures
        after is Environment,
        ({
            let old = op->Environment_0;
            let new = after->Environment_0;
            &&& new.name == old.name
            &&& old.path is Some == new.path is Some
            &&& old.path is Some ==> old.path->0 is Some == new.path->0 is Some
            &&& old.path is Some && old.path->0 is Some ==> moved(old.path->0->0, new.path->0->0, base, how)
            &&& new.tint == old.tint
            &&& new.transform == old.transform
        }),
{
    let old = op->Environment_0;
    let new = after->Environment_0;
    if old.path is Some && old.path->0 is Some {
        respelled_paths_are_moved(old.path->0->0, new.path->0->0, base, how);
    }
}

/// Moving a mesh's, a batch's or a medium's patch moves the path of the file that it
/// names, and changes nothing else.
pub proof fn file_patches_move_their_file(op: Op, after: Op, base: FilePath, how: Respell)
    requires
        op.repathed(after, base, how),
    ensures
        op matches Op::Mesh(old) ==> (after matches Op::Mesh(new) && new.name == old.name && match old.source {
            Some(MeshSource::Ply { path }) => new.source matches Some(MeshSource::Ply { path: to })
                && moved(path, to, base, how),
            _ => new.source == old.source,
        }),
        op matches Op::Curves(old) ==> (after matches Op::Curves(new) && new.name == old.name && match old.source {
            Some(CurvesSource::Hair { path }) => new.source matches Some(
                CurvesSource::Hair { path: to },
            ) && moved(path, to, base, how),
            _ => new.source == old.source,
        }),
        op matches Op::Medium(old) ==> (after matches Op::Medium(new) && new.name == old.name
            && new.absorption == old.absorption && new.scattering == old.scattering
            && new.anisotropy == old.anisotropy && match old.volume {
            Some(Some(volume)) => new.volume matches Some(Some(to)) && moved(
                volume.path,
                to.path,
                base,
                how,
            ) && to.grid == volume.grid && to.temperature_grid == volume.temperature_grid
                && to.temperature_scale == volume.temperature_scale && to.temperature_offset
                == volume.temperature_offset && to.emission == volume.emission,
            _ => new.volume == old.volume,
        }),
        op is Instance || op is Light || op is Camera || op is Settings || op is Remove ==> after
            == op,
{
    match op {
        Op::Mesh(old) => {
            if let Some(MeshSource::Ply { path }) = old.source {
                let to = after->Mesh_0.source->0->Ply_path;
                respelled_paths_are_moved(path, to, base, how);
            }
        },
        Op::Curves(old) => {
            if let Some(CurvesSource::Hair { path }) = old.source {
                let to = after->Curves_0.source->0->Hair_path;
                respelled_paths_are_moved(path, to, base, how);
            }
        },
        Op::Medium(old) => {
            if let Some(Some(volume)) = old.volume {
                let to = after->Medium_0.volume->0->0;
                respelled_paths_are_moved(volume.path, to.path, base, how);
            }
        },
        _ => {},
    }
}

} // verus!
