//! Materials as the renderer holds them.

use vstd::prelude::*;

use crate::bits::{Num, Vec3};

verus! {

/// A texture slot that holds no texture.
pub const TEXTURE_NONE: u32 = 0xffff_ffff;

/// A material, lowered: colors in the working space, weights in their ranges,
/// textures by their index.
#[derive(Clone, Copy, Debug, PartialEq, Eq, Structural)]
pub struct Material {
    /// The color of the base.
    pub base_color: Vec3,
    /// How rough the base scatters.
    pub diffuse_roughness: Num,
    /// How far the base is a metal.
    pub metalness: Num,
    /// The weight of the specular lobe.
    pub specular_weight: Num,
    /// Its roughness.
    pub specular_roughness: Num,
    /// Its index of refraction.
    pub specular_ior: Num,
    /// How far light passes through.
    pub transmission_weight: Num,
    /// The color it is left with at the depth.
    pub transmission_color: Vec3,
    /// That depth.
    pub transmission_depth: Num,
    /// What scatters inside.
    pub transmission_scatter: Vec3,
    /// How far that leans forward.
    pub transmission_scatter_anisotropy: Num,
    /// The weight of the subsurface lobe.
    pub subsurface_weight: Num,
    /// The color its walk arrives at.
    pub subsurface_color: Vec3,
    /// Its mean free path.
    pub subsurface_radius: Num,
    /// The mean free path's scale in each channel.
    pub subsurface_radius_scale: Vec3,
    /// How far its scattering leans forward.
    pub subsurface_scatter_anisotropy: Num,
    /// The color of the coat.
    pub coat_color: Vec3,
    /// Its weight.
    pub coat_weight: Num,
    /// Its roughness.
    pub coat_roughness: Num,
    /// Its index of refraction.
    pub coat_ior: Num,
    /// How far it darkens what is under it.
    pub coat_darkening: Num,
    /// The weight of the fuzz.
    pub fuzz_weight: Num,
    /// Its color.
    pub fuzz_color: Vec3,
    /// Its roughness.
    pub fuzz_roughness: Num,
    /// How much of the surface there is.
    pub opacity: Num,
    /// Whether the surface has no inside.
    pub thin_walled: bool,
    /// What it emits.
    pub emission: Vec3,
    /// The texture of the base color.
    pub base_color_texture: u32,
    /// The texture of the metalness.
    pub metalness_texture: u32,
    /// The texture of the specular roughness.
    pub specular_roughness_texture: u32,
    /// The texture of the emission.
    pub emission_texture: u32,
    /// The texture of the opacity.
    pub opacity_texture: u32,
    /// The normal map.
    pub normal_texture: u32,
    /// The texture of the subsurface weight.
    pub subsurface_weight_texture: u32,
    /// The texture of the subsurface color.
    pub subsurface_color_texture: u32,
    /// The texture of the subsurface radius.
    pub subsurface_radius_texture: u32,
    /// The texture of the subsurface radius scale.
    pub subsurface_radius_scale_texture: u32,
    /// The texture of the subsurface anisotropy.
    pub subsurface_scatter_anisotropy_texture: u32,
}

} // verus!
