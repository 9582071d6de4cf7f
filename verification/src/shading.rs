//! What a material's parameters become when it is lowered: each from the parameter
//! of its own name, and each texture where that parameter's texture is.

use vstd::prelude::*;

use crate::bits::{Num, Vec2, Vec3, ONE};
use crate::description;
use crate::description::{Channel, ColorSpace, Texturable, TextureRef};
use crate::formula;
use crate::formula::{Answer, Formula};
use crate::lower;
use crate::material::{Material, TEXTURE_NONE};
use crate::numbers::{to_fractions, to_least, to_nonnegative, to_unit};
use crate::numbers;
use crate::texture::{Identity, Key, Usage};

verus! {

/// A parameter's constant, or what stands for it where a texture says it.
pub open spec fn said<T>(value: Texturable<T>, stand_in: T, found: T) -> bool {
    &&& value matches Texturable::Constant(constant) ==> found == constant
    &&& value is Texture ==> found == stand_in
}

/// The texture key is the one that the reference asks for where it feeds `usage`: of
/// the same file, and for that use; only a mask picks a component, and a normal
/// map takes neither a color space nor a factor.
pub open spec fn keyed(reference: TextureRef, usage: Usage, key: Key) -> bool {
    &&& key.path == reference.path
    &&& key.usage == usage
    &&& usage is Normal ==> key.srgb is None && key.params.scale.bits == ONE
    &&& !(usage is Normal) ==> {
        &&& key.srgb is None == reference.color_space is None
        &&& reference.color_space == Some(ColorSpace::Srgb) ==> key.srgb == Some(true)
        &&& reference.color_space == Some(ColorSpace::Linear) ==> key.srgb == Some(false)
        &&& reference.scale matches Some(scale) ==> key.params.scale == scale
        &&& reference.scale is None ==> key.params.scale.bits == ONE
    }
    &&& usage is Scalar ==> {
        &&& reference.channel matches Some(channel) ==> key.channel == channel
        &&& reference.channel is None ==> key.channel == Channel::R
    }
    &&& !(usage is Scalar) ==> key.channel == Channel::R
    &&& reference.uv matches Some(uv) ==> key.params.uv_scale == uv.scale && key.params.uv_offset
        == uv.offset
    &&& reference.uv is None ==> key.params.uv_scale == (Vec2 { x: Num { bits: ONE }, y: Num { bits: ONE } })
        && key.params.uv_offset == (Vec2 { x: Num { bits: 0 }, y: Num { bits: 0 } })
}

/// A reference asks for its own file, for the use that it is put to.
pub proof fn references_ask_for_their_files(reference: TextureRef, usage: Usage)
    ensures
        keyed(reference, usage, lower::key_for(reference, usage)),
{
}

/// The index is that of the texture that the reference asks for, or none where there
/// is no reference.
pub open spec fn bound(
    indices: Map<Identity, u32>,
    reference: Option<TextureRef>,
    usage: Usage,
    index: u32,
) -> bool {
    &&& reference is None ==> index == TEXTURE_NONE
    &&& reference matches Some(reference) ==> exists|key: Key| #[trigger]
        keyed(reference, usage, key) && index == indices[key@]
}

/// The reference of a parameter that a texture says.
pub open spec fn texture_in<T>(value: Texturable<T>) -> Option<TextureRef> {
    match value {
        Texturable::Texture(reference) => Some(reference),
        Texturable::Constant(_) => None,
    }
}

/// Every texture of a lowered material is the one of the parameter that it is named
/// after: colors are read as colors, weights and roughnesses as masks, the radius
/// scale as a vector and the normal map as one.
pub proof fn textures_keep_their_parameters<M: Fn(Formula) -> Answer>(
    maths: M,
    source: description::Material,
    indices: Map<Identity, u32>,
)
    ensures
        ({
            let r = lower::lowered(maths, source, indices);
            &&& bound(indices, texture_in(source.base_color), Usage::Color, r.base_color_texture)
            &&& bound(
                indices,
                texture_in(source.base_metalness),
                Usage::Scalar,
                r.metalness_texture,
            )
            &&& bound(
                indices,
                texture_in(source.specular_roughness),
                Usage::Scalar,
                r.specular_roughness_texture,
            )
            &&& bound(indices, texture_in(source.emission_color), Usage::Color, r.emission_texture)
            &&& bound(
                indices,
                texture_in(source.geometry_opacity),
                Usage::Scalar,
                r.opacity_texture,
            )
            &&& bound(indices, source.geometry_normal, Usage::Normal, r.normal_texture)
            &&& bound(
                indices,
                texture_in(source.subsurface_weight),
                Usage::Scalar,
                r.subsurface_weight_texture,
            )
            &&& bound(
                indices,
                texture_in(source.subsurface_color),
                Usage::Color,
                r.subsurface_color_texture,
            )
            &&& bound(
                indices,
                texture_in(source.subsurface_radius),
                Usage::Scalar,
                r.subsurface_radius_texture,
            )
            &&& bound(
                indices,
                texture_in(source.subsurface_radius_scale),
                Usage::Vector,
                r.subsurface_radius_scale_texture,
            )
            &&& bound(
                indices,
                texture_in(source.subsurface_scatter_anisotropy),
                Usage::Scalar,
                r.subsurface_scatter_anisotropy_texture,
            )
        }),
{
    one_texture(indices, texture_in(source.base_color), Usage::Color);
    one_texture(indices, texture_in(source.base_metalness), Usage::Scalar);
    one_texture(indices, texture_in(source.specular_roughness), Usage::Scalar);
    one_texture(indices, texture_in(source.emission_color), Usage::Color);
    one_texture(indices, texture_in(source.geometry_opacity), Usage::Scalar);
    one_texture(indices, source.geometry_normal, Usage::Normal);
    one_texture(indices, texture_in(source.subsurface_weight), Usage::Scalar);
    one_texture(indices, texture_in(source.subsurface_color), Usage::Color);
    one_texture(indices, texture_in(source.subsurface_radius), Usage::Scalar);
    one_texture(indices, texture_in(source.subsurface_radius_scale), Usage::Vector);
    one_texture(indices, texture_in(source.subsurface_scatter_anisotropy), Usage::Scalar);
    let slots = source.slots();
    assert(slots[0] == texture_in(source.base_color));
    assert(slots[1] == texture_in(source.base_metalness));
    assert(slots[2] == texture_in(source.specular_roughness));
    assert(slots[3] == texture_in(source.emission_color));
    assert(slots[4] == texture_in(source.geometry_opacity));
    assert(slots[5] == source.geometry_normal);
    assert(slots[6] == texture_in(source.subsurface_weight));
    assert(slots[7] == texture_in(source.subsurface_color));
    assert(slots[8] == texture_in(source.subsurface_radius));
    assert(slots[9] == texture_in(source.subsurface_radius_scale));
    assert(slots[10] == texture_in(source.subsurface_scatter_anisotropy));
}

/// A reference is bound to the index of the key that is made for it.
proof fn one_texture(indices: Map<Identity, u32>, reference: Option<TextureRef>, usage: Usage)
    ensures
        bound(
            indices,
            reference,
            usage,
            match reference {
                Some(asked) => indices[lower::key_for(asked, usage)@],
                None => TEXTURE_NONE,
            },
        ),
{
    if let Some(asked) = reference {
        references_ask_for_their_files(asked, usage);
        assert(keyed(asked, usage, lower::key_for(asked, usage)));
    }
}

/// A weight or roughness becomes itself, held between nothing and one; where a
/// texture says it, its stand-in does.
pub open spec fn weight_kept(value: Texturable<Num>, stand_in: u32, found: Num) -> bool {
    &&& value matches Texturable::Constant(constant) ==> to_unit(constant, found)
    &&& value is Texture ==> found.bits == stand_in
}

/// The scalar parameters of a lowered material are those of the material, each held
/// in its range.
pub proof fn scalars_keep_their_values<M: Fn(Formula) -> Answer>(
    maths: M,
    source: description::Material,
    indices: Map<Identity, u32>,
)
    ensures
        ({
            let r = lower::lowered(maths, source, indices);
            &&& to_unit(source.base_diffuse_roughness, r.diffuse_roughness)
            &&& weight_kept(source.base_metalness, 0, r.metalness)
            &&& to_least(0, source.specular_weight, r.specular_weight)
            &&& said(source.specular_roughness, Num { bits: 0x3e99_999a }, r.specular_roughness)
            &&& to_least(0x38d1_b717, source.specular_ior, r.specular_ior)
            &&& to_unit(source.transmission_weight, r.transmission_weight)
            &&& to_least(0, source.transmission_depth, r.transmission_depth)
            &&& r.transmission_scatter_anisotropy == source.transmission_scatter_anisotropy
            &&& weight_kept(source.subsurface_weight, ONE, r.subsurface_weight)
            &&& source.subsurface_radius matches Texturable::Constant(radius) ==> to_least(
                0,
                radius,
                r.subsurface_radius,
            )
            &&& source.subsurface_radius is Texture ==> r.subsurface_radius.bits == ONE
            &&& said(
                source.subsurface_scatter_anisotropy,
                Num { bits: 0 },
                r.subsurface_scatter_anisotropy,
            )
            &&& to_unit(source.coat_weight, r.coat_weight)
            &&& to_unit(source.coat_roughness, r.coat_roughness)
            &&& to_least(ONE, source.coat_ior, r.coat_ior)
            &&& to_unit(source.coat_darkening, r.coat_darkening)
            &&& to_unit(source.fuzz_weight, r.fuzz_weight)
            &&& to_unit(source.fuzz_roughness, r.fuzz_roughness)
            &&& weight_kept(source.geometry_opacity, ONE, r.opacity)
            &&& r.thin_walled == source.geometry_thin_walled
        }),
{
    numbers::holding_to_unit(source.base_diffuse_roughness);
    numbers::holding_to_unit(source.transmission_weight);
    numbers::holding_to_unit(source.coat_weight);
    numbers::holding_to_unit(source.coat_roughness);
    numbers::holding_to_unit(source.coat_darkening);
    numbers::holding_to_unit(source.fuzz_weight);
    numbers::holding_to_unit(source.fuzz_roughness);
    numbers::raising_to_least(0, source.specular_weight);
    numbers::raising_to_least(0x38d1_b717, source.specular_ior);
    numbers::raising_to_least(0, source.transmission_depth);
    numbers::raising_to_least(ONE, source.coat_ior);
    if let Texturable::Constant(value) = source.base_metalness {
        numbers::holding_to_unit(value);
    }
    if let Texturable::Constant(value) = source.subsurface_weight {
        numbers::holding_to_unit(value);
    }
    if let Texturable::Constant(value) = source.geometry_opacity {
        numbers::holding_to_unit(value);
    }
    if let Texturable::Constant(value) = source.subsurface_radius {
        numbers::raising_to_least(0, value);
    }
}

/// What the arithmetic makes of a color for the working space.
pub open spec fn working<M: Fn(Formula) -> Answer>(maths: M, color: Vec3) -> Vec3 {
    formula::vector(maths, Formula::WorkingSpace(color))
}

/// The color of a parameter, or what stands for it.
pub open spec fn color_of(value: Texturable<Vec3>, stand_in: Vec3) -> Vec3 {
    match value {
        Texturable::Constant(color) => color,
        Texturable::Texture(_) => stand_in,
    }
}

/// The colors of a lowered material are those of the material in the working space,
/// each held in its range. What is emitted is the emission's own color times its
/// luminance, through the coat that the lowered material has.
pub proof fn colors_keep_their_parameters<M: Fn(Formula) -> Answer>(
    maths: M,
    source: description::Material,
    indices: Map<Identity, u32>,
)
    ensures
        ({
            let r = lower::lowered(maths, source, indices);
            let grey = Vec3 {
                x: Num { bits: 0x3f4c_cccd },
                y: Num { bits: 0x3f4c_cccd },
                z: Num { bits: 0x3f4c_cccd },
            };
            let white = Vec3 { x: Num { bits: ONE }, y: Num { bits: ONE }, z: Num { bits: ONE } };
            let red = Vec3 {
                x: Num { bits: ONE },
                y: Num { bits: 0x3f00_0000 },
                z: Num { bits: 0x3e80_0000 },
            };
            &&& r.base_color == working(maths, color_of(source.base_color, grey))
            &&& to_fractions(working(maths, source.transmission_color), r.transmission_color)
            &&& to_nonnegative(working(maths, source.transmission_scatter), r.transmission_scatter)
            &&& to_fractions(
                working(maths, color_of(source.subsurface_color, grey)),
                r.subsurface_color,
            )
            &&& to_nonnegative(
                color_of(source.subsurface_radius_scale, red),
                r.subsurface_radius_scale,
            )
            &&& to_nonnegative(working(maths, source.coat_color), r.coat_color)
            &&& to_nonnegative(working(maths, source.fuzz_color), r.fuzz_color)
            &&& r.emission == formula::vector(
                maths,
                Formula::Emission {
                    color: working(maths, color_of(source.emission_color, white)),
                    luminance: source.emission_luminance,
                    coat_color: r.coat_color,
                    coat_weight: r.coat_weight,
                },
            )
        }),
{
    numbers::vectors_are_held_by_component(working(maths, source.transmission_color));
    numbers::vectors_are_held_by_component(working(maths, source.transmission_scatter));
    numbers::vectors_are_held_by_component(working(maths, source.coat_color));
    numbers::vectors_are_held_by_component(working(maths, source.fuzz_color));
    let r = lower::lowered(maths, source, indices);
    let grey = Vec3::new(0x3f4c_cccd, 0x3f4c_cccd, 0x3f4c_cccd);
    let red = Vec3::new(ONE, 0x3f00_0000, 0x3e80_0000);
    numbers::vectors_are_held_by_component(working(maths, color_of(source.subsurface_color, grey)));
    numbers::vectors_are_held_by_component(color_of(source.subsurface_radius_scale, red));
}

/// The answer to a question, where the arithmetic gives one of the right kind.
pub proof fn answers_are_taken_as_given<M: Fn(Formula) -> Answer>(
    maths: M,
    formula: Formula,
    vector: Vec3,
    number: Num,
    affine: formula::Rows,
    truth: bool,
)
    requires
        formula::steady(maths),
    ensures
        call_ensures(maths, (formula,), Answer::Vector(vector)) ==> formula::vector(maths, formula)
            == vector,
        call_ensures(maths, (formula,), Answer::Number(number)) ==> formula::number(maths, formula)
            == number,
        call_ensures(maths, (formula,), Answer::Affine(affine)) ==> formula::affine(maths, formula)
            == affine,
        call_ensures(maths, (formula,), Answer::Truth(truth)) ==> formula::truth(maths, formula)
            == truth,
{
}

} // verus!
