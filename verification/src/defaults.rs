//! What an object is when it is first mentioned and nothing more is said of it.

use vstd::arithmetic::power2::pow2;
use vstd::prelude::*;

use crate::bits::{Num, Vec3};
use crate::description;
use crate::description::{Blanks, Geometry, Light, MeshSource, Texturable, Transform};

verus! {

/// The number is the nearest there is to `n` over `d`: within half of its last place.
pub open spec fn worth(x: Num, n: int, d: int) -> bool {
    if n == 0 {
        x.bits == 0
    } else {
        let exponent = x.bits as int / 0x80_0000;
        let mantissa = 0x80_0000 + x.bits as int % 0x80_0000;
        &&& 100 < exponent < 150
        &&& -d <= 2 * (mantissa * d - n * pow2((150 - exponent) as nat)) <= d
    }
}

/// All three components are that number.
pub open spec fn all_worth(v: Vec3, n: int, d: int) -> bool {
    worth(v.x, n, d) && worth(v.y, n, d) && worth(v.z, n, d)
}

/// The parameter is a constant of that worth.
pub open spec fn scalar_worth(value: Texturable<Num>, n: int, d: int) -> bool {
    value matches Texturable::Constant(x) && worth(x, n, d)
}

/// The parameter is a constant with that in every component.
pub open spec fn color_worth(value: Texturable<Vec3>, n: int, d: int) -> bool {
    value matches Texturable::Constant(v) && all_worth(v, n, d)
}

/// An untouched material has OpenPBR's own defaults: a dielectric of four fifths, of
/// roughness three tenths and index one and a half, with no other lobe on; the
/// colors of the lobes that are off are white, but for the subsurface's, which is
/// the base's; its radius falls off by half from red to green to blue.
pub proof fn untouched_materials_are_plain(blanks: Blanks)
    requires
        blanks.untouched(),
    ensures
        ({
            let m = blanks.materials;
            &&& color_worth(m.base_color, 4, 5)
            &&& worth(m.base_diffuse_roughness, 0, 1)
            &&& scalar_worth(m.base_metalness, 0, 1)
            &&& worth(m.specular_weight, 1, 1)
            &&& scalar_worth(m.specular_roughness, 3, 10)
            &&& worth(m.specular_ior, 3, 2)
            &&& worth(m.transmission_weight, 0, 1)
            &&& all_worth(m.transmission_color, 1, 1)
            &&& worth(m.transmission_depth, 0, 1)
            &&& all_worth(m.transmission_scatter, 0, 1)
            &&& worth(m.transmission_scatter_anisotropy, 0, 1)
            &&& scalar_worth(m.subsurface_weight, 0, 1)
            &&& m.subsurface_color == m.base_color
            &&& scalar_worth(m.subsurface_radius, 1, 1)
            &&& m.subsurface_radius_scale matches Texturable::Constant(scale) && worth(
                scale.x,
                1,
                1,
            ) && worth(scale.y, 1, 2) && worth(scale.z, 1, 4)
            &&& scalar_worth(m.subsurface_scatter_anisotropy, 0, 1)
            &&& worth(m.coat_weight, 0, 1)
            &&& all_worth(m.coat_color, 1, 1)
            &&& worth(m.coat_roughness, 0, 1)
            &&& worth(m.coat_ior, 8, 5)
            &&& worth(m.coat_darkening, 1, 1)
            &&& worth(m.fuzz_weight, 0, 1)
            &&& all_worth(m.fuzz_color, 1, 1)
            &&& worth(m.fuzz_roughness, 1, 2)
            &&& worth(m.emission_luminance, 0, 1)
            &&& color_worth(m.emission_color, 1, 1)
            &&& scalar_worth(m.geometry_opacity, 1, 1)
            &&& !m.geometry_thin_walled
            &&& m.geometry_normal is None
        }),
{
    vstd::arithmetic::power2::lemma2_to64();
}

/// The identity placement, said as a translation, a turn and a scale.
pub open spec fn stands_still(transform: Transform) -> bool {
    transform matches Transform::Trs { translate, rotate_degrees, scale } && all_worth(
        translate,
        0,
        1,
    ) && all_worth(rotate_degrees, 0, 1) && all_worth(scale, 1, 1)
}

/// An untouched object of any other kind: a mesh and curves with nothing in them, an
/// instance that stands once at the origin and places nothing yet, vacuum, a black
/// light, a camera five off that looks at the origin with its up along the second
/// axis, a white sky that is not turned.
pub proof fn untouched_objects_are_harmless(blanks: Blanks)
    requires
        blanks.untouched(),
    ensures
        blanks.meshes.source matches MeshSource::Inline { positions, normals, uvs, triangles }
            && positions@.len() == 0 && triangles@.len() == 0 && normals is None && uvs is None,
        ({
            let i = blanks.instances;
            &&& i.geometry matches Geometry::Mesh(name) && name@.len() == 0
            &&& i.material@.len() == 0
            &&& i.transforms@.len() == 1 && stands_still(i.transforms@[0])
            &&& i.camera_visible
            &&& i.medium is None
            &&& i.interior_priority == 0
        }),
        ({
            let m = blanks.media;
            &&& all_worth(m.absorption, 0, 1) && all_worth(m.scattering, 0, 1)
            &&& worth(m.anisotropy, 0, 1) && m.volume is None
        }),
        blanks.lights matches Light::Point { position, intensity } && all_worth(position, 0, 1)
            && all_worth(intensity, 0, 1),
        ({
            let c = blanks.cameras;
            &&& worth(c.position.x, 0, 1) && worth(c.position.y, 0, 1) && worth(
                c.position.z,
                5,
                1,
            )
            &&& all_worth(c.look_at, 0, 1)
            &&& worth(c.up.x, 0, 1) && worth(c.up.y, 1, 1) && worth(c.up.z, 0, 1)
            &&& worth(c.vfov_degrees, 40, 1)
            &&& c.focus_distance is None
            &&& worth(c.aperture_radius, 0, 1)
        }),
        ({
            let e = blanks.environments;
            &&& e.path is None && all_worth(e.tint, 1, 1) && stands_still(e.transform)
        }),
        ({
            let s = blanks.settings;
            &&& s.resolution[0] == 1280 && s.resolution[1] == 720
            &&& s.spp == 64
            &&& s.noise_threshold is None && !s.denoise && s.seed == 0 && s.global_medium is None
            &&& 0 < s.max_bounces <= 255
        }),
{
    vstd::arithmetic::power2::lemma2_to64();
}

/// A description starts with nothing in it.
pub proof fn descriptions_start_empty(kind: crate::changeset::Kind, name: Seq<char>)
    ensures
        !crate::changeset::holds(description::empty_model(), kind, name),
{
}

} // verus!
