//! Media: what fills the inside of things, and what crossing into one means.

use vstd::prelude::*;

use crate::bits::{Num, Vec3, MAX_ANISOTROPY, ONE, SIGN};
use crate::description::Geometry;
use crate::formula;
use crate::formula::{ask_vector, Answer, Formula, Rows};
use crate::material::{Material, TEXTURE_NONE};
use crate::path::FilePath;
use crate::value::Duplicate;

verus! {

/// A surface that is shaded.
pub const BOUNDARY_OPAQUE: u32 = 0;

/// A surface that closes a refractive interior.
pub const BOUNDARY_REFRACTIVE: u32 = 1;

/// A surface that bounds a medium: crossed, never shaded.
pub const BOUNDARY_NULL: u32 = 2;

/// The byte of a boundary word that holds which of the three.
pub const BOUNDARY_MASK: u32 = 0xff;

/// A medium index that names vacuum.
pub const MEDIUM_NONE: u32 = 0xffff_ffff;

/// A grid offset that names no grid.
pub const GRID_NONE: u32 = 0xffff_ffff;

/// Where a nesting priority stands in a medium-set entry.
pub const STACK_PRIORITY_SHIFT: u32 = 25;

/// The unit of the priority's bits.
pub const STACK_PRIORITY: u32 = 0x0200_0000;

/// The bit of an entry whose medium scatters.
pub const STACK_SCATTERING: u32 = 0x0100_0000;

/// The bit of an entry that is an interior.
pub const STACK_INTERIOR: u32 = 0x8000_0000;

/// The empty slot of a medium set.
pub const STACK_EMPTY: u32 = 0x00ff_ffff;

/// How many media a path can be inside at once.
pub const MEDIUM_SLOTS: usize = 4;

/// How far a nesting priority may reach.
pub const MAX_PRIORITY: u32 = 63;

/// The most cells per axis that a record's packed word can hold.
pub const MAJORANT_RES_MAX: u32 = 1023;

/// The bit above a subsurface index where a texture says what is inside.
pub const SUBSURFACE_TEXTURED: u32 = 0x8000_0000;

/// A medium as the renderer holds it: coefficients per channel, and for a
/// heterogeneous one the grid that they multiply.
#[derive(Clone, Debug, PartialEq, Eq)]
pub struct Medium {
    /// The part of the extinction that removes light.
    pub absorption: Vec3,
    /// The part that redirects it.
    pub scattering: Vec3,
    /// How far scattering leans forward.
    pub anisotropy: Num,
    /// The density grid; `None` is homogeneous.
    pub volume: Option<GridVolume>,
}

/// A heterogeneous medium's grid, as its file's header describes it.
#[derive(Clone, Debug, PartialEq, Eq)]
pub struct GridVolume {
    /// The prepared grid file.
    pub nvdb: FilePath,
    /// The grid's name in it.
    pub grid: String,
    /// The map from the grid's own space to its lattice.
    pub asset_to_index: Rows,
    /// The map from the unit cube to the grid's bounds.
    pub bounds_to_asset: Rows,
    /// Cells of the majorant lattice along each axis.
    pub majorant_res: [u32; 3],
    /// The factor from lattice places to majorant cells.
    pub majorant_scale: Vec3,
    /// What is put on top of it.
    pub majorant_bias: Vec3,
    /// The temperature field beside the density, for a medium that emits.
    pub temperature: Option<String>,
    /// Kelvin per unit of the field.
    pub kelvin_scale: Num,
    /// Kelvin at zero.
    pub kelvin_offset: Num,
    /// The factor on what is emitted at a temperature.
    pub emission: Vec3,
}

impl Duplicate for GridVolume {
    fn duplicate(&self) -> (r: GridVolume) {
        GridVolume {
            nvdb: self.nvdb.duplicate(),
            grid: self.grid.duplicate(),
            asset_to_index: self.asset_to_index,
            bounds_to_asset: self.bounds_to_asset,
            majorant_res: self.majorant_res,
            majorant_scale: self.majorant_scale,
            majorant_bias: self.majorant_bias,
            temperature: self.temperature.duplicate(),
            kelvin_scale: self.kelvin_scale,
            kelvin_offset: self.kelvin_offset,
            emission: self.emission,
        }
    }
}

impl Duplicate for Medium {
    fn duplicate(&self) -> (r: Medium) {
        Medium {
            absorption: self.absorption,
            scattering: self.scattering,
            anisotropy: self.anisotropy,
            volume: self.volume.duplicate(),
        }
    }
}

/// One placement of one thing: what it is, where it stands, and what its
/// surface and its inside are.
#[derive(Clone, Debug, PartialEq, Eq)]
pub struct Placement {
    /// What is placed.
    pub geometry: Geometry,
    /// Where it stands.
    pub transform: Rows,
    /// Its surface.
    pub material: Material,
    /// Whether camera rays see it.
    pub camera_visible: bool,
    /// The medium that it bounds.
    pub medium: Option<Medium>,
    /// Which solid wins where interiors overlap.
    pub priority: u32,
}

// -- Boundaries ------------------------------------------------------------------

/// What crossing a surface means. Bounding a medium wins over any surface
/// that the material describes; else it is transmission that decides.
pub open spec fn boundary_class(material: Material, bounds_medium: bool) -> u32 {
    if bounds_medium {
        BOUNDARY_NULL
    } else if Num::new(0).below(material.transmission_weight) && !material.thin_walled {
        BOUNDARY_REFRACTIVE
    } else {
        BOUNDARY_OPAQUE
    }
}

/// What crossing a surface means.
pub fn boundary(material: &Material, bounds_medium: bool) -> (r: u32)
    ensures
        r == boundary_class(*material, bounds_medium),
{
    if bounds_medium {
        BOUNDARY_NULL
    } else if material.transmission_weight.is_positive() && !material.thin_walled {
        BOUNDARY_REFRACTIVE
    } else {
        BOUNDARY_OPAQUE
    }
}

impl Placement {
    /// What crossing the surface means.
    pub open spec fn class(self) -> u32 {
        boundary_class(self.material, self.medium is Some)
    }
}

/// What crossing a placement's surface means.
pub fn placement_boundary(placement: &Placement) -> (r: u32)
    ensures
        r == placement.class(),
{
    boundary(&placement.material, placement.medium.is_some())
}

/// What is left of a material on a mesh that bounds a medium: nothing that
/// would be taken for a surface.
pub open spec fn inert(material: Material) -> Material {
    Material {
        emission: Vec3::new(0, 0, 0),
        opacity: Num::new(ONE),
        opacity_texture: TEXTURE_NONE,
        ..material
    }
}

/// The material that a mesh renders with.
pub fn boundary_material(material: Material, bounds_medium: bool) -> (r: Material)
    ensures
        r == if bounds_medium {
            inert(material)
        } else {
            material
        },
{
    if !bounds_medium {
        return material;
    }
    Material {
        emission: Vec3::new(0, 0, 0),
        opacity: Num::new(ONE),
        opacity_texture: TEXTURE_NONE,
        ..material
    }
}

/// A material that emits nothing and lets nothing through.
pub open spec fn boundary_inert(material: Material) -> bool {
    &&& material.emission.zero()
    &&& !material.opacity.nan() && !material.opacity.below(Num::new(ONE))
    &&& material.opacity_texture == TEXTURE_NONE
}

/// Whether a material already emits nothing and lets nothing through.
pub fn is_boundary_inert(material: &Material) -> (r: bool)
    ensures
        r == boundary_inert(*material),
{
    material.emission.is_zero() && !material.opacity.is_nan() && !material.opacity.is_below(
        &Num::new(ONE),
    ) && material.opacity_texture == TEXTURE_NONE
}

/// What is left of a material on a boundary is inert, and an inert material
/// stays so.
pub proof fn boundaries_are_inert(material: Material)
    ensures
        boundary_inert(inert(material)),
        inert(inert(material)) == inert(material),
{
}

// -- Records ---------------------------------------------------------------------

/// One entry of the medium table.
#[derive(Clone, Copy, Debug, PartialEq, Eq, Structural)]
pub struct MediumRecord {
    /// The extinction.
    pub sigma_t: Vec3,
    /// The anisotropy, inside its bounds.
    pub g: Num,
    /// The scattering.
    pub sigma_s: Vec3,
    /// Where the density grid is, or none.
    pub grid: u32,
    /// The map from the world to the grid's lattice.
    pub world_to_index: Rows,
    /// The factor from lattice places to majorant cells.
    pub majorant_scale: Vec3,
    /// Where the majorant lattice is.
    pub majorant: u32,
    /// What is put on top of the factor.
    pub majorant_bias: Vec3,
    /// The cells along each axis, ten bits for each.
    pub majorant_res: u32,
    /// The factor on what is emitted at a temperature.
    pub emission: Vec3,
    /// Where the temperature grid is, or none.
    pub temperature_grid: u32,
    /// Kelvin per unit of the field.
    pub kelvin_scale: Num,
    /// Kelvin at zero.
    pub kelvin_offset: Num,
}

impl MediumRecord {
    /// A record without a grid.
    #[verifier::allow_in_spec]
    pub fn homogeneous(sigma_t: Vec3, g: Num, sigma_s: Vec3) -> (r: MediumRecord)
        returns
            (MediumRecord {
                sigma_t,
                g,
                sigma_s,
                grid: GRID_NONE,
                world_to_index: Rows::nothing(),
                majorant_scale: Vec3::new(0, 0, 0),
                majorant: 0,
                majorant_bias: Vec3::new(0, 0, 0),
                majorant_res: 0,
                emission: Vec3::new(0, 0, 0),
                temperature_grid: GRID_NONE,
                kelvin_scale: Num::new(0),
                kelvin_offset: Num::new(0),
            }),
    {
        MediumRecord {
            sigma_t,
            g,
            sigma_s,
            grid: GRID_NONE,
            world_to_index: Rows::nothing(),
            majorant_scale: Vec3::new(0, 0, 0),
            majorant: 0,
            majorant_bias: Vec3::new(0, 0, 0),
            majorant_res: 0,
            emission: Vec3::new(0, 0, 0),
            temperature_grid: GRID_NONE,
            kelvin_scale: Num::new(0),
            kelvin_offset: Num::new(0),
        }
    }
}

/// An anisotropy inside its bounds; one that is no number is none.
pub open spec fn bounded_g(g: Num) -> Num {
    if g.nan() {
        Num::new(0)
    } else {
        g.held(Num { bits: (SIGN + MAX_ANISOTROPY) as u32 }, Num::new(MAX_ANISOTROPY))
    }
}

/// An anisotropy inside its bounds.
pub fn bounded_anisotropy(g: Num) -> (r: Num)
    ensures
        r == bounded_g(g),
{
    if g.is_nan() {
        Num::new(0)
    } else {
        g.clamp_to(Num::new(SIGN + MAX_ANISOTROPY), Num::new(MAX_ANISOTROPY))
    }
}

/// The anisotropy that a table carries is always a number inside its bounds.
pub proof fn anisotropy_stays_inside(g: Num)
    ensures
        !bounded_g(g).nan(),
        -MAX_ANISOTROPY <= bounded_g(g).rank() <= MAX_ANISOTROPY,
{
}

/// The record of a medium, without its grid.
pub open spec fn plain_record<M: Fn(Formula) -> Answer>(maths: M, medium: Medium) -> MediumRecord {
    MediumRecord::homogeneous(
        formula::vector(maths, Formula::Sum(medium.absorption, medium.scattering)),
        bounded_g(medium.anisotropy),
        medium.scattering,
    )
}

/// The record of a medium, without its grid: its extinction is absorption and
/// scattering together.
pub fn record_of<M: Fn(Formula) -> Answer>(maths: &M, medium: &Medium) -> (r: MediumRecord)
    requires
        formula::steady(*maths),
    ensures
        r == plain_record(*maths, *medium),
{
    MediumRecord::homogeneous(
        ask_vector(maths, Formula::Sum(medium.absorption, medium.scattering)),
        bounded_anisotropy(medium.anisotropy),
        medium.scattering,
    )
}

/// What fills the interior that a material closes, or nothing: an opaque or
/// thin-walled surface closes none, and a depth that is not positive leaves
/// the tint on the surface. What scatters is taken out of the extinction,
/// which is raised where it would not cover it; without scattering it is
/// exactly what the color and the depth say.
pub open spec fn filling<M: Fn(Formula) -> Answer>(maths: M, material: Material) -> Option<
    MediumRecord,
> {
    let depth = material.transmission_depth;
    if boundary_class(material, false) != BOUNDARY_REFRACTIVE || !Num::new(0).below(depth) {
        None
    } else {
        let extinction = formula::vector(
            maths,
            Formula::Extinction { color: material.transmission_color, depth },
        );
        let scatter = material.transmission_scatter.floored();
        if !scatter.positive_somewhere() {
            Some(MediumRecord::homogeneous(extinction, Num::new(0), Vec3::new(0, 0, 0)))
        } else {
            let scattering = formula::vector(maths, Formula::Quotient { value: scatter, by: depth });
            Some(
                MediumRecord::homogeneous(
                    formula::vector(maths, Formula::Repaired { extinction, scattering }),
                    bounded_g(material.transmission_scatter_anisotropy),
                    scattering,
                ),
            )
        }
    }
}

/// What fills the interior that a material closes.
pub fn interior<M: Fn(Formula) -> Answer>(maths: &M, material: &Material) -> (r: Option<
    MediumRecord,
>)
    requires
        formula::steady(*maths),
    ensures
        r == filling(*maths, *material),
{
    let depth = material.transmission_depth;
    if boundary(material, false) != BOUNDARY_REFRACTIVE || !depth.is_positive() {
        return None;
    }
    let extinction = ask_vector(
        maths,
        Formula::Extinction { color: material.transmission_color, depth },
    );
    let scatter = material.transmission_scatter.floor();
    if !scatter.is_positive_somewhere() {
        return Some(MediumRecord::homogeneous(extinction, Num::new(0), Vec3::new(0, 0, 0)));
    }
    let scattering = ask_vector(maths, Formula::Quotient { value: scatter, by: depth });
    Some(
        MediumRecord::homogeneous(
            ask_vector(maths, Formula::Repaired { extinction, scattering }),
            bounded_anisotropy(material.transmission_scatter_anisotropy),
            scattering,
        ),
    )
}

/// What fills the inside of a subsurface material, or nothing where the lobe
/// is off.
pub open spec fn subsurface_filling<M: Fn(Formula) -> Answer>(
    maths: M,
    material: Material,
) -> Option<MediumRecord> {
    if !Num::new(0).below(material.subsurface_weight) || !Num::new(0).below(
        material.subsurface_radius,
    ) || material.thin_walled {
        None
    } else {
        let anisotropy = bounded_g(material.subsurface_scatter_anisotropy);
        let extinction = formula::vector(
            maths,
            Formula::Reciprocal {
                radius: material.subsurface_radius,
                scale: material.subsurface_radius_scale,
            },
        );
        Some(
            MediumRecord::homogeneous(
                extinction,
                anisotropy,
                formula::vector(
                    maths,
                    Formula::Scattered { color: material.subsurface_color, anisotropy, extinction },
                ),
            ),
        )
    }
}

/// What fills the inside of a subsurface material.
pub fn subsurface<M: Fn(Formula) -> Answer>(maths: &M, material: &Material) -> (r: Option<
    MediumRecord,
>)
    requires
        formula::steady(*maths),
    ensures
        r == subsurface_filling(*maths, *material),
{
    if !material.subsurface_weight.is_positive() || !material.subsurface_radius.is_positive()
        || material.thin_walled {
        return None;
    }
    let anisotropy = bounded_anisotropy(material.subsurface_scatter_anisotropy);
    let extinction = ask_vector(
        maths,
        Formula::Reciprocal {
            radius: material.subsurface_radius,
            scale: material.subsurface_radius_scale,
        },
    );
    let scattering = ask_vector(
        maths,
        Formula::Scattered { color: material.subsurface_color, anisotropy, extinction },
    );
    Some(MediumRecord::homogeneous(extinction, anisotropy, scattering))
}

/// A texture says what is inside: one of those that the record is computed
/// from.
pub open spec fn textured_inside(material: Material) -> bool {
    material.subsurface_color_texture != TEXTURE_NONE || material.subsurface_radius_texture
        != TEXTURE_NONE || material.subsurface_radius_scale_texture != TEXTURE_NONE
        || material.subsurface_scatter_anisotropy_texture != TEXTURE_NONE
}

/// Whether a texture says what is inside.
pub fn subsurface_textured(material: &Material) -> (r: bool)
    ensures
        r == textured_inside(*material),
{
    material.subsurface_color_texture != TEXTURE_NONE || material.subsurface_radius_texture
        != TEXTURE_NONE || material.subsurface_radius_scale_texture != TEXTURE_NONE
        || material.subsurface_scatter_anisotropy_texture != TEXTURE_NONE
}

/// The inside that a walk under the surface marches, where no texture says how
/// far it steps.
pub open spec fn marched<M: Fn(Formula) -> Answer>(maths: M, material: Material) -> Option<
    MediumRecord,
> {
    if material.subsurface_radius_texture != TEXTURE_NONE
        || material.subsurface_radius_scale_texture != TEXTURE_NONE {
        None
    } else {
        subsurface_filling(maths, material)
    }
}

/// The inside that a walk under the surface marches, for telling how far it
/// steps: nothing where a texture says so instead.
pub fn marched_medium<M: Fn(Formula) -> Answer>(maths: &M, material: &Material) -> (r: Option<
    MediumRecord,
>)
    requires
        formula::steady(*maths),
    ensures
        r == marched(*maths, *material),
{
    if material.subsurface_radius_texture != TEXTURE_NONE
        || material.subsurface_radius_scale_texture != TEXTURE_NONE {
        None
    } else {
        subsurface(maths, material)
    }
}

// -- Boundary words ----------------------------------------------------------------

/// The fields of a boundary word have room beside each other: the class below
/// the scattering bit, that below the priority, and the priority right below the
/// bit of interiors.
pub proof fn fields_have_room()
    ensures
        BOUNDARY_OPAQUE < BOUNDARY_REFRACTIVE < BOUNDARY_NULL < BOUNDARY_MASK,
        BOUNDARY_MASK < STACK_SCATTERING < STACK_PRIORITY,
        STACK_PRIORITY == 1u32 << STACK_PRIORITY_SHIFT,
        (MAX_PRIORITY + 1) * STACK_PRIORITY == STACK_INTERIOR,
{
    assert(STACK_PRIORITY == 1u32 << STACK_PRIORITY_SHIFT) by (bit_vector);
}

/// A placement's priority as the tables carry it: none on anything but a
/// refractive boundary, and held at the highest there is.
pub open spec fn ranked_priority(placement: Placement) -> u32 {
    if placement.class() != BOUNDARY_REFRACTIVE {
        0
    } else if placement.priority > MAX_PRIORITY {
        MAX_PRIORITY
    } else {
        placement.priority
    }
}

/// A placement's priority as the tables carry it.
pub fn interior_priority(placement: &Placement) -> (r: u32)
    ensures
        r == ranked_priority(*placement),
{
    if placement_boundary(placement) != BOUNDARY_REFRACTIVE {
        0
    } else if placement.priority > MAX_PRIORITY {
        MAX_PRIORITY
    } else {
        placement.priority
    }
}

/// The interior scatters.
pub open spec fn scatters_inside<M: Fn(Formula) -> Answer>(maths: M, material: Material) -> bool {
    filling(maths, material) matches Some(record) && record.sigma_s.positive_somewhere()
}

/// A placement's boundary word: the class in the lowest byte, and on a
/// refractive boundary the flags of a medium-set entry above it.
pub open spec fn word<M: Fn(Formula) -> Answer>(maths: M, placement: Placement) -> int {
    if placement.class() == BOUNDARY_REFRACTIVE {
        BOUNDARY_REFRACTIVE + STACK_INTERIOR + ranked_priority(placement) * STACK_PRIORITY + (
        if scatters_inside(maths, placement.material) {
            STACK_SCATTERING as int
        } else {
            0
        })
    } else {
        placement.class() as int
    }
}

/// A placement's boundary word.
pub fn boundary_word<M: Fn(Formula) -> Answer>(maths: &M, placement: &Placement) -> (r: u32)
    requires
        formula::steady(*maths),
    ensures
        r == word(*maths, *placement),
{
    let class: u32 = placement_boundary(placement);
    if class != BOUNDARY_REFRACTIVE {
        return class;
    }
    let scattering = match interior(maths, &placement.material) {
        Some(record) => record.sigma_s.is_positive_somewhere(),
        None => false,
    };
    let priority: u32 = interior_priority(placement);
    let flags: u32 = STACK_INTERIOR + priority * STACK_PRIORITY;
    if scattering {
        class + flags + STACK_SCATTERING
    } else {
        class + flags
    }
}

/// The class that a boundary word holds.
#[verifier::allow_in_spec]
pub fn class_of(word: u32) -> (r: u32)
    returns
        (word % 256) as u32,
{
    word % 256
}

/// Whether a boundary word's medium scatters.
#[verifier::allow_in_spec]
pub fn scattering_of(word: u32) -> (r: bool)
    returns
        word / STACK_SCATTERING % 2 == 1,
{
    word / STACK_SCATTERING % 2 == 1
}

/// The priority that a boundary word holds.
#[verifier::allow_in_spec]
pub fn priority_of(word: u32) -> (r: u32)
    returns
        (word / STACK_PRIORITY % 64) as u32,
{
    word / STACK_PRIORITY % 64
}

/// Everything that is packed into a boundary word can be read back: the class,
/// the priority and whether the interior scatters. Words of interiors are
/// ordered by priority, whatever else they hold.
pub proof fn words_read_back<M: Fn(Formula) -> Answer>(
    maths: M,
    placement: Placement,
    other: Placement,
)
    ensures
        0 <= word(maths, placement) <= u32::MAX,
        class_of(word(maths, placement) as u32) == placement.class(),
        priority_of(word(maths, placement) as u32) == ranked_priority(placement),
        scattering_of(word(maths, placement) as u32) == (placement.class() == BOUNDARY_REFRACTIVE
            && scatters_inside(maths, placement.material)),
        placement.class() == BOUNDARY_REFRACTIVE && other.class() == BOUNDARY_REFRACTIVE
            && ranked_priority(placement) < ranked_priority(other) ==> word(maths, placement)
            < word(maths, other),
{
}

// -- What the placements hold --------------------------------------------------------

/// What there is among the placements, of what a kernel acts on.
#[derive(Clone, Copy, Debug, PartialEq, Eq, Structural)]
pub struct PlacementMedia {
    /// Some placement closes a refractive interior.
    pub interiors: bool,
    /// Some placement bounds a medium.
    pub volumes: bool,
    /// Some interior has a priority.
    pub priority: bool,
    /// Some interior scatters.
    pub scattering_interiors: bool,
    /// Some material has a subsurface lobe.
    pub subsurface: bool,
    /// Some bounded medium has a grid.
    pub heterogeneous: bool,
    /// Some bounded medium has a temperature field.
    pub emissive: bool,
}

impl Placement {
    /// The placement bounds a medium that has a grid.
    pub open spec fn gridded(self) -> bool {
        self.medium matches Some(medium) && medium.volume is Some
    }

    /// The placement bounds a medium that has a temperature field.
    pub open spec fn glowing(self) -> bool {
        self.medium matches Some(medium) && medium.volume matches Some(volume)
            && volume.temperature is Some
    }
}

/// What there is among placements.
pub open spec fn media_among<M: Fn(Formula) -> Answer>(
    maths: M,
    placements: Seq<Placement>,
) -> PlacementMedia {
    PlacementMedia {
        interiors: exists|i: int|
            0 <= i < placements.len() && (#[trigger] placements[i]).class() == BOUNDARY_REFRACTIVE,
        volumes: exists|i: int|
            0 <= i < placements.len() && (#[trigger] placements[i]).class() == BOUNDARY_NULL,
        priority: exists|i: int|
            0 <= i < placements.len() && ranked_priority(#[trigger] placements[i]) != 0,
        scattering_interiors: exists|i: int|
            0 <= i < placements.len() && (#[trigger] placements[i]).class() == BOUNDARY_REFRACTIVE
                && scatters_inside(maths, placements[i].material),
        subsurface: exists|i: int|
            0 <= i < placements.len() && subsurface_filling(
                maths,
                (#[trigger] placements[i]).material,
            ) is Some,
        heterogeneous: exists|i: int|
            0 <= i < placements.len() && (#[trigger] placements[i]).gridded(),
        emissive: exists|i: int|
            0 <= i < placements.len() && (#[trigger] placements[i]).glowing(),
    }
}

/// What there is among placements.
pub fn placement_media<M: Fn(Formula) -> Answer>(maths: &M, placements: &Vec<Placement>) -> (r:
    PlacementMedia)
    requires
        formula::steady(*maths),
    ensures
        r == media_among(*maths, placements@),
{
    let mut interiors = false;
    let mut volumes = false;
    let mut priority = false;
    let mut scattering_interiors = false;
    let mut inside = false;
    let mut heterogeneous = false;
    let mut emissive = false;
    for i in 0..placements.len()
        invariant
            formula::steady(*maths),
            (PlacementMedia {
                interiors,
                volumes,
                priority,
                scattering_interiors,
                subsurface: inside,
                heterogeneous,
                emissive,
            }) == media_among(*maths, placements@.take(i as int)),
    {
        let placement = &placements[i];
        let word: u32 = boundary_word(maths, placement);
        let ghost before = placements@.take(i as int);
        let ghost after = placements@.take(i + 1);
        proof {
            words_read_back(*maths, *placement, *placement);
            assert(after[i as int] == *placement);
            assert forall|j: int| 0 <= j < i implies #[trigger] after[j] == before[j] by {}
            assert forall|j: int| 0 <= j < i implies #[trigger] before[j] == after[j] by {}
        }
        interiors = interiors || class_of(word) == BOUNDARY_REFRACTIVE;
        volumes = volumes || class_of(word) == BOUNDARY_NULL;
        priority = priority || priority_of(word) != 0;
        scattering_interiors = scattering_interiors || scattering_of(word);
        inside = inside || subsurface(maths, &placement.material).is_some();
        if let Some(medium) = &placement.medium {
            if let Some(volume) = &medium.volume {
                heterogeneous = true;
                emissive = emissive || volume.temperature.is_some();
            }
        }
        proof {
            let now = media_among(*maths, after);
            let then_before = media_among(*maths, before);
            assert(now.interiors == (then_before.interiors || placement.class()
                == BOUNDARY_REFRACTIVE));
            assert(now.volumes == (then_before.volumes || placement.class() == BOUNDARY_NULL));
            assert(now.priority == (then_before.priority || ranked_priority(*placement) != 0));
            assert(now.scattering_interiors == (then_before.scattering_interiors || (
            placement.class() == BOUNDARY_REFRACTIVE && scatters_inside(
                *maths,
                placement.material,
            ))));
            assert(now.subsurface == (then_before.subsurface || subsurface_filling(
                *maths,
                placement.material,
            ) is Some));
            assert(now.heterogeneous == (then_before.heterogeneous || placement.gridded()));
            assert(now.emissive == (then_before.emissive || placement.glowing()));
        }
    }
    assert(placements@.take(placements@.len() as int) =~= placements@);
    PlacementMedia {
        interiors,
        volumes,
        priority,
        scattering_interiors,
        subsurface: inside,
        heterogeneous,
        emissive,
    }
}

/// A priority means an interior, a temperature field means a grid, and a grid
/// means a bounded medium: nothing gates what is not there.
pub proof fn media_imply_each_other<M: Fn(Formula) -> Answer>(maths: M, placements: Seq<Placement>)
    ensures
        ({
            let media = media_among(maths, placements);
            &&& media.priority ==> media.interiors
            &&& media.scattering_interiors ==> media.interiors
            &&& media.emissive ==> media.heterogeneous
            &&& media.heterogeneous ==> media.volumes
        }),
{
    let media = media_among(maths, placements);
    if media.priority {
        let i = choose|i: int|
            0 <= i < placements.len() && ranked_priority(#[trigger] placements[i]) != 0;
        assert(placements[i].class() == BOUNDARY_REFRACTIVE);
    }
    if media.emissive {
        let i = choose|i: int| 0 <= i < placements.len() && (#[trigger] placements[i]).glowing();
        assert(placements[i].gridded());
    }
    if media.heterogeneous {
        let i = choose|i: int| 0 <= i < placements.len() && (#[trigger] placements[i]).gridded();
        assert(placements[i].class() == BOUNDARY_NULL);
    }
}

} // verus!
