//! What the tables of a scene say of its placements, its lights and its media.

use vstd::prelude::*;

use crate::bits::Vec3;
use crate::description::Instance;
use crate::formula;
use crate::formula::{Answer, Formula, Rows};
use crate::host;
use crate::host::Shape;
use crate::material::{Material, TEXTURE_NONE};
use crate::media;
use crate::media::{Medium, MediumRecord, Placement, MEDIUM_NONE};
use crate::path::Part;
use crate::scene;
use crate::scene::{InstanceTables, ResidentGrid, TriangleLight, LIGHT_NONE};

verus! {

// -- Lights --------------------------------------------------------------------------

/// A light covers the triangle that rays hit: its corners are where the placement
/// puts the triangle's three vertices, in their order. It emits what the surface
/// does, and leads back to its placement and triangle; it is wound the other way
/// round exactly where the placement mirrors.
pub proof fn lights_cover_their_triangles<M: Fn(Formula) -> Answer>(
    maths: M,
    positions: Seq<Vec3>,
    triangles: Seq<[u32; 3]>,
    transform: Rows,
    emission: Vec3,
    instance: u32,
    i: int,
)
    requires
        0 <= i < triangles.len() <= u32::MAX,
    ensures
        ({
            let lights = scene::lit_triangles(
                maths,
                positions,
                triangles,
                transform,
                emission,
                instance,
            );
            let light = lights[i];
            let placed = |vertex: u32|
                formula::vector(maths, Formula::Moved(transform, positions[vertex as int]));
            &&& lights.len() == triangles.len()
            &&& light.first == placed(triangles[i][0])
            &&& light.second == placed(triangles[i][1])
            &&& light.third == placed(triangles[i][2])
            &&& light.emission == emission
            &&& light.instance == instance
            &&& light.primitive == i
            &&& formula::truth(maths, Formula::Mirrors(transform)) ==> light.winding.bits
                == 0xbf80_0000
            &&& !formula::truth(maths, Formula::Mirrors(transform)) ==> light.winding.bits
                == 0x3f80_0000
        }),
{
}

/// Where nothing is moved, a light's corners are the triangle's own vertices.
pub proof fn unmoved_lights_stand_on_their_vertices<M: Fn(Formula) -> Answer>(
    maths: M,
    positions: Seq<Vec3>,
    triangles: Seq<[u32; 3]>,
    transform: Rows,
    emission: Vec3,
    instance: u32,
    i: int,
)
    requires
        0 <= i < triangles.len() <= u32::MAX,
        forall|point: Vec3| #[trigger]
            formula::vector(maths, Formula::Moved(transform, point)) == point,
    ensures
        ({
            let light = scene::lit_triangles(
                maths,
                positions,
                triangles,
                transform,
                emission,
                instance,
            )[i];
            &&& light.first == positions[triangles[i][0] as int]
            &&& light.second == positions[triangles[i][1] as int]
            &&& light.third == positions[triangles[i][2] as int]
        }),
{
}

// -- Placements ------------------------------------------------------------------------

/// Every copy of an instance is the instance's geometry, seen by the camera where the
/// instance is, of its priority, and where its own transform puts it: over the
/// bounds of the grid where it bounds a medium with one.
pub proof fn copies_are_their_instance<M: Fn(Formula) -> Answer>(
    maths: M,
    instance: Instance,
    material: Material,
    medium: Option<Medium>,
    k: int,
)
    requires
        0 <= k < instance.transforms@.len(),
    ensures
        ({
            let copies = host::copies(maths, instance, material, medium);
            let copy = copies[k];
            let base = formula::affine(maths, Formula::Placed(instance.transforms@[k]));
            &&& copies.len() == instance.transforms@.len()
            &&& copy.geometry == instance.geometry
            &&& copy.material == material
            &&& copy.medium == medium
            &&& copy.camera_visible == instance.camera_visible
            &&& copy.priority == instance.interior_priority
            &&& !(medium matches Some(filled) && filled.volume is Some) ==> copy.transform == base
            &&& medium matches Some(filled) ==> (filled.volume matches Some(volume)
                ==> copy.transform == formula::affine(
                maths,
                Formula::Composed(base, volume.bounds_to_asset),
            ))
        }),
{
}

/// What an instance wears: its material, and on the boundary of a medium a material
/// that emits nothing and is nowhere transparent, but else the same.
pub proof fn boundaries_keep_the_rest_of_their_material(
    authored: Material,
    medium: Option<Medium>,
)
    ensures
        ({
            let worn = host::worn(authored, medium);
            &&& medium is None ==> worn == authored
            &&& medium is Some ==> worn == (Material {
                emission: worn.emission,
                opacity: worn.opacity,
                opacity_texture: worn.opacity_texture,
                ..authored
            })
            &&& medium is Some ==> worn.emission.x.bits == 0 && worn.emission.y.bits == 0
                && worn.emission.z.bits == 0 && worn.opacity.bits == 0x3f80_0000
                && worn.opacity_texture == 0xffff_ffff
        }),
{
}

/// Light `j` of copy `k` of an instance is triangle `j` of its shape where that copy
/// stands, and leads back to that copy: its number is `start` and `k`.
pub proof fn copies_emit_where_they_stand<M: Fn(Formula) -> Answer>(
    maths: M,
    instance: Instance,
    material: Material,
    medium: Option<Medium>,
    shape: Shape,
    start: int,
    n: int,
    k: int,
    j: int,
)
    requires
        0 <= k < n,
        0 <= start,
        start + n <= u32::MAX,
        0 <= j < shape.triangles.len() <= u32::MAX,
    ensures
        ({
            let lights = host::copies_lit(maths, instance, material, medium, shape, start, n);
            let light = lights[k * shape.triangles.len() + j];
            let corner = |vertex: u32|
                formula::vector(
                    maths,
                    Formula::Moved(
                        host::placed(maths, instance.transforms@[k], medium),
                        shape.positions[vertex as int],
                    ),
                );
            &&& lights.len() == n * shape.triangles.len()
            &&& 0 <= k * shape.triangles.len() + j < lights.len()
            &&& light.first == corner(shape.triangles[j][0])
            &&& light.second == corner(shape.triangles[j][1])
            &&& light.third == corner(shape.triangles[j][2])
            &&& light.emission == material.emission
            &&& light.instance == start + k
            &&& light.primitive == j
        }),
    decreases n,
{
    let size = shape.triangles.len() as int;
    let front = host::copies_lit(maths, instance, material, medium, shape, start, n - 1);
    let last = scene::lit_triangles(
        maths,
        shape.positions,
        shape.triangles,
        host::placed(maths, instance.transforms@[n - 1], medium),
        material.emission,
        (start + n - 1) as u32,
    );
    let all = host::copies_lit(maths, instance, material, medium, shape, start, n);
    copies_have_a_light_for_each(maths, instance, material, medium, shape, start, n - 1);
    assert(all == front + last);
    assert(n * size == (n - 1) * size + size) by (nonlinear_arith);
    let at = k * size + j;
    assert(0 <= at) by (nonlinear_arith)
        requires
            at == k * size + j,
            k >= 0,
            size >= 0,
            j >= 0,
    ;
    if k == n - 1 {
        lights_cover_their_triangles(
            maths,
            shape.positions,
            shape.triangles,
            host::placed(maths, instance.transforms@[n - 1], medium),
            material.emission,
            (start + n - 1) as u32,
            j,
        );
        assert(all[at] == last[j]);
    } else {
        copies_emit_where_they_stand(
            maths,
            instance,
            material,
            medium,
            shape,
            start,
            n - 1,
            k,
            j,
        );
        assert(all[at] == front[at]);
    }
}

/// Copies have a light for each of their triangles.
proof fn copies_have_a_light_for_each<M: Fn(Formula) -> Answer>(
    maths: M,
    instance: Instance,
    material: Material,
    medium: Option<Medium>,
    shape: Shape,
    start: int,
    n: int,
)
    requires
        0 <= n,
    ensures
        host::copies_lit(maths, instance, material, medium, shape, start, n).len() == n
            * shape.triangles.len(),
    decreases n,
{
    if n > 0 {
        copies_have_a_light_for_each(maths, instance, material, medium, shape, start, n - 1);
        let size = shape.triangles.len() as int;
        assert(n * size == (n - 1) * size + size) by (nonlinear_arith);
    }
}

/// What rays meet of a placement: its geometry where it stands, under its own number;
/// the camera's rays pass it by exactly where the placement says so, and a hit is
/// taken without a further look only where the surface is shaded and covers all
/// of itself.
pub proof fn rays_meet_the_placement(placement: Placement, index: u32)
    ensures
        ({
            let met = scene::traced(placement, index as int);
            &&& met.geometry == placement.geometry
            &&& met.transform == placement.transform
            &&& met.custom_index == index
            &&& placement.camera_visible ==> met.mask == 0xff
            &&& !placement.camera_visible ==> met.mask == 0xfe
            &&& met.opaque ==> placement.medium is None && placement.material.opacity_texture
                == 0xffff_ffff && 0x3f80_0000 <= placement.material.opacity.bits <= 0x7f80_0000
            &&& placement.medium is None && placement.material.opacity_texture == 0xffff_ffff
                && 0x3f80_0000 <= placement.material.opacity.bits <= 0x7f80_0000 ==> met.opaque
        }),
{
}

/// What crossing a placement's surface means: that of a bounded medium's boundary where
/// it bounds one; else refraction exactly where the material transmits anything
/// and has walls that are not thin.
pub proof fn crossings_mean(placement: Placement)
    ensures
        placement.medium is Some ==> placement.class() == 2,
        placement.medium is None && 0 < placement.material.transmission_weight.bits <= 0x7f80_0000
            && !placement.material.thin_walled ==> placement.class() == 1,
        placement.medium is None && !(0 < placement.material.transmission_weight.bits
            <= 0x7f80_0000 && !placement.material.thin_walled) ==> placement.class() == 0,
        placement.class() != 1 ==> media::ranked_priority(placement) == 0,
        placement.class() == 1 && placement.priority <= 63 ==> media::ranked_priority(placement)
            == placement.priority,
        placement.class() == 1 && placement.priority > 63 ==> media::ranked_priority(placement)
            == 63,
{
}

/// A surface shows nothing exactly where it emits nothing, covers everything and has no
/// texture that says otherwise.
pub proof fn inert_surfaces_show_nothing(material: Material)
    ensures
        media::boundary_inert(material) == {
            &&& material.emission.x.bits % 0x8000_0000 == 0
            &&& material.emission.y.bits % 0x8000_0000 == 0
            &&& material.emission.z.bits % 0x8000_0000 == 0
            &&& 0x3f80_0000 <= material.opacity.bits <= 0x7f80_0000
            &&& material.opacity_texture == 0xffff_ffff
        },
{
}

/// The entry of a placement in the geometry table: its own geometry, the map of its
/// placement and the one that undoes it; the number of the first of its lights,
/// and where there are none, none; its boundary word; and in the medium table the
/// record of what fills it and of what its subsurface lobe walks in.
pub proof fn entries_are_their_placements<M: Fn(Formula) -> Answer>(
    maths: M,
    tables: InstanceTables,
    placements: Seq<Placement>,
    lights: Seq<TriangleLight>,
    grids: Map<(Seq<Part<Seq<char>>>, Seq<char>), ResidentGrid>,
    global: Option<Medium>,
    i: int,
)
    requires
        scene::tabled(tables, maths, placements, lights, grids, global),
        0 <= i < placements.len(),
        2 * placements.len() + 1 < 0x8000_0000,
        lights.len() < LIGHT_NONE,
    ensures
        ({
            let entry = tables.geometry@[i];
            let placement = placements[i];
            let filling = scene::placement_filling(maths, placement, grids);
            let walked = media::subsurface_filling(maths, placement.material);
            &&& tables.materials@.len() == placements.len()
            &&& tables.materials@[i] == placement.material
            &&& entry.geometry == placement.geometry
            &&& entry.object_to_world == placement.transform
            &&& entry.world_to_object == formula::affine(
                maths,
                Formula::Inverse(placement.transform),
            )
            &&& entry.light == 0xffff_ffff <==> forall|j: int|
                0 <= j < lights.len() ==> (#[trigger] lights[j]).instance != i
            &&& entry.light != 0xffff_ffff ==> entry.light < lights.len()
                && lights[entry.light as int].instance == i && forall|j: int|
                0 <= j < entry.light ==> (#[trigger] lights[j]).instance != i
            &&& entry.boundary == media::word(maths, placement)
            &&& filling is None ==> entry.medium == 0xffff_ffff
            &&& filling matches Some(record) ==> entry.medium < tables.media@.len()
                && tables.media@[entry.medium as int] == record
            &&& walked is None ==> entry.subsurface == 0xffff_ffff
            &&& walked matches Some(record) ==> {
                let index = entry.subsurface % 0x8000_0000;
                &&& index < tables.media@.len()
                &&& tables.media@[index as int] == record
                &&& entry.subsurface >= 0x8000_0000 <==> (
                placement.material.subsurface_color_texture != TEXTURE_NONE
                    || placement.material.subsurface_radius_texture != TEXTURE_NONE
                    || placement.material.subsurface_radius_scale_texture != TEXTURE_NONE
                    || placement.material.subsurface_scatter_anisotropy_texture != TEXTURE_NONE)
            }
            &&& global is None ==> tables.global_medium == 0xffff_ffff
            &&& global matches Some(medium) ==> tables.global_medium < tables.media@.len()
                && tables.media@[tables.global_medium as int] == media::plain_record(
                maths,
                medium,
            )
        }),
{
    let list = scene::all_media(maths, placements, grids, global);
    let n = placements.len() as int;
    assert(tables.geometry@[i] == scene::placement_record(maths, placements, lights, list, i));
    scene::first_lights_are_first(lights, i);
    scene::interning_keeps_one_of_each(list);
    assert(list[i] == scene::placement_filling(maths, placements[i], grids));
    assert(list[n + i] == media::subsurface_filling(maths, placements[i].material));
    record_is_in_its_slot(list, i);
    record_is_in_its_slot(list, n + i);
    record_is_in_its_slot(list, list.len() - 1);
    assert(list.last() == list[list.len() - 1]);
}

/// A record is where its slot says.
proof fn record_is_in_its_slot(list: Seq<Option<MediumRecord>>, i: int)
    requires
        0 <= i < list.len() < MEDIUM_NONE,
    ensures
        list[i] is None ==> scene::slot(scene::interned(list), list[i]) == MEDIUM_NONE,
        list[i] matches Some(record) ==> scene::slot(scene::interned(list), list[i])
            < scene::interned(list).len() <= list.len() && scene::interned(list)[scene::slot(
            scene::interned(list),
            list[i],
        ) as int] == record,
{
    scene::interning_keeps_one_of_each(list);
    if let Some(record) = list[i] {
        let records = scene::interned(list);
        assert(records.contains(record));
        assert(records[records.index_of(record)] == record);
    }
}

// -- Media -------------------------------------------------------------------------------

/// The record of a medium without a grid: its extinction is asked of its absorption
/// and its scattering, its scattering is its own, and its anisotropy is its own,
/// held short of one either way.
pub proof fn records_are_their_medium<M: Fn(Formula) -> Answer>(maths: M, medium: Medium)
    ensures
        ({
            let record = media::plain_record(maths, medium);
            &&& record.sigma_t == formula::vector(
                maths,
                Formula::Sum(medium.absorption, medium.scattering),
            )
            &&& record.sigma_s == medium.scattering
            &&& medium.anisotropy.bits <= 0x3f7d_70a4 ==> record.g == medium.anisotropy
            &&& 0x3f7d_70a4 < medium.anisotropy.bits <= 0x7f80_0000 ==> record.g.bits
                == 0x3f7d_70a4
            &&& 0x8000_0000 <= medium.anisotropy.bits <= 0xbf7d_70a4 ==> record.g
                == medium.anisotropy
            &&& 0xbf7d_70a4 < medium.anisotropy.bits <= 0xff80_0000 ==> record.g.bits
                == 0xbf7d_70a4
            &&& medium.anisotropy.nan() ==> record.g.bits == 0
            &&& record.grid == 0xffff_ffff && record.temperature_grid == 0xffff_ffff
            &&& record.emission.zero()
        }),
{
}

/// The record of a medium with a grid, as it is placed: what it has without one, the
/// places of its density and its majorants, the map from the world through the
/// placement and the grid's bounds to its lattice, and the majorant lattice as
/// the volume says; with a temperature field, that field's place and what makes
/// light of it, and else no light.
pub proof fn grids_are_found_through_their_record<M: Fn(Formula) -> Answer>(
    maths: M,
    placement: Placement,
    medium: Medium,
    grids: Map<(Seq<Part<Seq<char>>>, Seq<char>), ResidentGrid>,
)
    requires
        placement.medium == Some(medium),
        medium.volume is Some,
        medium.volume->0.majorant_res[0] <= 1023,
        medium.volume->0.majorant_res[1] <= 1023,
        medium.volume->0.majorant_res[2] <= 1023,
    ensures
        ({
            let found = scene::placement_filling(maths, placement, grids);
            let record = found->0;
            let volume = medium.volume->0;
            let density = grids[(volume.nvdb@, volume.grid@)];
            let unplaced = formula::affine(maths, Formula::Inverse(placement.transform));
            let to_lattice = formula::affine(
                maths,
                Formula::Composed(volume.asset_to_index, volume.bounds_to_asset),
            );
            &&& found is Some
            &&& record.sigma_t == media::plain_record(maths, medium).sigma_t
            &&& record.sigma_s == medium.scattering
            &&& record.g == media::plain_record(maths, medium).g
            &&& record.grid == density.grid
            &&& record.majorant == density.majorant
            &&& record.majorant_scale == volume.majorant_scale
            &&& record.majorant_bias == volume.majorant_bias
            &&& record.majorant_res % 0x400 == volume.majorant_res[0]
            &&& record.majorant_res / 0x400 % 0x400 == volume.majorant_res[1]
            &&& record.majorant_res / 0x10_0000 == volume.majorant_res[2]
            &&& record.world_to_index == formula::affine(
                maths,
                Formula::Composed(to_lattice, unplaced),
            )
            &&& volume.temperature is None ==> record.temperature_grid == 0xffff_ffff
                && record.emission.zero()
            &&& volume.temperature matches Some(temperature) ==> {
                &&& record.temperature_grid == grids[(volume.nvdb@, temperature@)].grid
                &&& record.emission == volume.emission
                &&& record.kelvin_scale == volume.kelvin_scale
                &&& record.kelvin_offset == volume.kelvin_offset
            }
        }),
{
    scene::packing_reads_back(medium.volume->0.majorant_res);
}

/// What fills an interior: nothing where the surface is not refractive or its depth is
/// not above zero. Else the extinction is what leaves the transmitted color at
/// that depth; scattering is the material's over the depth, and where there is
/// any the extinction is raised to cover it.
pub proof fn interiors_are_filled<M: Fn(Formula) -> Answer>(maths: M, material: Material)
    requires
        material.transmission_scatter.x.bits <= 0x7f80_0000,
        material.transmission_scatter.y.bits <= 0x7f80_0000,
        material.transmission_scatter.z.bits <= 0x7f80_0000,
    ensures
        ({
            let found = media::filling(maths, material);
            let inside = 0 < material.transmission_weight.bits <= 0x7f80_0000
                && !material.thin_walled && 0 < material.transmission_depth.bits <= 0x7f80_0000;
            let scatter = material.transmission_scatter;
            let absorbs = scatter.x.bits == 0 && scatter.y.bits == 0 && scatter.z.bits == 0;
            let extinction = formula::vector(
                maths,
                Formula::Extinction {
                    color: material.transmission_color,
                    depth: material.transmission_depth,
                },
            );
            let scattering = formula::vector(
                maths,
                Formula::Quotient { value: scatter, by: material.transmission_depth },
            );
            &&& found is Some == inside
            &&& inside && absorbs ==> found->0.sigma_t == extinction && found->0.sigma_s.zero()
                && found->0.g.bits == 0
            &&& inside && !absorbs ==> {
                &&& found->0.sigma_s == scattering
                &&& found->0.sigma_t == formula::vector(
                    maths,
                    Formula::Repaired { extinction, scattering },
                )
                &&& found->0.g == media::bounded_g(material.transmission_scatter_anisotropy)
            }
            &&& inside ==> found->0.grid == 0xffff_ffff
        }),
{
    let scatter = material.transmission_scatter;
    crate::numbers::vectors_are_held_by_component(scatter);
    assert(scatter.floored() == scatter) by {
        assert(scatter.floored().x == scatter.x);
        assert(scatter.floored().y == scatter.y);
        assert(scatter.floored().z == scatter.z);
    }
}

/// What a subsurface lobe walks in: nothing where its weight or its radius is not above
/// zero, or the walls are thin. Else the extinction is that of the radius and its
/// scale, and the scattering the one whose walk arrives at the lobe's color.
pub proof fn subsurfaces_are_filled<M: Fn(Formula) -> Answer>(maths: M, material: Material)
    ensures
        ({
            let found = media::subsurface_filling(maths, material);
            let inside = 0 < material.subsurface_weight.bits <= 0x7f80_0000 && 0
                < material.subsurface_radius.bits <= 0x7f80_0000 && !material.thin_walled;
            let extinction = formula::vector(
                maths,
                Formula::Reciprocal {
                    radius: material.subsurface_radius,
                    scale: material.subsurface_radius_scale,
                },
            );
            &&& found is Some == inside
            &&& inside ==> {
                &&& found->0.sigma_t == extinction
                &&& found->0.g == media::bounded_g(material.subsurface_scatter_anisotropy)
                &&& found->0.sigma_s == formula::vector(
                    maths,
                    Formula::Scattered {
                        color: material.subsurface_color,
                        anisotropy: found->0.g,
                        extinction,
                    },
                )
                &&& found->0.grid == 0xffff_ffff
            }
            &&& media::marched(maths, material) == (if material.subsurface_radius_texture
                == TEXTURE_NONE && material.subsurface_radius_scale_texture == TEXTURE_NONE {
                found
            } else {
                None
            })
        }),
{
}

/// The grids that have to be there are those that some placement's medium reads: its
/// density, and its temperature where it has one.
pub proof fn grids_needed_are_those_read(placements: Seq<Placement>, key: (
    Seq<Part<Seq<char>>>,
    Seq<char>,
))
    ensures
        scene::needed(placements).no_duplicates(),
        scene::needed(placements).contains(key) <==> exists|i: int|
            0 <= i < placements.len() && reads_grid(#[trigger] placements[i], key),
    decreases placements.len(),
{
    if placements.len() > 0 {
        let front = placements.drop_last();
        let last = placements.last();
        grids_needed_are_those_read(front, key);
        reveal_with_fuel(scene::joined_once, 3);
        let fields = scene::fields(last);
        joining_adds(scene::needed(front), fields, key);
        assert(fields.contains(key) == reads_grid(last, key)) by {
            if let Some(medium) = last.medium {
                if let Some(volume) = medium.volume {
                    assert(fields[0] == (volume.nvdb@, volume.grid@));
                    if let Some(temperature) = volume.temperature {
                        assert(fields[1] == (volume.nvdb@, temperature@));
                    }
                }
            }
        }
        if scene::needed(placements).contains(key) && scene::needed(front).contains(key) {
            let i = choose|i: int| 0 <= i < front.len() && reads_grid(#[trigger] front[i], key);
            assert(placements[i] == front[i]);
        }
        if exists|i: int| 0 <= i < placements.len() && reads_grid(#[trigger] placements[i], key) {
            let i = choose|i: int|
                0 <= i < placements.len() && reads_grid(#[trigger] placements[i], key);
            if i < front.len() {
                assert(front[i] == placements[i]);
            }
        }
        if fields.contains(key) {
            assert(placements[placements.len() - 1] == last);
        }
    }
}

/// The placement's medium reads the grid.
pub open spec fn reads_grid(
    placement: Placement,
    key: (Seq<Part<Seq<char>>>, Seq<char>),
) -> bool {
    placement.medium matches Some(medium) && medium.volume matches Some(volume) && key.0
        == volume.nvdb@ && (key.1 == volume.grid@ || (volume.temperature matches Some(temperature)
        && key.1 == temperature@))
}

/// Joining keeps what is there, and adds what is new.
proof fn joining_adds<T>(list: Seq<T>, more: Seq<T>, item: T)
    requires
        list.no_duplicates(),
    ensures
        scene::joined_once(list, more).no_duplicates(),
        scene::joined_once(list, more).contains(item) == (list.contains(item) || more.contains(
            item,
        )),
    decreases more.len(),
{
    if more.len() > 0 {
        let front = scene::joined_once(list, more.drop_last());
        joining_adds(list, more.drop_last(), item);
        joining_adds(list, more.drop_last(), more.last());
        let all = scene::joined_once(list, more);
        if more.contains(item) {
            let k = more.index_of(item);
            if k < more.len() - 1 {
                assert(more.drop_last()[k] == item);
            }
        }
        if more.drop_last().contains(item) {
            let k = more.drop_last().index_of(item);
            assert(more[k] == item);
        }
        assert(more[more.len() - 1] == more.last());
        if !front.contains(more.last()) {
            assert(all[front.len() as int] == more.last());
            if front.contains(item) {
                let k = front.index_of(item);
                assert(all[k] == item);
            }
            if all.contains(item) && item != more.last() {
                let k = all.index_of(item);
                assert(front[k] == item);
            }
        }
    }
}

} // verus!
