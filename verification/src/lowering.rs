//! What cameras, lights, volumes, skies and meshes become when they are lowered.

use vstd::prelude::*;

use crate::bits::{Num, Vec3, ONE};
use crate::changeset::Kind;
use crate::description;
use crate::description::{Geometry, MeshSource, Model};
use crate::error::SceneError;
use crate::formula;
use crate::formula::{Answer, Formula};
use crate::geometry;
use crate::geometry::Payload;
use crate::host;
use crate::lower;
use crate::lower::{GridHeader, GridReading, Sky};
use crate::mesh::Mesh;
use crate::numbers::to_nonnegative;
use crate::path::FilePath;
use crate::scene::DeltaLight;
use crate::shading::working;
use crate::table;
use crate::texture::{Identity, Key};

verus! {

/// A camera stands where it says, looks where it says, and has the field of view that
/// it says. It has a lens exactly where its aperture is above zero: of that
/// aperture, focused at the distance it says, or at what it looks at.
pub proof fn cameras_are_kept<M: Fn(Formula) -> Answer>(maths: M, source: description::Camera)
    ensures
        ({
            let camera = lower::settled_camera(maths, source);
            &&& camera.position == source.position
            &&& camera.look_at == source.look_at
            &&& camera.up == source.up
            &&& camera.vfov_degrees == source.vfov_degrees
            &&& camera.lens is Some == (0 < source.aperture_radius.bits <= 0x7f80_0000)
            &&& camera.lens matches Some(lens) ==> {
                &&& lens.aperture_radius == source.aperture_radius
                &&& source.focus_distance matches Some(distance) ==> lens.focus_distance
                    == distance
                &&& source.focus_distance is None ==> lens.focus_distance == formula::number(
                    maths,
                    Formula::Distance(source.position, source.look_at),
                )
            }
        }),
{
}

/// A distant light keeps its direction, at unit length, and its irradiance; a point
/// light its position and its intensity; the power is in the working space, and
/// a light without any is none.
pub proof fn lights_are_kept<M: Fn(Formula) -> Answer>(maths: M, at: Vec3, power: Vec3)
    ensures
        ({
            let distant = lower::delta_light(
                maths,
                description::Light::Distant { direction: at, irradiance: power },
            );
            let point = lower::delta_light(
                maths,
                description::Light::Point { position: at, intensity: power },
            );
            let shines = formula::truth(maths, Formula::Luminous(working(maths, power)));
            &&& distant is Some == shines
            &&& point is Some == shines
            &&& shines ==> distant == Some(
                DeltaLight::Distant {
                    direction: formula::vector(maths, Formula::Unit(at)),
                    irradiance: working(maths, power),
                },
            )
            &&& shines ==> point == Some(
                DeltaLight::Point { position: at, intensity: working(maths, power) },
            )
        }),
{
}

/// The values that are there of some that may not be: each is one of those, and all of
/// those are among them, in their order.
pub proof fn present_values_are_those_there<T>(slots: Seq<Option<T>>, i: int, j: int)
    requires
        0 <= i < j < slots.len(),
        slots[i] is Some,
        slots[j] is Some,
    ensures
        exists|a: int, b: int|
            #![trigger description::present(slots)[a], description::present(slots)[b]]
            0 <= a < b < description::present(slots).len() && description::present(slots)[a]
                == slots[i]->0 && description::present(slots)[b] == slots[j]->0,
    decreases slots.len(),
{
    let front = slots.drop_last();
    let all = description::present(slots);
    let some = description::present(front);
    if j < slots.len() - 1 {
        present_values_are_those_there(front, i, j);
        let (a, b) = choose|a: int, b: int|
            #![trigger some[a], some[b]]
            0 <= a < b < some.len() && some[a] == front[i]->0 && some[b] == front[j]->0;
        assert(all[a] == some[a] && all[b] == some[b]);
    } else {
        one_value_is_there(front, i);
        let a = choose|a: int| 0 <= a < some.len() && #[trigger] some[a] == front[i]->0;
        assert(all == some.push(slots[j]->0));
        assert(all[a] == some[a] && all[some.len() as int] == slots[j]->0);
    }
}

/// A value that is there is among those that are.
pub proof fn one_value_is_there<T>(slots: Seq<Option<T>>, i: int)
    requires
        0 <= i < slots.len(),
        slots[i] is Some,
    ensures
        exists|a: int|
            0 <= a < description::present(slots).len() && #[trigger] description::present(slots)[a]
                == slots[i]->0,
    decreases slots.len(),
{
    let front = slots.drop_last();
    let all = description::present(slots);
    let some = description::present(front);
    if i < slots.len() - 1 {
        one_value_is_there(front, i);
        let a = choose|a: int| 0 <= a < some.len() && #[trigger] some[a] == front[i]->0;
        assert(all[a] == some[a]);
    } else {
        assert(all[some.len() as int] == slots[i]->0);
    }
}

/// Every light that a scene names and that shines is among its lights.
pub proof fn every_light_shines<M: Fn(Formula) -> Answer>(
    maths: M,
    lights: Map<Seq<char>, description::Light>,
    name: Seq<char>,
)
    requires
        lights.dom().finite(),
        lights.contains_key(name),
        lower::delta_light(maths, lights[name]) is Some,
    ensures
        lower::delta_lights(maths, lights).contains(lower::delta_light(maths, lights[name])->0),
{
    table::ranking_holds_all::<String>(lights.dom());
    let names = table::ranking::<String>(lights.dom());
    assert(lights.dom().contains(name));
    assert(names.contains(name));
    let i = names.index_of(name);
    let slots = names.map_values(|name: Seq<char>| lower::delta_light(maths, lights[name]));
    assert(slots[i] == lower::delta_light(maths, lights[name]));
    one_value_is_there(slots, i);
}

/// A volume is read from the file and the grid that it names. The unit cube is
/// stretched over the box between the header's two corners, and the majorant
/// lattice with it: as many cells over the box as it has along each axis. What
/// makes light of a temperature is as the volume says, and the field is left out
/// only where the light is multiplied by nothing.
pub proof fn volumes_are_kept<M: Fn(Formula) -> Answer>(
    maths: M,
    source: description::VolumeSource,
    header: GridHeader,
    emission: Vec3,
)
    ensures
        ({
            let volume = lower::gridded(maths, source, header, emission);
            let back = Vec3 {
                x: header.low.x.flipped(),
                y: header.low.y.flipped(),
                z: header.low.z.flipped(),
            };
            let extent = formula::vector(maths, Formula::Sum(header.high, back));
            let cells = formula::vector(
                maths,
                Formula::Counts(
                    header.majorant_res[0],
                    header.majorant_res[1],
                    header.majorant_res[2],
                ),
            );
            let stretched = lower::boxed(header.low, extent);
            &&& volume.nvdb == header.nvdb
            &&& volume.grid == source.grid
            &&& volume.asset_to_index == header.asset_to_index
            &&& volume.bounds_to_asset == formula::affine(
                maths,
                Formula::Composed(header.index_to_asset, stretched),
            )
            &&& (stretched.x.x, stretched.x.w) == (extent.x, header.low.x)
            &&& (stretched.y.y, stretched.y.w) == (extent.y, header.low.y)
            &&& (stretched.z.z, stretched.z.w) == (extent.z, header.low.z)
            &&& stretched.x.y.bits == 0 && stretched.x.z.bits == 0 && stretched.y.x.bits == 0
            &&& stretched.y.z.bits == 0 && stretched.z.x.bits == 0 && stretched.z.y.bits == 0
            &&& volume.majorant_res == header.majorant_res
            &&& volume.majorant_scale == formula::vector(maths, Formula::Ratio(cells, extent))
            &&& volume.majorant_bias == formula::vector(
                maths,
                Formula::Product(back, volume.majorant_scale),
            )
            &&& volume.kelvin_scale == source.temperature_scale
            &&& volume.kelvin_offset == source.temperature_offset
            &&& volume.emission == emission
            &&& 0 < emission.x.bits <= 0x7f80_0000 || 0 < emission.y.bits <= 0x7f80_0000 || 0
                < emission.z.bits <= 0x7f80_0000 ==> volume.temperature == source.temperature_grid
            &&& emission.x.bits == 0 && emission.y.bits == 0 && emission.z.bits == 0
                ==> volume.temperature is None
        }),
{
}

/// A medium keeps its coefficients, in the working space and never below zero, its
/// anisotropy, and its volume, as the header of its grid has it.
pub proof fn media_are_kept<M: Fn(Formula) -> Answer>(
    maths: M,
    medium: description::Medium,
    header: GridHeader,
)
    ensures
        ({
            let found = lower::lowered_medium(maths, medium, Some(GridReading::Header(header)));
            &&& to_nonnegative(working(maths, medium.absorption), found.absorption)
            &&& to_nonnegative(working(maths, medium.scattering), found.scattering)
            &&& found.anisotropy == medium.anisotropy
            &&& medium.volume is None ==> found.volume is None
            &&& medium.volume matches Some(source) ==> {
                let emission = lower::coefficient(maths, source.emission);
                &&& to_nonnegative(working(maths, source.emission), emission)
                &&& found.volume == Some(lower::gridded(maths, source, header, emission))
            }
        }),
{
    crate::numbers::vectors_are_held_by_component(working(maths, medium.absorption));
    crate::numbers::vectors_are_held_by_component(working(maths, medium.scattering));
    if let Some(source) = medium.volume {
        crate::numbers::vectors_are_held_by_component(working(maths, source.emission));
    }
}

/// Every medium of a scene is lowered under its own name, from what was read under
/// that name.
pub proof fn media_keep_their_names<M: Fn(Formula) -> Answer>(
    maths: M,
    media: Map<Seq<char>, description::Medium>,
    readings: Map<Seq<char>, GridReading>,
    name: Seq<char>,
)
    ensures
        ({
            let all = lower::all_media(maths, media, readings);
            &&& all.contains_key(name) == media.contains_key(name)
            &&& media.contains_key(name) && media[name].volume is None ==> all[name]
                == lower::lowered_medium(maths, media[name], None)
            &&& media.contains_key(name) && readings.contains_key(name) ==> all[name]
                == lower::lowered_medium(maths, media[name], Some(readings[name]))
        }),
{
}

/// Every material of a scene is lowered under its own name.
pub proof fn materials_keep_their_names<M: Fn(Formula) -> Answer>(
    maths: M,
    materials: Map<Seq<char>, description::Material>,
    indices: Map<Identity, u32>,
    name: Seq<char>,
)
    ensures
        ({
            let all = lower::all_lowered(maths, materials, indices);
            &&& all.contains_key(name) == materials.contains_key(name)
            &&& materials.contains_key(name) ==> all[name] == lower::lowered(
                maths,
                materials[name],
                indices,
            )
        }),
{
}

/// Textures are numbered from nothing on without a gap, no two alike.
pub proof fn textures_are_numbered(keys: Set<Identity>, one: Identity, other: Identity)
    requires
        keys.finite(),
        keys.len() <= u32::MAX,
        keys.contains(one),
        keys.contains(other),
    ensures
        lower::indexed(keys).contains_key(one),
        lower::indexed(keys)[one] < keys.len(),
        lower::indexed(keys)[one] == lower::indexed(keys)[other] ==> one == other,
{
    table::ranking_holds_all::<Key>(keys);
    let names = table::ranking::<Key>(keys);
    assert(names.contains(one));
    assert(names.contains(other));
    assert(names[names.index_of(one)] == one);
    assert(names[names.index_of(other)] == other);
    names.unique_seq_to_set();
}

/// The sky of a scene: black where it has no environment. An environment keeps its
/// file, its tint in the working space and never below zero, and how it is
/// turned; without a file it is white, and its image is read anew exactly where
/// the file is not the one that is resident.
pub proof fn skies_are_kept<M: Fn(Formula) -> Answer>(
    maths: M,
    environment: description::Environment,
    resident: Option<FilePath>,
)
    ensures
        ({
            let sky = lower::placed_sky(maths, environment, resident);
            let placed = formula::affine(maths, Formula::Placed(environment.transform));
            let black = lower::scene_sky(maths, Map::empty(), resident);
            &&& sky.source == environment.path
            &&& to_nonnegative(working(maths, environment.tint), sky.tint)
            &&& sky.to_world == formula::affine(maths, Formula::Linear(placed))
            &&& sky.from_world == formula::affine(maths, Formula::Inverse(sky.to_world))
            &&& environment.path is None ==> sky.image == Some(
                Sky::Constant(
                    Vec3 { x: Num { bits: ONE }, y: Num { bits: ONE }, z: Num { bits: ONE } },
                ),
            )
            &&& environment.path matches Some(path) ==> {
                &&& resident matches Some(held) ==> (sky.image is None == (held@ == path@)) && (held@
                    != path@ ==> sky.image == Some(Sky::Image))
                &&& resident is None ==> sky.image == Some(Sky::Image)
            }
            &&& black.source is None
            &&& black.image == Some(
                Sky::Constant(Vec3 { x: Num { bits: 0 }, y: Num { bits: 0 }, z: Num { bits: 0 } }),
            )
        }),
{
    crate::numbers::vectors_are_held_by_component(working(maths, environment.tint));
    let none = Map::<Seq<char>, description::Environment>::empty();
    assert(none.dom() =~= Set::<Seq<char>>::empty());
    table::ranking_holds_all::<String>(none.dom());
    let names = table::ranking::<String>(none.dom());
    if names.len() > 0 {
        assert(names.contains(names[0]));
    }
}

/// The only environment of a scene is its sky.
pub proof fn the_only_sky_is_the_one_there<M: Fn(Formula) -> Answer>(
    maths: M,
    environments: Map<Seq<char>, description::Environment>,
    resident: Option<FilePath>,
    name: Seq<char>,
)
    requires
        environments.dom() == set![name],
    ensures
        lower::scene_sky(maths, environments, resident) == lower::placed_sky(
            maths,
            environments[name],
            resident,
        ),
{
    table::ranking_holds_all::<String>(environments.dom());
    let names = table::ranking::<String>(environments.dom());
    assert(environments.dom().contains(name));
    assert(names.contains(name));
    assert(names.contains(names[0]));
}

// -- Meshes ------------------------------------------------------------------------------

/// A mesh that is spelled out keeps its positions and triangles, and the normals and
/// coordinates that it spells; missing coordinates are the origin at every
/// vertex, and missing normals are derived from its own positions and triangles.
pub proof fn spelled_meshes_are_kept<N: Fn(&Vec<Vec3>, &Vec<[u32; 3]>) -> Vec<Vec3>>(
    smooth: N,
    source: MeshSource,
    payload: Payload,
    found: Mesh,
)
    requires
        geometry::mesh_resolves(smooth, source, payload, found),
        geometry::consistent(source),
    ensures
        source matches MeshSource::Inline { positions, normals, uvs, triangles } ==> {
            &&& found.positions@ == positions@
            &&& found.triangles@ == triangles@
            &&& normals matches Some(given) ==> found.normals@ == given@
            &&& normals is None ==> call_ensures(
                smooth,
                (&found.positions, &found.triangles),
                found.normals,
            )
            &&& uvs matches Some(given) ==> found.uvs@ == given@
            &&& uvs is None ==> found.uvs@.len() == positions@.len() && forall|i: int|
                0 <= i < positions@.len() ==> (#[trigger] found.uvs@[i]).x.bits == 0
                    && found.uvs@[i].y.bits == 0
        },
        source is Ply ==> (payload matches Payload::Triangles(read) && {
            &&& found.positions@ == read.positions@
            &&& found.triangles@ == read.triangles@
            &&& read.normals matches Some(given) ==> found.normals@ == given@
            &&& read.normals is None ==> call_ensures(
                smooth,
                (&found.positions, &found.triangles),
                found.normals,
            )
            &&& read.uvs matches Some(given) ==> found.uvs@ == given@
            &&& read.uvs is None ==> found.uvs@.len() == read.positions@.len() && forall|i: int|
                0 <= i < read.positions@.len() ==> (#[trigger] found.uvs@[i]).x.bits == 0
                    && found.uvs@[i].y.bits == 0
        }),
{
}

/// A corner of the unit cube along one axis: nothing or one.
pub open spec fn along(x: Num) -> int {
    if x.bits == ONE {
        1
    } else {
        0
    }
}

/// The product of two of nothing, one and minus one.
pub open spec fn times(p: int, q: int) -> int {
    if p == 0 || q == 0 {
        0
    } else if p == q {
        1
    } else {
        -1
    }
}

/// How far a triangle of the unit cube faces away from the middle: the product of its
/// two sides, against the way from the middle to it.
pub open spec fn outwardness(a: Vec3, b: Vec3, c: Vec3) -> int {
    let (ax, ay, az) = (along(a.x), along(a.y), along(a.z));
    let (ux, uy, uz) = (along(b.x) - ax, along(b.y) - ay, along(b.z) - az);
    let (vx, vy, vz) = (along(c.x) - ax, along(c.y) - ay, along(c.z) - az);
    times(times(uy, vz) - times(uz, vy), 2 * ax - 1) + times(
        times(uz, vx) - times(ux, vz),
        2 * ay - 1,
    ) + times(times(ux, vy) - times(uy, vx), 2 * az - 1)
}

/// The shell of a grid is the unit cube: its vertices are the eight corners, each once,
/// and every one of its twelve triangles lies on a side and faces outward.
pub proof fn shells_are_unit_cubes<N: Fn(&Vec<Vec3>, &Vec<[u32; 3]>) -> Vec<Vec3>>(
    smooth: N,
    payload: Payload,
    found: Mesh,
    i: int,
)
    requires
        geometry::mesh_resolves(smooth, MeshSource::MediumBounds, payload, found),
        0 <= i < 12,
    ensures
        found.positions@.len() == 8,
        found.triangles@.len() == 12,
        forall|k: int|
            0 <= k < 8 ==> {
                let p = #[trigger] found.positions@[k];
                &&& p.x.bits == 0 || p.x.bits == ONE
                &&& p.y.bits == 0 || p.y.bits == ONE
                &&& p.z.bits == 0 || p.z.bits == ONE
                &&& k == along(p.x) + 2 * along(p.y) + 4 * along(p.z)
            },
        found.triangles@[i][0] < 8 && found.triangles@[i][1] < 8 && found.triangles@[i][2] < 8,
        outwardness(
            found.positions@[found.triangles@[i][0] as int],
            found.positions@[found.triangles@[i][1] as int],
            found.positions@[found.triangles@[i][2] as int],
        ) == 1,
        call_ensures(smooth, (&found.positions, &found.triangles), found.normals),
{
    let list = geometry::shell();
    assert(found.triangles@[i] == list[i]);
    let (a, b, c) = (list[i][0] as int, list[i][1] as int, list[i][2] as int);
    assert(found.positions@[a] == geometry::corner(a));
    assert(found.positions@[b] == geometry::corner(b));
    assert(found.positions@[c] == geometry::corner(c));
    if i == 0 {
        assert(list[0][0] == 0 && list[0][1] == 2 && list[0][2] == 3);
        assert(outwardness(geometry::corner(0), geometry::corner(2), geometry::corner(3)) == 1);
    }
    if i == 1 {
        assert(list[1][0] == 0 && list[1][1] == 3 && list[1][2] == 1);
        assert(outwardness(geometry::corner(0), geometry::corner(3), geometry::corner(1)) == 1);
    }
    if i == 2 {
        assert(list[2][0] == 4 && list[2][1] == 5 && list[2][2] == 7);
        assert(outwardness(geometry::corner(4), geometry::corner(5), geometry::corner(7)) == 1);
    }
    if i == 3 {
        assert(list[3][0] == 4 && list[3][1] == 7 && list[3][2] == 6);
        assert(outwardness(geometry::corner(4), geometry::corner(7), geometry::corner(6)) == 1);
    }
    if i == 4 {
        assert(list[4][0] == 0 && list[4][1] == 1 && list[4][2] == 5);
        assert(outwardness(geometry::corner(0), geometry::corner(1), geometry::corner(5)) == 1);
    }
    if i == 5 {
        assert(list[5][0] == 0 && list[5][1] == 5 && list[5][2] == 4);
        assert(outwardness(geometry::corner(0), geometry::corner(5), geometry::corner(4)) == 1);
    }
    if i == 6 {
        assert(list[6][0] == 2 && list[6][1] == 6 && list[6][2] == 7);
        assert(outwardness(geometry::corner(2), geometry::corner(6), geometry::corner(7)) == 1);
    }
    if i == 7 {
        assert(list[7][0] == 2 && list[7][1] == 7 && list[7][2] == 3);
        assert(outwardness(geometry::corner(2), geometry::corner(7), geometry::corner(3)) == 1);
    }
    if i == 8 {
        assert(list[8][0] == 0 && list[8][1] == 4 && list[8][2] == 6);
        assert(outwardness(geometry::corner(0), geometry::corner(4), geometry::corner(6)) == 1);
    }
    if i == 9 {
        assert(list[9][0] == 0 && list[9][1] == 6 && list[9][2] == 2);
        assert(outwardness(geometry::corner(0), geometry::corner(6), geometry::corner(2)) == 1);
    }
    if i == 10 {
        assert(list[10][0] == 1 && list[10][1] == 3 && list[10][2] == 7);
        assert(outwardness(geometry::corner(1), geometry::corner(3), geometry::corner(7)) == 1);
    }
    if i == 11 {
        assert(list[11][0] == 1 && list[11][1] == 7 && list[11][2] == 5);
        assert(outwardness(geometry::corner(1), geometry::corner(7), geometry::corner(5)) == 1);
    }
}

/// The shape that an emitter is unpacked from is its own geometry: what this round
/// built of it, or else what the scene spells out or what was read of it again.
pub proof fn emitters_have_their_own_shape(
    model: Model,
    built: Map<(Kind, Seq<char>), Mesh>,
    rereads: Map<(Kind, Seq<char>), Result<Mesh, SceneError>>,
    what: Geometry,
)
    ensures
        ({
            let found = host::emitter(model, built, rereads, what);
            &&& built.contains_key(what@) ==> found is Ok && found->Ok_0.positions
                == built[what@].positions@ && found->Ok_0.triangles == built[what@].triangles@
            &&& !built.contains_key(what@) ==> (what matches Geometry::Mesh(name) ==> (
            model.meshes[name@].source matches MeshSource::Inline { positions, triangles, .. }
                ==> found is Ok && found->Ok_0.positions == positions@ && found->Ok_0.triangles
                == triangles@))
            &&& !built.contains_key(what@) && (what is Curves || (what matches Geometry::Mesh(
                name,
            ) && model.meshes[name@].source is Ply)) ==> {
                &&& rereads[what@] matches Ok(mesh) ==> found is Ok && found->Ok_0.positions
                    == mesh.positions@ && found->Ok_0.triangles == mesh.triangles@
                &&& rereads[what@] matches Err(problem) ==> found is Err && found->Err_0 == problem@
            }
        }),
{
}

} // verus!
