//! Prep: the one way from a description to what is resident.
//!
//! [`Scene::prep`] builds a description fresh; [`Scene::update`] follows what
//! changed in it. Geometry, textures, the sky and the top-level structure are
//! rebuilt only where an edit touched them; placements, lights and what
//! follows from them are rebuilt by every edit. A refused edit leaves
//! everything as it was.

use std::sync::Arc;

use vstd::prelude::*;
use vstd::string::*;

use crate::bits::{Num, Vec3, ONE};
use crate::buffers::{scene_table, Addresses, SceneTable};
use crate::changeset::{DirtySets, Dirty, Kind};
use crate::dds::Prepared;
use crate::description::{Geometry, Instance, Model, SceneDescription};
use crate::error::{Problem, SceneError};
use crate::formula;
use crate::formula::{Answer, Formula, Rows};
use crate::geometry;
use crate::geometry::copied;
use crate::host;
use crate::host::{host_phase, Brief, Haul, Intake};
use crate::lower;
use crate::lower::{all_dirty, Sky};
use crate::media;
use crate::media::{
    boundary_material, placement_media, Medium, Placement, PlacementMedia, STACK_EMPTY,
    SUBSURFACE_TEXTURED,
};
use crate::mesh::Mesh;
use crate::material::Material;
use crate::path::FilePath;
use crate::scene;
use crate::scene::{
    emissive_triangles, instance_tables, texture_params, tlas_instances, Camera, DeltaLight, GridKey,
    InstanceTables, ResidentGrid, TlasInstance, TriangleLight, LIGHT_NONE,
};
use crate::stats::{phases, Moment, Phases, Span};
use crate::table;
use crate::table::Table;
use crate::text;
use crate::texture::{Identity, Key, Params};
use crate::value::{Duplicate, Same};

verus! {

/// What is resident.
pub struct Residency {
    /// The geometry, by the reference that an instance holds.
    pub geometry: Map<(Kind, Seq<char>), Mesh>,
    /// The textures.
    pub textures: Map<Identity, Arc<Prepared>>,
    /// Their parameters, in the order of their indices.
    pub params: Seq<Params>,
    /// What rays are traced against.
    pub stack: Seq<TlasInstance>,
    /// The placements.
    pub placements: Seq<Placement>,
    /// The triangles that emit.
    pub triangle_lights: Seq<TriangleLight>,
    /// The lights without an extent.
    pub delta_lights: Seq<DeltaLight>,
    /// What fills the open space.
    pub global: Option<Medium>,
    /// What there is among the placements.
    pub media: PlacementMedia,
    /// The camera.
    pub camera: Camera,
    /// Where the sky comes from.
    pub sky: Sky,
    /// The file of its image.
    pub source: Option<FilePath>,
    /// The factor on its radiance.
    pub tint: Vec3,
    /// Its placement.
    pub to_world: Rows,
    /// The map back.
    pub from_world: Rows,
}

impl Residency {
    /// Every light is one of a placement, and every placement that bounds a medium
    /// has nothing to see.
    pub open spec fn coherent(self) -> bool {
        cohere(self.placements, self.triangle_lights)
    }
}

/// Every light is one of a placement, and every placement that bounds a medium
/// has nothing to see.
pub open spec fn cohere(placements: Seq<Placement>, lights: Seq<TriangleLight>) -> bool {
    &&& forall|i: int|
        0 <= i < lights.len() ==> (#[trigger] lights[i]).instance < placements.len()
    &&& forall|i: int|
        0 <= i < placements.len() ==> (#[trigger] placements[i]).medium is None
            || media::boundary_inert(placements[i].material)
}

/// The scene, resident and ready to be traced.
pub struct Scene {
    geometry: Table<Geometry, Mesh>,
    textures: Table<Key, Arc<Prepared>>,
    params: Vec<Params>,
    stack: Vec<TlasInstance>,
    placements: Vec<Placement>,
    triangle_lights: Vec<TriangleLight>,
    delta_lights: Vec<DeltaLight>,
    global: Option<Medium>,
    media: PlacementMedia,
    camera: Camera,
    sky: Sky,
    source: Option<FilePath>,
    tint: Vec3,
    to_world: Rows,
    from_world: Rows,
}

impl View for Scene {
    type V = Residency;

    closed spec fn view(&self) -> Residency {
        Residency {
            geometry: self.geometry@,
            textures: self.textures@,
            params: self.params@,
            stack: self.stack@,
            placements: self.placements@,
            triangle_lights: self.triangle_lights@,
            delta_lights: self.delta_lights@,
            global: self.global,
            media: self.media,
            camera: self.camera,
            sky: self.sky,
            source: self.source,
            tint: self.tint,
            to_world: self.to_world,
            from_world: self.from_world,
        }
    }
}

// -- Textures ------------------------------------------------------------------------

/// The textures after a round: those that were uploaded, and those that stay.
/// What nothing references any more is gone.
pub open spec fn retained(
    resident: Map<Identity, Arc<Prepared>>,
    prepared: Map<Identity, Option<Arc<Prepared>>>,
) -> Map<Identity, Arc<Prepared>> {
    Map::new(
        |key: Identity| prepared.contains_key(key),
        |key: Identity|
            match prepared[key] {
                Some(fresh) => fresh,
                None => resident[key],
            },
    )
}

/// Follow a round's textures: keep what stays, take over what was prepared.
pub fn upload_textures(
    resident: &Table<Key, Arc<Prepared>>,
    prepared: &Table<Key, Option<Arc<Prepared>>>,
) -> (r: Table<Key, Arc<Prepared>>)
    requires
        forall|key: Identity| #[trigger]
            prepared@.contains_key(key) && prepared@[key] is None ==> resident@.contains_key(key),
    ensures
        r@ == retained(resident@, prepared@),
{
    let size: usize = prepared.len();
    let mut textures: Table<Key, Arc<Prepared>> = Table::new();
    let ghost keys = table::ranking::<Key>(prepared@.dom());
    for i in 0..size
        invariant
            forall|key: Identity| #[trigger]
                prepared@.contains_key(key) && prepared@[key] is None ==> resident@.contains_key(
                    key,
                ),
            prepared.ranked(),
            size == prepared.listed().len(),
            keys == table::ranking::<Key>(prepared@.dom()),
            forall|key: Identity| #![trigger textures@.contains_key(key)]
                textures@.contains_key(key) == (exists|m: int|
                    0 <= m < i && #[trigger] keys[m] == key),
            forall|key: Identity| #[trigger]
                textures@.contains_key(key) ==> textures@[key] == retained(
                    resident@,
                    prepared@,
                )[key],
    {
        let key = prepared.key_at(i);
        let entry = prepared.value_at(i);
        let ghost before = textures@;
        assert(keys[i as int] == key@);
        assert(prepared@.contains_key(key@));
        let kept = match entry {
            Some(fresh) => Some(fresh),
            None => resident.get(key),
        };
        if let Some(texture) = kept {
            textures.insert(key.duplicate(), texture.duplicate());
        }
        proof {
            assert forall|key: Identity| #![trigger textures@.contains_key(key)]
                textures@.contains_key(key) == (exists|m: int|
                    0 <= m < i + 1 && #[trigger] keys[m] == key) by {
                assert(before.contains_key(key) == (exists|m: int|
                    0 <= m < i && #[trigger] keys[m] == key));
                if key == keys[i as int] {
                    assert(keys[i as int] == key);
                }
            }
        }
    }
    proof {
        table::ranking_covers(*prepared);
        assert forall|key: Identity| textures@.dom().contains(key) == prepared@.dom().contains(
            key,
        ) by {
            assert(prepared@.dom().contains(key) == keys.contains(key));
            assert(textures@.contains_key(key) == (exists|m: int|
                0 <= m < size && #[trigger] keys[m] == key));
        }
        assert(textures@ =~= retained(resident@, prepared@));
    }
    textures
}

/// The hashes of resident textures.
pub open spec fn hashed(textures: Map<Identity, Arc<Prepared>>) -> Map<Identity, u64> {
    textures.map_values(|texture: Arc<Prepared>| texture.hash)
}

/// The hashes of resident textures.
fn hashes(textures: &Table<Key, Arc<Prepared>>) -> (r: Table<Key, u64>)
    ensures
        r@ == hashed(textures@),
{
    let size: usize = textures.len();
    let mut found: Table<Key, u64> = Table::new();
    let ghost keys = table::ranking::<Key>(textures@.dom());
    for i in 0..size
        invariant
            textures.ranked(),
            size == textures.listed().len(),
            keys == table::ranking::<Key>(textures@.dom()),
            forall|key: Identity| #![trigger found@.contains_key(key)]
                found@.contains_key(key) == (exists|m: int|
                    0 <= m < i && #[trigger] keys[m] == key),
            forall|key: Identity| #[trigger]
                found@.contains_key(key) ==> found@[key] == textures@[key].hash,
    {
        let key = textures.key_at(i);
        let ghost before = found@;
        assert(keys[i as int] == key@);
        found.insert(key.duplicate(), textures.value_at(i).hash);
        proof {
            assert forall|key: Identity| #![trigger found@.contains_key(key)]
                found@.contains_key(key) == (exists|m: int|
                    0 <= m < i + 1 && #[trigger] keys[m] == key) by {
                assert(before.contains_key(key) == (exists|m: int|
                    0 <= m < i && #[trigger] keys[m] == key));
                if key == keys[i as int] {
                    assert(keys[i as int] == key);
                }
            }
        }
    }
    proof {
        table::ranking_covers(*textures);
        assert forall|key: Identity| found@.dom().contains(key) == textures@.dom().contains(key) by {
            assert(textures@.dom().contains(key) == keys.contains(key));
            assert(found@.contains_key(key) == (exists|m: int|
                0 <= m < size && #[trigger] keys[m] == key));
        }
        assert(found@ =~= hashed(textures@));
    }
    found
}

/// The parameters of textures, in the order of their indices; where there are
/// no textures, parameters that change nothing.
pub open spec fn params_of(keys: Set<Identity>) -> Seq<Params> {
    let ranked = table::ranking::<Key>(keys);
    if ranked.len() == 0 {
        seq![Params::new(None, None)]
    } else {
        ranked.map_values(|key: Identity| key.params)
    }
}

/// The parameters of textures, in the order of their indices.
fn table_params(textures: &Table<Key, Arc<Prepared>>) -> (r: Vec<Params>)
    ensures
        r@ == params_of(textures@.dom()),
{
    let size: usize = textures.len();
    let mut keys: Vec<Key> = Vec::new();
    let ghost ranked = table::ranking::<Key>(textures@.dom());
    for i in 0..size
        invariant
            textures.ranked(),
            size == textures.listed().len(),
            ranked == table::ranking::<Key>(textures@.dom()),
            keys@.len() == i,
            forall|k: int| 0 <= k < i ==> (#[trigger] keys@[k])@ == ranked[k],
    {
        let key = textures.key_at(i);
        assert(ranked[i as int] == key@);
        keys.push(key.duplicate());
    }
    let params = texture_params(&keys);
    proof {
        if size > 0 {
            assert forall|k: int| 0 <= k < size implies params@[k] == ranked[k].params by {
                assert(keys@[k]@ == ranked[k]);
            }
            assert(params@ =~= ranked.map_values(|key: Identity| key.params));
        }
    }
    params
}

// -- What a round comes to -----------------------------------------------------------

/// What rays are traced against.
pub open spec fn stack_of(placements: Seq<Placement>) -> Seq<TlasInstance> {
    Seq::new(placements.len(), |i: int| scene::traced(placements[i], i))
}

/// Rays meet the same in both: the same geometry in the same places, under the
/// same numbers, for the same rays and as opaque.
pub open spec fn stands(before: Seq<TlasInstance>, after: Seq<TlasInstance>) -> bool {
    &&& before.len() == after.len()
    &&& forall|i: int|
        #![trigger before[i]]
        #![trigger after[i]]
        0 <= i < before.len() ==> met_alike(before[i], after[i])
}

/// Rays meet the two instances alike.
pub open spec fn met_alike(one: TlasInstance, other: TlasInstance) -> bool {
    one.geometry.same(other.geometry) && one.transform == other.transform && one.custom_index
        == other.custom_index && one.mask == other.mask && one.opaque == other.opaque
}

/// Whether rays meet the same in both.
fn is_standing(before: &Vec<TlasInstance>, after: &Vec<TlasInstance>) -> (r: bool)
    ensures
        r == stands(before@, after@),
{
    if before.len() != after.len() {
        return false;
    }
    for i in 0..before.len()
        invariant
            before@.len() == after@.len(),
            forall|k: int| 0 <= k < i ==> met_alike(#[trigger] before@[k], after@[k]),
    {
        let one = &before[i];
        let other = &after[i];
        if !(one.geometry.is_same(&other.geometry) && one.transform == other.transform
            && one.custom_index == other.custom_index && one.mask == other.mask && one.opaque
            == other.opaque) {
            assert(!met_alike(before@[i as int], after@[i as int]));
            return false;
        }
    }
    true
}

/// The geometry after a round: what was retired is gone, and what was built
/// has taken its place.
pub open spec fn geometry_after(
    resident: Map<(Kind, Seq<char>), Mesh>,
    removed: Set<(Kind, Seq<char>)>,
    built: Map<(Kind, Seq<char>), Mesh>,
) -> Map<(Kind, Seq<char>), Mesh> {
    resident.remove_keys(geometry::retired(removed).to_set()).union_prefer_right(built)
}

/// What a fresh build comes to.
pub open spec fn fresh<M: Fn(Formula) -> Answer>(maths: M, brief: Brief, haul: Haul) -> Residency {
    let staging = host::stage(maths, brief, haul)->Ok_0;
    let heaven = host::heaven(maths, brief);
    Residency {
        geometry: haul.built->Ok_0,
        textures: haul.fetched.map_values(|fetched: host::Fetched| fetched->Fresh_0),
        params: params_of(haul.fetched.dom()),
        stack: stack_of(staging.placements),
        placements: staging.placements,
        triangle_lights: staging.lights,
        delta_lights: lower::delta_lights(maths, brief.model.lights),
        global: global_in(maths, brief, haul),
        media: media::media_among(maths, staging.placements),
        camera: lower::settled_camera(maths, brief.camera()),
        sky: heaven.image->0,
        source: heaven.source,
        tint: heaven.tint,
        to_world: heaven.to_world,
        from_world: heaven.from_world,
    }
}

/// What fills the open space.
pub open spec fn global_in<M: Fn(Formula) -> Answer>(maths: M, brief: Brief, haul: Haul) -> Option<
    Medium,
> {
    match brief.settings().global_medium {
        Some(name) => Some(lower::all_media(maths, brief.model.media, haul.grids)[name@]),
        None => None,
    }
}

/// What a round comes to, on top of what is resident.
pub open spec fn updated<M: Fn(Formula) -> Answer>(
    resident: Residency,
    maths: M,
    brief: Brief,
    haul: Haul,
) -> Residency {
    let staging = host::stage(maths, brief, haul)->Ok_0;
    let heaven = host::heaven(maths, brief);
    Residency {
        geometry: geometry_after(resident.geometry, brief.dirt.removed, haul.built->Ok_0),
        textures: retained(resident.textures, host::uploads(haul.fetched)),
        params: params_of(haul.fetched.dom()),
        stack: stack_of(staging.placements),
        placements: staging.placements,
        triangle_lights: staging.lights,
        delta_lights: lower::delta_lights(maths, brief.model.lights),
        global: global_in(maths, brief, haul),
        media: media::media_among(maths, staging.placements),
        camera: if host::touched(brief.dirt, Kind::Camera) {
            lower::settled_camera(maths, brief.camera())
        } else {
            resident.camera
        },
        sky: if brief.skyward() && heaven.image is Some {
            heaven.image->0
        } else {
            resident.sky
        },
        source: if brief.skyward() {
            heaven.source
        } else {
            resident.source
        },
        tint: if brief.skyward() {
            heaven.tint
        } else {
            resident.tint
        },
        to_world: if brief.skyward() {
            heaven.to_world
        } else {
            resident.to_world
        },
        from_world: if brief.skyward() {
            heaven.from_world
        } else {
            resident.from_world
        },
    }
}

/// The brief of a fresh build: everything changed, and nothing is resident.
pub open spec fn from_nothing(model: Model, limit: usize) -> Brief {
    Brief {
        model,
        dirt: lower::everything(model),
        fresh: true,
        textures: Map::empty(),
        sky: None,
        limit,
    }
}

/// The brief of an update.
pub open spec fn from_resident(
    resident: Residency,
    model: Model,
    dirt: DirtySets,
    limit: usize,
) -> Brief {
    Brief {
        model,
        dirt,
        fresh: false,
        textures: hashed(resident.textures),
        sky: resident.source,
        limit,
    }
}

/// The lights of an instance's copies are those of its placements.
proof fn copies_light_themselves<M: Fn(Formula) -> Answer>(
    maths: M,
    instance: Instance,
    material: Material,
    medium: Option<Medium>,
    shape: host::Shape,
    start: int,
    n: int,
)
    requires
        0 <= start,
        start + n <= u32::MAX,
    ensures
        forall|i: int|
            0 <= i < host::copies_lit(maths, instance, material, medium, shape, start, n).len()
                ==> (#[trigger] host::copies_lit(
                maths,
                instance,
                material,
                medium,
                shape,
                start,
                n,
            )[i]).instance < start + n,
    decreases n,
{
    if n > 0 {
        copies_light_themselves(maths, instance, material, medium, shape, start, n - 1);
        let front = host::copies_lit(maths, instance, material, medium, shape, start, n - 1);
        let all = host::copies_lit(maths, instance, material, medium, shape, start, n);
        assert forall|i: int| 0 <= i < all.len() implies (#[trigger] all[i]).instance < start
            + n by {
            if i < front.len() {
                assert(all[i] == front[i]);
            }
        }
    }
}

/// What instances unfold to coheres.
proof fn stagings_cohere<M: Fn(Formula) -> Answer>(
    maths: M,
    model: Model,
    stock: host::Stock,
    n: int,
)
    requires
        host::staged(maths, model, stock, n) is Ok,
        host::staged(maths, model, stock, n)->Ok_0.placements.len() <= u32::MAX,
    ensures
        cohere(
            host::staged(maths, model, stock, n)->Ok_0.placements,
            host::staged(maths, model, stock, n)->Ok_0.lights,
        ),
    decreases n,
{
    if n > 0 {
        let before = host::staged(maths, model, stock, n - 1)->Ok_0;
        let after = host::staged(maths, model, stock, n)->Ok_0;
        let instance = model.instances[table::ranking::<String>(model.instances.dom())[n - 1]];
        let medium = host::medium_in(stock, instance);
        let material = host::worn(stock.materials[instance.material@], medium);
        let more = host::copies(maths, instance, material, medium);
        assert(after.placements == before.placements + more);
        stagings_cohere(maths, model, stock, n - 1);
        media::boundaries_are_inert(stock.materials[instance.material@]);
        assert forall|i: int| 0 <= i < after.placements.len() implies (
        #[trigger] after.placements[i]).medium is None || media::boundary_inert(
            after.placements[i].material,
        ) by {
            if i < before.placements.len() {
                assert(after.placements[i] == before.placements[i]);
            } else {
                assert(after.placements[i] == more[i - before.placements.len()]);
            }
        }
        if host::emits(maths, instance, material) {
            let shape = host::emitter(
                model,
                stock.built,
                stock.rereads,
                instance.geometry,
            )->Ok_0;
            copies_light_themselves(
                maths,
                instance,
                material,
                medium,
                shape,
                before.placements.len() as int,
                instance.transforms@.len() as int,
            );
            let lit = host::copies_lit(
                maths,
                instance,
                material,
                medium,
                shape,
                before.placements.len() as int,
                instance.transforms@.len() as int,
            );
            assert(after.lights == before.lights + lit);
            assert forall|i: int| 0 <= i < after.lights.len() implies (
            #[trigger] after.lights[i]).instance < after.placements.len() by {
                if i < before.lights.len() {
                    assert(after.lights[i] == before.lights[i]);
                } else {
                    assert(after.lights[i] == lit[i - before.lights.len()]);
                }
            }
        }
    }
}

/// Whatever was resident, what a round that goes through leaves resident coheres,
/// as long as its placements can be numbered.
pub proof fn rounds_cohere<M: Fn(Formula) -> Answer>(
    maths: M,
    resident: Residency,
    brief: Brief,
    haul: Haul,
)
    requires
        host::refusal(maths, brief, haul) is None,
        fresh(maths, brief, haul).placements.len() <= u32::MAX,
    ensures
        fresh(maths, brief, haul).coherent(),
        updated(resident, maths, brief, haul).coherent(),
{
    stagings_cohere(
        maths,
        brief.model,
        host::stock(maths, brief, haul),
        brief.model.instances.dom().len() as int,
    );
}

/// What an update uploads and retires.
pub struct Uploads {
    /// The geometry that was retired, before anything was uploaded.
    pub retired: Vec<Geometry>,
    /// The geometry that was uploaded.
    pub geometry: Vec<Geometry>,
    /// Whether the sky was uploaded.
    pub sky: bool,
    /// Whether the top-level structure was rebuilt.
    pub stack: bool,
}

/// The keys of a table.
fn keys_of(meshes: &Table<Geometry, Mesh>) -> (r: Vec<Geometry>)
    ensures
        r@.map_values(|geometry: Geometry| geometry@) == table::ranking::<Geometry>(meshes@.dom()),
{
    let size: usize = meshes.len();
    let mut keys: Vec<Geometry> = Vec::new();
    let ghost ranked = table::ranking::<Geometry>(meshes@.dom());
    for i in 0..size
        invariant
            meshes.ranked(),
            size == meshes.listed().len(),
            ranked == table::ranking::<Geometry>(meshes@.dom()),
            keys@.len() == i,
            forall|k: int| 0 <= k < i ==> (#[trigger] keys@[k])@ == ranked[k],
    {
        let key = meshes.key_at(i);
        assert(ranked[i as int] == key@);
        keys.push(key.duplicate());
    }
    assert(keys@.map_values(|geometry: Geometry| geometry@) =~= ranked);
    keys
}

/// Retire geometry.
fn retire(meshes: &mut Table<Geometry, Mesh>, keys: &Vec<Geometry>)
    ensures
        final(meshes)@ == old(meshes)@.remove_keys(
            keys@.map_values(|geometry: Geometry| geometry@).to_set(),
        ),
{
    let ghost before = meshes@;
    let ghost gone = keys@.map_values(|geometry: Geometry| geometry@);
    for i in 0..keys.len()
        invariant
            gone == keys@.map_values(|geometry: Geometry| geometry@),
            forall|key: (Kind, Seq<char>)| #![trigger meshes@.contains_key(key)]
                meshes@.contains_key(key) == (before.contains_key(key) && !exists|k: int|
                    0 <= k < i && #[trigger] gone[k] == key),
            forall|key: (Kind, Seq<char>)| #[trigger]
                meshes@.contains_key(key) ==> meshes@[key] == before[key],
    {
        let ghost earlier = meshes@;
        meshes.remove(&keys[i]);
        proof {
            assert forall|key: (Kind, Seq<char>)| #![trigger meshes@.contains_key(key)]
                meshes@.contains_key(key) == (before.contains_key(key) && !exists|k: int|
                    0 <= k < i + 1 && #[trigger] gone[k] == key) by {
                assert(earlier.contains_key(key) == (before.contains_key(key) && !exists|k: int|
                    0 <= k < i && #[trigger] gone[k] == key));
                if key == gone[i as int] {
                    assert(gone[i as int] == key);
                }
            }
        }
    }
    proof {
        let left = before.remove_keys(gone.to_set());
        assert forall|key: (Kind, Seq<char>)| meshes@.dom().contains(key) == left.dom().contains(
            key,
        ) by {
            assert(meshes@.contains_key(key) == (before.contains_key(key) && !exists|k: int|
                0 <= k < gone.len() && #[trigger] gone[k] == key));
            assert(gone.to_set().contains(key) == gone.contains(key));
        }
        assert(meshes@ =~= left);
    }
}

/// The clock may give this moment.
pub open spec fn ticks<T: Fn() -> Moment>(clock: T, moment: Moment) -> bool {
    call_ensures(clock, (), moment)
}

/// The phases of a build lie between moments that the clock gave, each ending
/// where the next begins.
pub open spec fn timed<T: Fn() -> Moment>(clock: T, before: Span, spent: Phases) -> bool {
    exists|lowering: Moment, uploading: Moment, building: Moment, tabling: Moment, now: Moment|
        #![trigger ticks(clock, lowering), ticks(clock, uploading), ticks(clock, building), ticks(clock, tabling), ticks(clock, now)]
        ticks(clock, lowering) && ticks(clock, uploading) && ticks(clock, building) && ticks(
            clock,
            tabling,
        ) && ticks(clock, now) && spent == (Phases {
            before,
            lower: lowering.until(uploading),
            upload: uploading.until(building),
            tlas: building.until(tabling),
            tables: tabling.until(now),
        })
}

/// A fresh build always adopts its camera: the only camera is among what
/// changed.
proof fn fresh_builds_see_their_camera(model: Model)
    requires
        host::census_problem(model) is None,
        model.cameras.dom().finite(),
    ensures
        host::touched(lower::everything(model), Kind::Camera),
{
    let name = model.cameras.dom().choose();
    assert(model.cameras.dom().len() == 1);
    if !model.cameras.dom().contains(name) {
        assert(model.cameras.dom() =~= Set::empty());
    }
    assert(lower::everything(model).changed.contains((Kind::Camera, name)));
}

impl Scene {
    /// Build a description fresh, and take over what had changed in it: a
    /// full build covers everything. One without instances is fine, and is
    /// black.
    pub fn prep<M: Fn(Formula) -> Answer>(
        maths: &M,
        description: &mut SceneDescription,
        limit: usize,
        intake: Intake,
    ) -> (r: Result<Scene, SceneError>)
        requires
            formula::steady(*maths),
            host::supplied(*maths, from_nothing(old(description).model(), limit), intake@),
        ensures
            ({
                let brief = from_nothing(old(description).model(), limit);
                let refusal = host::refusal(*maths, brief, intake@);
                &&& r is Err == refusal is Some
                &&& r matches Err(error) ==> refusal == Some(error@) && *final(description) == *old(
                    description,
                )
                &&& r matches Ok(scene) ==> scene@ == fresh(*maths, brief, intake@)
                    && final(description).model() == old(description).model()
                    && final(description).dirt() == DirtySets::none()
                    && final(description).templates() == old(description).templates()
            }),
    {
        match Scene::prep_timed(
            maths,
            description,
            limit,
            intake,
            Span::zero(),
            &|| -> (now: Moment) { Moment { nanos: 0 } },
        ) {
            Ok((scene, _)) => Ok(scene),
            Err(problem) => Err(problem),
        }
    }

    /// A fresh build, with where its time went: from process start to the
    /// call, as the caller says, and through the phases, as the clock says at
    /// each of their boundaries.
    pub fn prep_timed<M: Fn(Formula) -> Answer, T: Fn() -> Moment>(
        maths: &M,
        description: &mut SceneDescription,
        limit: usize,
        intake: Intake,
        before: Span,
        clock: &T,
    ) -> (r: Result<(Scene, Phases), SceneError>)
        requires
            formula::steady(*maths),
            host::supplied(*maths, from_nothing(old(description).model(), limit), intake@),
            call_requires(*clock, ()),
        ensures
            ({
                let brief = from_nothing(old(description).model(), limit);
                let refusal = host::refusal(*maths, brief, intake@);
                &&& r is Err == refusal is Some
                &&& r matches Err(error) ==> refusal == Some(error@) && *final(description) == *old(
                    description,
                )
                &&& r matches Ok((scene, spent)) ==> scene@ == fresh(*maths, brief, intake@)
                    && final(description).model() == old(description).model()
                    && final(description).dirt() == DirtySets::none()
                    && final(description).templates() == old(description).templates() && timed(
                    *clock,
                    before,
                    spent,
                )
            }),
    {
        let ghost brief = from_nothing(description.model(), limit);
        let ghost haul = intake@;
        let lowering = clock();
        let dirty = all_dirty(description);
        let nothing: Table<Key, u64> = Table::new();
        let host = match host_phase(
            maths,
            description,
            &dirty,
            true,
            &nothing,
            None,
            limit,
            intake,
        ) {
            Ok(host) => host,
            Err(problem) => {
                return Err(problem);
            },
        };
        let uploading = clock();
        let bare: Table<Key, Arc<Prepared>> = Table::new();
        let _ = description.cameras().len();
        proof {
            fresh_builds_see_their_camera(brief.model);
            assert forall|key: Identity| #[trigger]
                host.textures@.contains_key(key) implies host.textures@[key] is Some by {
                assert(haul.fetched.contains_key(key));
            }
        }
        let textures = upload_textures(&bare, &host.textures);
        let params = table_params(&textures);
        let building = clock();
        let stack = tlas_instances(&host.instances);
        let tabling = clock();
        let media = placement_media(maths, &host.instances);
        proof {
            assert(textures@.dom() =~= haul.fetched.dom());
            assert(textures@ =~= haul.fetched.map_values(
                |fetched: host::Fetched| fetched->Fresh_0,
            ));
            assert(stack@ =~= stack_of(host.instances@));
        }
        let camera = match host.camera {
            Some(camera) => camera,
            None => {
                return Err(Problem::NoneOf { kind: Kind::Camera });
            },
        };
        let (spec, sky) = match host.environment {
            Some(spec) => match spec.image {
                Some(sky) => (spec, sky),
                None => {
                    return Err(Problem::NoneOf { kind: Kind::Environment });
                },
            },
            None => {
                return Err(Problem::NoneOf { kind: Kind::Environment });
            },
        };
        let _ = description.take_dirty();
        let scene = Scene {
            geometry: host.geometry,
            textures,
            params,
            stack,
            placements: host.instances,
            triangle_lights: host.triangle_lights,
            delta_lights: host.delta_lights,
            global: host.global_medium,
            media,
            camera,
            sky,
            source: spec.source,
            tint: spec.tint,
            to_world: spec.to_world,
            from_world: spec.from_world,
        };
        let now = clock();
        let spent = phases(lowering, uploading, building, tabling, now);
        assert(ticks(*clock, lowering) && ticks(*clock, uploading) && ticks(*clock, building)
            && ticks(*clock, tabling) && ticks(*clock, now));
        Ok((scene, Phases { before, ..spent }))
    }

    /// Rebuild what changed, and leave the rest in place. The top-level
    /// structure is rebuilt where the host phase asks for it, and where rays
    /// would meet something else than they did: a grid that stretches over
    /// other bounds takes its shell along. A refused update leaves everything
    /// as it was.
    pub fn update<M: Fn(Formula) -> Answer>(
        &mut self,
        maths: &M,
        description: &SceneDescription,
        dirty: &Dirty,
        limit: usize,
        intake: Intake,
    ) -> (r: Result<Uploads, SceneError>)
        requires
            formula::steady(*maths),
            host::supplied(
                *maths,
                from_resident(old(self)@, description.model(), dirty@, limit),
                intake@,
            ),
        ensures
            ({
                let brief = from_resident(old(self)@, description.model(), dirty@, limit);
                let refusal = host::refusal(*maths, brief, intake@);
                &&& r is Err == refusal is Some
                &&& r matches Err(error) ==> refusal == Some(error@) && final(self)@ == old(self)@
                &&& r matches Ok(uploads) ==> {
                    &&& final(self)@ == updated(old(self)@, *maths, brief, intake@)
                    &&& uploads.retired@.map_values(|geometry: Geometry| geometry@)
                        == geometry::retired(dirty@.removed)
                    &&& uploads.geometry@.map_values(|geometry: Geometry| geometry@)
                        == table::ranking::<Geometry>(intake@.built->Ok_0.dom())
                    &&& uploads.sky == (brief.skyward() && host::heaven(
                        *maths,
                        brief,
                    ).image is Some)
                    &&& uploads.stack == (brief.restacked() || !stands(
                        old(self)@.stack,
                        final(self)@.stack,
                    ))
                }
            }),
    {
        let ghost before = self@;
        let ghost haul = intake@;
        let hashes = hashes(&self.textures);
        let ghost brief = from_resident(before, description.model(), dirty@, limit);
        let host = match host_phase(
            maths,
            description,
            dirty,
            false,
            &hashes,
            self.source.as_ref(),
            limit,
            intake,
        ) {
            Ok(host) => host,
            Err(problem) => {
                return Err(problem);
            },
        };
        let added = keys_of(&host.geometry);
        retire(&mut self.geometry, &host.removed_geometry);
        self.geometry.merge(host.geometry);
        proof {
            assert forall|key: Identity| #[trigger]
                host.textures@.contains_key(key)
                    && host.textures@[key] is None implies self.textures@.contains_key(key) by {
                assert(haul.fetched.contains_key(key));
                assert(hashes@.contains_key(key) == self.textures@.contains_key(key));
            }
        }
        self.textures = upload_textures(&self.textures, &host.textures);
        self.params = table_params(&self.textures);
        assert(self.textures@.dom() =~= haul.fetched.dom());
        let mut uploaded = false;
        if let Some(spec) = host.environment {
            if let Some(sky) = spec.image {
                self.sky = sky;
                uploaded = true;
            }
            self.source = spec.source;
            self.tint = spec.tint;
            self.to_world = spec.to_world;
            self.from_world = spec.from_world;
        }
        let stack = tlas_instances(&host.instances);
        assert(stack@ =~= stack_of(host.instances@));
        let rebuilt = host.tlas_dirty || !is_standing(&self.stack, &stack);
        self.stack = stack;
        self.media = placement_media(maths, &host.instances);
        self.placements = host.instances;
        self.triangle_lights = host.triangle_lights;
        self.delta_lights = host.delta_lights;
        self.global = host.global_medium;
        if let Some(camera) = host.camera {
            self.camera = camera;
        }
        Ok(
            Uploads {
                retired: host.removed_geometry,
                geometry: added,
                sky: uploaded,
                stack: rebuilt,
            },
        )
    }

    /// Whether some placement closes a refractive interior.
    pub fn has_interiors(&self) -> (r: bool)
        ensures
            r == self@.media.interiors,
    {
        self.media.interiors
    }

    /// Whether the scene has media that a path segment can meet: what fills
    /// the open space, a bounded medium, or an interior that scatters. An
    /// interior that only absorbs is none.
    pub fn has_media(&self) -> (r: bool)
        ensures
            r == (self@.global is Some || self@.media.volumes || self@.media.scattering_interiors),
    {
        self.has_global_medium() || self.media.volumes || self.media.scattering_interiors
    }

    /// Whether the open space is filled.
    pub fn has_global_medium(&self) -> (r: bool)
        ensures
            r == self@.global is Some,
    {
        self.global.is_some()
    }

    /// Whether some placement bounds a medium.
    pub fn has_volumes(&self) -> (r: bool)
        ensures
            r == self@.media.volumes,
    {
        self.media.volumes
    }

    /// Whether some bounded medium is heterogeneous.
    pub fn has_heterogeneous(&self) -> (r: bool)
        ensures
            r == self@.media.heterogeneous,
    {
        self.media.heterogeneous
    }

    /// Whether some heterogeneous medium emits.
    pub fn has_emissive(&self) -> (r: bool)
        ensures
            r == self@.media.emissive,
    {
        self.media.emissive
    }

    /// Whether some interior has a priority.
    pub fn has_priority(&self) -> (r: bool)
        ensures
            r == self@.media.priority,
    {
        self.media.priority
    }

    /// Whether some material has a subsurface lobe.
    pub fn has_subsurface(&self) -> (r: bool)
        ensures
            r == self@.media.subsurface,
    {
        self.media.subsurface
    }

    /// The camera.
    pub fn camera(&self) -> (r: &Camera)
        ensures
            *r == self@.camera,
    {
        &self.camera
    }

    /// The camera, to be moved.
    pub fn camera_mut(&mut self) -> (r: &mut Camera)
        ensures
            *r == old(self)@.camera,
            final(self)@ == (Residency { camera: *final(r), ..old(self)@ }),
    {
        &mut self.camera
    }

    /// What rays are traced against.
    pub fn tlas(&self) -> (r: &Vec<TlasInstance>)
        ensures
            r@ == self@.stack,
    {
        &self.stack
    }

    /// The placements; the place of one is its number.
    pub fn placements(&self) -> (r: &Vec<Placement>)
        ensures
            r@ == self@.placements,
    {
        &self.placements
    }

    /// The triangles that emit.
    pub fn triangle_lights(&self) -> (r: &Vec<TriangleLight>)
        ensures
            r@ == self@.triangle_lights,
    {
        &self.triangle_lights
    }

    /// The lights without an extent.
    pub fn delta_lights(&self) -> (r: &Vec<DeltaLight>)
        ensures
            r@ == self@.delta_lights,
    {
        &self.delta_lights
    }

    /// The resident geometry.
    pub fn geometry(&self) -> (r: &Table<Geometry, Mesh>)
        ensures
            r@ == self@.geometry,
    {
        &self.geometry
    }

    /// The resident textures, in the order of their indices.
    pub fn textures(&self) -> (r: &Table<Key, Arc<Prepared>>)
        ensures
            r@ == self@.textures,
    {
        &self.textures
    }

    /// The hashes of the resident textures.
    pub fn texture_hashes(&self) -> (r: Table<Key, u64>)
        ensures
            r@ == hashed(self@.textures),
    {
        hashes(&self.textures)
    }

    /// The parameters of the textures, in the order of their indices.
    pub fn texture_params(&self) -> (r: &Vec<Params>)
        ensures
            r@ == self@.params,
    {
        &self.params
    }

    /// What fills the open space.
    pub fn global_medium(&self) -> (r: Option<&Medium>)
        ensures
            lower::told(r) == self@.global,
    {
        self.global.as_ref()
    }

    /// Where the sky comes from, and how it stands: its image, the file of the
    /// image, the factor on it, its placement and the map back.
    pub fn environment(&self) -> (r: (Sky, Option<&FilePath>, Vec3, Rows, Rows))
        ensures
            r.0 == self@.sky,
            lower::told(r.1) == self@.source,
            r.2 == self@.tint,
            r.3 == self@.to_world,
            r.4 == self@.from_world,
    {
        (self.sky, self.source.as_ref(), self.tint, self.to_world, self.from_world)
    }

    /// The tables of the scene: those of its placements, and what leads a kernel to
    /// everything in it. `grids` are the resident grids, `upload` uploads the tables
    /// of the placements and says where everything is, `env_size` is how large the
    /// sky's image is, and `env_select_prob` how likely it is to be sampled.
    pub fn tables<M: Fn(Formula) -> Answer, U: Fn(&InstanceTables) -> Addresses>(
        &self,
        maths: &M,
        grids: &Table<GridKey, ResidentGrid>,
        upload: &U,
        env_size: (u32, u32),
        env_select_prob: Num,
    ) -> (r: (InstanceTables, SceneTable))
        requires
            formula::steady(*maths),
            forall|tables: InstanceTables| call_requires(*upload, (&tables,)),
            self@.coherent(),
            2 * self@.placements.len() + 1 < SUBSURFACE_TEXTURED,
            self@.triangle_lights.len() < LIGHT_NONE,
            self@.triangle_lights.len() + self@.delta_lights.len() <= u32::MAX,
            forall|i: int|
                0 <= i < self@.placements.len() ==> scene::grids_resident(
                    #[trigger] self@.placements[i],
                    grids@,
                ),
        ensures
            ({
                let (tables, table) = r;
                &&& scene::tabled(
                    tables,
                    *maths,
                    self@.placements,
                    self@.triangle_lights,
                    grids@,
                    self@.global,
                )
                &&& call_ensures(*upload, (&tables,), table.addresses)
                &&& (table.env_to_world, table.env_from_world) == (
                    self@.to_world,
                    self@.from_world,
                )
                &&& table.env_tint == self@.tint
                &&& table.env_select_prob == env_select_prob
                &&& (table.env_width, table.env_height) == env_size
                &&& table.light_count == self@.triangle_lights.len() + self@.delta_lights.len()
                &&& table.global_medium == tables.global_medium
                &&& table.camera_media@ == seq![STACK_EMPTY, STACK_EMPTY, STACK_EMPTY, STACK_EMPTY]
            }),
    {
        let tables = instance_tables(
            maths,
            &self.placements,
            &self.triangle_lights,
            grids,
            &self.global,
        );
        let addresses = upload(&tables);
        let light_count: u32 = (self.triangle_lights.len() + self.delta_lights.len()) as u32;
        let table = scene_table(
            addresses,
            env_size,
            (self.to_world, self.from_world),
            self.tint,
            env_select_prob,
            light_count,
            tables.global_medium,
        );
        (tables, table)
    }
}

// -- Scenes made by hand -------------------------------------------------------------

/// One thing in a scene made by hand.
#[derive(Clone, Debug, PartialEq, Eq)]
pub struct Object {
    /// Its geometry.
    pub mesh: Mesh,
    /// Where it stands.
    pub transform: Rows,
    /// Its surface.
    pub material: Material,
    /// The medium that it bounds.
    pub medium: Option<Medium>,
    /// Which solid wins where interiors overlap.
    pub interior_priority: u32,
}

/// The name that an object's geometry goes by.
pub open spec fn object_name(i: int) -> Seq<char> {
    "object"@ + text::decimal(i as nat)
}

/// An object's surface: nothing to see where it bounds a medium.
pub open spec fn surface(object: Object) -> Material {
    host::worn(object.material, object.medium)
}

/// The lights of the first `n` objects: the triangles of every one that emits
/// anything.
pub open spec fn objects_lit<M: Fn(Formula) -> Answer>(maths: M, objects: Seq<Object>, n: int) -> Seq<
    TriangleLight,
>
    decreases n,
{
    if n <= 0 {
        Seq::empty()
    } else {
        let object = objects[n - 1];
        let before = objects_lit(maths, objects, n - 1);
        if surface(object).emission.equal(Vec3::new(0, 0, 0)) {
            before
        } else {
            before + scene::lit_triangles(
                maths,
                object.mesh.positions@,
                object.mesh.triangles@,
                object.transform,
                surface(object).emission,
                (n - 1) as u32,
            )
        }
    }
}

/// A placement is that of object `i`.
pub open spec fn places(placement: Placement, object: Object, i: int) -> bool {
    &&& placement.geometry@ == (Kind::Mesh, object_name(i))
    &&& placement.transform == object.transform
    &&& placement.material == surface(object)
    &&& placement.camera_visible
    &&& placement.medium == object.medium
    &&& placement.priority == object.interior_priority
}

/// Two meshes hold the same.
pub open spec fn same_mesh(a: Mesh, b: Mesh) -> bool {
    &&& a.positions@ == b.positions@
    &&& a.normals@ == b.normals@
    &&& a.uvs@ == b.uvs@
    &&& a.triangles@ == b.triangles@
}

/// The geometry of objects, each under its own name.
pub open spec fn object_geometry(
    meshes: Map<(Kind, Seq<char>), Mesh>,
    objects: Seq<Object>,
    n: int,
) -> bool {
    &&& forall|key: (Kind, Seq<char>)| #![trigger meshes.contains_key(key)]
        meshes.contains_key(key) ==> exists|i: int|
            0 <= i < n && key == (Kind::Mesh, #[trigger] object_name(i))
    &&& forall|i: int|
        0 <= i < n ==> meshes.contains_key((Kind::Mesh, #[trigger] object_name(i))) && same_mesh(
            meshes[(Kind::Mesh, object_name(i))],
            objects[i].mesh,
        )
}

/// Different objects have different names.
pub proof fn objects_have_their_names(i: int, j: int)
    requires
        0 <= i,
        0 <= j,
    ensures
        object_name(i) == object_name(j) ==> i == j,
{
    text::spellings_differ(i as nat, j as nat);
    let stem = "object"@;
    assert(object_name(i).skip(stem.len() as int) =~= text::decimal(i as nat));
    assert(object_name(j).skip(stem.len() as int) =~= text::decimal(j as nat));
}

/// The lights of objects are those of their placements.
proof fn objects_light_themselves<M: Fn(Formula) -> Answer>(
    maths: M,
    objects: Seq<Object>,
    n: int,
)
    requires
        n <= objects.len(),
        objects.len() <= u32::MAX,
    ensures
        forall|i: int|
            0 <= i < objects_lit(maths, objects, n).len() ==> (#[trigger] objects_lit(
                maths,
                objects,
                n,
            )[i]).instance < n,
    decreases n,
{
    if n > 0 {
        objects_light_themselves(maths, objects, n - 1);
        let front = objects_lit(maths, objects, n - 1);
        let all = objects_lit(maths, objects, n);
        assert forall|i: int| 0 <= i < all.len() implies (#[trigger] all[i]).instance < n by {
            if i < front.len() {
                assert(all[i] == front[i]);
            }
        }
    }
}

/// What is resident of a scene made by hand coheres, as long as its objects can be
/// numbered.
pub proof fn scenes_made_by_hand_cohere<M: Fn(Formula) -> Answer>(
    maths: M,
    scene: Scene,
    objects: Seq<Object>,
    camera: Camera,
    global: Option<Medium>,
)
    requires
        scene.shows(maths, objects, camera, global),
        objects.len() <= u32::MAX,
    ensures
        scene@.coherent(),
{
    objects_light_themselves(maths, objects, objects.len() as int);
    assert forall|i: int| 0 <= i < scene@.placements.len() implies (
    #[trigger] scene@.placements[i]).medium is None || media::boundary_inert(
        scene@.placements[i].material,
    ) by {
        assert(places(scene@.placements[i], objects[i], i));
        media::boundaries_are_inert(objects[i].material);
    }
}

/// The reference to an object's geometry.
fn object_key(i: usize) -> (r: Geometry)
    ensures
        r@ == (Kind::Mesh, object_name(i as int)),
{
    let mut name = "object".to_owned();
    name.append(text::spell(i as u128).as_str());
    Geometry::Mesh(name)
}

impl Scene {
    /// A scene of objects under a sky, with nothing between them.
    pub fn new<M: Fn(Formula) -> Answer>(maths: &M, objects: &Vec<Object>, camera: Camera) -> (r:
        Scene)
        requires
            formula::steady(*maths),
            objects@.len() > 0,
            forall|i: int| 0 <= i < objects@.len() ==> (#[trigger] objects@[i]).mesh.wf(),
        ensures
            r.shows(*maths, objects@, camera, None),
    {
        Scene::new_in_medium(maths, objects, camera, None)
    }

    /// This is a scene of objects under the sky that the caller hands over,
    /// white and unturned.
    pub open spec fn shows<M: Fn(Formula) -> Answer>(
        self,
        maths: M,
        objects: Seq<Object>,
        camera: Camera,
        global: Option<Medium>,
    ) -> bool {
        &&& self@.placements.len() == objects.len()
        &&& forall|i: int|
            0 <= i < objects.len() ==> places(#[trigger] self@.placements[i], objects[i], i)
        &&& object_geometry(self@.geometry, objects, objects.len() as int)
        &&& self@.triangle_lights == objects_lit(maths, objects, objects.len() as int)
        &&& self@.delta_lights == Seq::<DeltaLight>::empty()
        &&& self@.textures == Map::<Identity, Arc<Prepared>>::empty()
        &&& self@.params == seq![Params::new(None, None)]
        &&& self@.stack == stack_of(self@.placements)
        &&& self@.media == media::media_among(maths, self@.placements)
        &&& self@.global == global
        &&& self@.camera == camera
        &&& self@.sky == Sky::Image
        &&& self@.source is None
        &&& self@.tint == Vec3::new(ONE, ONE, ONE)
        &&& self@.to_world == Rows::identity()
        &&& self@.from_world == Rows::identity()
    }

    /// A scene of objects under a sky, with the open space between them
    /// filled. There has to be at least one object.
    pub fn new_in_medium<M: Fn(Formula) -> Answer>(
        maths: &M,
        objects: &Vec<Object>,
        camera: Camera,
        global: Option<&Medium>,
    ) -> (r: Scene)
        requires
            formula::steady(*maths),
            objects@.len() > 0,
            forall|i: int| 0 <= i < objects@.len() ==> (#[trigger] objects@[i]).mesh.wf(),
        ensures
            r.shows(*maths, objects@, camera, lower::told(global)),
    {
        let mut geometry: Table<Geometry, Mesh> = Table::new();
        let mut placements: Vec<Placement> = Vec::new();
        let mut triangle_lights: Vec<TriangleLight> = Vec::new();
        let black = Vec3::new(0, 0, 0);
        for i in 0..objects.len()
            invariant
                formula::steady(*maths),
                forall|i: int| 0 <= i < objects@.len() ==> (#[trigger] objects@[i]).mesh.wf(),
                black == Vec3::new(0, 0, 0),
                placements@.len() == i,
                forall|k: int| 0 <= k < i ==> places(#[trigger] placements@[k], objects@[k], k),
                object_geometry(geometry@, objects@, i as int),
                triangle_lights@ == objects_lit(*maths, objects@, i as int),
        {
            let object = &objects[i];
            let material = boundary_material(object.material, object.medium.is_some());
            assert(object.mesh.wf());
            if !material.emission.equals(&black) {
                emissive_triangles(
                    maths,
                    &mut triangle_lights,
                    &object.mesh.positions,
                    &object.mesh.triangles,
                    object.transform,
                    material.emission,
                    i as u32,
                );
            }
            let ghost before = geometry@;
            let mesh = Mesh {
                positions: copied(&object.mesh.positions),
                normals: copied(&object.mesh.normals),
                uvs: copied(&object.mesh.uvs),
                triangles: copied(&object.mesh.triangles),
            };
            geometry.insert(object_key(i), mesh);
            proof {
                assert forall|key: (Kind, Seq<char>)| #![trigger geometry@.contains_key(key)]
                    geometry@.contains_key(key) implies exists|k: int|
                    0 <= k < i + 1 && key == (Kind::Mesh, #[trigger] object_name(k)) by {
                    if before.contains_key(key) {
                        let k = choose|k: int|
                            0 <= k < i && key == (Kind::Mesh, #[trigger] object_name(k));
                        assert(key == (Kind::Mesh, object_name(k)));
                    } else {
                        assert(key == (Kind::Mesh, object_name(i as int)));
                    }
                }
                assert forall|k: int| 0 <= k < i + 1 implies geometry@.contains_key(
                    (Kind::Mesh, #[trigger] object_name(k)),
                ) && same_mesh(geometry@[(Kind::Mesh, object_name(k))], objects@[k].mesh) by {
                    objects_have_their_names(k, i as int);
                    if k < i {
                        assert(before.contains_key((Kind::Mesh, object_name(k))));
                    }
                }
            }
            placements.push(
                Placement {
                    geometry: object_key(i),
                    transform: object.transform,
                    material,
                    camera_visible: true,
                    medium: object.medium.duplicate(),
                    priority: object.interior_priority,
                },
            );
        }
        let stack = tlas_instances(&placements);
        assert(stack@ =~= stack_of(placements@));
        let media = placement_media(maths, &placements);
        let textures: Table<Key, Arc<Prepared>> = Table::new();
        let none: Vec<Key> = Vec::new();
        let params = texture_params(&none);
        let delta_lights: Vec<DeltaLight> = Vec::new();
        let filling = match global {
            Some(medium) => Some(medium.duplicate()),
            None => None,
        };
        let r = Scene {
            geometry,
            textures,
            params,
            stack,
            placements,
            triangle_lights,
            delta_lights,
            global: filling,
            media,
            camera,
            sky: Sky::Image,
            source: None,
            tint: Vec3::new(ONE, ONE, ONE),
            to_world: Rows::identity(),
            from_world: Rows::identity(),
        };
        assert(r@.delta_lights =~= Seq::<DeltaLight>::empty());
        r
    }
}

} // verus!
