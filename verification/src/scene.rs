//! The tables that a scene is traced against: what stands where, what its
//! surface and its inside are, and what lights it.

use vstd::prelude::*;

use crate::bits::{Num, Vec3, ONE, SIGN};
use crate::description::Geometry;
use crate::formula;
use crate::formula::{ask_affine, ask_truth, ask_vector, Answer, Formula, Rows};
use crate::material::{Material, TEXTURE_NONE};
use crate::media;
use crate::media::{
    boundary_word, interior, placement_boundary, record_of, subsurface, subsurface_textured, Medium,
    MediumRecord, Placement, BOUNDARY_NULL, MAJORANT_RES_MAX, MEDIUM_NONE, SUBSURFACE_TEXTURED,
};
use crate::mesh;
use crate::path::{FilePath, Part};
use crate::table::{Order, Ranked, Table};
use crate::texture::{Key, Params};
use crate::value::Duplicate;

verus! {

/// The visibility bit that camera rays trace with.
pub const CAMERA: u32 = 0x01;

/// The visibility bits that every other ray traces with.
pub const ALL: u32 = 0xff;

/// A light index that names no light.
pub const LIGHT_NONE: u32 = 0xffff_ffff;

/// A camera, with its lens settled.
#[derive(Clone, Copy, Debug, PartialEq, Eq, Structural)]
pub struct Camera {
    /// Where the eye is.
    pub position: Vec3,
    /// The point that the view axis passes through.
    pub look_at: Vec3,
    /// Which way is up on screen.
    pub up: Vec3,
    /// The vertical field of view, in degrees.
    pub vfov_degrees: Num,
    /// The thin lens; `None` is a pinhole.
    pub lens: Option<Lens>,
}

/// A thin lens.
#[derive(Clone, Copy, Debug, PartialEq, Eq, Structural)]
pub struct Lens {
    /// Its radius.
    pub aperture_radius: Num,
    /// How far the focal plane is.
    pub focus_distance: Num,
}

// -- Grids -------------------------------------------------------------------------

/// A grid in a file.
#[derive(Clone, Debug, PartialEq, Eq)]
pub struct GridKey {
    /// The prepared grid file.
    pub nvdb: FilePath,
    /// The grid's name in it.
    pub grid: String,
}

impl View for GridKey {
    type V = (Seq<Part<Seq<char>>>, Seq<char>);

    open spec fn view(&self) -> (Seq<Part<Seq<char>>>, Seq<char>) {
        (self.nvdb@, self.grid@)
    }
}

impl Ranked for GridKey {
    /// By file, and in one file by name.
    open spec fn precedes(
        a: (Seq<Part<Seq<char>>>, Seq<char>),
        b: (Seq<Part<Seq<char>>>, Seq<char>),
    ) -> bool {
        FilePath::precedes(a.0, b.0) || (a.0 == b.0 && String::precedes(a.1, b.1))
    }

    proof fn never_precedes_itself(a: (Seq<Part<Seq<char>>>, Seq<char>)) {
        FilePath::never_precedes_itself(a.0);
        String::never_precedes_itself(a.1);
    }

    proof fn precedes_transitively(
        a: (Seq<Part<Seq<char>>>, Seq<char>),
        b: (Seq<Part<Seq<char>>>, Seq<char>),
        c: (Seq<Part<Seq<char>>>, Seq<char>),
    ) {
        if a.0 == b.0 && b.0 == c.0 {
            FilePath::never_precedes_itself(a.0);
            String::precedes_transitively(a.1, b.1, c.1);
        } else if a.0 != b.0 && b.0 != c.0 {
            FilePath::precedes_transitively(a.0, b.0, c.0);
        }
    }

    proof fn precedes_one_way(
        a: (Seq<Part<Seq<char>>>, Seq<char>),
        b: (Seq<Part<Seq<char>>>, Seq<char>),
    ) {
        if a.0 != b.0 {
            FilePath::precedes_one_way(a.0, b.0);
        } else {
            String::precedes_one_way(a.1, b.1);
        }
    }

    fn order(&self, other: &GridKey) -> (r: Order) {
        match self.nvdb.order(&other.nvdb) {
            Order::Less => Order::Less,
            Order::Greater => Order::Greater,
            Order::Equal => self.grid.order(&other.grid),
        }
    }
}

impl Duplicate for GridKey {
    fn duplicate(&self) -> (r: GridKey) {
        GridKey { nvdb: self.nvdb.duplicate(), grid: self.grid.duplicate() }
    }
}

/// Where a grid landed.
#[derive(Clone, Copy, Debug, PartialEq, Eq, Structural)]
pub struct ResidentGrid {
    /// Where its payload is.
    pub grid: u32,
    /// Where its majorant lattice is.
    pub majorant: u32,
    /// The largest value it holds.
    pub field_max: Num,
}

/// The grids that a placement reads: its density, and its temperature where
/// it has one.
pub open spec fn fields(placement: Placement) -> Seq<(Seq<Part<Seq<char>>>, Seq<char>)> {
    match placement.medium {
        Some(medium) => match medium.volume {
            Some(volume) => match volume.temperature {
                Some(temperature) => seq![
                    (volume.nvdb@, volume.grid@),
                    (volume.nvdb@, temperature@),
                ],
                None => seq![(volume.nvdb@, volume.grid@)],
            },
            None => Seq::empty(),
        },
        None => Seq::empty(),
    }
}

/// The grids that placements read, each where it is read first.
pub open spec fn needed(placements: Seq<Placement>) -> Seq<(Seq<Part<Seq<char>>>, Seq<char>)>
    decreases placements.len(),
{
    if placements.len() == 0 {
        Seq::empty()
    } else {
        joined_once(needed(placements.drop_last()), fields(placements.last()))
    }
}

/// What is not yet in `list` put behind it, in order.
pub open spec fn joined_once<T>(list: Seq<T>, more: Seq<T>) -> Seq<T>
    decreases more.len(),
{
    if more.len() == 0 {
        list
    } else {
        let front = joined_once(list, more.drop_last());
        if front.contains(more.last()) {
            front
        } else {
            front.push(more.last())
        }
    }
}

/// The keys read out.
pub open spec fn keys_of(list: Seq<GridKey>) -> Seq<(Seq<Part<Seq<char>>>, Seq<char>)> {
    list.map_values(|key: GridKey| key@)
}

/// Put a key behind the others where it is not yet among them.
fn push_once(list: &mut Vec<GridKey>, key: GridKey)
    ensures
        keys_of(final(list)@) == if keys_of(old(list)@).contains(key@) {
            keys_of(old(list)@)
        } else {
            keys_of(old(list)@).push(key@)
        },
{
    let ghost before = keys_of(list@);
    for i in 0..list.len()
        invariant
            before == keys_of(list@),
            forall|j: int| 0 <= j < i ==> before[j] != key@,
    {
        assert(before[i as int] == list@[i as int]@);
        if let Order::Equal = list[i].order(&key) {
            assert(before.contains(key@));
            return ;
        }
        proof {
            GridKey::never_precedes_itself(key@);
        }
    }
    list.push(key);
    assert(keys_of(list@) =~= before.push(key@));
}

/// The grids that have to be resident before placements' media can be tabled,
/// each once, in the order in which they are first read.
pub fn grids_needed(placements: &Vec<Placement>) -> (r: Vec<GridKey>)
    ensures
        keys_of(r@) == needed(placements@),
{
    let mut list: Vec<GridKey> = Vec::new();
    assert(keys_of(list@) =~= Seq::empty());
    assert(placements@.take(0) =~= Seq::<Placement>::empty());
    for i in 0..placements.len()
        invariant
            keys_of(list@) == needed(placements@.take(i as int)),
    {
        let ghost before = keys_of(list@);
        let ghost all = fields(placements@[i as int]);
        proof {
            assert(placements@.take(i + 1).drop_last() =~= placements@.take(i as int));
            reveal_with_fuel(joined_once, 3);
        }
        if let Some(medium) = &placements[i].medium {
            if let Some(volume) = &medium.volume {
                push_once(
                    &mut list,
                    GridKey { nvdb: volume.nvdb.duplicate(), grid: volume.grid.duplicate() },
                );
                proof {
                    let first = seq![all[0]];
                    assert(first.drop_last() =~= Seq::empty());
                    assert(keys_of(list@) == joined_once(before, first));
                    if volume.temperature is None {
                        assert(all =~= first);
                    }
                }
                if let Some(temperature) = &volume.temperature {
                    push_once(
                        &mut list,
                        GridKey { nvdb: volume.nvdb.duplicate(), grid: temperature.duplicate() },
                    );
                    proof {
                        assert(all.drop_last() =~= seq![all[0]]);
                    }
                }
            }
        }
        assert(keys_of(list@) == joined_once(before, all));
    }
    assert(placements@.take(placements@.len() as int) =~= placements@);
    list
}

/// The grids that a placement reads are resident, and its lattice's cells can
/// be packed.
pub open spec fn grids_resident(
    placement: Placement,
    grids: Map<(Seq<Part<Seq<char>>>, Seq<char>), ResidentGrid>,
) -> bool {
    &&& forall|i: int|
        0 <= i < fields(placement).len() ==> grids.dom().contains(#[trigger] fields(placement)[i])
    &&& placement.medium matches Some(medium) ==> (medium.volume matches Some(volume) ==> {
        &&& volume.majorant_res[0] <= MAJORANT_RES_MAX
        &&& volume.majorant_res[1] <= MAJORANT_RES_MAX
        &&& volume.majorant_res[2] <= MAJORANT_RES_MAX
    })
}

/// Three counts in one word, ten bits for each.
pub open spec fn packed(res: [u32; 3]) -> int {
    res[0] + res[1] * 0x400 + res[2] * 0x10_0000
}

/// Counts that fit are read back from the word that holds them.
pub proof fn packing_reads_back(res: [u32; 3])
    requires
        res[0] <= MAJORANT_RES_MAX,
        res[1] <= MAJORANT_RES_MAX,
        res[2] <= MAJORANT_RES_MAX,
    ensures
        0 <= packed(res) < 0x4000_0000,
        packed(res) % 0x400 == res[0],
        packed(res) / 0x400 % 0x400 == res[1],
        packed(res) / 0x10_0000 == res[2],
{
}

/// The record of a medium that has a grid, as it is placed.
pub open spec fn grid_record<M: Fn(Formula) -> Answer>(
    maths: M,
    placement: Placement,
    medium: Medium,
    grids: Map<(Seq<Part<Seq<char>>>, Seq<char>), ResidentGrid>,
) -> MediumRecord {
    let record = media::plain_record(maths, medium);
    match medium.volume {
        None => record,
        Some(volume) => {
            let resident = grids[(volume.nvdb@, volume.grid@)];
            let world_to_index = formula::affine(
                maths,
                Formula::Composed(
                    formula::affine(
                        maths,
                        Formula::Composed(volume.asset_to_index, volume.bounds_to_asset),
                    ),
                    formula::affine(maths, Formula::Inverse(placement.transform)),
                ),
            );
            let still = MediumRecord {
                grid: resident.grid,
                majorant: resident.majorant,
                majorant_scale: volume.majorant_scale,
                majorant_bias: volume.majorant_bias,
                majorant_res: packed(volume.majorant_res) as u32,
                world_to_index,
                ..record
            };
            match volume.temperature {
                None => still,
                Some(temperature) => MediumRecord {
                    temperature_grid: grids[(volume.nvdb@, temperature@)].grid,
                    kelvin_scale: volume.kelvin_scale,
                    kelvin_offset: volume.kelvin_offset,
                    emission: volume.emission,
                    ..still
                },
            }
        },
    }
}

/// What fills a placement: the medium that it bounds, or what its material's
/// interior holds.
pub open spec fn placement_filling<M: Fn(Formula) -> Answer>(
    maths: M,
    placement: Placement,
    grids: Map<(Seq<Part<Seq<char>>>, Seq<char>), ResidentGrid>,
) -> Option<MediumRecord> {
    match placement.medium {
        None => media::filling(maths, placement.material),
        Some(medium) => Some(grid_record(maths, placement, medium, grids)),
    }
}

/// What fills a placement.
pub fn placement_medium<M: Fn(Formula) -> Answer>(
    maths: &M,
    placement: &Placement,
    grids: &Table<GridKey, ResidentGrid>,
) -> (r: Option<MediumRecord>)
    requires
        formula::steady(*maths),
        grids_resident(*placement, grids@),
    ensures
        r == placement_filling(*maths, *placement, grids@),
{
    let medium = match &placement.medium {
        None => {
            return interior(maths, &placement.material);
        },
        Some(medium) => medium,
    };
    let record = record_of(maths, medium);
    let volume = match &medium.volume {
        None => {
            return Some(record);
        },
        Some(volume) => volume,
    };
    let key = GridKey { nvdb: volume.nvdb.duplicate(), grid: volume.grid.duplicate() };
    assert(fields(*placement)[0] == key@);
    let resident = match grids.get(&key) {
        Some(resident) => *resident,
        None => {
            return None;
        },
    };
    let placed = ask_affine(maths, Formula::Inverse(placement.transform));
    let to_index = ask_affine(
        maths,
        Formula::Composed(volume.asset_to_index, volume.bounds_to_asset),
    );
    let world_to_index = ask_affine(maths, Formula::Composed(to_index, placed));
    let still = MediumRecord {
        grid: resident.grid,
        majorant: resident.majorant,
        majorant_scale: volume.majorant_scale,
        majorant_bias: volume.majorant_bias,
        majorant_res: volume.majorant_res[0] + volume.majorant_res[1] * 0x400
            + volume.majorant_res[2] * 0x10_0000,
        world_to_index,
        ..record
    };
    match &volume.temperature {
        None => Some(still),
        Some(temperature) => {
            let name = GridKey { nvdb: volume.nvdb.duplicate(), grid: temperature.duplicate() };
            assert(fields(*placement)[1] == name@);
            let field = match grids.get(&name) {
                Some(field) => *field,
                None => {
                    return None;
                },
            };
            Some(
                MediumRecord {
                    temperature_grid: field.grid,
                    kelvin_scale: volume.kelvin_scale,
                    kelvin_offset: volume.kelvin_offset,
                    emission: volume.emission,
                    ..still
                },
            )
        },
    }
}

// -- The medium table ----------------------------------------------------------------

/// The distinct records of a list, each where it appears first.
pub open spec fn interned(list: Seq<Option<MediumRecord>>) -> Seq<MediumRecord>
    decreases list.len(),
{
    if list.len() == 0 {
        Seq::empty()
    } else {
        let front = interned(list.drop_last());
        match list.last() {
            None => front,
            Some(record) => if front.contains(record) {
                front
            } else {
                front.push(record)
            },
        }
    }
}

/// Where a record is in a table; vacuum is nowhere.
pub open spec fn slot(records: Seq<MediumRecord>, entry: Option<MediumRecord>) -> u32 {
    match entry {
        None => MEDIUM_NONE,
        Some(record) => records.index_of(record) as u32,
    }
}

/// No record is in the table twice, every one of the list is in it, and it is
/// no longer than the list.
pub proof fn interning_keeps_one_of_each(list: Seq<Option<MediumRecord>>)
    ensures
        interned(list).no_duplicates(),
        interned(list).len() <= list.len(),
        forall|i: int|
            0 <= i < list.len() ==> (#[trigger] list[i] matches Some(record) ==> interned(
                list,
            ).contains(record)),
    decreases list.len(),
{
    if list.len() > 0 {
        let front = interned(list.drop_last());
        let all = interned(list);
        interning_keeps_one_of_each(list.drop_last());
        assert forall|i: int| 0 <= i < list.len() implies (#[trigger] list[i] matches Some(
            record,
        ) ==> all.contains(record)) by {
            if let Some(record) = list[i] {
                if i < list.len() - 1 {
                    assert(list.drop_last()[i] == list[i]);
                    let k = front.index_of(record);
                    assert(front.contains(record));
                    assert(all[k] == record);
                } else if !front.contains(record) {
                    assert(all[front.len() as int] == record);
                }
            }
        }
    }
}

/// A longer list's table starts with that of its beginning.
proof fn interning_grows(list: Seq<Option<MediumRecord>>, n: int)
    requires
        0 <= n <= list.len(),
    ensures
        interned(list.take(n)).is_prefix_of(interned(list)),
    decreases list.len() - n,
{
    if n < list.len() {
        interning_grows(list, n + 1);
        assert(list.take(n + 1).drop_last() =~= list.take(n));
        let short = interned(list.take(n));
        let longer = interned(list.take(n + 1));
        assert(short.is_prefix_of(longer));
        assert(longer.is_prefix_of(interned(list)));
        assert(short =~= interned(list).take(short.len() as int));
    } else {
        assert(list.take(n) =~= list);
    }
}

/// In a table without duplicates a record's place is the one where it is.
proof fn slots_are_places(records: Seq<MediumRecord>, i: int)
    requires
        records.no_duplicates(),
        0 <= i < records.len(),
    ensures
        records.index_of(records[i]) == i,
{
    assert(records.contains(records[i]));
}

/// Two entries share a slot exactly where they are the same medium.
pub proof fn slots_tell_media_apart(
    list: Seq<Option<MediumRecord>>,
    i: int,
    j: int,
)
    requires
        list.len() < MEDIUM_NONE,
        0 <= i < list.len(),
        0 <= j < list.len(),
    ensures
        (slot(interned(list), list[i]) == slot(interned(list), list[j])) == (list[i] == list[j]),
        list[i] is Some ==> slot(interned(list), list[i]) < interned(list).len(),
{
    interning_keeps_one_of_each(list);
    let records = interned(list);
    if let Some(record) = list[i] {
        assert(records.contains(record));
        assert(records[records.index_of(record)] == record);
    }
    if let Some(record) = list[j] {
        assert(records.contains(record));
        assert(records[records.index_of(record)] == record);
    }
}

/// Find a record, or put it behind the others.
fn intern(records: &mut Vec<MediumRecord>, entry: Option<MediumRecord>) -> (r: u32)
    requires
        old(records)@.no_duplicates(),
        old(records)@.len() < MEDIUM_NONE,
    ensures
        final(records)@ == (match entry {
            None => old(records)@,
            Some(record) => if old(records)@.contains(record) {
                old(records)@
            } else {
                old(records)@.push(record)
            },
        }),
        final(records)@.no_duplicates(),
        r == slot(final(records)@, entry),
{
    match entry {
        None => MEDIUM_NONE,
        Some(record) => {
            let ghost before = records@;
            for i in 0..records.len()
                invariant
                    entry == Some(record),
                    before == records@,
                    before == old(records)@,
                    before.no_duplicates(),
                    before.len() < MEDIUM_NONE,
                    forall|j: int| 0 <= j < i ==> before[j] != record,
            {
                if records[i] == record {
                    proof {
                        slots_are_places(before, i as int);
                        assert(before.contains(record));
                    }
                    return i as u32;
                }
            }
            let place: u32 = records.len() as u32;
            records.push(record);
            proof {
                assert(!before.contains(record));
                slots_are_places(records@, place as int);
            }
            place
        },
    }
}

/// The medium table: one record for each distinct medium, however many places
/// it fills, with the index that each place and the open space take in it.
pub fn medium_table(filled: &Vec<Option<MediumRecord>>, global: Option<MediumRecord>) -> (r: (
    Vec<u32>,
    u32,
    Vec<MediumRecord>,
))
    requires
        filled@.len() + 1 < MEDIUM_NONE,
    ensures
        r.2@ == interned(filled@.push(global)),
        r.0@.len() == filled@.len(),
        forall|i: int| 0 <= i < filled@.len() ==> #[trigger] r.0@[i] == slot(r.2@, filled@[i]),
        r.1 == slot(r.2@, global),
{
    let mut records: Vec<MediumRecord> = Vec::new();
    let mut indices: Vec<u32> = Vec::new();
    let ghost list = filled@.push(global);
    assert(list.take(0) =~= Seq::<Option<MediumRecord>>::empty());
    for i in 0..filled.len()
        invariant
            list == filled@.push(global),
            list.len() < MEDIUM_NONE,
            records@ == interned(list.take(i as int)),
            indices@.len() == i,
            forall|j: int|
                0 <= j < i ==> #[trigger] indices@[j] == slot(interned(list), filled@[j]),
    {
        proof {
            interning_keeps_one_of_each(list.take(i as int));
            assert(list.take(i + 1).drop_last() =~= list.take(i as int));
        }
        let index: u32 = intern(&mut records, filled[i]);
        proof {
            slot_stays(list, i as int);
        }
        indices.push(index);
    }
    proof {
        let n = filled@.len() as int;
        interning_keeps_one_of_each(list.take(n));
        assert(list.take(n + 1).drop_last() =~= list.take(n));
        assert(list.take(n + 1) =~= list);
    }
    let index: u32 = intern(&mut records, global);
    (indices, index, records)
}

/// The slot that an entry has when it is put in is the slot that it keeps.
proof fn slot_stays(list: Seq<Option<MediumRecord>>, i: int)
    requires
        0 <= i < list.len() < MEDIUM_NONE,
    ensures
        slot(interned(list.take(i + 1)), list[i]) == slot(interned(list), list[i]),
{
    let some = interned(list.take(i + 1));
    let all = interned(list);
    interning_keeps_one_of_each(list.take(i + 1));
    interning_keeps_one_of_each(list);
    interning_grows(list, i + 1);
    if let Some(record) = list[i] {
        assert(list.take(i + 1)[i] == list[i]);
        assert(some.contains(record));
        let k = some.index_of(record);
        assert(some[k] == record);
        assert(all[k] == some[k]);
        slots_are_places(all, k);
    }
}

// -- Lights --------------------------------------------------------------------------

/// A triangle that emits, in the world.
#[derive(Clone, Copy, Debug, PartialEq, Eq, Structural)]
pub struct TriangleLight {
    /// Its first corner.
    pub first: Vec3,
    /// Its second corner.
    pub second: Vec3,
    /// Its third corner.
    pub third: Vec3,
    /// What it emits.
    pub emission: Vec3,
    /// The placement that it is of.
    pub instance: u32,
    /// Which of the placement's triangles it is.
    pub primitive: u32,
    /// One, or minus one where the placement mirrors.
    pub winding: Num,
}

/// A light without an extent.
#[derive(Clone, Copy, Debug, PartialEq, Eq, Structural)]
pub enum DeltaLight {
    /// Light from infinitely far away.
    Distant {
        /// The direction it travels, at unit length.
        direction: Vec3,
        /// What it puts on a surface that faces it.
        irradiance: Vec3,
    },
    /// Light from a point.
    Point {
        /// Where it is.
        position: Vec3,
        /// What it sends in every direction.
        intensity: Vec3,
    },
}

/// A placed mesh's triangles as lights, in primitive order.
pub open spec fn lit_triangles<M: Fn(Formula) -> Answer>(
    maths: M,
    positions: Seq<Vec3>,
    triangles: Seq<[u32; 3]>,
    transform: Rows,
    emission: Vec3,
    instance: u32,
) -> Seq<TriangleLight> {
    Seq::new(
        triangles.len(),
        |i: int|
            TriangleLight {
                first: formula::vector(
                    maths,
                    Formula::Moved(transform, positions[triangles[i][0] as int]),
                ),
                second: formula::vector(
                    maths,
                    Formula::Moved(transform, positions[triangles[i][1] as int]),
                ),
                third: formula::vector(
                    maths,
                    Formula::Moved(transform, positions[triangles[i][2] as int]),
                ),
                emission,
                instance,
                primitive: i as u32,
                winding: if formula::truth(maths, Formula::Mirrors(transform)) {
                    Num { bits: (SIGN + ONE) as u32 }
                } else {
                    Num { bits: ONE }
                },
            },
    )
}

/// Append a placed mesh's triangles as lights: one for each of its triangles,
/// in primitive order, so that a hit finds the one it hit by its number.
pub fn emissive_triangles<M: Fn(Formula) -> Answer>(
    maths: &M,
    lights: &mut Vec<TriangleLight>,
    positions: &Vec<Vec3>,
    triangles: &Vec<[u32; 3]>,
    transform: Rows,
    emission: Vec3,
    instance: u32,
)
    requires
        formula::steady(*maths),
        forall|i: int|
            0 <= i < triangles@.len() ==> mesh::within(
                #[trigger] triangles@[i],
                positions@.len() as int,
            ),
    ensures
        final(lights)@ == old(lights)@ + lit_triangles(
            *maths,
            positions@,
            triangles@,
            transform,
            emission,
            instance,
        ),
{
    let winding = if ask_truth(maths, Formula::Mirrors(transform)) {
        Num::new(SIGN + ONE)
    } else {
        Num::new(ONE)
    };
    let ghost before = lights@;
    let ghost all = lit_triangles(*maths, positions@, triangles@, transform, emission, instance);
    assert(lights@ =~= before + all.take(0));
    for i in 0..triangles.len()
        invariant
            formula::steady(*maths),
            forall|i: int|
                0 <= i < triangles@.len() ==> mesh::within(
                    #[trigger] triangles@[i],
                    positions@.len() as int,
                ),
            winding == (if formula::truth(*maths, Formula::Mirrors(transform)) {
                Num { bits: (SIGN + ONE) as u32 }
            } else {
                Num { bits: ONE }
            }),
            all == lit_triangles(
                *maths,
                positions@,
                triangles@,
                transform,
                emission,
                instance,
            ),
            lights@ == before + all.take(i as int),
    {
        let corners = triangles[i];
        let light = TriangleLight {
            first: ask_vector(maths, Formula::Moved(transform, positions[corners[0] as usize])),
            second: ask_vector(maths, Formula::Moved(transform, positions[corners[1] as usize])),
            third: ask_vector(maths, Formula::Moved(transform, positions[corners[2] as usize])),
            emission,
            instance,
            primitive: i as u32,
            winding,
        };
        assert(light == all[i as int]);
        lights.push(light);
        assert(lights@ =~= before + all.take(i + 1));
    }
    assert(all.take(triangles@.len() as int) =~= all);
}

/// The first of a placement's lights, if it has one.
pub open spec fn first_light(lights: Seq<TriangleLight>, instance: int) -> Option<int>
    decreases lights.len(),
{
    if lights.len() == 0 {
        None
    } else {
        match first_light(lights.drop_last(), instance) {
            Some(index) => Some(index),
            None => if lights.last().instance == instance {
                Some(lights.len() - 1)
            } else {
                None
            },
        }
    }
}

/// The number of a light, or none.
pub open spec fn light_word(index: Option<int>) -> u32 {
    match index {
        Some(index) => index as u32,
        None => LIGHT_NONE,
    }
}

/// The first light is one of the placement's, and none before it is.
pub proof fn first_lights_are_first(lights: Seq<TriangleLight>, instance: int)
    ensures
        match first_light(lights, instance) {
            Some(index) => 0 <= index < lights.len() && lights[index].instance == instance && forall|
                j: int,
            |
                0 <= j < index ==> (#[trigger] lights[j]).instance != instance,
            None => forall|j: int|
                0 <= j < lights.len() ==> (#[trigger] lights[j]).instance != instance,
        },
    decreases lights.len(),
{
    if lights.len() > 0 {
        let front = lights.drop_last();
        first_lights_are_first(front, instance);
        match first_light(front, instance) {
            Some(index) => {
                assert forall|j: int| 0 <= j < index implies (#[trigger] lights[j]).instance
                    != instance by {
                    assert(front[j] == lights[j]);
                }
                assert(front[index] == lights[index]);
            },
            None => {
                assert forall|j: int| 0 <= j < front.len() implies (#[trigger] lights[j]).instance
                    != instance by {
                    assert(front[j] == lights[j]);
                }
            },
        }
    }
}

/// For each placement the number of its first light, or none.
pub fn first_light_indices(placements: usize, lights: &Vec<TriangleLight>) -> (r: Vec<u32>)
    requires
        lights@.len() < LIGHT_NONE,
        forall|i: int| 0 <= i < lights@.len() ==> (#[trigger] lights@[i]).instance < placements,
    ensures
        r@.len() == placements,
        forall|i: int|
            0 <= i < placements ==> #[trigger] r@[i] == light_word(first_light(lights@, i)),
{
    let mut first: Vec<u32> = Vec::new();
    for i in 0..placements
        invariant
            first@.len() == i,
            forall|j: int| 0 <= j < i ==> #[trigger] first@[j] == LIGHT_NONE,
    {
        first.push(LIGHT_NONE);
    }
    assert(lights@.take(0) =~= Seq::<TriangleLight>::empty());
    for i in 0..lights.len()
        invariant
            lights@.len() < LIGHT_NONE,
            forall|i: int| 0 <= i < lights@.len() ==> (#[trigger] lights@[i]).instance < placements,
            first@.len() == placements,
            forall|j: int|
                0 <= j < placements ==> #[trigger] first@[j] == light_word(
                    first_light(lights@.take(i as int), j),
                ),
    {
        let at: usize = lights[i].instance as usize;
        let ghost before = first@;
        proof {
            let longer = lights@.take(i + 1);
            assert(longer.drop_last() =~= lights@.take(i as int));
            assert(longer.last() == lights@[i as int]);
            first_lights_are_first(lights@.take(i as int), at as int);
        }
        if first[at] == LIGHT_NONE {
            first.set(at, i as u32);
        }
        assert forall|j: int| 0 <= j < placements implies #[trigger] first@[j] == light_word(
            first_light(lights@.take(i + 1), j),
        ) by {
            assert(before[j] == light_word(first_light(lights@.take(i as int), j)));
        }
    }
    assert(lights@.take(lights@.len() as int) =~= lights@);
    first
}

// -- What rays are traced against -----------------------------------------------------

/// One instance as rays meet it.
#[derive(Clone, Debug, PartialEq, Eq)]
pub struct TlasInstance {
    /// What is placed.
    pub geometry: Geometry,
    /// Where it stands.
    pub transform: Rows,
    /// The number that a hit leads back to.
    pub custom_index: u32,
    /// Which rays see it.
    pub mask: u32,
    /// Whether a hit can be taken without a further look.
    pub opaque: bool,
}

/// A hit can be taken without a further look: the surface is shaded, covers
/// all of itself, and no texture says otherwise.
pub open spec fn solid(placement: Placement) -> bool {
    placement.class() != BOUNDARY_NULL && !placement.material.opacity.nan()
        && !placement.material.opacity.below(Num::new(ONE)) && placement.material.opacity_texture
        == TEXTURE_NONE
}

/// A placement as rays meet it.
pub open spec fn traced(placement: Placement, index: int) -> TlasInstance {
    TlasInstance {
        geometry: placement.geometry,
        transform: placement.transform,
        custom_index: index as u32,
        mask: if placement.camera_visible {
            ALL
        } else {
            (ALL - CAMERA) as u32
        },
        opaque: solid(placement),
    }
}

/// The instances that rays are traced against: one for each placement,
/// numbered by its position. One that the camera does not see has no camera
/// bit, and every other ray still meets it.
pub fn tlas_instances(placements: &Vec<Placement>) -> (r: Vec<TlasInstance>)
    ensures
        r@.len() == placements@.len(),
        forall|i: int|
            0 <= i < placements@.len() ==> #[trigger] r@[i] == traced(placements@[i], i),
{
    let mut instances: Vec<TlasInstance> = Vec::new();
    for i in 0..placements.len()
        invariant
            instances@.len() == i,
            forall|j: int| 0 <= j < i ==> #[trigger] instances@[j] == traced(placements@[j], j),
    {
        let placement = &placements[i];
        instances.push(
            TlasInstance {
                geometry: placement.geometry.duplicate(),
                transform: placement.transform,
                custom_index: i as u32,
                mask: if placement.camera_visible {
                    ALL
                } else {
                    ALL - CAMERA
                },
                opaque: placement_boundary(placement) != BOUNDARY_NULL
                    && !placement.material.opacity.is_nan() && !placement.material.opacity.is_below(
                    &Num::new(ONE),
                ) && placement.material.opacity_texture == TEXTURE_NONE,
            },
        );
    }
    instances
}

// -- The instance tables ----------------------------------------------------------------

/// One entry of the geometry table: what is placed, the maps of its placement,
/// its first light, what crossing its surface means, and what is inside.
#[derive(Clone, Debug, PartialEq, Eq)]
pub struct GeometryRecord {
    /// What is placed.
    pub geometry: Geometry,
    /// The map of the placement.
    pub object_to_world: Rows,
    /// The map that undoes it.
    pub world_to_object: Rows,
    /// The number of its first light, or none.
    pub light: u32,
    /// Its boundary word.
    pub boundary: u32,
    /// What fills it, or nothing.
    pub medium: u32,
    /// What its subsurface lobe walks in, or nothing.
    pub subsurface: u32,
}

/// The tables of one pass over the placements.
#[derive(Clone, Debug, PartialEq, Eq)]
pub struct InstanceTables {
    /// What is placed where.
    pub geometry: Vec<GeometryRecord>,
    /// The surface of each placement.
    pub materials: Vec<Material>,
    /// The distinct media.
    pub media: Vec<MediumRecord>,
    /// What fills the open space, or nothing.
    pub global_medium: u32,
}

/// What fills the placements, then what their subsurface lobes walk in, then
/// what fills the open space.
pub open spec fn all_media<M: Fn(Formula) -> Answer>(
    maths: M,
    placements: Seq<Placement>,
    grids: Map<(Seq<Part<Seq<char>>>, Seq<char>), ResidentGrid>,
    global: Option<Medium>,
) -> Seq<Option<MediumRecord>> {
    inside_media(maths, placements, grids).push(
        match global {
            Some(medium) => Some(media::plain_record(maths, medium)),
            None => None,
        },
    )
}

/// What fills the placements, then what their subsurface lobes walk in.
pub open spec fn inside_media<M: Fn(Formula) -> Answer>(
    maths: M,
    placements: Seq<Placement>,
    grids: Map<(Seq<Part<Seq<char>>>, Seq<char>), ResidentGrid>,
) -> Seq<Option<MediumRecord>> {
    Seq::new(
        placements.len() + placements.len(),
        |i: int|
            if i < placements.len() {
                placement_filling(maths, placements[i], grids)
            } else {
                media::subsurface_filling(maths, placements[i - placements.len()].material)
            },
    )
}

/// A subsurface index, marked where a texture says what is inside.
pub open spec fn marked(index: u32, material: Material) -> u32 {
    if index != MEDIUM_NONE && media::textured_inside(material) {
        (index + SUBSURFACE_TEXTURED) as u32
    } else {
        index
    }
}

/// The record of a placement.
pub open spec fn placement_record<M: Fn(Formula) -> Answer>(
    maths: M,
    placements: Seq<Placement>,
    lights: Seq<TriangleLight>,
    list: Seq<Option<MediumRecord>>,
    i: int,
) -> GeometryRecord {
    let placement = placements[i];
    GeometryRecord {
        geometry: placement.geometry,
        object_to_world: placement.transform,
        world_to_object: formula::affine(maths, Formula::Inverse(placement.transform)),
        light: light_word(first_light(lights, i)),
        boundary: media::word(maths, placement) as u32,
        medium: slot(interned(list), list[i]),
        subsurface: marked(slot(interned(list), list[placements.len() + i]), placement.material),
    }
}

/// These are the tables of placements, with the grids that are resident and what
/// fills the open space.
pub open spec fn tabled<M: Fn(Formula) -> Answer>(
    tables: InstanceTables,
    maths: M,
    placements: Seq<Placement>,
    lights: Seq<TriangleLight>,
    grids: Map<(Seq<Part<Seq<char>>>, Seq<char>), ResidentGrid>,
    global: Option<Medium>,
) -> bool {
    let list = all_media(maths, placements, grids, global);
    &&& tables.media@ == interned(list)
    &&& tables.global_medium == slot(tables.media@, list.last())
    &&& tables.materials@ == placements.map_values(|p: Placement| p.material)
    &&& tables.geometry@.len() == placements.len()
    &&& forall|i: int|
        0 <= i < placements.len() ==> #[trigger] tables.geometry@[i] == placement_record(
            maths,
            placements,
            lights,
            list,
            i,
        )
    &&& forall|i: int|
        0 <= i < placements.len() ==> (media::scattering_of(
            (#[trigger] tables.geometry@[i]).boundary,
        ) ==> tables.geometry@[i].medium != MEDIUM_NONE)
}

/// The tables of a pass over the placements. Every mesh that bounds a medium
/// has to come with a material that is inert.
pub fn instance_tables<M: Fn(Formula) -> Answer>(
    maths: &M,
    placements: &Vec<Placement>,
    lights: &Vec<TriangleLight>,
    grids: &Table<GridKey, ResidentGrid>,
    global: &Option<Medium>,
) -> (r: InstanceTables)
    requires
        formula::steady(*maths),
        2 * placements@.len() + 1 < SUBSURFACE_TEXTURED,
        lights@.len() < LIGHT_NONE,
        forall|i: int|
            0 <= i < lights@.len() ==> (#[trigger] lights@[i]).instance < placements@.len(),
        forall|i: int|
            0 <= i < placements@.len() ==> grids_resident(#[trigger] placements@[i], grids@),
        forall|i: int|
            0 <= i < placements@.len() ==> (#[trigger] placements@[i]).medium is None
                || media::boundary_inert(placements@[i].material),
    ensures
        tabled(r, *maths, placements@, lights@, grids@, *global),
{
    let count: usize = placements.len();
    let ghost inside = inside_media(*maths, placements@, grids@);
    let ghost list = all_media(*maths, placements@, grids@, *global);
    let mut filled: Vec<Option<MediumRecord>> = Vec::new();
    let mut materials: Vec<Material> = Vec::new();
    for i in 0..count
        invariant
            formula::steady(*maths),
            count == placements@.len(),
            forall|i: int|
                0 <= i < placements@.len() ==> grids_resident(#[trigger] placements@[i], grids@),
            inside == inside_media(*maths, placements@, grids@),
            filled@ == inside.take(i as int),
            materials@ == placements@.take(i as int).map_values(|p: Placement| p.material),
    {
        filled.push(placement_medium(maths, &placements[i], grids));
        materials.push(placements[i].material);
        assert(filled@ =~= inside.take(i + 1));
        assert(materials@ =~= placements@.take(i + 1).map_values(|p: Placement| p.material));
    }
    assert(placements@.take(count as int) =~= placements@);
    for i in 0..count
        invariant
            formula::steady(*maths),
            count == placements@.len(),
            inside == inside_media(*maths, placements@, grids@),
            filled@ == inside.take(count + i),
    {
        filled.push(subsurface(maths, &placements[i].material));
        assert(filled@ =~= inside.take(count + i + 1));
    }
    assert(filled@ =~= inside);
    let open = match global {
        Some(medium) => Some(record_of(maths, medium)),
        None => None,
    };
    assert(list =~= filled@.push(open));
    let (indices, global_medium, media) = medium_table(&filled, open);
    let first = first_light_indices(count, lights);
    let mut geometry: Vec<GeometryRecord> = Vec::new();
    for i in 0..count
        invariant
            formula::steady(*maths),
            count == placements@.len(),
            2 * count + 1 < SUBSURFACE_TEXTURED,
            list == filled@.push(open),
            filled@ == inside_media(*maths, placements@, grids@),
            media@ == interned(list),
            indices@.len() == 2 * count,
            filled@.len() == 2 * count,
            forall|j: int|
                0 <= j < filled@.len() ==> #[trigger] indices@[j] == slot(media@, filled@[j]),
            first@.len() == count,
            forall|j: int|
                0 <= j < count ==> #[trigger] first@[j] == light_word(first_light(lights@, j)),
            geometry@.len() == i,
            forall|j: int|
                0 <= j < i ==> #[trigger] geometry@[j] == placement_record(
                    *maths,
                    placements@,
                    lights@,
                    list,
                    j,
                ),
            forall|j: int|
                0 <= j < i ==> (media::scattering_of((#[trigger] geometry@[j]).boundary)
                    ==> geometry@[j].medium != MEDIUM_NONE),
    {
        let placement = &placements[i];
        let boundary: u32 = boundary_word(maths, placement);
        let inner: u32 = indices[count + i];
        proof {
            let there = count + i;
            assert(list[i as int] == filled@[i as int]);
            assert(list[there] == filled@[there]);
            slots_tell_media_apart(list, there, there);
            slots_tell_media_apart(list, i as int, i as int);
            media::words_read_back(*maths, *placement, *placement);
            interning_keeps_one_of_each(list);
        }
        let subsurface: u32 = if inner != MEDIUM_NONE && subsurface_textured(&placement.material) {
            inner + SUBSURFACE_TEXTURED
        } else {
            inner
        };
        geometry.push(
            GeometryRecord {
                geometry: placement.geometry.duplicate(),
                object_to_world: placement.transform,
                world_to_object: ask_affine(maths, Formula::Inverse(placement.transform)),
                light: first[i],
                boundary,
                medium: indices[i],
                subsurface,
            },
        );
    }
    InstanceTables { geometry, materials, media, global_medium }
}

/// The parameters of the textures, in the order of their keys; where there
/// are no textures, parameters that change nothing.
pub fn texture_params(keys: &Vec<Key>) -> (r: Vec<Params>)
    ensures
        r@ == if keys@.len() == 0 {
            seq![Params::new(None, None)]
        } else {
            keys@.map_values(|key: Key| key.params)
        },
{
    let mut records: Vec<Params> = Vec::new();
    for i in 0..keys.len()
        invariant
            records@ == keys@.take(i as int).map_values(|key: Key| key.params),
    {
        records.push(keys[i].params);
        assert(records@ =~= keys@.take(i + 1).map_values(|key: Key| key.params));
    }
    assert(keys@.take(keys@.len() as int) =~= keys@);
    if keys.len() == 0 {
        records.push(Params::new(None, None));
        assert(records@ =~= seq![Params::new(None, None)]);
    }
    records
}

} // verus!
