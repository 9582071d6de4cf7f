//! The closure's tables: where each stands in the one buffer that the kernels
//! read them from.

use vstd::prelude::*;

use crate::bits::Num;

verus! {

/// Points along each axis of the tables with two.
pub const GGX_SIZE: usize = 32;

/// Points along each axis of the tables with three.
pub const GLASS_SIZE: usize = 16;

/// Points along each axis of the sheen table.
pub const SHEEN_SIZE: usize = 32;

/// Where the energy of a rough reflection starts, by view and roughness.
pub const TABLE_GGX_E: usize = 0;

/// Where its average starts, by roughness.
pub const TABLE_GGX_E_AVG: usize = 1024;

/// Where the energy of rough glass starts, by index, view and roughness.
pub const TABLE_GLASS_E: usize = 1056;

/// Where its average starts, by index and roughness.
pub const TABLE_GLASS_E_AVG: usize = 5152;

/// Where the energy of glass seen from inside starts.
pub const TABLE_GLASS_INV_E: usize = 5408;

/// Where its average starts.
pub const TABLE_GLASS_INV_E_AVG: usize = 9504;

/// Where the albedo of a dielectric starts, by index, view and roughness.
pub const TABLE_DIELECTRIC_E: usize = 9760;

/// Numbers in the energy tables.
pub const GGX_ENERGY_LEN: usize = 13856;

/// Where the first plane of the sheen table starts.
pub const TABLE_SHEEN_A: usize = 13856;

/// Where the second plane starts.
pub const TABLE_SHEEN_B: usize = 14880;

/// Where the plane of albedos starts.
pub const TABLE_SHEEN_R: usize = 15904;

/// Numbers in the sheen table.
pub const LTC_SHEEN_LEN: usize = 3072;

/// Every table starts where the one before it ends, and the last ends where
/// the buffer does.
pub proof fn tables_follow_each_other()
    ensures
        TABLE_GGX_E == 0,
        TABLE_GGX_E_AVG == TABLE_GGX_E + GGX_SIZE * GGX_SIZE,
        TABLE_GLASS_E == TABLE_GGX_E_AVG + GGX_SIZE,
        TABLE_GLASS_E_AVG == TABLE_GLASS_E + GLASS_SIZE * GLASS_SIZE * GLASS_SIZE,
        TABLE_GLASS_INV_E == TABLE_GLASS_E_AVG + GLASS_SIZE * GLASS_SIZE,
        TABLE_GLASS_INV_E_AVG == TABLE_GLASS_INV_E + GLASS_SIZE * GLASS_SIZE * GLASS_SIZE,
        TABLE_DIELECTRIC_E == TABLE_GLASS_INV_E_AVG + GLASS_SIZE * GLASS_SIZE,
        GGX_ENERGY_LEN == TABLE_DIELECTRIC_E + GLASS_SIZE * GLASS_SIZE * GLASS_SIZE,
        TABLE_SHEEN_A == GGX_ENERGY_LEN,
        TABLE_SHEEN_B == TABLE_SHEEN_A + SHEEN_SIZE * SHEEN_SIZE,
        TABLE_SHEEN_R == TABLE_SHEEN_B + SHEEN_SIZE * SHEEN_SIZE,
        GGX_ENERGY_LEN + LTC_SHEEN_LEN == TABLE_SHEEN_R + SHEEN_SIZE * SHEEN_SIZE,
{
}

/// Which of the two files is not of the size that the layout asks for.
#[derive(Clone, Copy, Debug, PartialEq, Eq, Structural)]
pub enum WrongSize {
    /// The energy tables.
    Energy,
    /// The sheen table.
    Sheen,
}

/// The buffer that the kernels read: the energy tables, and the sheen table
/// after them, four bytes to a number. Each file has to have the size that the
/// layout asks for.
pub fn closure_tables(energy: &Vec<u8>, sheen: &Vec<u8>) -> (r: Result<Vec<u8>, WrongSize>)
    ensures
        r is Err == (energy@.len() != 4 * GGX_ENERGY_LEN || sheen@.len() != 4 * LTC_SHEEN_LEN),
        r matches Err(which) ==> which == if energy@.len() != 4 * GGX_ENERGY_LEN {
            WrongSize::Energy
        } else {
            WrongSize::Sheen
        },
        r matches Ok(bytes) ==> bytes@ == energy@ + sheen@,
{
    if energy.len() != 4 * GGX_ENERGY_LEN {
        return Err(WrongSize::Energy);
    }
    if sheen.len() != 4 * LTC_SHEEN_LEN {
        return Err(WrongSize::Sheen);
    }
    let mut bytes: Vec<u8> = Vec::new();
    bytes.extend_from_slice(energy.as_slice());
    bytes.extend_from_slice(sheen.as_slice());
    assert(bytes@ =~= energy@ + sheen@);
    Ok(bytes)
}

/// Number `index` of the table that starts at `start`.
pub open spec fn entry(bytes: Seq<u8>, start: int, index: int) -> Seq<u8> {
    bytes.subrange(4 * (start + index), 4 * (start + index) + 4)
}

/// Every number of the sheen table is where its plane says, and every number
/// of the energy tables where it was in their own file.
pub proof fn entries_stay_in_their_tables(energy: Seq<u8>, sheen: Seq<u8>, start: int, index: int)
    requires
        energy.len() == 4 * GGX_ENERGY_LEN,
        sheen.len() == 4 * LTC_SHEEN_LEN,
        0 <= start,
        0 <= index,
        start + index < GGX_ENERGY_LEN + LTC_SHEEN_LEN,
    ensures
        start + index < GGX_ENERGY_LEN ==> entry(energy + sheen, start, index) == entry(
            energy,
            start,
            index,
        ),
        start >= GGX_ENERGY_LEN ==> entry(energy + sheen, start, index) == entry(
            sheen,
            start - GGX_ENERGY_LEN,
            index,
        ),
{
    let whole = energy + sheen;
    if start + index < GGX_ENERGY_LEN {
        assert(entry(whole, start, index) =~= entry(energy, start, index));
    }
    if start >= GGX_ENERGY_LEN {
        assert(entry(whole, start, index) =~= entry(sheen, start - GGX_ENERGY_LEN, index));
    }
}

// -- Baking ---------------------------------------------------------------------------

/// One number of the energy tables, by the points of its axes.
#[derive(Clone, Copy, Debug, PartialEq, Eq, Structural)]
pub enum Energy {
    /// Of a rough reflection.
    Reflection {
        /// The roughness.
        rough: usize,
        /// The view.
        view: usize,
    },
    /// Its average over the views.
    ReflectionAverage {
        /// The roughness.
        rough: usize,
    },
    /// Of rough glass.
    Glass {
        /// Whether it is seen from inside.
        inverted: bool,
        /// The roughness.
        rough: usize,
        /// The view.
        view: usize,
        /// The index of refraction.
        index: usize,
    },
    /// Its average over the views.
    GlassAverage {
        /// Whether it is seen from inside.
        inverted: bool,
        /// The roughness.
        rough: usize,
        /// The index of refraction.
        index: usize,
    },
    /// The albedo of a dielectric.
    Dielectric {
        /// The roughness.
        rough: usize,
        /// The view.
        view: usize,
        /// The index of refraction.
        index: usize,
    },
}

/// Which number stands at place `i` of the energy tables. Roughness varies
/// fastest, then the view, then the index.
pub open spec fn energy_at(i: int) -> Energy {
    if i < TABLE_GGX_E_AVG {
        Energy::Reflection { rough: (i % 32) as usize, view: (i / 32) as usize }
    } else if i < TABLE_GLASS_E {
        Energy::ReflectionAverage { rough: (i - TABLE_GGX_E_AVG) as usize }
    } else if i < TABLE_GLASS_E_AVG {
        let k = i - TABLE_GLASS_E;
        Energy::Glass {
            inverted: false,
            rough: (k % 16) as usize,
            view: (k / 16 % 16) as usize,
            index: (k / 256) as usize,
        }
    } else if i < TABLE_GLASS_INV_E {
        let k = i - TABLE_GLASS_E_AVG;
        Energy::GlassAverage { inverted: false, rough: (k % 16) as usize, index: (k / 16) as usize }
    } else if i < TABLE_GLASS_INV_E_AVG {
        let k = i - TABLE_GLASS_INV_E;
        Energy::Glass {
            inverted: true,
            rough: (k % 16) as usize,
            view: (k / 16 % 16) as usize,
            index: (k / 256) as usize,
        }
    } else if i < TABLE_DIELECTRIC_E {
        let k = i - TABLE_GLASS_INV_E_AVG;
        Energy::GlassAverage { inverted: true, rough: (k % 16) as usize, index: (k / 16) as usize }
    } else {
        let k = i - TABLE_DIELECTRIC_E;
        Energy::Dielectric {
            rough: (k % 16) as usize,
            view: (k / 16 % 16) as usize,
            index: (k / 256) as usize,
        }
    }
}

/// The points of three axes, read back from a place.
proof fn points_read_back(rough: int, view: int, index: int)
    requires
        0 <= rough < GLASS_SIZE,
        0 <= view < GLASS_SIZE,
        0 <= index < GLASS_SIZE,
    ensures
        ({
            let place = GLASS_SIZE * (GLASS_SIZE * index + view) + rough;
            &&& 0 <= place < GLASS_SIZE * GLASS_SIZE * GLASS_SIZE
            &&& place % 16 == rough
            &&& place / 16 % 16 == view
            &&& place / 256 == index
        }),
{
    let row = 16 * index + view;
    let place = 16 * row + rough;
    assert(place / 16 == row);
    assert(row % 16 == view);
    assert(place / 256 == index);
}

/// A number of rough glass is where a kernel looks for it: from the start of its
/// table, its point on the first axis, and the points on the others times the
/// sizes of those before them.
pub proof fn glass_stands_where_kernels_look(rough: int, view: int, index: int, inverted: bool)
    requires
        0 <= rough < GLASS_SIZE,
        0 <= view < GLASS_SIZE,
        0 <= index < GLASS_SIZE,
    ensures
        ({
            let start = if inverted {
                TABLE_GLASS_INV_E
            } else {
                TABLE_GLASS_E
            };
            energy_at(start + GLASS_SIZE * (GLASS_SIZE * index + view) + rough) == Energy::Glass {
                inverted,
                rough: rough as usize,
                view: view as usize,
                index: index as usize,
            }
        }),
{
    points_read_back(rough, view, index);
    let place = GLASS_SIZE * (GLASS_SIZE * index + view) + rough;
    if inverted {
        let i = TABLE_GLASS_INV_E + place;
        assert(TABLE_GLASS_INV_E <= i < TABLE_GLASS_INV_E_AVG);
        assert(i - TABLE_GLASS_INV_E == place);
    } else {
        let i = TABLE_GLASS_E + place;
        assert(TABLE_GLASS_E <= i < TABLE_GLASS_E_AVG);
        assert(i - TABLE_GLASS_E == place);
    }
}

/// The albedo of a dielectric is where a kernel looks for it, in the same way.
pub proof fn dielectrics_stand_where_kernels_look(rough: int, view: int, index: int)
    requires
        0 <= rough < GLASS_SIZE,
        0 <= view < GLASS_SIZE,
        0 <= index < GLASS_SIZE,
    ensures
        energy_at(TABLE_DIELECTRIC_E + GLASS_SIZE * (GLASS_SIZE * index + view) + rough) == (
        Energy::Dielectric { rough: rough as usize, view: view as usize, index: index as usize }),
{
    points_read_back(rough, view, index);
    let place = GLASS_SIZE * (GLASS_SIZE * index + view) + rough;
    let i = TABLE_DIELECTRIC_E + place;
    assert(TABLE_DIELECTRIC_E <= i);
    assert(i - TABLE_DIELECTRIC_E == place);
}

/// The energies of a rough reflection, and the averages, are where a kernel looks
/// for them, in the same way.
pub proof fn averages_stand_where_kernels_look(rough: int, view: int, index: int)
    requires
        0 <= rough,
        0 <= view,
        0 <= index,
    ensures
        rough < GGX_SIZE && view < GGX_SIZE ==> energy_at(TABLE_GGX_E + GGX_SIZE * view + rough)
            == (Energy::Reflection { rough: rough as usize, view: view as usize }),
        rough < GGX_SIZE ==> energy_at(TABLE_GGX_E_AVG + rough) == (Energy::ReflectionAverage {
            rough: rough as usize,
        }),
        rough < GLASS_SIZE && index < GLASS_SIZE ==> energy_at(
            TABLE_GLASS_E_AVG + GLASS_SIZE * index + rough,
        ) == (Energy::GlassAverage {
            inverted: false,
            rough: rough as usize,
            index: index as usize,
        }),
        rough < GLASS_SIZE && index < GLASS_SIZE ==> energy_at(
            TABLE_GLASS_INV_E_AVG + GLASS_SIZE * index + rough,
        ) == (Energy::GlassAverage {
            inverted: true,
            rough: rough as usize,
            index: index as usize,
        }),
{
    if rough < GGX_SIZE && view < GGX_SIZE {
        let i = GGX_SIZE * view + rough;
        assert(i % 32 == rough && i / 32 == view);
    }
    if rough < GLASS_SIZE && index < GLASS_SIZE {
        let k = GLASS_SIZE * index + rough;
        assert(0 <= k < 256 && k % 16 == rough && k / 16 == index);
        assert(TABLE_GLASS_E_AVG + k - TABLE_GLASS_E_AVG == k);
        assert(TABLE_GLASS_INV_E_AVG + k - TABLE_GLASS_INV_E_AVG == k);
    }
}

/// Which number stands at a place of the energy tables.
fn find_energy(i: usize) -> (r: Energy)
    requires
        i < GGX_ENERGY_LEN,
    ensures
        r == energy_at(i as int),
{
    if i < TABLE_GGX_E_AVG {
        Energy::Reflection { rough: i % 32, view: i / 32 }
    } else if i < TABLE_GLASS_E {
        Energy::ReflectionAverage { rough: i - TABLE_GGX_E_AVG }
    } else if i < TABLE_GLASS_E_AVG {
        let k: usize = i - TABLE_GLASS_E;
        Energy::Glass { inverted: false, rough: k % 16, view: k / 16 % 16, index: k / 256 }
    } else if i < TABLE_GLASS_INV_E {
        let k: usize = i - TABLE_GLASS_E_AVG;
        Energy::GlassAverage { inverted: false, rough: k % 16, index: k / 16 }
    } else if i < TABLE_GLASS_INV_E_AVG {
        let k: usize = i - TABLE_GLASS_INV_E;
        Energy::Glass { inverted: true, rough: k % 16, view: k / 16 % 16, index: k / 256 }
    } else if i < TABLE_DIELECTRIC_E {
        let k: usize = i - TABLE_GLASS_INV_E_AVG;
        Energy::GlassAverage { inverted: true, rough: k % 16, index: k / 16 }
    } else {
        let k: usize = i - TABLE_DIELECTRIC_E;
        Energy::Dielectric { rough: k % 16, view: k / 16 % 16, index: k / 256 }
    }
}

/// Bake the energy tables: every number in its place, as `bake` computes it.
pub fn ggx_energy_blob<B: Fn(Energy) -> Num>(bake: &B) -> (r: Vec<Num>)
    requires
        forall|entry: Energy| call_requires(*bake, (entry,)),
    ensures
        r@.len() == GGX_ENERGY_LEN,
        forall|i: int|
            0 <= i < GGX_ENERGY_LEN ==> call_ensures(*bake, (energy_at(i),), #[trigger] r@[i]),
{
    let mut blob: Vec<Num> = Vec::new();
    for i in 0..GGX_ENERGY_LEN
        invariant
            forall|entry: Energy| call_requires(*bake, (entry,)),
            blob@.len() == i,
            forall|k: int| 0 <= k < i ==> call_ensures(*bake, (energy_at(k),), #[trigger] blob@[k]),
    {
        blob.push(bake(find_energy(i)));
    }
    blob
}

} // verus!
