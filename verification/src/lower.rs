//! Lowering: from a description to what the renderer is handed.
//!
//! Everything that can fail on what a user wrote happens here, before
//! anything resident is touched. Names resolve, textures get their index,
//! materials and media their values, and every instance unfolds into its
//! placements and lights. Order is name order throughout, so that what an
//! edit leads to is what a fresh build would have led to.
//!
//! Files are read by the caller, who is told which; the arithmetic is the
//! caller's too.


use vstd::prelude::*;
use vstd::string::*;

use crate::bits::{Num, Vec3, Vec4, ONE};
use crate::changeset;
use crate::changeset::{Dirty, DirtySets, Kind, ObjectSet};
use crate::dds::Prepared;
use crate::description;
use crate::description::{Channel, ColorSpace, Model, SceneDescription, Texturable, TextureRef};
use crate::error::{Problem, SceneError};
use crate::formula;
use crate::formula::{ask_affine, ask_number, ask_truth, ask_vector, Answer, Formula, Rows};
use crate::material::{Material, TEXTURE_NONE};
use crate::media;
use crate::media::{interior, GridVolume, Medium};
use crate::mesh::Mesh;
use crate::path::FilePath;
use crate::scene::{Camera, DeltaLight, Lens};
use crate::table;
use crate::table::{Ranked, Table};
use crate::texture::{Identity, Key, Params, Usage};
use crate::validate;
use crate::value::{Duplicate, Same};

verus! {

// -- Textures ------------------------------------------------------------------------

/// What a texture slot feeds, by its place among the slots of a material.
pub open spec fn slot_usage(i: int) -> Usage {
    if i == 0 || i == 3 || i == 7 {
        Usage::Color
    } else if i == 5 {
        Usage::Normal
    } else if i == 9 {
        Usage::Vector
    } else {
        Usage::Scalar
    }
}

/// What a texture slot feeds.
fn usage_of(i: usize) -> (r: Usage)
    requires
        i < 11,
    ensures
        r == slot_usage(i as int),
{
    match i {
        0 | 3 | 7 => Usage::Color,
        5 => Usage::Normal,
        9 => Usage::Vector,
        _ => Usage::Scalar,
    }
}

/// The texture that a reference asks for where it feeds `usage`. A normal map
/// is always linear and takes no factor, and only a mask picks a component:
/// where a reference says so all the same, it makes no other texture.
pub open spec fn key_for(reference: TextureRef, usage: Usage) -> Key {
    Key {
        path: reference.path,
        usage,
        srgb: if usage == Usage::Normal {
            None
        } else {
            match reference.color_space {
                Some(space) => Some(space == ColorSpace::Srgb),
                None => None,
            }
        },
        channel: if usage == Usage::Scalar {
            match reference.channel {
                Some(channel) => channel,
                None => Channel::R,
            }
        } else {
            Channel::R
        },
        params: Params::new(
            match reference.uv {
                Some(uv) => Some((uv.scale, uv.offset)),
                None => None,
            },
            if usage == Usage::Normal {
                None
            } else {
                reference.scale
            },
        ),
    }
}

/// The texture that a reference asks for where it feeds `usage`.
pub fn texture_key(reference: &TextureRef, usage: Usage) -> (r: Key)
    ensures
        r == key_for(*reference, usage),
{
    let srgb = match usage {
        Usage::Normal => None,
        _ => match reference.color_space {
            Some(space) => Some(space == ColorSpace::Srgb),
            None => None,
        },
    };
    let channel = match usage {
        Usage::Scalar => match reference.channel {
            Some(channel) => channel,
            None => Channel::R,
        },
        _ => Channel::R,
    };
    let scale = match usage {
        Usage::Normal => None,
        _ => reference.scale,
    };
    let uv = match reference.uv {
        Some(uv) => Some((uv.scale, uv.offset)),
        None => None,
    };
    Key {
        path: reference.path.duplicate(),
        usage,
        srgb,
        channel,
        params: Params::new(uv, scale),
    }
}

/// The textures that a material's slots ask for, by slot.
pub open spec fn slot_keys(material: description::Material) -> Seq<Option<Key>> {
    Seq::new(
        11,
        |i: int|
            match material.slots()[i] {
                Some(reference) => Some(key_for(reference, slot_usage(i))),
                None => None,
            },
    )
}

/// The texture that a slot of a material asks for.
fn slot_key(material: &description::Material, i: usize) -> (r: Option<Key>)
    requires
        i < 11,
    ensures
        r == slot_keys(*material)[i as int],
{
    match material.slot(i) {
        Some(reference) => Some(texture_key(reference, usage_of(i))),
        None => None,
    }
}

/// Every texture that a material asks for, in slot order.
pub fn texture_keys(material: &description::Material) -> (r: Vec<Key>)
    ensures
        r@ == description::present(slot_keys(*material)),
{
    let mut found: Vec<Key> = Vec::new();
    let ghost slots = slot_keys(*material);
    assert(slots.take(0) =~= Seq::<Option<Key>>::empty());
    for i in 0..11usize
        invariant
            slots == slot_keys(*material),
            found@ == description::present(slots.take(i as int)),
    {
        assert(slots.take(i + 1).drop_last() =~= slots.take(i as int));
        if let Some(key) = slot_key(material, i) {
            found.push(key);
        }
    }
    assert(slots.take(11) =~= slots);
    found
}

/// A material asks for a texture.
pub open spec fn asks(material: description::Material, key: Identity) -> bool {
    exists|i: int|
        0 <= i < 11 && (#[trigger] slot_keys(material)[i] matches Some(asked) && asked@ == key)
}

/// Some material asks for a texture.
pub open spec fn referenced(
    materials: Map<Seq<char>, description::Material>,
    key: Identity,
) -> bool {
    exists|name: Seq<char>| #[trigger]
        materials.dom().contains(name) && asks(materials[name], key)
}

/// Some material that changed asks for a texture.
pub open spec fn touched(
    materials: Map<Seq<char>, description::Material>,
    changed: Set<(Kind, Seq<char>)>,
    key: Identity,
) -> bool {
    exists|name: Seq<char>| #[trigger]
        materials.dom().contains(name) && changed.contains((Kind::Material, name)) && asks(
            materials[name],
            key,
        )
}

/// What is to be done about a texture.
#[derive(Clone, Copy, Debug, PartialEq, Eq, Structural)]
pub enum Need {
    /// It is resident, and nothing says that it changed.
    Keep,
    /// It is not resident: prepare it.
    Prepare,
    /// It is resident with this hash, and a material that asks for it changed:
    /// see whether its source did.
    Check(u64),
}

/// What is to be done about a texture.
pub open spec fn need(resident: Map<Identity, u64>, key: Identity, touched: bool) -> Need {
    if !resident.dom().contains(key) {
        Need::Prepare
    } else if touched {
        Need::Check(resident[key])
    } else {
        Need::Keep
    }
}

/// After preparing a texture that was to be checked: whether what came out is
/// another one than is resident, and has to take its place.
pub fn supersedes(hash: u64, prepared: &Prepared) -> (r: bool)
    ensures
        r == (hash != prepared.hash),
{
    hash != prepared.hash
}

/// A texture that is in the table of wants, with whether it was touched.
pub open spec fn wanted(
    materials: Map<Seq<char>, description::Material>,
    changed: Set<(Kind, Seq<char>)>,
    wants: Map<Identity, bool>,
) -> bool {
    forall|key: Identity| #![trigger wants.dom().contains(key)]
        wants.dom().contains(key) == referenced(materials, key) && (wants.dom().contains(key)
            ==> wants[key] == touched(materials, changed, key))
}

/// The textures that materials ask for, and whether a changed one does.
pub fn texture_wants(
    materials: &Table<String, description::Material>,
    dirty: &Dirty,
) -> (r: Table<Key, bool>)
    ensures
        wanted(materials@, dirty@.changed, r@),
{
    let mut wants: Table<Key, bool> = Table::new();
    let count: usize = materials.len();
    let ghost names = table::ranking::<String>(materials@.dom());
    for n in 0..count
        invariant
            materials.ranked(),
            count == materials.listed().len(),
            names == table::ranking::<String>(materials@.dom()),
            forall|key: Identity| #![trigger wants@.dom().contains(key)]
                wants@.dom().contains(key) == (exists|m: int|
                    0 <= m < n && asks(materials@[#[trigger] names[m]], key)) && (
                wants@.dom().contains(key) ==> wants@[key] == (exists|m: int|
                    0 <= m < n && dirty@.changed.contains((Kind::Material, names[m])) && asks(
                        materials@[#[trigger] names[m]],
                        key,
                    ))),
    {
        let name = materials.key_at(n);
        let material = materials.value_at(n);
        let noisy = dirty.changed.contains(Kind::Material, name);
        let ghost before = wants@;
        assert(names[n as int] == name@);
        let ghost slots = slot_keys(*material);
        for i in 0..11usize
            invariant
                slots == slot_keys(*material),
                forall|key: Identity| #![trigger wants@.dom().contains(key)]
                    wants@.dom().contains(key) == (before.dom().contains(key) || exists|k: int|
                        0 <= k < i && (#[trigger] slots[k] matches Some(asked) && asked@ == key))
                        && (wants@.dom().contains(key) ==> wants@[key] == ((
                    before.dom().contains(key) && before[key]) || (noisy && exists|k: int|
                        0 <= k < i && (#[trigger] slots[k] matches Some(asked) && asked@ == key)))),
        {
            let ghost earlier = wants@;
            match slot_key(material, i) {
                Some(key) => {
                    let ghost id = key@;
                    let marked = match wants.get(&key) {
                        Some(marked) => *marked,
                        None => false,
                    };
                    wants.insert(key, marked || noisy);
                    proof {
                        assert(slots[i as int] matches Some(asked) && asked@ == id);
                    }
                },
                None => {},
            }
            proof {
                assert forall|key: Identity| #![trigger wants@.dom().contains(key)]
                    wants@.dom().contains(key) == (before.dom().contains(key) || exists|k: int|
                        0 <= k < i + 1 && (#[trigger] slots[k] matches Some(asked) && asked@
                            == key)) && (wants@.dom().contains(key) ==> wants@[key] == ((
                    before.dom().contains(key) && before[key]) || (noisy && exists|k: int|
                        0 <= k < i + 1 && (#[trigger] slots[k] matches Some(asked) && asked@
                            == key)))) by {
                    assert(earlier.dom().contains(key) == (before.dom().contains(key) || exists|
                        k: int,
                    |
                        0 <= k < i && (#[trigger] slots[k] matches Some(asked) && asked@ == key)));
                }
            }
        }
        proof {
            assert forall|key: Identity| #![trigger wants@.dom().contains(key)]
                wants@.dom().contains(key) == (exists|m: int|
                    0 <= m < n + 1 && asks(materials@[#[trigger] names[m]], key)) && (
                wants@.dom().contains(key) ==> wants@[key] == (exists|m: int|
                    0 <= m < n + 1 && dirty@.changed.contains((Kind::Material, names[m])) && asks(
                        materials@[#[trigger] names[m]],
                        key,
                    ))) by {
                let now = asks(materials@[names[n as int]], key);
                assert(now == exists|k: int|
                    0 <= k < 11 && (#[trigger] slots[k] matches Some(asked) && asked@ == key));
                assert(before.dom().contains(key) == (exists|m: int|
                    0 <= m < n && asks(materials@[#[trigger] names[m]], key)));
                if wants@.dom().contains(key) && !before.dom().contains(key) {
                    assert(now);
                }
            }
        }
    }
    proof {
        assert forall|key: Identity| #![trigger wants@.dom().contains(key)]
            wants@.dom().contains(key) == referenced(materials@, key) && (wants@.dom().contains(key)
                ==> wants@[key] == touched(materials@, dirty@.changed, key)) by {
            names_cover(materials, key, dirty@.changed);
        }
    }
    wants
}

/// Going through the names of a table comes past every entry.
proof fn names_cover(
    materials: &Table<String, description::Material>,
    key: Identity,
    changed: Set<(Kind, Seq<char>)>,
)
    requires
        materials.ranked(),
    ensures
        ({
            let names = table::ranking::<String>(materials@.dom());
            &&& referenced(materials@, key) == (exists|m: int|
                0 <= m < names.len() && asks(materials@[#[trigger] names[m]], key))
            &&& touched(materials@, changed, key) == (exists|m: int|
                0 <= m < names.len() && changed.contains((Kind::Material, names[m])) && asks(
                    materials@[#[trigger] names[m]],
                    key,
                ))
        }),
{
    let names = table::ranking::<String>(materials@.dom());
    let entries = materials.listed();
    assert forall|m: int| 0 <= m < names.len() implies materials@.dom().contains(
        #[trigger] names[m],
    ) by {
        assert(entries[m].0@ == names[m]);
    }
    assert forall|name: Seq<char>| #[trigger] materials@.dom().contains(name) implies exists|m: int|
        0 <= m < names.len() && #[trigger] names[m] == name by {
        let m = table::position::<String, description::Material>(entries, name);
        assert(entries[m].0@ == name);
        assert(names[m] == name);
    }
    if referenced(materials@, key) {
        let name = choose|name: Seq<char>| #[trigger]
            materials@.dom().contains(name) && asks(materials@[name], key);
        let m = choose|m: int| 0 <= m < names.len() && #[trigger] names[m] == name;
        assert(asks(materials@[names[m]], key));
    }
    if touched(materials@, changed, key) {
        let name = choose|name: Seq<char>| #[trigger]
            materials@.dom().contains(name) && changed.contains((Kind::Material, name)) && asks(
                materials@[name],
                key,
            );
        let m = choose|m: int| 0 <= m < names.len() && #[trigger] names[m] == name;
        assert(asks(materials@[names[m]], key));
    }
}

/// The textures that materials ask for.
pub open spec fn asked_for(materials: Map<Seq<char>, description::Material>) -> Set<Identity> {
    Set::new(|key: Identity| referenced(materials, key))
}

/// What is to be done about every texture that materials ask for, unless they
/// ask for more than can be bound.
pub fn texture_plan(
    materials: &Table<String, description::Material>,
    dirty: &Dirty,
    resident: &Table<Key, u64>,
    limit: usize,
) -> (r: Result<Table<Key, Need>, SceneError>)
    ensures
        asked_for(materials@).finite(),
        r is Err == (asked_for(materials@).len() > limit),
        r matches Err(error) ==> error@ == (Problem::<Seq<char>>::TooManyTextures {
            count: asked_for(materials@).len() as usize,
            limit,
        }),
        r matches Ok(plan) ==> plan@.dom() == asked_for(materials@) && forall|key: Identity|
            #[trigger] plan@.dom().contains(key) ==> plan@[key] == need(
                resident@,
                key,
                touched(materials@, dirty@.changed, key),
            ),
{
    let wants = texture_wants(materials, dirty);
    let count: usize = wants.len();
    assert(wants@.dom() =~= asked_for(materials@));
    if count > limit {
        return Err(Problem::TooManyTextures { count, limit });
    }
    let mut plan: Table<Key, Need> = Table::new();
    let ghost names = table::ranking::<Key>(wants@.dom());
    for i in 0..count
        invariant
            wants.ranked(),
            count == wants.listed().len(),
            names == table::ranking::<Key>(wants@.dom()),
            forall|key: Identity| #![trigger plan@.dom().contains(key)]
                plan@.dom().contains(key) == (exists|j: int|
                    0 <= j < i && #[trigger] names[j] == key),
            forall|key: Identity| #[trigger]
                plan@.dom().contains(key) ==> plan@[key] == need(resident@, key, wants@[key]),
    {
        let key = wants.key_at(i);
        let noisy = *wants.value_at(i);
        assert(names[i as int] == key@);
        let action = match resident.get(key) {
            None => Need::Prepare,
            Some(hash) => if noisy {
                Need::Check(*hash)
            } else {
                Need::Keep
            },
        };
        let ghost before = plan@;
        plan.insert(key.duplicate(), action);
        proof {
            assert forall|key: Identity| #![trigger plan@.dom().contains(key)]
                plan@.dom().contains(key) == (exists|j: int|
                    0 <= j < i + 1 && #[trigger] names[j] == key) by {
                assert(before.dom().contains(key) == (exists|j: int|
                    0 <= j < i && #[trigger] names[j] == key));
                if key == names[i as int] {
                    assert(names[i as int] == key);
                }
            }
        }
    }
    proof {
        assert forall|key: Identity| plan@.dom().contains(key) == wants@.dom().contains(key) by {
            let entries = wants.listed();
            if wants@.dom().contains(key) {
                let j = table::position::<Key, bool>(entries, key);
                assert(entries[j].0@ == key);
                assert(names[j] == key);
            }
            if plan@.dom().contains(key) {
                let j = choose|j: int| 0 <= j < count && #[trigger] names[j] == key;
                assert(entries[j].0@ == names[j]);
            }
        }
        assert(plan@.dom() =~= asked_for(materials@));
    }
    Ok(plan)
}

/// The index of a texture: its place among all of them, in the order of their
/// keys.
pub open spec fn texture_index(keys: Set<Identity>, key: Identity) -> int {
    table::ranking::<Key>(keys).index_of(key)
}

/// The index of every texture.
pub open spec fn indexed(keys: Set<Identity>) -> Map<Identity, u32> {
    Map::new(|key: Identity| keys.contains(key), |key: Identity| texture_index(keys, key) as u32)
}

/// The index of every texture in a table.
pub fn texture_indices<V>(textures: &Table<Key, V>) -> (r: Table<Key, u32>)
    requires
        textures@.dom().len() <= u32::MAX,
    ensures
        r@ == indexed(textures@.dom()),
{
    let mut indices: Table<Key, u32> = Table::new();
    let count: usize = textures.len();
    let ghost keys = textures@.dom();
    let ghost names = table::ranking::<Key>(keys);
    for i in 0..count
        invariant
            textures.ranked(),
            table::ascending(textures.listed()),
            count == textures.listed().len(),
            count <= u32::MAX,
            keys == textures@.dom(),
            names == table::ranking::<Key>(keys),
            forall|key: Identity| #![trigger indices@.dom().contains(key)]
                indices@.dom().contains(key) == (exists|j: int|
                    0 <= j < i && #[trigger] names[j] == key),
            forall|key: Identity| #[trigger]
                indices@.dom().contains(key) ==> indices@[key] == texture_index(keys, key),
    {
        let key = textures.key_at(i);
        let ghost before = indices@;
        proof {
            assert(names[i as int] == key@);
            assert(names.contains(key@));
            let k = names.index_of(key@);
            if k != i {
                let entries = textures.listed();
                Key::never_precedes_itself(key@);
                assert(entries[k].0@ == names[k]);
                if k < i {
                    assert(Key::precedes(entries[k].0@, entries[i as int].0@));
                } else {
                    assert(Key::precedes(entries[i as int].0@, entries[k].0@));
                }
            }
        }
        indices.insert(key.duplicate(), i as u32);
        proof {
            assert forall|key: Identity| #![trigger indices@.dom().contains(key)]
                indices@.dom().contains(key) == (exists|j: int|
                    0 <= j < i + 1 && #[trigger] names[j] == key) by {
                assert(before.dom().contains(key) == (exists|j: int|
                    0 <= j < i && #[trigger] names[j] == key));
                if key == names[i as int] {
                    assert(names[i as int] == key);
                }
            }
        }
    }
    proof {
        let entries = textures.listed();
        assert forall|key: Identity| indices@.dom().contains(key) == keys.contains(key) by {
            if keys.contains(key) {
                let j = table::position::<Key, V>(entries, key);
                assert(entries[j].0@ == key);
                assert(names[j] == key);
            }
            if indices@.dom().contains(key) {
                let j = choose|j: int| 0 <= j < count && #[trigger] names[j] == key;
                assert(entries[j].0@ == names[j]);
            }
        }
        assert(indices@ =~= indexed(keys));
    }
    indices
}

// -- Materials -----------------------------------------------------------------------

/// A parameter's value, or a stand-in where a texture says it.
pub open spec fn constant<T>(value: Texturable<T>, stand_in: T) -> T {
    match value {
        Texturable::Constant(constant) => constant,
        Texturable::Texture(_) => stand_in,
    }
}

/// A parameter's value, or a stand-in where a texture says it.
pub fn constant_or<T: Copy>(value: &Texturable<T>, stand_in: T) -> (r: T)
    ensures
        r == constant(*value, stand_in),
{
    match value {
        Texturable::Constant(constant) => *constant,
        Texturable::Texture(_) => stand_in,
    }
}

/// The index of the texture in a slot, or none.
pub open spec fn slot_index(indices: Map<Identity, u32>, key: Option<Key>) -> u32 {
    match key {
        Some(key) => indices[key@],
        None => TEXTURE_NONE,
    }
}

/// The index of the texture in a slot.
fn find_slot(indices: &Table<Key, u32>, source: &description::Material, i: usize) -> (r: u32)
    requires
        i < 11,
        slot_keys(*source)[i as int] matches Some(key) ==> indices@.dom().contains(key@),
    ensures
        r == slot_index(indices@, slot_keys(*source)[i as int]),
{
    match slot_key(source, i) {
        None => TEXTURE_NONE,
        Some(key) => match indices.get(&key) {
            Some(index) => *index,
            None => TEXTURE_NONE,
        },
    }
}

/// A material, lowered: colors go to the working space, and weights are held
/// in the ranges that the kernels take them to be in. Where a texture says a
/// value, a stand-in takes its place: the usual value where the texture
/// replaces it, the one that changes nothing where it multiplies, and for the
/// subsurface weight that the lobe is there. What is emitted leaves through
/// the coat.
pub open spec fn lowered<M: Fn(Formula) -> Answer>(
    maths: M,
    source: description::Material,
    indices: Map<Identity, u32>,
) -> Material {
    let coat_weight = source.coat_weight.held(Num::new(0), Num::new(ONE));
    let coat_color = formula::vector(maths, Formula::WorkingSpace(source.coat_color)).floored();
    let emission = formula::vector(
        maths,
        Formula::Emission {
            color: formula::vector(
                maths,
                Formula::WorkingSpace(constant(source.emission_color, Vec3::new(ONE, ONE, ONE))),
            ),
            luminance: source.emission_luminance,
            coat_color,
            coat_weight,
        },
    );
    Material {
        base_color: formula::vector(maths, Formula::WorkingSpace(constant(source.base_color, Vec3::new(0x3f4c_cccd, 0x3f4c_cccd, 0x3f4c_cccd)))),
        diffuse_roughness: source.base_diffuse_roughness.held(Num::new(0), Num::new(ONE)),
        metalness: constant(source.base_metalness, Num::new(0)).held(Num::new(0), Num::new(ONE)),
        specular_weight: source.specular_weight.raised(Num::new(0)),
        specular_roughness: constant(source.specular_roughness, Num::new(0x3e99_999a)),
        specular_ior: source.specular_ior.raised(Num::new(0x38d1_b717)),
        transmission_weight: source.transmission_weight.held(Num::new(0), Num::new(ONE)),
        transmission_color: formula::vector(maths, Formula::WorkingSpace(source.transmission_color)).bounded(),
        transmission_depth: source.transmission_depth.raised(Num::new(0)),
        transmission_scatter: formula::vector(maths, Formula::WorkingSpace(source.transmission_scatter)).floored(),
        transmission_scatter_anisotropy: source.transmission_scatter_anisotropy,
        subsurface_weight: constant(source.subsurface_weight, Num::new(ONE)).held(Num::new(0), Num::new(ONE)),
        subsurface_color: formula::vector(maths, Formula::WorkingSpace(constant(source.subsurface_color, Vec3::new(0x3f4c_cccd, 0x3f4c_cccd, 0x3f4c_cccd)))).bounded(),
        subsurface_radius: constant(source.subsurface_radius, Num::new(ONE)).raised(Num::new(0)),
        subsurface_radius_scale: constant(source.subsurface_radius_scale, Vec3::new(0x3f80_0000, 0x3f00_0000, 0x3e80_0000)).floored(),
        subsurface_scatter_anisotropy: constant(source.subsurface_scatter_anisotropy, Num::new(0)),
        coat_color: coat_color,
        coat_weight: coat_weight,
        coat_roughness: source.coat_roughness.held(Num::new(0), Num::new(ONE)),
        coat_ior: source.coat_ior.raised(Num::new(ONE)),
        coat_darkening: source.coat_darkening.held(Num::new(0), Num::new(ONE)),
        fuzz_weight: source.fuzz_weight.held(Num::new(0), Num::new(ONE)),
        fuzz_color: formula::vector(maths, Formula::WorkingSpace(source.fuzz_color)).floored(),
        fuzz_roughness: source.fuzz_roughness.held(Num::new(0), Num::new(ONE)),
        opacity: constant(source.geometry_opacity, Num::new(ONE)).held(Num::new(0), Num::new(ONE)),
        thin_walled: source.geometry_thin_walled,
        emission: emission,
        base_color_texture: slot_index(indices, slot_keys(source)[0]),
        metalness_texture: slot_index(indices, slot_keys(source)[1]),
        specular_roughness_texture: slot_index(indices, slot_keys(source)[2]),
        emission_texture: slot_index(indices, slot_keys(source)[3]),
        opacity_texture: slot_index(indices, slot_keys(source)[4]),
        normal_texture: slot_index(indices, slot_keys(source)[5]),
        subsurface_weight_texture: slot_index(indices, slot_keys(source)[6]),
        subsurface_color_texture: slot_index(indices, slot_keys(source)[7]),
        subsurface_radius_texture: slot_index(indices, slot_keys(source)[8]),
        subsurface_radius_scale_texture: slot_index(indices, slot_keys(source)[9]),
        subsurface_scatter_anisotropy_texture: slot_index(indices, slot_keys(source)[10]),
    }
}

/// A material, lowered.
pub fn lower_material<M: Fn(Formula) -> Answer>(
    maths: &M,
    source: &description::Material,
    indices: &Table<Key, u32>,
) -> (r: Material)
    requires
        formula::steady(*maths),
        forall|key: Identity| #[trigger] asks(*source, key) ==> indices@.dom().contains(key),
    ensures
        r == lowered(*maths, *source, indices@),
{
    proof {
        assert forall|i: int| 0 <= i < 11 implies (#[trigger] slot_keys(*source)[i] matches Some(
            key,
        ) ==> indices@.dom().contains(key@)) by {
            if let Some(key) = slot_keys(*source)[i] {
                assert(asks(*source, key@));
            }
        }
    }
    let coat_weight = source.coat_weight.clamp_to(Num::new(0), Num::new(ONE));
    let coat_color = ask_vector(maths, Formula::WorkingSpace(source.coat_color)).floor();
    let color = ask_vector(
        maths,
        Formula::WorkingSpace(constant_or(&source.emission_color, Vec3::new(ONE, ONE, ONE))),
    );
    let emission = ask_vector(
        maths,
        Formula::Emission {
            color,
            luminance: source.emission_luminance,
            coat_color,
            coat_weight,
        },
    );
    Material {
        base_color: ask_vector(maths, Formula::WorkingSpace(constant_or(&source.base_color, Vec3::new(0x3f4c_cccd, 0x3f4c_cccd, 0x3f4c_cccd)))),
        diffuse_roughness: source.base_diffuse_roughness.clamp_to(Num::new(0), Num::new(ONE)),
        metalness: constant_or(&source.base_metalness, Num::new(0)).clamp_to(Num::new(0), Num::new(ONE)),
        specular_weight: source.specular_weight.at_least(Num::new(0)),
        specular_roughness: constant_or(&source.specular_roughness, Num::new(0x3e99_999a)),
        specular_ior: source.specular_ior.at_least(Num::new(0x38d1_b717)),
        transmission_weight: source.transmission_weight.clamp_to(Num::new(0), Num::new(ONE)),
        transmission_color: ask_vector(maths, Formula::WorkingSpace(source.transmission_color)).bound(),
        transmission_depth: source.transmission_depth.at_least(Num::new(0)),
        transmission_scatter: ask_vector(maths, Formula::WorkingSpace(source.transmission_scatter)).floor(),
        transmission_scatter_anisotropy: source.transmission_scatter_anisotropy,
        subsurface_weight: constant_or(&source.subsurface_weight, Num::new(ONE)).clamp_to(Num::new(0), Num::new(ONE)),
        subsurface_color: ask_vector(maths, Formula::WorkingSpace(constant_or(&source.subsurface_color, Vec3::new(0x3f4c_cccd, 0x3f4c_cccd, 0x3f4c_cccd)))).bound(),
        subsurface_radius: constant_or(&source.subsurface_radius, Num::new(ONE)).at_least(Num::new(0)),
        subsurface_radius_scale: constant_or(&source.subsurface_radius_scale, Vec3::new(0x3f80_0000, 0x3f00_0000, 0x3e80_0000)).floor(),
        subsurface_scatter_anisotropy: constant_or(&source.subsurface_scatter_anisotropy, Num::new(0)),
        coat_color: coat_color,
        coat_weight: coat_weight,
        coat_roughness: source.coat_roughness.clamp_to(Num::new(0), Num::new(ONE)),
        coat_ior: source.coat_ior.at_least(Num::new(ONE)),
        coat_darkening: source.coat_darkening.clamp_to(Num::new(0), Num::new(ONE)),
        fuzz_weight: source.fuzz_weight.clamp_to(Num::new(0), Num::new(ONE)),
        fuzz_color: ask_vector(maths, Formula::WorkingSpace(source.fuzz_color)).floor(),
        fuzz_roughness: source.fuzz_roughness.clamp_to(Num::new(0), Num::new(ONE)),
        opacity: constant_or(&source.geometry_opacity, Num::new(ONE)).clamp_to(Num::new(0), Num::new(ONE)),
        thin_walled: source.geometry_thin_walled,
        emission: emission,
        base_color_texture: find_slot(indices, source, 0),
        metalness_texture: find_slot(indices, source, 1),
        specular_roughness_texture: find_slot(indices, source, 2),
        emission_texture: find_slot(indices, source, 3),
        opacity_texture: find_slot(indices, source, 4),
        normal_texture: find_slot(indices, source, 5),
        subsurface_weight_texture: find_slot(indices, source, 6),
        subsurface_color_texture: find_slot(indices, source, 7),
        subsurface_radius_texture: find_slot(indices, source, 8),
        subsurface_radius_scale_texture: find_slot(indices, source, 9),
        subsurface_scatter_anisotropy_texture: find_slot(indices, source, 10),
    }
}

/// The normal map of a material says a color space, which is not heeded.
pub fn ignores_override(source: &description::Material) -> (r: bool)
    ensures
        r == (source.geometry_normal matches Some(reference) && reference.color_space == Some(
            ColorSpace::Srgb,
        )),
{
    match &source.geometry_normal {
        Some(reference) => match reference.color_space {
            Some(ColorSpace::Srgb) => true,
            _ => false,
        },
        None => false,
    }
}

/// A material says what scatters inside, but closes no interior for it to
/// scatter in.
pub fn ignores_scatter<M: Fn(Formula) -> Answer>(maths: &M, material: &Material) -> (r: bool)
    requires
        formula::steady(*maths),
    ensures
        r == (material.transmission_scatter.positive_somewhere() && media::filling(
            *maths,
            *material,
        ) is None),
{
    material.transmission_scatter.is_positive_somewhere() && interior(maths, material).is_none()
}

/// The materials, lowered.
pub open spec fn all_lowered<M: Fn(Formula) -> Answer>(
    maths: M,
    materials: Map<Seq<char>, description::Material>,
    indices: Map<Identity, u32>,
) -> Map<Seq<char>, Material> {
    materials.map_values(|source: description::Material| lowered(maths, source, indices))
}

/// Every material, lowered.
pub fn lower_materials<M: Fn(Formula) -> Answer>(
    maths: &M,
    materials: &Table<String, description::Material>,
    indices: &Table<Key, u32>,
) -> (r: Table<String, Material>)
    requires
        formula::steady(*maths),
        forall|key: Identity| #[trigger]
            referenced(materials@, key) ==> indices@.dom().contains(key),
    ensures
        r@ == all_lowered(*maths, materials@, indices@),
{
    let mut found: Table<String, Material> = Table::new();
    let count: usize = materials.len();
    let ghost names = table::ranking::<String>(materials@.dom());
    for n in 0..count
        invariant
            formula::steady(*maths),
            forall|key: Identity| #[trigger]
                referenced(materials@, key) ==> indices@.dom().contains(key),
            materials.ranked(),
            count == materials.listed().len(),
            names == table::ranking::<String>(materials@.dom()),
            forall|name: Seq<char>| #![trigger found@.dom().contains(name)]
                found@.dom().contains(name) == (exists|m: int|
                    0 <= m < n && #[trigger] names[m] == name),
            forall|name: Seq<char>| #[trigger]
                found@.dom().contains(name) ==> found@[name] == lowered(
                    *maths,
                    materials@[name],
                    indices@,
                ),
    {
        let name = materials.key_at(n);
        let source = materials.value_at(n);
        let ghost before = found@;
        assert(names[n as int] == name@);
        assert forall|key: Identity| #[trigger] asks(*source, key) implies indices@.dom().contains(
            key,
        ) by {
            assert(materials@.dom().contains(name@));
            assert(referenced(materials@, key));
        }
        let material = lower_material(maths, source, indices);
        found.insert(name.duplicate(), material);
        proof {
            assert forall|name: Seq<char>| #![trigger found@.dom().contains(name)]
                found@.dom().contains(name) == (exists|m: int|
                    0 <= m < n + 1 && #[trigger] names[m] == name) by {
                assert(before.dom().contains(name) == (exists|m: int|
                    0 <= m < n && #[trigger] names[m] == name));
                if name == names[n as int] {
                    assert(names[n as int] == name);
                }
            }
        }
    }
    proof {
        let entries = materials.listed();
        assert forall|name: Seq<char>| found@.dom().contains(name) == materials@.dom().contains(
            name,
        ) by {
            if materials@.dom().contains(name) {
                let m = table::position::<String, description::Material>(entries, name);
                assert(entries[m].0@ == name);
                assert(names[m] == name);
            }
            if found@.dom().contains(name) {
                let m = choose|m: int| 0 <= m < count && #[trigger] names[m] == name;
                assert(entries[m].0@ == names[m]);
            }
        }
        assert(found@ =~= all_lowered(*maths, materials@, indices@));
    }
    found
}

// -- The camera and the lights ---------------------------------------------------------

/// A camera, with its lens settled: a positive aperture makes one, focused
/// where the camera says or else at what it looks at.
pub open spec fn settled_camera<M: Fn(Formula) -> Answer>(
    maths: M,
    source: description::Camera,
) -> Camera {
    Camera {
        position: source.position,
        look_at: source.look_at,
        up: source.up,
        vfov_degrees: source.vfov_degrees,
        lens: if Num::new(0).below(source.aperture_radius) {
            Some(
                Lens {
                    aperture_radius: source.aperture_radius,
                    focus_distance: match source.focus_distance {
                        Some(distance) => distance,
                        None => formula::number(
                            maths,
                            Formula::Distance(source.position, source.look_at),
                        ),
                    },
                },
            )
        } else {
            None
        },
    }
}

/// Lower a camera.
pub fn lower_camera<M: Fn(Formula) -> Answer>(maths: &M, source: &description::Camera) -> (r: Camera)
    requires
        formula::steady(*maths),
    ensures
        r == settled_camera(*maths, *source),
{
    let lens = if source.aperture_radius.is_positive() {
        let focus_distance = match source.focus_distance {
            Some(distance) => distance,
            None => ask_number(maths, Formula::Distance(source.position, source.look_at)),
        };
        Some(Lens { aperture_radius: source.aperture_radius, focus_distance })
    } else {
        None
    };
    Camera {
        position: source.position,
        look_at: source.look_at,
        up: source.up,
        vfov_degrees: source.vfov_degrees,
        lens,
    }
}

/// A light as the renderer holds it; one without power is none.
pub open spec fn delta_light<M: Fn(Formula) -> Answer>(maths: M, light: description::Light) -> Option<
    DeltaLight,
> {
    match light {
        description::Light::Distant { direction, irradiance } => {
            let irradiance = formula::vector(maths, Formula::WorkingSpace(irradiance));
            if formula::truth(maths, Formula::Luminous(irradiance)) {
                Some(
                    DeltaLight::Distant {
                        direction: formula::vector(maths, Formula::Unit(direction)),
                        irradiance,
                    },
                )
            } else {
                None
            }
        },
        description::Light::Point { position, intensity } => {
            let intensity = formula::vector(maths, Formula::WorkingSpace(intensity));
            if formula::truth(maths, Formula::Luminous(intensity)) {
                Some(DeltaLight::Point { position, intensity })
            } else {
                None
            }
        },
    }
}

/// Lower a light.
fn lower_light<M: Fn(Formula) -> Answer>(maths: &M, light: &description::Light) -> (r: Option<
    DeltaLight,
>)
    requires
        formula::steady(*maths),
    ensures
        r == delta_light(*maths, *light),
{
    match light {
        description::Light::Distant { direction, irradiance } => {
            let irradiance = ask_vector(maths, Formula::WorkingSpace(*irradiance));
            if ask_truth(maths, Formula::Luminous(irradiance)) {
                let direction = ask_vector(maths, Formula::Unit(*direction));
                Some(DeltaLight::Distant { direction, irradiance })
            } else {
                None
            }
        },
        description::Light::Point { position, intensity } => {
            let intensity = ask_vector(maths, Formula::WorkingSpace(*intensity));
            if ask_truth(maths, Formula::Luminous(intensity)) {
                Some(DeltaLight::Point { position: *position, intensity })
            } else {
                None
            }
        },
    }
}

/// The lights of a scene, in name order, without those that have no power.
pub open spec fn delta_lights<M: Fn(Formula) -> Answer>(
    maths: M,
    lights: Map<Seq<char>, description::Light>,
) -> Seq<DeltaLight> {
    description::present(
        table::ranking::<String>(lights.dom()).map_values(
            |name: Seq<char>| delta_light(maths, lights[name]),
        ),
    )
}

/// Lower the lights of a scene.
pub fn lower_delta_lights<M: Fn(Formula) -> Answer>(
    maths: &M,
    lights: &Table<String, description::Light>,
) -> (r: Vec<DeltaLight>)
    requires
        formula::steady(*maths),
    ensures
        r@ == delta_lights(*maths, lights@),
{
    let mut found: Vec<DeltaLight> = Vec::new();
    let size: usize = lights.len();
    let ghost all = table::ranking::<String>(lights@.dom()).map_values(
        |name: Seq<char>| delta_light(*maths, lights@[name]),
    );
    assert(all.take(0) =~= Seq::<Option<DeltaLight>>::empty());
    for i in 0..size
        invariant
            formula::steady(*maths),
            lights.ranked(),
            size == lights.listed().len(),
            all == table::ranking::<String>(lights@.dom()).map_values(
                |name: Seq<char>| delta_light(*maths, lights@[name]),
            ),
            found@ == description::present(all.take(i as int)),
    {
        let light = lights.value_at(i);
        proof {
            assert(all.take(i + 1).drop_last() =~= all.take(i as int));
            assert(lights.listed()[i as int].0@ == table::ranking::<String>(lights@.dom())[i as int]);
        }
        if let Some(light) = lower_light(maths, light) {
            found.push(light);
        }
    }
    assert(all.take(size as int) =~= all);
    found
}

// -- Media -------------------------------------------------------------------------------

/// What a grid's header says.
#[derive(Clone, Debug, PartialEq, Eq)]
pub struct GridHeader {
    /// The prepared grid file.
    pub nvdb: FilePath,
    /// The map from the grid's own space to its lattice.
    pub asset_to_index: Rows,
    /// The map back.
    pub index_to_asset: Rows,
    /// The lowest corner of the box around what the grid holds, on the lattice.
    pub low: Vec3,
    /// The highest corner.
    pub high: Vec3,
    /// Cells of the majorant lattice along each axis of the box.
    pub majorant_res: [u32; 3],
    /// The map from the same space to the temperature grid's lattice.
    pub temperature: Option<Rows>,
}

/// What reading a medium's grid came to.
#[derive(Clone, Debug, PartialEq, Eq)]
pub enum GridReading {
    /// Its header.
    Header(GridHeader),
    /// It failed, for a reason that the reader words.
    Failed(String),
}

/// A color coefficient in the working space, where a saturated one can land
/// below zero and is raised to it: a medium never amplifies.
pub open spec fn coefficient<M: Fn(Formula) -> Answer>(maths: M, authored: Vec3) -> Vec3 {
    formula::vector(maths, Formula::WorkingSpace(authored)).floored()
}

/// The map from the unit cube to a box.
pub open spec fn boxed(low: Vec3, extent: Vec3) -> Rows {
    let none = Num::new(0);
    Rows {
        x: Vec4 { x: extent.x, y: none, z: none, w: low.x },
        y: Vec4 { x: none, y: extent.y, z: none, w: low.y },
        z: Vec4 { x: none, y: none, z: extent.z, w: low.z },
    }
}

/// A temperature field that is on another lattice than the density.
pub open spec fn mismatched<M: Fn(Formula) -> Answer>(
    maths: M,
    source: description::VolumeSource,
    header: GridHeader,
) -> bool {
    source.temperature_grid is Some && !formula::truth(
        maths,
        Formula::Alike(header.temperature->0, header.asset_to_index),
    )
}

/// A volume as the renderer holds it. The unit cube is stretched over the
/// grid's box, and so is the majorant lattice. A temperature field whose
/// emission is multiplied by nothing is left out.
pub open spec fn gridded<M: Fn(Formula) -> Answer>(
    maths: M,
    source: description::VolumeSource,
    header: GridHeader,
    emission: Vec3,
) -> GridVolume {
    let extent = formula::vector(maths, Formula::Sum(header.high, header.low.opposite()));
    let counts = formula::vector(
        maths,
        Formula::Counts(
            header.majorant_res[0],
            header.majorant_res[1],
            header.majorant_res[2],
        ),
    );
    let scale = formula::vector(maths, Formula::Ratio(counts, extent));
    GridVolume {
        nvdb: header.nvdb,
        grid: source.grid,
        asset_to_index: header.asset_to_index,
        bounds_to_asset: formula::affine(
            maths,
            Formula::Composed(header.index_to_asset, boxed(header.low, extent)),
        ),
        majorant_res: header.majorant_res,
        majorant_scale: scale,
        majorant_bias: formula::vector(maths, Formula::Product(header.low.opposite(), scale)),
        temperature: if emission.never_positive() {
            None
        } else {
            source.temperature_grid
        },
        kelvin_scale: source.temperature_scale,
        kelvin_offset: source.temperature_offset,
        emission,
    }
}

/// Lower a volume. A temperature field has to be on the density's lattice.
pub fn lower_volume<M: Fn(Formula) -> Answer>(
    maths: &M,
    source: &description::VolumeSource,
    header: &GridHeader,
    emission: Vec3,
) -> (r: Result<GridVolume, SceneError>)
    requires
        formula::steady(*maths),
        source.temperature_grid is Some ==> header.temperature is Some,
    ensures
        r is Err == mismatched(*maths, *source, *header),
        r matches Err(error) ==> error@ == (Problem::<Seq<char>>::IndexMaps {
            volume: header.nvdb.text@,
            temperature: source.temperature_grid->0@,
            grid: source.grid@,
            found: header.temperature->0,
            expected: header.asset_to_index,
        }),
        r matches Ok(volume) ==> volume == gridded(*maths, *source, *header, emission),
{
    let mut temperature: Option<String> = None;
    if let Some(name) = &source.temperature_grid {
        if let Some(map) = header.temperature {
            if !ask_truth(maths, Formula::Alike(map, header.asset_to_index)) {
                return Err(
                    Problem::IndexMaps {
                        volume: header.nvdb.text.clone(),
                        temperature: name.clone(),
                        grid: source.grid.clone(),
                        found: map,
                        expected: header.asset_to_index,
                    },
                );
            }
        }
        if !emission.is_never_positive() {
            temperature = Some(name.clone());
        }
    }
    let none = Num::new(0);
    let low = header.low;
    let extent = ask_vector(maths, Formula::Sum(header.high, low.negate()));
    let counts = ask_vector(
        maths,
        Formula::Counts(
            header.majorant_res[0],
            header.majorant_res[1],
            header.majorant_res[2],
        ),
    );
    let majorant_scale = ask_vector(maths, Formula::Ratio(counts, extent));
    let bounds = Rows {
        x: Vec4 { x: extent.x, y: none, z: none, w: low.x },
        y: Vec4 { x: none, y: extent.y, z: none, w: low.y },
        z: Vec4 { x: none, y: none, z: extent.z, w: low.z },
    };
    Ok(
        GridVolume {
            nvdb: header.nvdb.duplicate(),
            grid: source.grid.clone(),
            asset_to_index: header.asset_to_index,
            bounds_to_asset: ask_affine(maths, Formula::Composed(header.index_to_asset, bounds)),
            majorant_res: header.majorant_res,
            majorant_scale,
            majorant_bias: ask_vector(maths, Formula::Product(low.negate(), majorant_scale)),
            temperature,
            kelvin_scale: source.temperature_scale,
            kelvin_offset: source.temperature_offset,
            emission,
        },
    )
}

/// What was read is what a medium asks to be read.
pub open spec fn grid_read(medium: description::Medium, reading: Option<GridReading>) -> bool {
    medium.volume matches Some(source) ==> match reading {
        Some(GridReading::Header(header)) => source.temperature_grid is Some
            ==> header.temperature is Some,
        Some(GridReading::Failed(_)) => true,
        None => false,
    }
}

/// Why a medium is not lowered, if it is not.
pub open spec fn medium_unread<M: Fn(Formula) -> Answer>(
    maths: M,
    medium: description::Medium,
    reading: Option<GridReading>,
) -> Option<Problem<Seq<char>>> {
    match medium.volume {
        None => None,
        Some(source) => match reading {
            Some(GridReading::Failed(words)) => Some(Problem::Told { words: words@ }),
            Some(GridReading::Header(header)) => if mismatched(maths, source, header) {
                Some(
                    Problem::IndexMaps {
                        volume: header.nvdb.text@,
                        temperature: source.temperature_grid->0@,
                        grid: source.grid@,
                        found: header.temperature->0,
                        expected: header.asset_to_index,
                    },
                )
            } else {
                None
            },
            None => None,
        },
    }
}

/// A medium as the renderer holds it.
pub open spec fn lowered_medium<M: Fn(Formula) -> Answer>(
    maths: M,
    medium: description::Medium,
    reading: Option<GridReading>,
) -> Medium {
    Medium {
        absorption: coefficient(maths, medium.absorption),
        scattering: coefficient(maths, medium.scattering),
        anisotropy: medium.anisotropy,
        volume: match medium.volume {
            None => None,
            Some(source) => Some(
                gridded(
                    maths,
                    source,
                    reading->0->Header_0,
                    coefficient(maths, source.emission),
                ),
            ),
        },
    }
}

/// Lower a medium, with what its grid's header says.
pub fn lower_medium<M: Fn(Formula) -> Answer>(
    maths: &M,
    medium: &description::Medium,
    reading: Option<&GridReading>,
) -> (r: Result<Medium, SceneError>)
    requires
        formula::steady(*maths),
        grid_read(*medium, told(reading)),
    ensures
        r is Err == medium_unread(*maths, *medium, told(reading)) is Some,
        r matches Err(error) ==> medium_unread(*maths, *medium, told(reading)) == Some(error@),
        r matches Ok(found) ==> found == lowered_medium(*maths, *medium, told(reading)),
{
    let volume = match &medium.volume {
        None => None,
        Some(source) => match reading {
            Some(GridReading::Header(header)) => {
                let emission = ask_vector(maths, Formula::WorkingSpace(source.emission)).floor();
                match lower_volume(maths, source, header, emission) {
                    Ok(volume) => Some(volume),
                    Err(problem) => {
                        return Err(problem);
                    },
                }
            },
            Some(GridReading::Failed(words)) => {
                return Err(Problem::Told { words: words.clone() });
            },
            None => None,
        },
    };
    Ok(
        Medium {
            absorption: ask_vector(maths, Formula::WorkingSpace(medium.absorption)).floor(),
            scattering: ask_vector(maths, Formula::WorkingSpace(medium.scattering)).floor(),
            anisotropy: medium.anisotropy,
            volume,
        },
    )
}

/// What a reference points to.
pub open spec fn told<T>(reference: Option<&T>) -> Option<T> {
    match reference {
        Some(value) => Some(*value),
        None => None,
    }
}

/// What reading a medium's grid came to, where there was one to read.
pub open spec fn reading_of(readings: Map<Seq<char>, GridReading>, name: Seq<char>) -> Option<
    GridReading,
> {
    if readings.contains_key(name) {
        Some(readings[name])
    } else {
        None
    }
}

/// Why a medium is not lowered, if it is not.
pub open spec fn medium_trouble<M: Fn(Formula) -> Answer>(
    maths: M,
    readings: Map<Seq<char>, GridReading>,
) -> spec_fn(Seq<char>, description::Medium) -> Option<Problem<Seq<char>>> {
    |name: Seq<char>, medium: description::Medium|
        medium_unread(maths, medium, reading_of(readings, name))
}

/// What was read is what the media ask to be read.
pub open spec fn grids_read(
    media: Map<Seq<char>, description::Medium>,
    readings: Map<Seq<char>, GridReading>,
) -> bool {
    forall|name: Seq<char>| #[trigger]
        media.contains_key(name) ==> grid_read(media[name], reading_of(readings, name))
}

/// The media, lowered.
pub open spec fn all_media<M: Fn(Formula) -> Answer>(
    maths: M,
    media: Map<Seq<char>, description::Medium>,
    readings: Map<Seq<char>, GridReading>,
) -> Map<Seq<char>, Medium> {
    Map::new(
        |name: Seq<char>| media.contains_key(name),
        |name: Seq<char>| lowered_medium(maths, media[name], reading_of(readings, name)),
    )
}

/// Lower every medium once, however many things it fills.
pub fn lower_media<M: Fn(Formula) -> Answer>(
    maths: &M,
    media: &Table<String, description::Medium>,
    readings: &Table<String, GridReading>,
) -> (r: Result<Table<String, Medium>, SceneError>)
    requires
        formula::steady(*maths),
        grids_read(media@, readings@),
    ensures
        ({
            let trouble = validate::first_problem(media@, medium_trouble(*maths, readings@));
            &&& r is Err == trouble is Some
            &&& r matches Err(error) ==> trouble == Some(error@)
        }),
        r matches Ok(found) ==> found@ == all_media(*maths, media@, readings@),
{
    let size: usize = media.len();
    let mut found: Table<String, Medium> = Table::new();
    let ghost rule = medium_trouble(*maths, readings@);
    let ghost names = table::ranking::<String>(media@.dom());
    for i in 0..size
        invariant
            formula::steady(*maths),
            grids_read(media@, readings@),
            media.ranked(),
            size == media.listed().len(),
            table::ascending(media.listed()),
            rule == medium_trouble(*maths, readings@),
            names == table::ranking::<String>(media@.dom()),
            forall|j: int|
                0 <= j < i ==> rule(
                    (#[trigger] media.listed()[j]).0@,
                    media@[media.listed()[j].0@],
                ) is None,
            forall|name: Seq<char>| #![trigger found@.contains_key(name)]
                found@.contains_key(name) == (exists|m: int|
                    0 <= m < i && #[trigger] names[m] == name),
            forall|name: Seq<char>| #[trigger]
                found@.contains_key(name) ==> found@[name] == lowered_medium(
                    *maths,
                    media@[name],
                    reading_of(readings@, name),
                ),
    {
        let name = media.key_at(i);
        let object = media.value_at(i);
        let ghost before = found@;
        assert(names[i as int] == name@);
        assert(media@.contains_key(name@));
        let reading = readings.get(name);
        assert(told(reading) == reading_of(readings@, name@));
        match lower_medium(maths, object, reading) {
            Err(problem) => {
                proof {
                    validate::listed_first(*media, rule, i as int);
                }
                return Err(problem);
            },
            Ok(medium) => {
                found.insert(name.duplicate(), medium);
            },
        }
        proof {
            assert forall|name: Seq<char>| #![trigger found@.contains_key(name)]
                found@.contains_key(name) == (exists|m: int|
                    0 <= m < i + 1 && #[trigger] names[m] == name) by {
                assert(before.contains_key(name) == (exists|m: int|
                    0 <= m < i && #[trigger] names[m] == name));
                if name == names[i as int] {
                    assert(names[i as int] == name);
                }
            }
        }
    }
    proof {
        validate::listed_none(*media, rule);
        table::ranking_covers(*media);
        assert forall|name: Seq<char>| found@.dom().contains(name) == media@.dom().contains(name) by {
            assert(media@.dom().contains(name) == names.contains(name));
            assert(found@.contains_key(name) == (exists|m: int|
                0 <= m < size && #[trigger] names[m] == name));
        }
        assert(found@ =~= all_media(*maths, media@, readings@));
    }
    Ok(found)
}

/// The medium that fills the open space, if one is named.
pub fn global_medium(name: Option<&String>, media: &Table<String, Medium>) -> (r: Result<
    Option<Medium>,
    SceneError,
>)
    ensures
        r is Err == (name matches Some(name) && !media@.contains_key(name@)),
        r matches Err(error) ==> error@ == (Problem::<Seq<char>>::GlobalMediumGone {
            medium: name->0@,
        }),
        r matches Ok(found) ==> found == (match name {
            Some(name) => Some(media@[name@]),
            None => None,
        }),
{
    match name {
        None => Ok(None),
        Some(name) => match media.get(name) {
            Some(medium) => Ok(Some(medium.duplicate())),
            None => Err(Problem::GlobalMediumGone { medium: name.clone() }),
        },
    }
}

/// A medium that only takes light away: around the whole scene it leaves the
/// sky and every distant light out of reach.
pub fn only_absorbs(medium: &Medium) -> (r: bool)
    ensures
        r == (medium.scattering.zero() && !medium.absorption.zero()),
{
    medium.scattering.is_zero() && !medium.absorption.is_zero()
}

// -- The environment ----------------------------------------------------------------------

/// Where the sky comes from.
#[derive(Clone, Copy, Debug, PartialEq, Eq, Structural)]
pub enum Sky {
    /// One color everywhere.
    Constant(Vec3),
    /// The image that the environment names.
    Image,
}

/// An environment as the renderer holds it.
#[derive(Clone, Debug, PartialEq, Eq)]
pub struct EnvironmentSpec {
    /// The sky to make resident; `None` keeps the one that is.
    pub image: Option<Sky>,
    /// The image's file.
    pub source: Option<FilePath>,
    /// The factor on its radiance.
    pub tint: Vec3,
    /// Its placement, without a translation: the sky is all directions.
    pub to_world: Rows,
    /// The map back.
    pub from_world: Rows,
}

/// Whether the image has to be read, and what else stands in for it: nothing
/// where the file is the one that is resident, white where there is no file.
pub open spec fn sky(path: Option<FilePath>, resident: Option<FilePath>) -> Option<Sky> {
    match path {
        None => Some(Sky::Constant(Vec3::new(ONE, ONE, ONE))),
        Some(path) => match resident {
            Some(held) if held@ == path@ => None,
            _ => Some(Sky::Image),
        },
    }
}

/// An environment, lowered.
pub open spec fn placed_sky<M: Fn(Formula) -> Answer>(
    maths: M,
    environment: description::Environment,
    resident: Option<FilePath>,
) -> EnvironmentSpec {
    let to_world = formula::affine(
        maths,
        Formula::Linear(formula::affine(maths, Formula::Placed(environment.transform))),
    );
    EnvironmentSpec {
        image: sky(environment.path, resident),
        source: environment.path,
        tint: formula::vector(maths, Formula::WorkingSpace(environment.tint)).floored(),
        to_world,
        from_world: formula::affine(maths, Formula::Inverse(to_world)),
    }
}

/// Lower an environment. Its image is read only where its file is another one
/// than is resident.
pub fn lower_environment<M: Fn(Formula) -> Answer>(
    maths: &M,
    environment: &description::Environment,
    resident: Option<&FilePath>,
) -> (r: EnvironmentSpec)
    requires
        formula::steady(*maths),
    ensures
        r == placed_sky(*maths, *environment, told(resident)),
{
    let image = match &environment.path {
        None => Some(Sky::Constant(Vec3::new(ONE, ONE, ONE))),
        Some(path) => match resident {
            Some(held) => if held.is_same(path) {
                None
            } else {
                Some(Sky::Image)
            },
            None => Some(Sky::Image),
        },
    };
    let placed = ask_affine(maths, Formula::Placed(environment.transform));
    let to_world = ask_affine(maths, Formula::Linear(placed));
    EnvironmentSpec {
        image,
        source: environment.path.duplicate(),
        tint: ask_vector(maths, Formula::WorkingSpace(environment.tint)).floor(),
        to_world,
        from_world: ask_affine(maths, Formula::Inverse(to_world)),
    }
}

/// The sky of a scene without an environment: black, and so without power.
pub open spec fn black_sky() -> EnvironmentSpec {
    EnvironmentSpec {
        image: Some(Sky::Constant(Vec3::new(0, 0, 0))),
        source: None,
        tint: Vec3::new(ONE, ONE, ONE),
        to_world: Rows::identity(),
        from_world: Rows::identity(),
    }
}

/// The environment of a scene, the first in name order, or the black sky.
pub open spec fn scene_sky<M: Fn(Formula) -> Answer>(
    maths: M,
    environments: Map<Seq<char>, description::Environment>,
    resident: Option<FilePath>,
) -> EnvironmentSpec {
    let names = table::ranking::<String>(environments.dom());
    if names.len() == 0 {
        black_sky()
    } else {
        placed_sky(maths, environments[names[0]], resident)
    }
}

/// Lower the environment of a scene.
pub fn environment_spec<M: Fn(Formula) -> Answer>(
    maths: &M,
    environments: &Table<String, description::Environment>,
    resident: Option<&FilePath>,
) -> (r: EnvironmentSpec)
    requires
        formula::steady(*maths),
    ensures
        r == scene_sky(*maths, environments@, told(resident)),
{
    let size: usize = environments.len();
    if size == 0 {
        EnvironmentSpec {
            image: Some(Sky::Constant(Vec3::new(0, 0, 0))),
            source: None,
            tint: Vec3::new(ONE, ONE, ONE),
            to_world: Rows::identity(),
            from_world: Rows::identity(),
        }
    } else {
        let environment = environments.value_at(0);
        assert(environments.listed()[0].0@ == table::ranking::<String>(environments@.dom())[0]);
        lower_environment(maths, environment, resident)
    }
}

/// The formats that an environment image is read in.
#[derive(Clone, Copy, Debug, PartialEq, Eq, Structural)]
pub enum SkyFormat {
    /// OpenEXR.
    Exr,
    /// Radiance.
    Hdr,
}

/// The bytes begin with these.
pub open spec fn begins(bytes: Seq<u8>, with: Seq<u8>) -> bool {
    bytes.len() >= with.len() && bytes.take(with.len() as int) == with
}

/// The format of an image, by how its bytes begin.
pub open spec fn format_of(bytes: Seq<u8>) -> Option<SkyFormat> {
    if begins(bytes, seq![0x76u8, 0x2f, 0x31, 0x01]) {
        Some(SkyFormat::Exr)
    } else if begins(bytes, seq![0x23u8, 0x3f]) {
        Some(SkyFormat::Hdr)
    } else {
        None
    }
}

/// Tell an environment image's format by how its bytes begin, whatever its
/// file is called.
pub fn environment_format(name: &String, path: &FilePath, bytes: &Vec<u8>) -> (r: Result<
    SkyFormat,
    SceneError,
>)
    ensures
        r is Ok == format_of(bytes@) is Some,
        r matches Ok(format) ==> format_of(bytes@) == Some(format),
        r matches Err(error) ==> error@ == (Problem::<Seq<char>>::UnknownEnvironment {
            environment: name@,
            path: path.text@,
        }),
{
    proof {
        if bytes@.len() >= 4 {
            assert(bytes@.take(4) =~= seq![bytes@[0], bytes@[1], bytes@[2], bytes@[3]]);
        }
        if bytes@.len() >= 2 {
            assert(bytes@.take(2) =~= seq![bytes@[0], bytes@[1]]);
        }
        let exr = seq![0x76u8, 0x2f, 0x31, 0x01];
        assert(exr[0] == 0x76 && exr[1] == 0x2f && exr[2] == 0x31 && exr[3] == 0x01);
        let hdr = seq![0x23u8, 0x3f];
        assert(hdr[0] == 0x23 && hdr[1] == 0x3f);
    }
    if bytes.len() >= 4 && bytes[0] == 0x76 && bytes[1] == 0x2f && bytes[2] == 0x31 && bytes[3]
        == 0x01 {
        assert(bytes@.take(4) =~= seq![0x76u8, 0x2f, 0x31, 0x01]);
        Ok(SkyFormat::Exr)
    } else if bytes.len() >= 2 && bytes[0] == 0x23 && bytes[1] == 0x3f {
        assert(bytes@.take(2) =~= seq![0x23u8, 0x3f]);
        proof {
            if begins(bytes@, seq![0x76u8, 0x2f, 0x31, 0x01]) {
                assert(bytes@.take(4)[0] == 0x76);
            }
        }
        Ok(SkyFormat::Hdr)
    } else {
        proof {
            if begins(bytes@, seq![0x76u8, 0x2f, 0x31, 0x01]) {
                assert(bytes@.take(4)[0] == 0x76 && bytes@.take(4)[1] == 0x2f && bytes@.take(4)[2]
                    == 0x31 && bytes@.take(4)[3] == 0x01);
            }
            if begins(bytes@, seq![0x23u8, 0x3f]) {
                assert(bytes@.take(2)[0] == 0x23 && bytes@.take(2)[1] == 0x3f);
            }
        }
        Err(
            Problem::UnknownEnvironment {
                environment: name.clone(),
                path: path.text.clone(),
            },
        )
    }
}

// -- Counting -------------------------------------------------------------------------------

/// What is wrong with how many there are of what a scene has exactly one of.
pub open spec fn lone_problem(kind: Kind, count: nat) -> Option<Problem<Seq<char>>> {
    if count == 0 {
        Some(Problem::NoneOf { kind })
    } else if count > 1 {
        Some(Problem::ManyOf { kind, count: count as usize })
    } else {
        None
    }
}

/// The one object of a kind.
pub fn singleton<T>(objects: &Table<String, T>, kind: Kind) -> (r: Result<(&String, &T), SceneError>)
    ensures
        objects@.dom().finite(),
        r is Err == lone_problem(kind, objects@.dom().len()) is Some,
        r matches Err(error) ==> lone_problem(kind, objects@.dom().len()) == Some(error@),
        r matches Ok((name, object)) ==> objects@.dom() == set![name@] && name@
            == table::ranking::<String>(objects@.dom())[0] && *object == objects@[name@],
{
    let count: usize = objects.len();
    if count == 0 {
        Err(Problem::NoneOf { kind })
    } else if count > 1 {
        Err(Problem::ManyOf { kind, count })
    } else {
        let name = objects.key_at(0);
        let object = objects.value_at(0);
        proof {
            table::ranking_covers(*objects);
            let names = table::ranking::<String>(objects@.dom());
            assert(objects.listed()[0].0@ == names[0]);
            assert forall|other: Seq<char>| objects@.dom().contains(other) == (other == name@) by {
                assert(objects@.dom().contains(other) == names.contains(other));
                if names.contains(other) {
                    let k = names.index_of(other);
                    assert(k == 0);
                }
            }
            assert(objects@.dom() =~= set![name@]);
        }
        Ok((name, object))
    }
}

/// Mark every object of a table.
fn mark<T>(changed: &mut ObjectSet, kind: Kind, objects: &Table<String, T>)
    ensures
        final(changed)@ == old(changed)@.union(
            Set::new(|key: (Kind, Seq<char>)| key.0 == kind && objects@.contains_key(key.1)),
        ),
{
    let size: usize = objects.len();
    let ghost before = changed@;
    let ghost names = table::ranking::<String>(objects@.dom());
    for i in 0..size
        invariant
            objects.ranked(),
            size == objects.listed().len(),
            names == table::ranking::<String>(objects@.dom()),
            forall|key: (Kind, Seq<char>)| #![trigger changed@.contains(key)]
                changed@.contains(key) == (before.contains(key) || (key.0 == kind && exists|m: int|
                    0 <= m < i && #[trigger] names[m] == key.1)),
    {
        let name = objects.key_at(i);
        assert(names[i as int] == name@);
        let ghost earlier = changed@;
        changed.insert(kind, name);
        assert forall|key: (Kind, Seq<char>)| #![trigger changed@.contains(key)]
            changed@.contains(key) == (before.contains(key) || (key.0 == kind && exists|m: int|
                0 <= m < i + 1 && #[trigger] names[m] == key.1)) by {
            assert(earlier.contains(key) == (before.contains(key) || (key.0 == kind && exists|m: int|
                0 <= m < i && #[trigger] names[m] == key.1)));
            if key == (kind, name@) {
                assert(names[i as int] == key.1);
            }
        }
    }
    proof {
        table::ranking_covers(*objects);
        assert forall|key: (Kind, Seq<char>)| changed@.contains(key) == (before.contains(key) || (
        key.0 == kind && objects@.contains_key(key.1))) by {
            assert(objects@.dom().contains(key.1) == names.contains(key.1));
        }
        assert(changed@ =~= before.union(
            Set::new(|key: (Kind, Seq<char>)| key.0 == kind && objects@.contains_key(key.1)),
        ));
    }
}

/// Every object of a model, changed: what a fresh build starts from.
pub open spec fn everything(model: Model) -> DirtySets {
    DirtySets {
        changed: Set::new(|key: (Kind, Seq<char>)| changeset::holds(model, key.0, key.1)),
        removed: Set::empty(),
    }
}

/// Every object of a description, marked changed.
pub fn all_dirty(description: &SceneDescription) -> (r: Dirty)
    ensures
        r@ == everything(description.model()),
{
    let mut changed = ObjectSet::new();
    mark(&mut changed, Kind::Mesh, description.meshes());
    mark(&mut changed, Kind::Curves, description.curves());
    mark(&mut changed, Kind::Instance, description.instances());
    mark(&mut changed, Kind::Material, description.materials());
    mark(&mut changed, Kind::Medium, description.media());
    mark(&mut changed, Kind::Light, description.lights());
    mark(&mut changed, Kind::Camera, description.cameras());
    mark(&mut changed, Kind::Environment, description.environments());
    mark(&mut changed, Kind::Settings, description.settings());
    let r = Dirty { changed, removed: ObjectSet::new() };
    assert(r@.changed =~= everything(description.model()).changed);
    r
}

} // verus!
