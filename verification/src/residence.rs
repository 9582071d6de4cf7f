//! What is resident of a scene: every instance with its own material and medium,
//! every texture under its own number, and the only camera and sky.

use vstd::prelude::*;

use crate::changeset::Kind;
use crate::description::Model;
use crate::formula::{Answer, Formula};
use crate::host;
use crate::host::{Brief, Fetched, Haul, Stock};
use crate::lower;
use crate::prep;
use crate::prep::Residency;
use crate::scene;
use crate::table;
use crate::texture::{Identity, Key};

verus! {

/// Every copy of every instance is placed: with the instance's geometry, the material
/// under the name that it says, as that is lowered, and the medium under the name
/// that it says. On the boundary of a medium the material is inert.
pub proof fn every_instance_is_placed<M: Fn(Formula) -> Answer>(
    maths: M,
    model: Model,
    stock: Stock,
    n: int,
    i: int,
    k: int,
)
    requires
        host::staged(maths, model, stock, n) is Ok,
        0 <= i < n <= table::ranking::<String>(model.instances.dom()).len(),
        0 <= k < model.instances[table::ranking::<String>(
            model.instances.dom(),
        )[i]].transforms@.len(),
    ensures
        ({
            let instance = model.instances[table::ranking::<String>(model.instances.dom())[i]];
            let placements = host::staged(maths, model, stock, n)->Ok_0.placements;
            let medium = match instance.medium {
                Some(name) => Some(stock.media[name@]),
                None => None,
            };
            let material = host::worn(stock.materials[instance.material@], medium);
            exists|at: int|
                0 <= at < placements.len() && #[trigger] placements[at] == host::copies(
                    maths,
                    instance,
                    material,
                    medium,
                )[k]
        }),
    decreases n,
{
    let names = table::ranking::<String>(model.instances.dom());
    let after = host::staged(maths, model, stock, n)->Ok_0.placements;
    let before = host::staged(maths, model, stock, n - 1)->Ok_0.placements;
    let last = model.instances[names[n - 1]];
    let medium = host::medium_in(stock, last);
    let material = host::worn(stock.materials[last.material@], medium);
    let more = host::copies(maths, last, material, medium);
    assert(after == before + more);
    if i == n - 1 {
        assert(after[before.len() + k] == more[k]);
    } else {
        every_instance_is_placed(maths, model, stock, n - 1, i, k);
        let instance = model.instances[names[i]];
        let filled = match instance.medium {
            Some(name) => Some(stock.media[name@]),
            None => None,
        };
        let worn = host::worn(stock.materials[instance.material@], filled);
        let at = choose|at: int|
            0 <= at < before.len() && #[trigger] before[at] == host::copies(
                maths,
                instance,
                worn,
                filled,
            )[k];
        assert(after[at] == before[at]);
    }
}

/// There are as many placements as instances have copies.
pub proof fn nothing_else_is_placed<M: Fn(Formula) -> Answer>(
    maths: M,
    model: Model,
    stock: Stock,
    n: int,
)
    requires
        n > 0,
        host::staged(maths, model, stock, n) is Ok,
    ensures
        ({
            let instance = model.instances[table::ranking::<String>(model.instances.dom())[n - 1]];
            host::staged(maths, model, stock, n)->Ok_0.placements.len() == host::staged(
                maths,
                model,
                stock,
                n - 1,
            )->Ok_0.placements.len() + instance.transforms@.len()
        }),
        host::staged(maths, model, stock, 0)->Ok_0.placements.len() == 0,
        host::staged(maths, model, stock, 0)->Ok_0.lights.len() == 0,
{
}

/// An instance has lights exactly where what it wears is luminous: one for each
/// triangle of each copy.
pub proof fn luminous_instances_are_lit<M: Fn(Formula) -> Answer>(
    maths: M,
    model: Model,
    stock: Stock,
    n: int,
)
    requires
        n > 0,
        host::staged(maths, model, stock, n) is Ok,
    ensures
        ({
            let instance = model.instances[table::ranking::<String>(model.instances.dom())[n - 1]];
            let medium = match instance.medium {
                Some(name) => Some(stock.media[name@]),
                None => None,
            };
            let worn = host::worn(stock.materials[instance.material@], medium);
            let luminous = crate::formula::truth(maths, Formula::Luminous(worn.emission));
            let before = host::staged(maths, model, stock, n - 1)->Ok_0;
            let after = host::staged(maths, model, stock, n)->Ok_0;
            &&& !luminous ==> after.lights == before.lights
            &&& luminous && instance.transforms@.len() > 0 ==> {
                let shape = host::emitter(
                    model,
                    stock.built,
                    stock.rereads,
                    instance.geometry,
                )->Ok_0;
                after.lights == before.lights + host::copies_lit(
                    maths,
                    instance,
                    worn,
                    medium,
                    shape,
                    before.placements.len() as int,
                    instance.transforms@.len() as int,
                )
            }
        }),
{
}

/// What instances are placed from is what the scene's materials and media are lowered
/// to, and what was built and read.
pub proof fn instances_are_placed_from_the_scene<M: Fn(Formula) -> Answer>(
    maths: M,
    brief: Brief,
    haul: Haul,
    name: Seq<char>,
)
    ensures
        ({
            let stock = host::stock(maths, brief, haul);
            &&& brief.model.materials.contains_key(name) ==> stock.materials[name]
                == lower::lowered(
                maths,
                brief.model.materials[name],
                lower::indexed(haul.fetched.dom()),
            )
            &&& brief.model.media.contains_key(name) ==> stock.media[name]
                == lower::lowered_medium(
                maths,
                brief.model.media[name],
                lower::reading_of(haul.grids, name),
            )
            &&& stock.built == haul.built->Ok_0
            &&& stock.rereads == haul.rereads
        }),
{
}

/// Under a texture's number stand its own parameters.
pub proof fn numbers_lead_to_their_parameters(keys: Set<Identity>, key: Identity)
    requires
        keys.finite(),
        keys.len() <= u32::MAX,
        keys.contains(key),
    ensures
        lower::indexed(keys)[key] < prep::params_of(keys).len(),
        prep::params_of(keys)[lower::indexed(keys)[key] as int] == key.params,
        prep::params_of(keys).len() == keys.len(),
{
    table::ranking_holds_all::<Key>(keys);
    let names = table::ranking::<Key>(keys);
    assert(names.contains(key));
    let i = names.index_of(key);
    assert(names[i] == key);
    names.unique_seq_to_set();
}

/// What a fresh build makes resident: the geometry that was built, the textures that
/// were prepared, what rays meet of each placement under the placement's number,
/// the lights of the scene, what the settings say fills the open space, the
/// camera and the sky.
pub proof fn fresh_builds_hold_the_scene<M: Fn(Formula) -> Answer>(
    maths: M,
    model: Model,
    limit: usize,
    haul: Haul,
    camera: Seq<char>,
    settings: Seq<char>,
    i: int,
)
    requires
        model.cameras.dom() == set![camera],
        model.settings.dom() == set![settings],
        0 <= i < prep::fresh(maths, prep::from_nothing(model, limit), haul).placements.len()
            <= u32::MAX,
    ensures
        ({
            let brief = prep::from_nothing(model, limit);
            let found = prep::fresh(maths, brief, haul);
            let staging = host::stage(maths, brief, haul)->Ok_0;
            let sky = lower::scene_sky(maths, model.environments, None);
            &&& found.geometry == haul.built->Ok_0
            &&& found.textures.dom() == haul.fetched.dom()
            &&& forall|key: Identity| #[trigger]
                haul.fetched.contains_key(key) ==> (haul.fetched[key] matches Fetched::Fresh(
                    prepared,
                ) ==> found.textures[key] == prepared)
            &&& found.placements == staging.placements
            &&& found.triangle_lights == staging.lights
            &&& found.stack.len() == found.placements.len()
            &&& found.stack[i].custom_index == i
            &&& found.stack[i].transform == found.placements[i].transform
            &&& found.stack[i].geometry == found.placements[i].geometry
            &&& found.delta_lights == lower::delta_lights(maths, model.lights)
            &&& found.camera == lower::settled_camera(maths, model.cameras[camera])
            &&& model.settings[settings].global_medium is None ==> found.global is None
            &&& model.settings[settings].global_medium matches Some(name) ==> (
            model.media.contains_key(name@) ==> found.global == Some(
                lower::lowered_medium(
                    maths,
                    model.media[name@],
                    lower::reading_of(haul.grids, name@),
                ),
            ))
            &&& Some(found.sky) == sky.image
            &&& found.source == sky.source
            &&& found.tint == sky.tint
            &&& found.to_world == sky.to_world
            &&& found.from_world == sky.from_world
        }),
{
    only_name(model.cameras.dom(), camera);
    only_name(model.settings.dom(), settings);
    let brief = prep::from_nothing(model, limit);
    let found = prep::fresh(maths, brief, haul);
    assert(found.stack[i] == scene::traced(found.placements[i], i));
    assert(found.textures.dom() =~= haul.fetched.dom());
    let names = table::ranking::<String>(model.environments.dom());
    if names.len() > 0 {
        let environment = model.environments[names[0]];
        assert(lower::sky(environment.path, None) is Some);
    }
}

/// The only name comes first.
proof fn only_name(names: Set<Seq<char>>, name: Seq<char>)
    requires
        names == set![name],
    ensures
        table::ranking::<String>(names)[0] == name,
{
    table::ranking_holds_all::<String>(names);
    let list = table::ranking::<String>(names);
    assert(names.contains(name));
    assert(list.contains(name));
    assert(list.contains(list[0]));
    assert(names.contains(list[0]));
}

/// A fresh build takes everything for changed and nothing for removed; what is held of
/// an update is what its caller says.
pub proof fn fresh_builds_start_from_nothing(
    model: Model,
    limit: usize,
    kind: Kind,
    name: Seq<char>,
)
    ensures
        ({
            let brief = prep::from_nothing(model, limit);
            &&& brief.model == model
            &&& brief.dirt.changed.contains((kind, name)) == crate::changeset::holds(
                model,
                kind,
                name,
            )
            &&& !brief.dirt.removed.contains((kind, name))
            &&& brief.fresh
            &&& brief.sky is None
            &&& brief.limit == limit
            &&& forall|key: Identity| !brief.textures.contains_key(key)
        }),
{
}

/// What an update makes resident: of geometry, what was built, and else what was there
/// and is not retired; of textures, what was prepared, and else what was there;
/// placements and lights anew; camera and sky only where they were touched.
pub proof fn updates_keep_the_rest<M: Fn(Formula) -> Answer>(
    maths: M,
    resident: Residency,
    brief: Brief,
    haul: Haul,
    key: (Kind, Seq<char>),
    id: Identity,
)
    requires
        brief.dirt.removed.finite(),
    ensures
        ({
            let found = prep::updated(resident, maths, brief, haul);
            let staging = host::stage(maths, brief, haul)->Ok_0;
            let built = haul.built->Ok_0;
            let geometric = key.0 == Kind::Mesh || key.0 == Kind::Curves;
            &&& built.contains_key(key) ==> found.geometry.contains_key(key)
                && found.geometry[key] == built[key]
            &&& !built.contains_key(key) ==> found.geometry.contains_key(key) == (
            resident.geometry.contains_key(key) && !(geometric && brief.dirt.removed.contains(
                key,
            )))
            &&& !built.contains_key(key) && found.geometry.contains_key(key)
                ==> found.geometry[key] == resident.geometry[key]
            &&& found.textures.contains_key(id) == haul.fetched.contains_key(id)
            &&& haul.fetched.contains_key(id) ==> {
                &&& haul.fetched[id] matches Fetched::Fresh(prepared) ==> found.textures[id]
                    == prepared
                &&& haul.fetched[id] is Kept ==> found.textures[id] == resident.textures[id]
            }
            &&& found.placements == staging.placements
            &&& found.triangle_lights == staging.lights
            &&& found.delta_lights == lower::delta_lights(maths, brief.model.lights)
            &&& !host::touched(brief.dirt, Kind::Camera) ==> found.camera == resident.camera
            &&& !brief.fresh && !host::touched(brief.dirt, Kind::Environment) ==> found.sky
                == resident.sky && found.source == resident.source && found.tint == resident.tint
                && found.to_world == resident.to_world && found.from_world == resident.from_world
            &&& host::touched(brief.dirt, Kind::Environment) ==> {
                let sky = lower::scene_sky(maths, brief.model.environments, brief.sky);
                &&& found.source == sky.source && found.tint == sky.tint
                &&& found.to_world == sky.to_world && found.from_world == sky.from_world
                &&& sky.image matches Some(image) ==> found.sky == image
                &&& sky.image is None ==> found.sky == resident.sky
            }
        }),
{
    table::ranking_holds_all::<(Kind, String)>(brief.dirt.removed);
    let keys = table::ranking::<(Kind, String)>(brief.dirt.removed);
    crate::rounds::geometry_keys_are_kept(keys, key);
    let gone = crate::geometry::retired(brief.dirt.removed);
    assert(gone.to_set().contains(key) == gone.contains(key));
    assert(brief.dirt.removed.contains(key) == keys.contains(key));
}

/// Something of a kind was touched where one of its objects changed or went, and only
/// there.
pub proof fn touching_is_changing_or_removing(
    dirt: crate::changeset::DirtySets,
    kind: Kind,
    name: Seq<char>,
)
    ensures
        dirt.changed.contains((kind, name)) || dirt.removed.contains((kind, name))
            ==> host::touched(dirt, kind),
        host::touched(dirt, kind) ==> exists|other: Seq<char>|
            #![trigger dirt.changed.contains((kind, other))]
            #![trigger dirt.removed.contains((kind, other))]
            dirt.changed.contains((kind, other)) || dirt.removed.contains((kind, other)),
{
}

} // verus!
