//! What holds of edits as a whole: what they leave to rebuild, what they
//! leave alone, and what a model that passed validation can be relied on for.

use vstd::prelude::*;

use crate::changeset;
use crate::changeset::{DirtySets, Kind, Op, Patched, Repathed, Respell};
use crate::coverage;
use crate::description::{empty_model, Blanks, Instance, Mesh, MeshSource, Model, Settings};
use crate::error::Problem;
use crate::path::FilePath;
use crate::table::Ranked;
use crate::validate;
use crate::validate::Facts;
use crate::value::Same;

verus! {

/// Rounds of changes fold together in any grouping, and a round with nothing
/// in it adds nothing.
pub proof fn folding_is_associative(a: DirtySets, b: DirtySets, c: DirtySets)
    ensures
        a.folded(b).folded(c) == a.folded(b.folded(c)),
        a.folded(DirtySets::none()) == a,
        DirtySets::none().folded(a) == a,
{
    let left = a.folded(b).folded(c);
    let right = a.folded(b.folded(c));
    assert(left.changed =~= right.changed);
    assert(left.removed =~= right.removed);
    assert(a.folded(DirtySets::none()).changed =~= a.changed);
    assert(a.folded(DirtySets::none()).removed =~= a.removed);
    assert(DirtySets::none().folded(a).changed =~= a.changed);
    assert(DirtySets::none().folded(a).removed =~= a.removed);
}

/// A newer removal supersedes an older change, unless the object was made
/// anew; a removal is never forgotten.
pub proof fn a_newer_removal_supersedes(older: DirtySets, newer: DirtySets, key: (Kind, Seq<char>))
    ensures
        newer.removed.contains(key) && !newer.changed.contains(key) ==> !older.folded(
            newer,
        ).changed.contains(key),
        newer.removed.contains(key) && newer.changed.contains(key) ==> older.folded(
            newer,
        ).changed.contains(key),
        older.removed.contains(key) || newer.removed.contains(key) ==> older.folded(
            newer,
        ).removed.contains(key),
{
}

/// Creating an object leaves it to build, whatever values it has.
pub proof fn creation_always_dirties(model: Model, blanks: Blanks, dirt: DirtySets, op: Op)
    requires
        !(op is Remove),
        !changeset::holds(model, op.aim().0, op.aim().1),
    ensures
        changeset::op_dirt(model, blanks, dirt, op).changed.contains(op.aim()),
{
}

/// A removal leaves its object to retire, and nothing of it to build.
pub proof fn removal_retires(model: Model, blanks: Blanks, dirt: DirtySets, op: Op)
    requires
        op is Remove,
    ensures
        !changeset::op_dirt(model, blanks, dirt, op).changed.contains(op.aim()),
        changeset::op_dirt(model, blanks, dirt, op).removed.contains(op.aim()),
        !changeset::holds(changeset::op_model(model, blanks, op), op.aim().0, op.aim().1),
{
}

/// A patch leaves its object in the model.
pub proof fn patches_create(model: Model, blanks: Blanks, op: Op)
    requires
        !(op is Remove),
    ensures
        changeset::holds(changeset::op_model(model, blanks, op), op.aim().0, op.aim().1),
{
}

/// The two models agree on an object: both lack it, or both hold it with
/// values that are identical or equal.
pub open spec fn agree(before: Model, after: Model, kind: Kind, name: Seq<char>) -> bool {
    &&& changeset::holds(before, kind, name) == changeset::holds(after, kind, name)
    &&& changeset::holds(before, kind, name) ==> identical(before, after, kind, name)
        || changeset::same_object(after, before, kind, name)
}

/// The two models' objects at `name` are identical.
pub open spec fn identical(a: Model, b: Model, kind: Kind, name: Seq<char>) -> bool {
    match kind {
        Kind::Mesh => a.meshes[name] == b.meshes[name],
        Kind::Curves => a.curves[name] == b.curves[name],
        Kind::Instance => a.instances[name] == b.instances[name],
        Kind::Material => a.materials[name] == b.materials[name],
        Kind::Medium => a.media[name] == b.media[name],
        Kind::Light => a.lights[name] == b.lights[name],
        Kind::Camera => a.cameras[name] == b.cameras[name],
        Kind::Environment => a.environments[name] == b.environments[name],
        Kind::Settings => a.settings[name] == b.settings[name],
    }
}

/// An op touches no object but the one it aims at.
pub proof fn ops_touch_only_their_target(
    model: Model,
    blanks: Blanks,
    op: Op,
    kind: Kind,
    name: Seq<char>,
)
    requires
        op.aim() != (kind, name),
    ensures
        changeset::holds(changeset::op_model(model, blanks, op), kind, name) == changeset::holds(
            model,
            kind,
            name,
        ),
        changeset::holds(model, kind, name) ==> identical(
            model,
            changeset::op_model(model, blanks, op),
            kind,
            name,
        ),
{
    match op {
        Op::Mesh(patch) => {},
        Op::Curves(patch) => {},
        Op::Instance(patch) => {},
        Op::Material(patch) => {},
        Op::Medium(patch) => {},
        Op::Light(patch) => {},
        Op::Camera(patch) => {},
        Op::Environment(patch) => {},
        Op::Settings(patch) => {},
        Op::Remove(_, _) => {},
    }
}

/// What agrees with what agrees, agrees.
pub proof fn agreeing_chains(a: Model, b: Model, c: Model, kind: Kind, name: Seq<char>)
    requires
        agree(a, b, kind, name),
        agree(b, c, kind, name),
    ensures
        agree(a, c, kind, name),
{
    if changeset::holds(a, kind, name) && changeset::same_object(b, a, kind, name)
        && changeset::same_object(c, b, kind, name) {
        match kind {
            Kind::Mesh => c.meshes[name].same_chains(b.meshes[name], a.meshes[name]),
            Kind::Curves => c.curves[name].same_chains(b.curves[name], a.curves[name]),
            Kind::Instance => c.instances[name].same_chains(b.instances[name], a.instances[name]),
            Kind::Material => c.materials[name].same_chains(b.materials[name], a.materials[name]),
            Kind::Medium => c.media[name].same_chains(b.media[name], a.media[name]),
            Kind::Light => c.lights[name].same_chains(b.lights[name], a.lights[name]),
            Kind::Camera => c.cameras[name].same_chains(b.cameras[name], a.cameras[name]),
            Kind::Environment => c.environments[name].same_chains(b.environments[name], a.environments[name]),
            Kind::Settings => c.settings[name].same_chains(b.settings[name], a.settings[name]),
        }
    }
}

/// What a set says nothing of, it leaves alone: an object that is neither to
/// be rebuilt nor to be retired is the one that was there before.
pub proof fn silence_means_unchanged(
    model: Model,
    blanks: Blanks,
    ops: Seq<Op>,
    n: int,
    kind: Kind,
    name: Seq<char>,
)
    requires
        0 <= n <= ops.len(),
        !changeset::dirt_after(model, blanks, ops, n).changed.contains((kind, name)),
        !changeset::dirt_after(model, blanks, ops, n).removed.contains((kind, name)),
    ensures
        agree(model, changeset::model_after(model, blanks, ops, n), kind, name),
    decreases n,
{
    if n > 0 {
        let middle = changeset::model_after(model, blanks, ops, n - 1);
        let op = ops[n - 1];
        silence_means_unchanged(model, blanks, ops, n - 1, kind, name);
        if op.aim() != (kind, name) {
            ops_touch_only_their_target(middle, blanks, op, kind, name);
        }
        agreeing_chains(
            model,
            middle,
            changeset::model_after(model, blanks, ops, n),
            kind,
            name,
        );
    }
}

/// Everything that is to be built is there to be built.
pub proof fn changed_objects_exist(
    model: Model,
    blanks: Blanks,
    ops: Seq<Op>,
    n: int,
    kind: Kind,
    name: Seq<char>,
)
    requires
        0 <= n <= ops.len(),
        changeset::dirt_after(model, blanks, ops, n).changed.contains((kind, name)),
    ensures
        changeset::holds(changeset::model_after(model, blanks, ops, n), kind, name),
    decreases n,
{
    if n > 0 {
        let middle = changeset::model_after(model, blanks, ops, n - 1);
        let op = ops[n - 1];
        if op.aim() != (kind, name) {
            changed_objects_exist(model, blanks, ops, n - 1, kind, name);
            ops_touch_only_their_target(middle, blanks, op, kind, name);
        } else if op is Remove {
            removal_retires(
                middle,
                blanks,
                changeset::dirt_after(model, blanks, ops, n - 1),
                op,
            );
        } else {
            patches_create(middle, blanks, op);
        }
    }
}

/// An object that was there and is gone is one that is to be retired.
pub proof fn lost_objects_are_retired(
    model: Model,
    blanks: Blanks,
    ops: Seq<Op>,
    kind: Kind,
    name: Seq<char>,
)
    requires
        changeset::holds(model, kind, name),
        !changeset::holds(
            changeset::model_after(model, blanks, ops, ops.len() as int),
            kind,
            name,
        ),
    ensures
        changeset::dirt_after(model, blanks, ops, ops.len() as int).removed.contains((kind, name)),
{
    let dirt = changeset::dirt_after(model, blanks, ops, ops.len() as int);
    if !dirt.removed.contains((kind, name)) {
        if dirt.changed.contains((kind, name)) {
            changed_objects_exist(model, blanks, ops, ops.len() as int, kind, name);
        } else {
            silence_means_unchanged(model, blanks, ops, ops.len() as int, kind, name);
        }
    }
}

/// Only what some op aims at is ever rebuilt or retired.
pub proof fn dirt_names_only_targets(
    model: Model,
    blanks: Blanks,
    ops: Seq<Op>,
    n: int,
    key: (Kind, Seq<char>),
)
    requires
        0 <= n <= ops.len(),
        changeset::dirt_after(model, blanks, ops, n).changed.contains(key)
            || changeset::dirt_after(model, blanks, ops, n).removed.contains(key),
    ensures
        exists|i: int| 0 <= i < n && (#[trigger] ops[i]).aim() == key,
    decreases n,
{
    if n > 0 {
        if ops[n - 1].aim() != key {
            dirt_names_only_targets(model, blanks, ops, n - 1, key);
        }
    }
}

/// The op's values are in place: its object is there, equal to itself, and
/// the patch would leave it as it is.
pub open spec fn in_place(model: Model, op: Op) -> bool {
    match op {
        Op::Mesh(patch) => settled(model.meshes, patch.name@, patch),
        Op::Curves(patch) => settled(model.curves, patch.name@, patch),
        Op::Instance(patch) => settled(model.instances, patch.name@, patch),
        Op::Material(patch) => settled(model.materials, patch.name@, *patch),
        Op::Medium(patch) => settled(model.media, patch.name@, patch),
        Op::Light(patch) => settled(model.lights, patch.name@, patch),
        Op::Camera(patch) => settled(model.cameras, patch.name@, patch),
        Op::Environment(patch) => settled(model.environments, patch.name@, patch),
        Op::Settings(patch) => settled(model.settings, patch.name@, patch),
        Op::Remove(_, _) => false,
    }
}

/// The object is there, equal to itself, and the patch would leave it as it
/// is.
pub open spec fn settled<T: Patched<P> + Same, P>(
    map: Map<Seq<char>, T>,
    name: Seq<char>,
    patch: P,
) -> bool {
    map.contains_key(name) && map[name].merged(patch) == map[name] && map[name].same(map[name])
}

/// The object that the op aims at is equal to itself: it holds nothing that
/// is no number.
pub open spec fn numeric(model: Model, op: Op) -> bool {
    changeset::same_object(model, model, op.aim().0, op.aim().1)
}

/// An op whose values are already in place changes nothing, and leaves
/// nothing to rebuild.
pub proof fn landed_ops_are_silent(model: Model, blanks: Blanks, dirt: DirtySets, op: Op)
    requires
        in_place(model, op),
    ensures
        changeset::op_model(model, blanks, op) == model,
        changeset::op_dirt(model, blanks, dirt, op) == dirt,
{
    let after = changeset::op_model(model, blanks, op);
    assert(after.meshes =~= model.meshes);
    assert(after.curves =~= model.curves);
    assert(after.instances =~= model.instances);
    assert(after.materials =~= model.materials);
    assert(after.media =~= model.media);
    assert(after.lights =~= model.lights);
    assert(after.cameras =~= model.cameras);
    assert(after.environments =~= model.environments);
    assert(after.settings =~= model.settings);
}

/// A set whose values are all in place changes nothing, and leaves nothing to
/// rebuild.
pub proof fn landed_sets_are_silent(model: Model, blanks: Blanks, ops: Seq<Op>, n: int)
    requires
        0 <= n <= ops.len(),
        forall|i: int| 0 <= i < ops.len() ==> in_place(model, #[trigger] ops[i]),
    ensures
        changeset::model_after(model, blanks, ops, n) == model,
        changeset::dirt_after(model, blanks, ops, n) == DirtySets::none(),
    decreases n,
{
    if n > 0 {
        landed_sets_are_silent(model, blanks, ops, n - 1);
        landed_ops_are_silent(model, blanks, DirtySets::none(), ops[n - 1]);
    }
}

/// A patch that has landed is in place, as long as the object it leaves is
/// equal to itself.
proof fn patches_land(model: Model, blanks: Blanks, op: Op)
    requires
        !(op is Remove),
        numeric(changeset::op_model(model, blanks, op), op),
    ensures
        in_place(changeset::op_model(model, blanks, op), op),
{
    match op {
        Op::Mesh(patch) => {
            let found = if model.meshes.contains_key(patch.name@) {
                model.meshes[patch.name@]
            } else {
                blanks.meshes
            };
            found.merging_twice(patch);
        },
        Op::Curves(patch) => {
            let found = if model.curves.contains_key(patch.name@) {
                model.curves[patch.name@]
            } else {
                blanks.curves
            };
            found.merging_twice(patch);
        },
        Op::Instance(patch) => {
            let found = if model.instances.contains_key(patch.name@) {
                model.instances[patch.name@]
            } else {
                blanks.instances
            };
            found.merging_twice(patch);
        },
        Op::Material(patch) => {
            let found = if model.materials.contains_key(patch.name@) {
                model.materials[patch.name@]
            } else {
                blanks.materials
            };
            found.merging_twice(*patch);
        },
        Op::Medium(patch) => {
            let found = if model.media.contains_key(patch.name@) {
                model.media[patch.name@]
            } else {
                blanks.media
            };
            found.merging_twice(patch);
        },
        Op::Light(patch) => {
            let found = if model.lights.contains_key(patch.name@) {
                model.lights[patch.name@]
            } else {
                blanks.lights
            };
            found.merging_twice(patch);
        },
        Op::Camera(patch) => {
            let found = if model.cameras.contains_key(patch.name@) {
                model.cameras[patch.name@]
            } else {
                blanks.cameras
            };
            found.merging_twice(patch);
        },
        Op::Environment(patch) => {
            let found = if model.environments.contains_key(patch.name@) {
                model.environments[patch.name@]
            } else {
                blanks.environments
            };
            found.merging_twice(patch);
        },
        Op::Settings(patch) => {
            let found = if model.settings.contains_key(patch.name@) {
                model.settings[patch.name@]
            } else {
                blanks.settings
            };
            found.merging_twice(patch);
        },
        Op::Remove(_, _) => {},
    }
}

/// Ops that aim elsewhere leave an op's values in place.
proof fn others_leave_in_place(model: Model, blanks: Blanks, op: Op, other: Op)
    requires
        in_place(model, op),
        other.aim() != op.aim(),
    ensures
        in_place(changeset::op_model(model, blanks, other), op),
{
    ops_touch_only_their_target(model, blanks, other, op.aim().0, op.aim().1);
}

/// The object that `ops[i]` aims at is the same after every later op, none of
/// which aims at it.
proof fn stays_in_place(model: Model, blanks: Blanks, ops: Seq<Op>, i: int, n: int)
    requires
        0 <= i < n <= ops.len(),
        forall|a: int, b: int|
            #![trigger ops[a], ops[b]]
            0 <= a < b < ops.len() ==> ops[a].aim() != ops[b].aim(),
        forall|a: int| 0 <= a < ops.len() ==> !(#[trigger] ops[a] is Remove),
        numeric(changeset::model_after(model, blanks, ops, n), ops[i]),
    ensures
        in_place(changeset::model_after(model, blanks, ops, n), ops[i]),
    decreases n,
{
    let middle = changeset::model_after(model, blanks, ops, n - 1);
    let op = ops[n - 1];
    if i == n - 1 {
        patches_land(middle, blanks, op);
    } else {
        assert(ops[i].aim() != op.aim());
        patch_stays(model, blanks, ops, i, n - 1);
        ops_touch_only_their_target(middle, blanks, op, ops[i].aim().0, ops[i].aim().1);
        stays_in_place(model, blanks, ops, i, n - 1);
        others_leave_in_place(middle, blanks, ops[i], op);
    }
}

/// The object that an op aims at is there after it and after every later op
/// that aims elsewhere.
proof fn patch_stays(model: Model, blanks: Blanks, ops: Seq<Op>, i: int, n: int)
    requires
        0 <= i < n <= ops.len(),
        forall|a: int, b: int|
            #![trigger ops[a], ops[b]]
            0 <= a < b < ops.len() ==> ops[a].aim() != ops[b].aim(),
        forall|a: int| 0 <= a < ops.len() ==> !(#[trigger] ops[a] is Remove),
    ensures
        changeset::holds(
            changeset::model_after(model, blanks, ops, n),
            ops[i].aim().0,
            ops[i].aim().1,
        ),
    decreases n,
{
    let middle = changeset::model_after(model, blanks, ops, n - 1);
    if i == n - 1 {
        patches_create(middle, blanks, ops[i]);
    } else {
        assert(ops[i].aim() != ops[n - 1].aim());
        patch_stays(model, blanks, ops, i, n - 1);
        ops_touch_only_their_target(
            middle,
            blanks,
            ops[n - 1],
            ops[i].aim().0,
            ops[i].aim().1,
        );
    }
}

/// Applying a set a second time changes nothing and leaves nothing to
/// rebuild, for a set of patches that each aim at an object of their own and
/// leave it without anything that is no number.
pub proof fn reapplying_is_silent(model: Model, blanks: Blanks, ops: Seq<Op>)
    requires
        forall|a: int, b: int|
            #![trigger ops[a], ops[b]]
            0 <= a < b < ops.len() ==> ops[a].aim() != ops[b].aim(),
        forall|a: int| 0 <= a < ops.len() ==> !(#[trigger] ops[a] is Remove),
        forall|a: int|
            0 <= a < ops.len() ==> numeric(
                changeset::model_after(model, blanks, ops, ops.len() as int),
                #[trigger] ops[a],
            ),
    ensures
        ({
            let landed = changeset::model_after(model, blanks, ops, ops.len() as int);
            &&& changeset::model_after(landed, blanks, ops, ops.len() as int) == landed
            &&& changeset::dirt_after(landed, blanks, ops, ops.len() as int) == DirtySets::none()
        }),
{
    let landed = changeset::model_after(model, blanks, ops, ops.len() as int);
    assert forall|i: int| 0 <= i < ops.len() implies in_place(landed, #[trigger] ops[i]) by {
        stays_in_place(model, blanks, ops, i, ops.len() as int);
    }
    landed_sets_are_silent(landed, blanks, ops, ops.len() as int);
}

/// Putting in place a model that is equal object for object leaves nothing to
/// rebuild.
pub proof fn replacing_with_an_equal_is_silent(before: Model, after: Model)
    requires
        forall|kind: Kind, name: Seq<char>| #[trigger]
            changeset::holds(before, kind, name) == changeset::holds(after, kind, name),
        forall|kind: Kind, name: Seq<char>| #[trigger]
            changeset::holds(before, kind, name) ==> changeset::same_object(
                after,
                before,
                kind,
                name,
            ),
    ensures
        changeset::difference(before, after) == DirtySets::none(),
{
    assert(changeset::difference(before, after).changed =~= DirtySets::none().changed);
    assert(changeset::difference(before, after).removed =~= DirtySets::none().removed);
}

/// Taking a base off the paths of a set whose paths are all absolute, and
/// rebasing the result against it, gives back the set: every op is the one it
/// was, with the same paths.
pub proof fn rebasing_undoes_relativizing(
    ops: Seq<Op>,
    relative: Seq<Op>,
    rebased: Seq<Op>,
    base: FilePath,
)
    requires
        base@.len() > 0,
        forall|i: int| 0 <= i < ops.len() ==> (#[trigger] ops[i]).rooted(),
        changeset::ops_repathed(ops, relative, base, Respell::Relativize),
        changeset::ops_repathed(relative, rebased, base, Respell::Rebase),
    ensures
        rebased.len() == ops.len(),
        forall|i: int| 0 <= i < ops.len() ==> (#[trigger] ops[i]).alike(rebased[i]),
{
    assert forall|i: int| 0 <= i < ops.len() implies (#[trigger] ops[i]).alike(rebased[i]) by {
        assert(relative[i].repathed(rebased[i], base, Respell::Rebase));
        ops[i].round_trip(relative[i], rebased[i], base);
    }
}

/// If some object breaks the rule, one of them is the first to.
pub proof fn some_first<T>(
    map: Map<Seq<char>, T>,
    rule: spec_fn(Seq<char>, T) -> Option<Problem<Seq<char>>>,
    name: Seq<char>,
)
    requires
        map.dom().finite(),
        map.contains_key(name),
        rule(name, map[name]) is Some,
    ensures
        validate::first_problem(map, rule) is Some,
    decreases map.dom().filter(|other: Seq<char>| String::precedes(other, name)).len(),
{
    let earlier = map.dom().filter(|other: Seq<char>| String::precedes(other, name));
    if exists|other: Seq<char>| #[trigger]
        map.contains_key(other) && String::precedes(other, name) && rule(other, map[other]) is Some {
        let other = choose|other: Seq<char>| #[trigger]
            map.contains_key(other) && String::precedes(other, name) && rule(other, map[other]) is Some;
        let before = map.dom().filter(|third: Seq<char>| String::precedes(third, other));
        assert(earlier.contains(other));
        assert(!before.contains(other)) by {
            String::never_precedes_itself(other);
        }
        assert(before.subset_of(earlier)) by {
            assert forall|third: Seq<char>| before.contains(third) implies earlier.contains(
                third,
            ) by {
                String::precedes_transitively(third, other, name);
            }
        }
        assert(before.subset_of(earlier.remove(other)));
        vstd::set_lib::lemma_len_subset(before, earlier.remove(other));
        some_first(map, rule, other);
    } else {
        assert(validate::breaks_first(map, rule, name));
        let first = choose|name: Seq<char>| validate::breaks_first(map, rule, name);
        assert(validate::breaks_first(map, rule, first));
    }
}

/// Every table of the model holds finitely many objects, as every table does.
pub open spec fn finite(model: Model) -> bool {
    &&& model.meshes.dom().finite()
    &&& model.curves.dom().finite()
    &&& model.instances.dom().finite()
    &&& model.materials.dom().finite()
    &&& model.media.dom().finite()
    &&& model.lights.dom().finite()
    &&& model.cameras.dom().finite()
    &&& model.environments.dom().finite()
    &&& model.settings.dom().finite()
}

/// In a model that passed validation every object keeps its rule.
pub proof fn valid_models_keep_every_rule(model: Model, facts: Facts, name: Seq<char>)
    requires
        finite(model),
        validate::model_problem(model, facts) is None,
    ensures
        model.meshes.contains_key(name) ==> validate::mesh_problem(
            name,
            model.meshes[name],
            facts,
        ) is None,
        model.curves.contains_key(name) ==> validate::curves_problem(
            name,
            model.curves[name],
            facts,
        ) is None,
        model.instances.contains_key(name) ==> validate::instance_problem(
            model,
            name,
            model.instances[name],
            facts,
        ) is None,
        model.materials.contains_key(name) ==> validate::textures_problem(
            name,
            model.materials[name],
            facts,
            0,
        ) is None,
        model.lights.contains_key(name) ==> validate::light_problem(name, model.lights[name]) is None,
        model.cameras.contains_key(name) ==> validate::camera_problem(
            name,
            model.cameras[name],
            facts,
        ) is None,
        model.environments.contains_key(name) ==> validate::environment_problem(
            name,
            model.environments[name],
            facts,
        ) is None,
        model.media.contains_key(name) ==> validate::medium_problem(
            name,
            model.media[name],
            facts,
        ) is None,
        model.settings.contains_key(name) ==> validate::settings_problem(
            model,
            name,
            model.settings[name],
        ) is None,
{
    if model.meshes.contains_key(name) && validate::mesh_rule(facts)(name, model.meshes[name]) is Some {
        some_first(model.meshes, validate::mesh_rule(facts), name);
    }
    if model.curves.contains_key(name) && validate::curves_rule(facts)(name, model.curves[name]) is Some {
        some_first(model.curves, validate::curves_rule(facts), name);
    }
    if model.instances.contains_key(name) && validate::instance_rule(model, facts)(name, model.instances[name]) is Some {
        some_first(model.instances, validate::instance_rule(model, facts), name);
    }
    if model.materials.contains_key(name) && validate::material_rule(facts)(name, model.materials[name]) is Some {
        some_first(model.materials, validate::material_rule(facts), name);
    }
    if model.lights.contains_key(name) && validate::light_rule()(name, model.lights[name]) is Some {
        some_first(model.lights, validate::light_rule(), name);
    }
    if model.cameras.contains_key(name) && validate::camera_rule(facts)(name, model.cameras[name]) is Some {
        some_first(model.cameras, validate::camera_rule(facts), name);
    }
    if model.environments.contains_key(name) && validate::environment_rule(facts)(name, model.environments[name]) is Some {
        some_first(model.environments, validate::environment_rule(facts), name);
    }
    if model.media.contains_key(name) && validate::medium_rule(facts)(name, model.media[name]) is Some {
        some_first(model.media, validate::medium_rule(facts), name);
    }
    if model.settings.contains_key(name) && validate::settings_rule(model)(name, model.settings[name]) is Some {
        some_first(model.settings, validate::settings_rule(model), name);
    }
}

/// In a model that passed validation every reference resolves: an instance's
/// geometry, material and medium, and the settings' global medium.
pub proof fn valid_models_resolve(model: Model, facts: Facts, name: Seq<char>)
    requires
        finite(model),
        validate::model_problem(model, facts) is None,
    ensures
        model.instances.contains_key(name) ==> instance_resolves(model, model.instances[name]),
        model.settings.contains_key(name) ==> settings_resolve(model, model.settings[name]),
{
    valid_models_keep_every_rule(model, facts, name);
}

/// In a model that passed validation a grid and its shell pair up: an
/// instance bounds a heterogeneous medium exactly where it places the shell.
pub proof fn valid_models_pair_grids_with_shells(model: Model, facts: Facts, name: Seq<char>)
    requires
        finite(model),
        validate::model_problem(model, facts) is None,
        model.instances.contains_key(name),
    ensures
        validate::bounds_grid(model, model.instances[name]) == validate::places_shell(
            model,
            model.instances[name],
        ),
{
    valid_models_keep_every_rule(model, facts, name);
}

/// One thing that is done to a description.
pub enum Act {
    /// A change-set is applied; it lands or is refused.
    Apply {
        /// What it says.
        ops: Seq<Op>,
        /// What the world outside says of its values.
        facts: Facts,
    },
    /// What changed is handed over.
    TakeDirty,
}

/// What a description holds.
pub struct Described {
    /// Its objects.
    pub model: Model,
    /// What changed in them since that was last handed over.
    pub dirt: DirtySets,
}

/// What a description holds after one more act.
pub open spec fn acted(blanks: Blanks, described: Described, act: Act) -> Described {
    match act {
        Act::Apply { ops, facts } => if changeset::set_problem(
            described.model,
            blanks,
            ops,
            facts,
        ) is None {
            Described {
                model: changeset::model_after(described.model, blanks, ops, ops.len() as int),
                dirt: described.dirt.folded(
                    changeset::dirt_after(described.model, blanks, ops, ops.len() as int),
                ),
            }
        } else {
            described
        },
        Act::TakeDirty => Described { dirt: DirtySets::none(), ..described },
    }
}

/// What a description that started empty holds after the first `n` acts.
pub open spec fn reached(blanks: Blanks, acts: Seq<Act>, n: int) -> Described
    decreases n,
{
    if n <= 0 {
        Described { model: empty_model(), dirt: DirtySets::none() }
    } else {
        acted(blanks, reached(blanks, acts, n - 1), acts[n - 1])
    }
}

/// No object goes by an empty name.
pub open spec fn all_named(model: Model) -> bool {
    forall|kind: Kind, name: Seq<char>| #[trigger]
        changeset::holds(model, kind, name) ==> name.len() > 0
}

/// What an instance refers to is there: its geometry, its material, and the
/// medium that it bounds.
pub open spec fn instance_resolves(model: Model, instance: Instance) -> bool {
    &&& model.materials.contains_key(instance.material@)
    &&& instance.geometry is Mesh ==> model.meshes.contains_key(instance.geometry.named())
    &&& instance.geometry is Curves ==> model.curves.contains_key(instance.geometry.named())
    &&& instance.medium is Some ==> model.media.contains_key(instance.medium->0@)
}

/// The medium that fills the open space is there, and has no grid.
pub open spec fn settings_resolve(model: Model, settings: Settings) -> bool {
    settings.global_medium is Some ==> model.media.contains_key(settings.global_medium->0@)
        && model.media[settings.global_medium->0@].volume is None
}

/// A mesh that is spelled out has triangles, and each names positions that are
/// there.
pub open spec fn spelled_out_well(mesh: Mesh) -> bool {
    match mesh.source {
        MeshSource::Inline { positions, triangles, .. } => {
            &&& positions@.len() > 0
            &&& triangles@.len() > 0
            &&& forall|i: int, j: int|
                0 <= i < triangles@.len() && 0 <= j < 3 ==> (#[trigger] triangles@[i]@[j])
                    < positions@.len()
        },
        _ => true,
    }
}

/// Every reference resolves, every name says something, and every mesh that is
/// spelled out is whole.
pub open spec fn sound(model: Model) -> bool {
    &&& all_named(model)
    &&& forall|name: Seq<char>| #[trigger]
        model.instances.contains_key(name) ==> instance_resolves(model, model.instances[name])
    &&& forall|name: Seq<char>| #[trigger]
        model.settings.contains_key(name) ==> settings_resolve(model, model.settings[name])
    &&& forall|name: Seq<char>| #[trigger]
        model.meshes.contains_key(name) ==> spelled_out_well(model.meshes[name])
}

/// A problem with an op is one with the ops from an earlier one on.
proof fn every_op_goes_through(model: Model, blanks: Blanks, ops: Seq<Op>, from: int, at: int)
    requires
        0 <= from <= at < ops.len(),
        changeset::ops_problem(model, blanks, ops, from) is None,
    ensures
        changeset::op_problem(changeset::model_after(model, blanks, ops, at), ops[at]) is None,
    decreases at - from,
{
    if from < at {
        every_op_goes_through(model, blanks, ops, from + 1, at);
    }
}

/// Ops that go through name their objects.
proof fn ops_name_their_objects(model: Model, blanks: Blanks, ops: Seq<Op>, n: int)
    requires
        all_named(model),
        changeset::ops_problem(model, blanks, ops, 0) is None,
        0 <= n <= ops.len(),
    ensures
        all_named(changeset::model_after(model, blanks, ops, n)),
    decreases n,
{
    if n > 0 {
        ops_name_their_objects(model, blanks, ops, n - 1);
        every_op_goes_through(model, blanks, ops, 0, n - 1);
        let middle = changeset::model_after(model, blanks, ops, n - 1);
        let after = changeset::model_after(model, blanks, ops, n);
        let op = ops[n - 1];
        assert forall|kind: Kind, name: Seq<char>| #[trigger]
            changeset::holds(after, kind, name) implies name.len() > 0 by {
            if op.aim() != (kind, name) {
                ops_touch_only_their_target(middle, blanks, op, kind, name);
            }
        }
    }
}

/// However an empty description is edited, by sets that land and sets that are
/// refused, and whenever what changed is handed over: every reference in it
/// resolves, no name in it is empty, every mesh that is spelled out has
/// triangles whose positions are there.
pub proof fn every_description_is_sound(blanks: Blanks, acts: Seq<Act>, n: int)
    requires
        0 <= n <= acts.len(),
    ensures
        sound(reached(blanks, acts, n).model),
{
    reached_descriptions_stay_sound(blanks, acts, n);
}

proof fn reached_descriptions_stay_sound(blanks: Blanks, acts: Seq<Act>, n: int)
    requires
        0 <= n <= acts.len(),
    ensures
        sound(reached(blanks, acts, n).model),
        finite(reached(blanks, acts, n).model),
    decreases n,
{
    if n > 0 {
        reached_descriptions_stay_sound(blanks, acts, n - 1);
        let before = reached(blanks, acts, n - 1).model;
        if let Act::Apply { ops, facts } = acts[n - 1] {
            if changeset::set_problem(before, blanks, ops, facts) is None {
                let after = changeset::model_after(before, blanks, ops, ops.len() as int);
                ops_name_their_objects(before, blanks, ops, ops.len() as int);
                coverage::edits_keep_finite(before, blanks, ops, ops.len() as int);
                assert forall|name: Seq<char>| #[trigger]
                    after.instances.contains_key(name) implies instance_resolves(
                    after,
                    after.instances[name],
                ) by {
                    valid_models_resolve(after, facts, name);
                }
                assert forall|name: Seq<char>| #[trigger]
                    after.settings.contains_key(name) implies settings_resolve(
                    after,
                    after.settings[name],
                ) by {
                    valid_models_resolve(after, facts, name);
                }
                assert forall|name: Seq<char>| #[trigger]
                    after.meshes.contains_key(name) implies spelled_out_well(after.meshes[name]) by {
                    valid_models_keep_every_rule(after, facts, name);
                }
            }
        }
    }
}

} // verus!
