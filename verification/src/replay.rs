//! What happens to a scene when a change-set is applied again.

use vstd::prelude::*;

use crate::changeset;
use crate::changeset::{
    CameraPatch, CurvesPatch, EnvironmentPatch, InstancePatch, Kind, LightPatch, MaterialPatch,
    MediumPatch, MeshPatch, Op, Patched, SettingsPatch,
};
use crate::description::{Blanks, Model};

verus! {

/// What an op does to the objects of one kind.
enum Act<P> {
    /// Nothing.
    Idle,
    /// It patches one.
    Put(Seq<char>, P),
    /// It removes one.
    Drop(Seq<char>),
}

/// The objects of one kind after an op.
spec fn acted<T: Patched<P>, P>(map: Map<Seq<char>, T>, blank: T, act: Act<P>) -> Map<Seq<char>, T> {
    match act {
        Act::Idle => map,
        Act::Put(name, patch) => map.insert(
            name,
            changeset::upserted(map, blank, name, patch),
        ),
        Act::Drop(name) => map.remove(name),
    }
}

/// Of one kind, an op that comes again makes what it did before unseen.
proof fn acts_absorb<T: Patched<P>, P>(
    map: Map<Seq<char>, T>,
    blank: T,
    first: Act<P>,
    second: Act<P>,
)
    ensures
        acted(acted(map, blank, first), blank, first) == acted(map, blank, first),
        acted(acted(acted(map, blank, first), blank, second), blank, first) == acted(
            acted(map, blank, second),
            blank,
            first,
        ),
{
    let once = acted(map, blank, first);
    let other = acted(map, blank, second);
    let left = acted(acted(once, blank, second), blank, first);
    let right = acted(other, blank, first);
    match first {
        Act::Idle => {},
        Act::Put(name, patch) => {
            let object = if map.contains_key(name) {
                map[name]
            } else {
                blank
            };
            object.merging_twice(patch);
            match second {
                Act::Idle => {},
                Act::Put(there, change) => {
                    object.later_wins(patch, change);
                },
                Act::Drop(there) => {},
            }
        },
        Act::Drop(name) => {},
    }
    assert(acted(once, blank, first) =~= once);
    assert(left =~= right);
}

spec fn on_meshes(op: Op) -> Act<MeshPatch> {
    match op {
        Op::Mesh(patch) => Act::Put(patch.name@, patch),
        Op::Remove(Kind::Mesh, name) => Act::Drop(name@),
        _ => Act::Idle,
    }
}

spec fn on_curves(op: Op) -> Act<CurvesPatch> {
    match op {
        Op::Curves(patch) => Act::Put(patch.name@, patch),
        Op::Remove(Kind::Curves, name) => Act::Drop(name@),
        _ => Act::Idle,
    }
}

spec fn on_instances(op: Op) -> Act<InstancePatch> {
    match op {
        Op::Instance(patch) => Act::Put(patch.name@, patch),
        Op::Remove(Kind::Instance, name) => Act::Drop(name@),
        _ => Act::Idle,
    }
}

spec fn on_materials(op: Op) -> Act<MaterialPatch> {
    match op {
        Op::Material(patch) => Act::Put(patch.name@, *patch),
        Op::Remove(Kind::Material, name) => Act::Drop(name@),
        _ => Act::Idle,
    }
}

spec fn on_media(op: Op) -> Act<MediumPatch> {
    match op {
        Op::Medium(patch) => Act::Put(patch.name@, patch),
        Op::Remove(Kind::Medium, name) => Act::Drop(name@),
        _ => Act::Idle,
    }
}

spec fn on_lights(op: Op) -> Act<LightPatch> {
    match op {
        Op::Light(patch) => Act::Put(patch.name@, patch),
        Op::Remove(Kind::Light, name) => Act::Drop(name@),
        _ => Act::Idle,
    }
}

spec fn on_cameras(op: Op) -> Act<CameraPatch> {
    match op {
        Op::Camera(patch) => Act::Put(patch.name@, patch),
        Op::Remove(Kind::Camera, name) => Act::Drop(name@),
        _ => Act::Idle,
    }
}

spec fn on_environments(op: Op) -> Act<EnvironmentPatch> {
    match op {
        Op::Environment(patch) => Act::Put(patch.name@, patch),
        Op::Remove(Kind::Environment, name) => Act::Drop(name@),
        _ => Act::Idle,
    }
}

spec fn on_settings(op: Op) -> Act<SettingsPatch> {
    match op {
        Op::Settings(patch) => Act::Put(patch.name@, patch),
        Op::Remove(Kind::Settings, name) => Act::Drop(name@),
        _ => Act::Idle,
    }
}

/// An op does to each kind what it does to it.
spec fn by_kinds(model: Model, blanks: Blanks, op: Op) -> Model {
    Model {
        meshes: acted(model.meshes, blanks.meshes, on_meshes(op)),
        curves: acted(model.curves, blanks.curves, on_curves(op)),
        instances: acted(model.instances, blanks.instances, on_instances(op)),
        materials: acted(model.materials, blanks.materials, on_materials(op)),
        media: acted(model.media, blanks.media, on_media(op)),
        lights: acted(model.lights, blanks.lights, on_lights(op)),
        cameras: acted(model.cameras, blanks.cameras, on_cameras(op)),
        environments: acted(model.environments, blanks.environments, on_environments(op)),
        settings: acted(model.settings, blanks.settings, on_settings(op)),
    }
}

/// An op acts kind by kind.
proof fn ops_act_by_kinds(model: Model, blanks: Blanks, op: Op)
    ensures
        changeset::op_model(model, blanks, op) == by_kinds(model, blanks, op),
{
    match op {
        Op::Remove(kind, name) => {
            match kind {
                Kind::Mesh => {},
                Kind::Curves => {},
                Kind::Instance => {},
                Kind::Material => {},
                Kind::Medium => {},
                Kind::Light => {},
                Kind::Camera => {},
                Kind::Environment => {},
                Kind::Settings => {},
            }
        },
        _ => {},
    }
}

/// An op that comes again makes what it did before unseen: it leaves what it
/// would have left had it come only then.
pub proof fn later_ops_absorb_earlier(model: Model, blanks: Blanks, first: Op, second: Op)
    ensures
        ({
            let once = changeset::op_model(model, blanks, first);
            let other = changeset::op_model(model, blanks, second);
            &&& changeset::op_model(once, blanks, first) == once
            &&& changeset::op_model(changeset::op_model(once, blanks, second), blanks, first)
                == changeset::op_model(other, blanks, first)
        }),
{
    let once = changeset::op_model(model, blanks, first);
    let other = changeset::op_model(model, blanks, second);
    let both = changeset::op_model(once, blanks, second);
    ops_act_by_kinds(model, blanks, first);
    ops_act_by_kinds(model, blanks, second);
    ops_act_by_kinds(once, blanks, first);
    ops_act_by_kinds(once, blanks, second);
    ops_act_by_kinds(both, blanks, first);
    ops_act_by_kinds(other, blanks, first);
    acts_absorb(model.meshes, blanks.meshes, on_meshes(first), on_meshes(second));
    acts_absorb(model.curves, blanks.curves, on_curves(first), on_curves(second));
    acts_absorb(model.instances, blanks.instances, on_instances(first), on_instances(second));
    acts_absorb(model.materials, blanks.materials, on_materials(first), on_materials(second));
    acts_absorb(model.media, blanks.media, on_media(first), on_media(second));
    acts_absorb(model.lights, blanks.lights, on_lights(first), on_lights(second));
    acts_absorb(model.cameras, blanks.cameras, on_cameras(first), on_cameras(second));
    acts_absorb(
        model.environments,
        blanks.environments,
        on_environments(first),
        on_environments(second),
    );
    acts_absorb(model.settings, blanks.settings, on_settings(first), on_settings(second));
}

/// The model after a whole list of ops.
spec fn run(model: Model, blanks: Blanks, ops: Seq<Op>) -> Model {
    changeset::model_after(model, blanks, ops, ops.len() as int)
}

/// The first ops of a list are the first of a longer one.
proof fn prefixes_run_alike(model: Model, blanks: Blanks, ops: Seq<Op>, more: Seq<Op>, n: int)
    requires
        0 <= n <= ops.len(),
    ensures
        changeset::model_after(model, blanks, ops + more, n) == changeset::model_after(
            model,
            blanks,
            ops,
            n,
        ),
    decreases n,
{
    if n > 0 {
        prefixes_run_alike(model, blanks, ops, more, n - 1);
        assert((ops + more)[n - 1] == ops[n - 1]);
    }
}

/// A list runs as its parts do, one after the other.
proof fn parts_run_in_turn(model: Model, blanks: Blanks, ops: Seq<Op>, more: Seq<Op>)
    ensures
        run(model, blanks, ops + more) == run(run(model, blanks, ops), blanks, more),
    decreases more.len(),
{
    if more.len() == 0 {
        assert(ops + more =~= ops);
    } else {
        let rest = more.drop_last();
        parts_run_in_turn(model, blanks, ops, rest);
        assert(ops + more =~= (ops + rest).push(more.last()));
        last_runs_last(model, blanks, ops + rest, more.last());
        assert(more =~= rest.push(more.last()));
        last_runs_last(run(model, blanks, ops), blanks, rest, more.last());
    }
}

/// The last op of a list runs last.
proof fn last_runs_last(model: Model, blanks: Blanks, ops: Seq<Op>, op: Op)
    ensures
        run(model, blanks, ops.push(op)) == changeset::op_model(run(model, blanks, ops), blanks, op),
{
    assert(ops.push(op) =~= ops + seq![op]);
    prefixes_run_alike(model, blanks, ops, seq![op], ops.len() as int);
}

/// An op that comes again after others makes what it did before them unseen.
proof fn others_between(model: Model, blanks: Blanks, op: Op, ops: Seq<Op>)
    ensures
        changeset::op_model(run(changeset::op_model(model, blanks, op), blanks, ops), blanks, op)
            == changeset::op_model(run(model, blanks, ops), blanks, op),
    decreases ops.len(),
{
    let once = changeset::op_model(model, blanks, op);
    if ops.len() == 0 {
        later_ops_absorb_earlier(model, blanks, op, op);
    } else {
        let rest = ops.drop_last();
        others_between(model, blanks, op, rest);
        assert(ops =~= rest.push(ops.last()));
        last_runs_last(once, blanks, rest, ops.last());
        last_runs_last(model, blanks, rest, ops.last());
        later_ops_absorb_earlier(run(once, blanks, rest), blanks, op, ops.last());
        later_ops_absorb_earlier(run(model, blanks, rest), blanks, op, ops.last());
    }
}

/// After the first `k` ops of a list that comes again, the first time they came
/// is unseen.
proof fn turns_absorb(model: Model, blanks: Blanks, ops: Seq<Op>, k: int)
    requires
        0 <= k <= ops.len(),
    ensures
        run(run(model, blanks, ops), blanks, ops.take(k)) == run(
            model,
            blanks,
            ops.skip(k) + ops.take(k),
        ),
    decreases k,
{
    if k == 0 {
        assert(ops.skip(0) + ops.take(0) =~= ops);
    } else {
        turns_absorb(model, blanks, ops, k - 1);
        let op = ops[k - 1];
        let before = ops.take(k - 1);
        let between = ops.skip(k) + before;
        assert(ops.take(k) =~= before.push(op));
        last_runs_last(run(model, blanks, ops), blanks, before, op);
        assert(ops.skip(k - 1) + before =~= seq![op] + between);
        parts_run_in_turn(model, blanks, seq![op], between);
        assert(Seq::<Op>::empty().push(op) =~= seq![op]);
        last_runs_last(model, blanks, Seq::empty(), op);
        others_between(model, blanks, op, between);
        assert(ops.skip(k) + ops.take(k) =~= between.push(op));
        last_runs_last(model, blanks, between, op);
    }
}

/// Applying a set again lands the very model that applying it once did, whatever
/// its edits are and in whatever order: of two that differ, the later one wins
/// each time.
pub proof fn reapplying_lands_the_same_model(model: Model, blanks: Blanks, ops: Seq<Op>)
    ensures
        ({
            let landed = changeset::model_after(model, blanks, ops, ops.len() as int);
            changeset::model_after(landed, blanks, ops, ops.len() as int) == landed
        }),
{
    turns_absorb(model, blanks, ops, ops.len() as int);
    assert(ops.take(ops.len() as int) =~= ops);
    assert(ops.skip(ops.len() as int) + ops =~= ops);
}

} // verus!
