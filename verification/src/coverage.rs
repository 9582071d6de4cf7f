//! What a description records of its edits tracks them: an update that is told
//! no more than the record misses nothing.

use vstd::prelude::*;

use crate::changeset;
use crate::changeset::{DirtySets, Kind, Op};
use crate::description::{Blanks, Model};
use crate::laws;
use crate::rounds;

verus! {

/// With nothing done there is nothing to record.
pub proof fn standing_still_is_tracked(model: Model)
    ensures
        rounds::tracks(model, model, DirtySets::none()),
{
}

/// An object that was removed and is there again is among what changed.
pub proof fn remade_objects_are_changed(
    model: Model,
    blanks: Blanks,
    ops: Seq<Op>,
    n: int,
    kind: Kind,
    name: Seq<char>,
)
    requires
        0 <= n <= ops.len(),
        changeset::dirt_after(model, blanks, ops, n).removed.contains((kind, name)),
        changeset::holds(changeset::model_after(model, blanks, ops, n), kind, name),
    ensures
        changeset::dirt_after(model, blanks, ops, n).changed.contains((kind, name)),
    decreases n,
{
    if n > 0 {
        let middle = changeset::model_after(model, blanks, ops, n - 1);
        let dirt = changeset::dirt_after(model, blanks, ops, n - 1);
        let op = ops[n - 1];
        if op.aim() != (kind, name) {
            laws::ops_touch_only_their_target(middle, blanks, op, kind, name);
            remade_objects_are_changed(model, blanks, ops, n - 1, kind, name);
        } else if op is Remove {
            laws::removal_retires(middle, blanks, dirt, op);
        } else if changeset::holds(middle, kind, name) {
            remade_objects_are_changed(model, blanks, ops, n - 1, kind, name);
        } else {
            laws::creation_always_dirties(middle, blanks, dirt, op);
        }
    }
}

/// What applying a set records tracks the edit.
pub proof fn applied_edits_are_tracked(model: Model, blanks: Blanks, ops: Seq<Op>)
    ensures
        rounds::tracks(
            model,
            changeset::model_after(model, blanks, ops, ops.len() as int),
            changeset::dirt_after(model, blanks, ops, ops.len() as int),
        ),
{
    let n = ops.len() as int;
    let after = changeset::model_after(model, blanks, ops, n);
    let dirt = changeset::dirt_after(model, blanks, ops, n);
    assert forall|kind: Kind, name: Seq<char>| #[trigger]
        changeset::holds(after, kind, name) && !dirt.changed.contains((kind, name)) implies laws::agree(
        model,
        after,
        kind,
        name,
    ) && !dirt.removed.contains((kind, name)) by {
        if dirt.removed.contains((kind, name)) {
            remade_objects_are_changed(model, blanks, ops, n, kind, name);
        }
        laws::silence_means_unchanged(model, blanks, ops, n, kind, name);
    }
    assert forall|kind: Kind, name: Seq<char>| #[trigger]
        changeset::holds(model, kind, name) && !changeset::holds(after, kind, name) implies dirt.removed.contains(
        (kind, name),
    ) by {
        laws::lost_objects_are_retired(model, blanks, ops, kind, name);
    }
    assert forall|kind: Kind, name: Seq<char>| #[trigger]
        dirt.changed.contains((kind, name)) implies changeset::holds(after, kind, name) by {
        laws::changed_objects_exist(model, blanks, ops, n, kind, name);
    }
}

/// What one model's taking another's place records tracks the difference.
pub proof fn replacements_are_tracked(before: Model, after: Model)
    ensures
        rounds::tracks(before, after, changeset::difference(before, after)),
{
    let dirt = changeset::difference(before, after);
    assert forall|kind: Kind, name: Seq<char>| #[trigger]
        changeset::holds(after, kind, name) && !dirt.changed.contains((kind, name)) implies laws::agree(
        before,
        after,
        kind,
        name,
    ) && !dirt.removed.contains((kind, name)) by {}
}

/// Records fold together as the edits follow each other.
pub proof fn records_fold(
    first: Model,
    middle: Model,
    last: Model,
    older: DirtySets,
    newer: DirtySets,
)
    requires
        rounds::tracks(first, middle, older),
        rounds::tracks(middle, last, newer),
    ensures
        rounds::tracks(first, last, older.folded(newer)),
{
    let dirt = older.folded(newer);
    assert forall|kind: Kind, name: Seq<char>| #[trigger]
        changeset::holds(last, kind, name) && !dirt.changed.contains((kind, name)) implies laws::agree(
        first,
        last,
        kind,
        name,
    ) && !dirt.removed.contains((kind, name)) by {
        assert(!newer.changed.contains((kind, name)));
        assert(changeset::holds(middle, kind, name));
        assert(!older.changed.contains((kind, name)));
        laws::agreeing_chains(first, middle, last, kind, name);
    }
    assert forall|kind: Kind, name: Seq<char>| #[trigger]
        changeset::holds(first, kind, name) && !changeset::holds(last, kind, name) implies dirt.removed.contains(
        (kind, name),
    ) by {
        if changeset::holds(middle, kind, name) {
            assert(newer.removed.contains((kind, name)));
        } else {
            assert(older.removed.contains((kind, name)));
        }
    }
    assert forall|kind: Kind, name: Seq<char>| #[trigger]
        dirt.changed.contains((kind, name)) implies changeset::holds(last, kind, name) by {
        if !newer.changed.contains((kind, name)) {
            assert(older.changed.contains((kind, name)));
            assert(changeset::holds(middle, kind, name));
        }
    }
}

/// A set leaves finitely many objects, and finitely many to retire.
pub proof fn edits_keep_finite(model: Model, blanks: Blanks, ops: Seq<Op>, n: int)
    requires
        laws::finite(model),
        0 <= n <= ops.len(),
    ensures
        laws::finite(changeset::model_after(model, blanks, ops, n)),
        changeset::dirt_after(model, blanks, ops, n).changed.finite(),
        changeset::dirt_after(model, blanks, ops, n).removed.finite(),
    decreases n,
{
    if n > 0 {
        edits_keep_finite(model, blanks, ops, n - 1);
        match ops[n - 1] {
            Op::Mesh(patch) => {},
            Op::Curves(patch) => {},
            Op::Instance(patch) => {},
            Op::Material(patch) => {},
            Op::Medium(patch) => {},
            Op::Light(patch) => {},
            Op::Camera(patch) => {},
            Op::Environment(patch) => {},
            Op::Settings(patch) => {},
            Op::Remove(_, _) => {},
        }
    }
}

/// The names of one kind, with the kind.
spec fn labelled(kind: Kind, names: Set<Seq<char>>) -> Set<(Kind, Seq<char>)> {
    names.map(|name: Seq<char>| (kind, name))
}

/// Finitely many names are finitely many with their kind.
proof fn labels_are_finite(kind: Kind, names: Set<Seq<char>>)
    requires
        names.finite(),
    ensures
        labelled(kind, names).finite(),
        forall|name: Seq<char>| #[trigger]
            names.contains(name) ==> labelled(kind, names).contains((kind, name)),
{
    names.lemma_map_finite(|name: Seq<char>| (kind, name));
    assert forall|name: Seq<char>| #[trigger] names.contains(name) implies labelled(
        kind,
        names,
    ).contains((kind, name)) by {
        assert((|name: Seq<char>| (kind, name))(name) == (kind, name));
    }
}

/// A model has finitely many objects to lose.
pub proof fn losses_are_finite(before: Model, after: Model)
    requires
        laws::finite(before),
    ensures
        changeset::difference(before, after).removed.finite(),
{
    labels_are_finite(Kind::Mesh, before.meshes.dom());
    labels_are_finite(Kind::Curves, before.curves.dom());
    labels_are_finite(Kind::Instance, before.instances.dom());
    labels_are_finite(Kind::Material, before.materials.dom());
    labels_are_finite(Kind::Medium, before.media.dom());
    labels_are_finite(Kind::Light, before.lights.dom());
    labels_are_finite(Kind::Camera, before.cameras.dom());
    labels_are_finite(Kind::Environment, before.environments.dom());
    labels_are_finite(Kind::Settings, before.settings.dom());
    let all = labelled(Kind::Mesh, before.meshes.dom()).union(
        labelled(Kind::Curves, before.curves.dom()),
    ).union(labelled(Kind::Instance, before.instances.dom())).union(
        labelled(Kind::Material, before.materials.dom()),
    ).union(labelled(Kind::Medium, before.media.dom())).union(
        labelled(Kind::Light, before.lights.dom()),
    ).union(labelled(Kind::Camera, before.cameras.dom())).union(
        labelled(Kind::Environment, before.environments.dom()),
    ).union(labelled(Kind::Settings, before.settings.dom()));
    let lost = changeset::difference(before, after).removed;
    assert forall|key: (Kind, Seq<char>)| #[trigger] lost.contains(key) implies all.contains(key) by {
        let (kind, name) = key;
        match kind {
            Kind::Mesh => assert(before.meshes.dom().contains(name)),
            Kind::Curves => assert(before.curves.dom().contains(name)),
            Kind::Instance => assert(before.instances.dom().contains(name)),
            Kind::Material => assert(before.materials.dom().contains(name)),
            Kind::Medium => assert(before.media.dom().contains(name)),
            Kind::Light => assert(before.lights.dom().contains(name)),
            Kind::Camera => assert(before.cameras.dom().contains(name)),
            Kind::Environment => assert(before.environments.dom().contains(name)),
            Kind::Settings => assert(before.settings.dom().contains(name)),
        }
    }
    vstd::set_lib::lemma_set_subset_finite(all, lost);
}

} // verus!
