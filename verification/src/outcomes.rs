//! When edits and rounds go through, what they are refused for, and what they leave to
//! be done.

use vstd::prelude::*;

use crate::changeset;
use crate::changeset::{DirtySets, Kind, Op};
use crate::description::{Blanks, Geometry, Model};
use crate::error::Problem;
use crate::formula::{Answer, Formula};
use crate::geometry;
use crate::host;
use crate::host::{Brief, Fetched, Haul};
use crate::lower;
use crate::lower::Sky;
use crate::media;
use crate::media::Placement;
use crate::prep;
use crate::scene::TlasInstance;
use crate::stats;
use crate::stats::{FrameCost, Ledger, Moment};
use crate::table;
use crate::texture::{Identity, Key};
use crate::validate;
use crate::validate::Facts;
use crate::value::Same;

verus! {

// -- Edits -----------------------------------------------------------------------------

/// An op is refused exactly where its object has no name, where it names a mesh and
/// curves at once, and where it removes what is not there; each with its own words.
pub proof fn ops_are_refused_for(model: Model, op: Op)
    ensures
        ({
            let (kind, name) = op.aim();
            let found = changeset::op_problem(model, op);
            let both = op matches Op::Instance(patch) && patch.mesh is Some && patch.curves is Some;
            &&& name.len() == 0 ==> found == Some(Problem::<Seq<char>>::EmptyName { kind })
            &&& name.len() > 0 && both ==> found == Some(Problem::<Seq<char>>::TwoGeometries { name })
            &&& name.len() > 0 && op is Remove && !changeset::holds(model, kind, name) ==> found
                == Some(Problem::<Seq<char>>::NothingToRemove { kind, name })
            &&& found is None == (name.len() > 0 && !both && (op is Remove ==> changeset::holds(
                model,
                kind,
                name,
            )))
        }),
{
}

/// An op is aimed at the object that it names, of the kind that it is of.
pub proof fn ops_are_aimed_at_their_object(op: Op)
    ensures
        op matches Op::Mesh(patch) ==> op.aim() == (Kind::Mesh, patch.name@),
        op matches Op::Curves(patch) ==> op.aim() == (Kind::Curves, patch.name@),
        op matches Op::Instance(patch) ==> op.aim() == (Kind::Instance, patch.name@),
        op matches Op::Material(patch) ==> op.aim() == (Kind::Material, patch.name@),
        op matches Op::Medium(patch) ==> op.aim() == (Kind::Medium, patch.name@),
        op matches Op::Light(patch) ==> op.aim() == (Kind::Light, patch.name@),
        op matches Op::Camera(patch) ==> op.aim() == (Kind::Camera, patch.name@),
        op matches Op::Environment(patch) ==> op.aim() == (Kind::Environment, patch.name@),
        op matches Op::Settings(patch) ==> op.aim() == (Kind::Settings, patch.name@),
        op matches Op::Remove(kind, name) ==> op.aim() == (kind, name@),
{
}

/// A set lands exactly where each of its ops goes through on what the ones before it
/// left, and what they leave together is accepted. The first op that does not is
/// what it is refused for.
pub proof fn sets_land_op_by_op(model: Model, blanks: Blanks, ops: Seq<Op>, facts: Facts, n: int)
    requires
        0 <= n <= ops.len(),
        forall|i: int|
            0 <= i < n ==> changeset::op_problem(
                changeset::model_after(model, blanks, ops, i),
                #[trigger] ops[i],
            ) is None,
    ensures
        n == ops.len() ==> changeset::set_problem(model, blanks, ops, facts)
            == validate::model_problem(
            changeset::model_after(model, blanks, ops, ops.len() as int),
            facts,
        ),
        n < ops.len() && changeset::op_problem(
            changeset::model_after(model, blanks, ops, n),
            ops[n],
        ) is Some ==> changeset::set_problem(model, blanks, ops, facts) == changeset::op_problem(
            changeset::model_after(model, blanks, ops, n),
            ops[n],
        ),
{
    problems_wait_for_their_op(model, blanks, ops, 0, n);
}

/// Where the ops from one to another go through, the first problem is behind them.
proof fn problems_wait_for_their_op(model: Model, blanks: Blanks, ops: Seq<Op>, from: int, n: int)
    requires
        0 <= from <= n <= ops.len(),
        forall|i: int|
            from <= i < n ==> changeset::op_problem(
                changeset::model_after(model, blanks, ops, i),
                #[trigger] ops[i],
            ) is None,
    ensures
        changeset::ops_problem(model, blanks, ops, from) == changeset::ops_problem(
            model,
            blanks,
            ops,
            n,
        ),
    decreases n - from,
{
    if from < n {
        assert(changeset::op_problem(
            changeset::model_after(model, blanks, ops, from),
            ops[from],
        ) is None);
        problems_wait_for_their_op(model, blanks, ops, from + 1, n);
    }
}

/// The ops of a set act one after the other, each on what the one before it left.
pub proof fn ops_act_in_turn(model: Model, blanks: Blanks, ops: Seq<Op>, n: int)
    requires
        0 <= n < ops.len(),
    ensures
        changeset::model_after(model, blanks, ops, 0) == model,
        changeset::dirt_after(model, blanks, ops, 0) == DirtySets::none(),
        changeset::model_after(model, blanks, ops, n + 1) == changeset::op_model(
            changeset::model_after(model, blanks, ops, n),
            blanks,
            ops[n],
        ),
        changeset::dirt_after(model, blanks, ops, n + 1) == changeset::op_dirt(
            changeset::model_after(model, blanks, ops, n),
            blanks,
            changeset::dirt_after(model, blanks, ops, n),
            ops[n],
        ),
{
}

/// What two rounds of edits leave to do: what the newer changed, and what the older
/// changed and the newer did not remove; and everything that either removed.
pub proof fn rounds_fold_object_by_object(
    older: DirtySets,
    newer: DirtySets,
    key: (Kind, Seq<char>),
)
    ensures
        older.folded(newer).changed.contains(key) == (newer.changed.contains(key) || (
        older.changed.contains(key) && !newer.removed.contains(key))),
        older.folded(newer).removed.contains(key) == (older.removed.contains(key)
            || newer.removed.contains(key)),
        !DirtySets::none().changed.contains(key) && !DirtySets::none().removed.contains(key),
{
}

/// What one model's taking another's place leaves to do: an object changed where it is new
/// or not equal to what it was, and is removed where it is no longer there.
pub proof fn differences_are_object_by_object(
    before: Model,
    after: Model,
    kind: Kind,
    name: Seq<char>,
)
    ensures
        ({
            let dirt = changeset::difference(before, after);
            let was = changeset::holds(before, kind, name);
            let held = changeset::holds(after, kind, name);
            &&& dirt.removed.contains((kind, name)) == (was && !held)
            &&& held && !was ==> dirt.changed.contains((kind, name))
            &&& held && was ==> dirt.changed.contains((kind, name)) == !changeset::same_object(
                after,
                before,
                kind,
                name,
            )
            &&& !held ==> !dirt.changed.contains((kind, name))
        }),
{
}

/// Whether a model holds an object, and whether two are equal, is told by the table of
/// the object's own kind.
pub proof fn kinds_have_their_own_tables(a: Model, b: Model, name: Seq<char>)
    ensures
        changeset::holds(a, Kind::Mesh, name) == a.meshes.contains_key(name),
        changeset::holds(a, Kind::Curves, name) == a.curves.contains_key(name),
        changeset::holds(a, Kind::Instance, name) == a.instances.contains_key(name),
        changeset::holds(a, Kind::Material, name) == a.materials.contains_key(name),
        changeset::holds(a, Kind::Medium, name) == a.media.contains_key(name),
        changeset::holds(a, Kind::Light, name) == a.lights.contains_key(name),
        changeset::holds(a, Kind::Camera, name) == a.cameras.contains_key(name),
        changeset::holds(a, Kind::Environment, name) == a.environments.contains_key(name),
        changeset::holds(a, Kind::Settings, name) == a.settings.contains_key(name),
        changeset::same_object(a, b, Kind::Mesh, name) == a.meshes[name].same(b.meshes[name]),
        changeset::same_object(a, b, Kind::Curves, name) == a.curves[name].same(b.curves[name]),
        changeset::same_object(a, b, Kind::Instance, name) == a.instances[name].same(
            b.instances[name],
        ),
        changeset::same_object(a, b, Kind::Material, name) == a.materials[name].same(
            b.materials[name],
        ),
        changeset::same_object(a, b, Kind::Medium, name) == a.media[name].same(b.media[name]),
        changeset::same_object(a, b, Kind::Light, name) == a.lights[name].same(b.lights[name]),
        changeset::same_object(a, b, Kind::Camera, name) == a.cameras[name].same(b.cameras[name]),
        changeset::same_object(a, b, Kind::Environment, name) == a.environments[name].same(
            b.environments[name],
        ),
        changeset::same_object(a, b, Kind::Settings, name) == a.settings[name].same(
            b.settings[name],
        ),
{
}

// -- Rounds ----------------------------------------------------------------------------

/// A scene renders with one camera, one set of settings and at most one environment, and
/// is told which of these it does not keep.
pub proof fn scenes_have_one_camera(model: Model)
    ensures
        ({
            let found = host::census_problem(model);
            let cameras = model.cameras.dom().len();
            let settings = model.settings.dom().len();
            let skies = model.environments.dom().len();
            &&& found is None == (cameras == 1 && settings == 1 && skies <= 1)
            &&& cameras == 0 ==> found == Some(Problem::<Seq<char>>::NoneOf { kind: Kind::Camera })
            &&& cameras > 1 ==> found == Some(
                Problem::<Seq<char>>::ManyOf { kind: Kind::Camera, count: cameras as usize },
            )
            &&& cameras == 1 && settings == 0 ==> found == Some(
                Problem::<Seq<char>>::NoneOf { kind: Kind::Settings },
            )
            &&& cameras == 1 && settings > 1 ==> found == Some(
                Problem::<Seq<char>>::ManyOf { kind: Kind::Settings, count: settings as usize },
            )
            &&& cameras == 1 && settings == 1 && skies > 1 ==> found == Some(
                Problem::<Seq<char>>::ManyEnvironments { count: skies as usize },
            )
        }),
{
}

/// A texture that failed refuses the round, and only one that failed.
pub proof fn failed_textures_refuse_the_round(fetched: Map<Identity, Fetched>)
    requires
        fetched.dom().finite(),
    ensures
        host::texture_trouble(fetched, fetched.dom().len() as int) is None == forall|key: Identity|
            #[trigger] fetched.contains_key(key) ==> !(fetched[key] is Failed),
{
    let n = fetched.dom().len() as int;
    table::ranking_holds_all::<Key>(fetched.dom());
    let keys = table::ranking::<Key>(fetched.dom());
    keys.unique_seq_to_set();
    failures_are_found(fetched, n);
    if host::texture_trouble(fetched, n) is None {
        assert forall|key: Identity| #[trigger] fetched.contains_key(key) implies !(
        fetched[key] is Failed) by {
            assert(fetched.dom().contains(key));
            assert(keys.contains(key));
            let i = keys.index_of(key);
            assert(keys[i] == key);
        }
    } else {
        let i = choose|i: int| 0 <= i < n && fetched[#[trigger] keys[i]] is Failed;
        assert(keys.contains(keys[i]));
        assert(fetched.dom().contains(keys[i]));
        assert(fetched.contains_key(keys[i]));
    }
}

/// Some texture failed among the first in order, or none did.
proof fn failures_are_found(fetched: Map<Identity, Fetched>, n: int)
    ensures
        host::texture_trouble(fetched, n) is None == forall|i: int|
            0 <= i < n ==> !(fetched[#[trigger] table::ranking::<Key>(
                fetched.dom(),
            )[i]] is Failed),
    decreases n,
{
    if n > 0 {
        failures_are_found(fetched, n - 1);
        let keys = table::ranking::<Key>(fetched.dom());
        if host::texture_trouble(fetched, n) is None {
            assert forall|i: int| 0 <= i < n implies !(fetched[#[trigger] keys[i]] is Failed) by {}
        }
    }
}

/// A round goes through exactly where the scene has what it renders with, its geometry
/// was built, its textures can be bound and were prepared, its media were lowered,
/// its emitters were read, its sky was read where it had to be, and the medium that
/// fills the open space is there.
pub proof fn rounds_go_through<M: Fn(Formula) -> Answer>(maths: M, brief: Brief, haul: Haul)
    ensures
        host::refusal(maths, brief, haul) is None == {
            &&& host::census_problem(brief.model) is None
            &&& haul.built is Ok
            &&& lower::asked_for(brief.model.materials).len() <= brief.limit
            &&& host::texture_trouble(haul.fetched, haul.fetched.dom().len() as int) is None
            &&& validate::first_problem(
                brief.model.media,
                lower::medium_trouble(maths, haul.grids),
            ) is None
            &&& host::stage(maths, brief, haul) is Ok
            &&& haul.sky is Some && (brief.fresh || host::touched(brief.dirt, Kind::Environment))
                ==> host::heaven(maths, brief).image != Some(Sky::Image)
            &&& brief.settings().global_medium matches Some(name)
                ==> brief.model.media.contains_key(name@)
        },
{
}

/// The geometry that is due is what changed and is there: meshes and curves, nothing else.
pub proof fn changed_geometry_is_due(
    model: Model,
    changed: Set<(Kind, Seq<char>)>,
    name: Seq<char>,
)
    ensures
        geometry::due(model, changed, (Kind::Mesh, name)) == (changed.contains((Kind::Mesh, name))
            && model.meshes.contains_key(name)),
        geometry::due(model, changed, (Kind::Curves, name)) == (changed.contains(
            (Kind::Curves, name),
        ) && model.curves.contains_key(name)),
        !geometry::due(model, changed, (Kind::Material, name)),
        !geometry::due(model, changed, (Kind::Instance, name)),
{
}

/// The top-level structure is asked to be rebuilt exactly where a mesh, curves, an
/// instance or a material was touched; the sky is lowered on a fresh build and where
/// an environment was.
pub proof fn rebuilding_follows_what_was_touched(brief: Brief)
    ensures
        brief.restacked() == (host::touched(brief.dirt, Kind::Mesh) || host::touched(
            brief.dirt,
            Kind::Curves,
        ) || host::touched(brief.dirt, Kind::Instance) || host::touched(
            brief.dirt,
            Kind::Material,
        )),
        brief.skyward() == (brief.fresh || host::touched(brief.dirt, Kind::Environment)),
{
}

/// Rays meet the same in a list and itself, and something else as soon as one instance is
/// other geometry, stands elsewhere, is seen by other rays or is otherwise opaque.
pub proof fn rays_meet_something_else(
    before: Seq<TlasInstance>,
    after: Seq<TlasInstance>,
    i: int,
)
    requires
        0 <= i < before.len(),
    ensures
        prep::stands(before, before),
        before.len() != after.len() ==> !prep::stands(before, after),
        before.len() == after.len() && (before[i].transform != after[i].transform
            || before[i].custom_index != after[i].custom_index || before[i].mask != after[i].mask
            || before[i].opaque != after[i].opaque || before[i].geometry@ != after[i].geometry@)
            ==> !prep::stands(before, after),
{
    assert forall|k: int|
        #![trigger before[k]]
        0 <= k < before.len() implies prep::met_alike(before[k], before[k]) by {}
    if prep::stands(before, after) {
        assert(prep::met_alike(before[i], after[i]));
    }
}

/// An instance is told to have a texture and nowhere to look it up exactly where it, its
/// material or its mesh changed, its material refers to a texture, and its mesh is
/// spelled out without coordinates.
pub proof fn missing_coordinates_are_told(
    model: Model,
    changed: Set<(Kind, Seq<char>)>,
    name: Seq<char>,
)
    ensures
        host::uvless(model, changed)(name) == {
            let instance = model.instances[name];
            &&& model.materials[instance.material@].references().len() > 0
            &&& instance.geometry matches Geometry::Mesh(mesh) && {
                &&& model.meshes[mesh@].source is Inline
                &&& model.meshes[mesh@].source->Inline_uvs is None
                &&& changed.contains((Kind::Instance, name)) || changed.contains(
                    (Kind::Material, instance.material@),
                ) || changed.contains((Kind::Mesh, mesh@))
            }
        },
{
    let instance = model.instances[name];
    if let Geometry::Mesh(mesh) = instance.geometry {
        assert(instance.geometry@ == (Kind::Mesh, mesh@));
    }
}

// -- What is among the placements --------------------------------------------------------

/// What a kernel has to act on is there exactly where some placement has it.
pub proof fn placements_have_what_is_among_them<M: Fn(Formula) -> Answer>(
    maths: M,
    placements: Seq<Placement>,
    i: int,
)
    requires
        0 <= i < placements.len(),
    ensures
        ({
            let all = media::media_among(maths, placements);
            let one = placements[i];
            &&& one.class() == 1 ==> all.interiors
            &&& one.medium is Some ==> all.volumes
            &&& one.class() == 1 && one.priority > 0 ==> all.priority
            &&& one.class() == 1 && scatters(maths, one) ==> all.scattering_interiors
            &&& media::subsurface_filling(maths, one.material) is Some ==> all.subsurface
            &&& one.medium is Some && one.medium->0.volume is Some ==> all.heterogeneous
            &&& one.medium is Some && one.medium->0.volume is Some
                && one.medium->0.volume->0.temperature is Some ==> all.emissive
        }),
{
    let one = placements[i];
    assert(one.medium is Some ==> one.class() == 2);
}

/// The inside of the placement's material scatters in some channel.
pub open spec fn scatters<M: Fn(Formula) -> Answer>(maths: M, placement: Placement) -> bool {
    media::filling(maths, placement.material) matches Some(record) && (0 < record.sigma_s.x.bits
        <= 0x7f80_0000 || 0 < record.sigma_s.y.bits <= 0x7f80_0000 || 0 < record.sigma_s.z.bits
        <= 0x7f80_0000)
}

/// Where no placement has something, a kernel is not told of it.
pub proof fn nothing_else_is_among_them<M: Fn(Formula) -> Answer>(
    maths: M,
    placements: Seq<Placement>,
)
    ensures
        ({
            let all = media::media_among(maths, placements);
            &&& (forall|i: int|
                0 <= i < placements.len() ==> (#[trigger] placements[i]).class() != 1)
                ==> !all.interiors
            &&& (forall|i: int|
                0 <= i < placements.len() ==> (#[trigger] placements[i]).medium is None)
                ==> !all.volumes
            &&& (forall|i: int|
                0 <= i < placements.len() ==> (#[trigger] placements[i]).class() != 1
                    || placements[i].priority == 0) ==> !all.priority
            &&& (forall|i: int|
                0 <= i < placements.len() ==> (#[trigger] placements[i]).class() != 1 || !scatters(
                    maths,
                    placements[i],
                )) ==> !all.scattering_interiors
            &&& (forall|i: int|
                0 <= i < placements.len() ==> media::subsurface_filling(
                    maths,
                    (#[trigger] placements[i]).material,
                ) is None) ==> !all.subsurface
            &&& (forall|i: int|
                0 <= i < placements.len() ==> ((#[trigger] placements[i]).medium matches Some(
                    medium,
                ) ==> medium.volume is None)) ==> !all.heterogeneous
            &&& (forall|i: int|
                0 <= i < placements.len() ==> ((#[trigger] placements[i]).medium matches Some(
                    medium,
                ) ==> (medium.volume matches Some(volume) ==> volume.temperature is None)))
                ==> !all.emissive
        }),
{
}

/// A boundary word tells what crossing means in its lowest byte; on an interior it tells
/// besides that it is one, its priority, and whether what is inside scatters.
pub proof fn boundary_words_tell<M: Fn(Formula) -> Answer>(maths: M, placement: Placement)
    ensures
        ({
            let word = media::word(maths, placement);
            let class = placement.class() as int;
            &&& class != 1 ==> word == class
            &&& class == 1 ==> word == 1 + 0x8000_0000 + 0x0200_0000 * media::ranked_priority(
                placement,
            ) + (if scatters(maths, placement) {
                0x0100_0000int
            } else {
                0
            })
        }),
{
}

// -- Measuring ---------------------------------------------------------------------------

/// Frames are the device's where it was busy for nine tenths of them or more, the host's
/// where it was not, and nobody's where one of the two was not measured.
pub proof fn nine_tenths_are_the_line(cpu: int, gpu: int)
    requires
        0 <= cpu,
        0 <= gpu,
    ensures
        stats::verdict(cpu, gpu) is Unknown == (cpu == 0 || gpu == 0),
        stats::verdict(cpu, gpu) is Gpu == (cpu > 0 && gpu > 0 && 10 * gpu >= 9 * cpu),
        stats::verdict(cpu, gpu) is Cpu == (cpu > 0 && gpu > 0 && 10 * gpu < 9 * cpu),
{
}

/// The time between two moments is how far the later is behind the earlier, and none where
/// it is not behind.
pub proof fn time_runs_forward(from: Moment, to: Moment)
    ensures
        from.nanos <= to.nanos ==> from.until(to).nanos == to.nanos - from.nanos,
        to.nanos <= from.nanos ==> from.until(to).nanos == 0,
{
}

/// The frame that is shown is the last one with an attribution, at the size and with the
/// samples of the last one there was.
pub proof fn the_last_attributed_frame_is_shown(ledger: Ledger, frame: FrameCost, now: Moment)
    ensures
        ({
            let shown = ledger.recorded(frame, now).latest;
            &&& shown.size == frame.size && shown.samples == frame.samples
            &&& frame.passes.kernels.len() > 0 ==> shown == frame
            &&& frame.passes.kernels.len() == 0 ==> shown.cpu == ledger.latest.cpu && shown.passes
                == ledger.latest.passes && shown.candidates == ledger.latest.candidates
        }),
{
}

/// A frame changes nothing of what memory was read, and a reading nothing of what frames
/// cost; a restart changes neither.
pub proof fn accounts_do_not_mix(
    ledger: Ledger,
    frame: FrameCost,
    memory: stats::Memory,
    now: Moment,
)
    ensures
        ledger.recorded(frame, now).memory == ledger.memory,
        ledger.recorded(frame, now).peak_memory == ledger.peak_memory,
        ledger.recorded(frame, now).reset == ledger.reset,
        ledger.recorded(frame, now).origin == ledger.origin,
        ledger.informed(memory).totals == ledger.totals,
        ledger.informed(memory).window == ledger.window,
        ledger.informed(memory).interactivity == ledger.interactivity,
        ledger.informed(memory).latest == ledger.latest,
        ledger.informed(memory).memory == memory,
        ledger.restarted(now).totals == ledger.totals,
        ledger.restarted(now).window == ledger.window,
        ledger.restarted(now).memory == ledger.memory,
        ledger.restarted(now).latest == ledger.latest,
        ledger.restarted(now).reset == now,
{
}

} // verus!
