//! What holds of rounds as a whole: with the files as they are, a fresh build
//! depends on the description alone, and an update lands the very scene that
//! a fresh build would.

use std::sync::Arc;

use vstd::prelude::*;

use crate::bits::Vec3;
use crate::changeset;
use crate::changeset::{DirtySets, Kind, Op};
use crate::coverage;
use crate::dds::Prepared;
use crate::description;
use crate::description::{Blanks, Curves, Geometry, MeshSource, Model};
use crate::error::Problem;
use crate::formula;
use crate::formula::{Answer, Formula};
use crate::geometry;
use crate::host;
use crate::host::{Brief, Fetched, Haul, Shape, Stock};
use crate::laws;
use crate::lower;
use crate::lower::{GridReading, Sky};
use crate::mesh::Mesh;
use crate::prep;
use crate::prep::Residency;
use crate::table;
use crate::texture::{Identity, Key};
use crate::validate;
use crate::validate::Facts;

verus! {

/// What the files hold and what geometry is built to: the same source gives
/// the same, every time.
pub struct Library {
    /// The geometry of a mesh.
    pub meshes: spec_fn(description::Mesh) -> Mesh,
    /// The geometry of a batch of curves.
    pub batches: spec_fn(Curves) -> Mesh,
    /// The texture for a key.
    pub textures: spec_fn(Identity) -> Arc<Prepared>,
    /// The header of a medium's grid.
    pub grids: spec_fn(description::Medium) -> GridReading,
}

/// A mesh that is spelled out is built to what it spells.
pub open spec fn faithful(library: Library) -> bool {
    forall|mesh: description::Mesh|
        match mesh.source {
            MeshSource::Inline { positions, triangles, .. } => host::shape_of(
                #[trigger] (library.meshes)(mesh),
            ) == (Shape { positions: positions@, triangles: triangles@ }),
            _ => true,
        }
}

/// The geometry that a model names.
pub open spec fn all_geometry(library: Library, model: Model) -> Map<(Kind, Seq<char>), Mesh> {
    Map::new(
        |key: (Kind, Seq<char>)|
            (key.0 == Kind::Mesh && model.meshes.contains_key(key.1)) || (key.0 == Kind::Curves
                && model.curves.contains_key(key.1)),
        |key: (Kind, Seq<char>)|
            if key.0 == Kind::Mesh {
                (library.meshes)(model.meshes[key.1])
            } else {
                (library.batches)(model.curves[key.1])
            },
    )
}

/// What was read for a round is what the library gives.
pub open spec fn reads(library: Library, brief: Brief, haul: Haul) -> bool {
    let model = brief.model;
    &&& haul.built is Ok
    &&& forall|key: (Kind, Seq<char>)| #![trigger haul.built->Ok_0.contains_key(key)]
        haul.built->Ok_0.contains_key(key) == geometry::due(model, brief.dirt.changed, key) && (
        haul.built->Ok_0.contains_key(key) ==> haul.built->Ok_0[key] == all_geometry(
            library,
            model,
        )[key])
    &&& forall|key: (Kind, Seq<char>)| #[trigger]
        haul.rereads.contains_key(key) ==> haul.rereads[key] is Ok && host::shape_of(
            haul.rereads[key]->Ok_0,
        ) == host::shape_of(all_geometry(library, model)[key])
    &&& haul.fetched.dom().finite()
    &&& forall|key: Identity| #[trigger]
        haul.fetched.contains_key(key) ==> (haul.fetched[key] matches Fetched::Fresh(prepared)
            ==> prepared == (library.textures)(key))
    &&& forall|name: Seq<char>| #[trigger]
        model.media.contains_key(name) && model.media[name].volume is Some
            ==> haul.grids.contains_key(name) && haul.grids[name] == (library.grids)(
            model.media[name],
        )
    &&& haul.sky is None
}

/// A round that goes through.
pub open spec fn succeeds<M: Fn(Formula) -> Answer>(
    maths: M,
    library: Library,
    brief: Brief,
    haul: Haul,
) -> bool {
    &&& laws::finite(brief.model)
    &&& reads(library, brief, haul)
    &&& host::supplied(maths, brief, haul)
    &&& host::refusal(maths, brief, haul) is None
}

/// Every object that is not among what changed agrees with what it was, every
/// one that went is among what was removed, and what changed is there.
pub open spec fn tracks(before: Model, after: Model, dirt: DirtySets) -> bool {
    &&& forall|kind: Kind, name: Seq<char>| #[trigger]
        changeset::holds(after, kind, name) && !dirt.changed.contains((kind, name))
            ==> laws::agree(before, after, kind, name) && !dirt.removed.contains((kind, name))
    &&& forall|kind: Kind, name: Seq<char>| #[trigger]
        changeset::holds(before, kind, name) && !changeset::holds(after, kind, name)
            ==> dirt.removed.contains((kind, name))
    &&& forall|kind: Kind, name: Seq<char>| #[trigger]
        dirt.changed.contains((kind, name)) ==> changeset::holds(after, kind, name)
}

/// What stays resident of the object is what would be made of it anew. Of most
/// kinds nothing stays: they are lowered in every round.
pub open spec fn made_alike<M: Fn(Formula) -> Answer>(
    maths: M,
    library: Library,
    before: Model,
    after: Model,
    kind: Kind,
    name: Seq<char>,
) -> bool {
    match kind {
        Kind::Mesh => (library.meshes)(before.meshes[name]) == (library.meshes)(
            after.meshes[name],
        ),
        Kind::Curves => (library.batches)(before.curves[name]) == (library.batches)(
            after.curves[name],
        ),
        Kind::Camera => lower::settled_camera(maths, before.cameras[name])
            == lower::settled_camera(maths, after.cameras[name]),
        Kind::Environment => lower::placed_sky(maths, before.environments[name], None)
            == lower::placed_sky(maths, after.environments[name], None),
        _ => true,
    }
}

/// Where an object agrees with what it was and is not among what changed, no
/// difference between the two shows in what is made of it. One that is the very
/// same makes none; one that only equals what it was may hold a zero of the
/// other sign, or another spelling of a path.
pub open spec fn made_of_the_same<M: Fn(Formula) -> Answer>(
    maths: M,
    library: Library,
    before: Model,
    after: Model,
    dirt: DirtySets,
) -> bool {
    forall|kind: Kind, name: Seq<char>| #[trigger]
        changeset::holds(after, kind, name) && !dirt.changed.contains((kind, name))
            && laws::agree(before, after, kind, name) ==> made_alike(
            maths,
            library,
            before,
            after,
            kind,
            name,
        )
}

/// Objects that are the very same are made alike: only where an edit leaves a
/// mesh, a batch of curves, a camera or an environment that equals what it was
/// without being it can a difference show.
pub proof fn the_very_same_is_made_alike<M: Fn(Formula) -> Answer>(
    maths: M,
    library: Library,
    before: Model,
    after: Model,
    dirt: DirtySets,
)
    requires
        forall|kind: Kind, name: Seq<char>|
            (kind == Kind::Mesh || kind == Kind::Curves || kind == Kind::Camera || kind
                == Kind::Environment) && changeset::holds(after, kind, name)
                && !dirt.changed.contains((kind, name)) && #[trigger] laws::agree(
                before,
                after,
                kind,
                name,
            ) ==> laws::identical(before, after, kind, name),
    ensures
        made_of_the_same(maths, library, before, after, dirt),
{
}

/// A shell is only ever placed around a medium.
pub open spec fn shells_bound_media(model: Model) -> bool {
    forall|name: Seq<char>| #[trigger]
        model.instances.contains_key(name) ==> (model.instances[name].geometry matches Geometry::Mesh(
            mesh,
        ) && model.meshes[mesh@].source is MediumBounds ==> model.instances[name].medium is Some)
}

/// Black has no luminance.
pub open spec fn black_is_dark<M: Fn(Formula) -> Answer>(maths: M) -> bool {
    !formula::truth(maths, Formula::Luminous(Vec3::new(0, 0, 0)))
}

// -- Textures ------------------------------------------------------------------------

/// Textures that raise no trouble have not failed.
proof fn none_failed(fetched: Map<Identity, Fetched>, n: int, i: int)
    requires
        0 <= i < n,
        host::texture_trouble(fetched, n) is None,
    ensures
        !(fetched[table::ranking::<Key>(fetched.dom())[i]] is Failed),
    decreases n,
{
    if i < n - 1 {
        none_failed(fetched, n - 1, i);
    }
}

/// In a round that goes through, every texture is there, and each is the
/// library's or was resident.
proof fn textures_of_a_round<M: Fn(Formula) -> Answer>(
    maths: M,
    library: Library,
    brief: Brief,
    haul: Haul,
    key: Identity,
)
    requires
        succeeds(maths, library, brief, haul),
    ensures
        haul.fetched.dom() == lower::asked_for(brief.model.materials),
        haul.fetched.contains_key(key) ==> {
            ||| haul.fetched[key] matches Fetched::Fresh(prepared) && prepared
                == (library.textures)(key)
            ||| haul.fetched[key] is Kept && brief.textures.contains_key(key)
        },
{
    if haul.fetched.contains_key(key) {
        table::ranking_holds_all::<Key>(haul.fetched.dom());
        let keys = table::ranking::<Key>(haul.fetched.dom());
        assert(haul.fetched.dom().contains(key));
        assert(keys.contains(key));
        let i = keys.index_of(key);
        none_failed(haul.fetched, haul.fetched.dom().len() as int, i);
        let need = lower::need(
            brief.textures,
            key,
            lower::touched(brief.model.materials, brief.dirt.changed, key),
        );
        assert(host::answered(need, haul.fetched[key]));
    }
}

// -- Instances -----------------------------------------------------------------------

/// What instances unfold to depends on the shapes of those that emit, not on
/// where the shapes came from.
proof fn stagings_agree<M: Fn(Formula) -> Answer>(
    maths: M,
    model: Model,
    one: Stock,
    other: Stock,
    n: int,
)
    requires
        0 <= n <= table::ranking::<String>(model.instances.dom()).len(),
        one.materials == other.materials,
        one.media == other.media,
        forall|i: int|
            0 <= i < n ==> {
                let instance = model.instances[#[trigger] table::ranking::<String>(
                    model.instances.dom(),
                )[i]];
                host::emits(
                    maths,
                    instance,
                    host::worn(
                        one.materials[instance.material@],
                        host::medium_in(one, instance),
                    ),
                ) ==> host::emitter(model, one.built, one.rereads, instance.geometry)
                    == host::emitter(model, other.built, other.rereads, instance.geometry)
            },
    ensures
        host::staged(maths, model, one, n) == host::staged(maths, model, other, n),
    decreases n,
{
    if n > 0 {
        stagings_agree(maths, model, one, other, n - 1);
        let name = table::ranking::<String>(model.instances.dom())[n - 1];
        let instance = model.instances[name];
        assert(host::medium_in(one, instance) == host::medium_in(other, instance));
    }
}

/// An emitter's shape is the library's, whatever the round built.
proof fn emitters_are_the_librarys<M: Fn(Formula) -> Answer>(
    maths: M,
    library: Library,
    brief: Brief,
    haul: Haul,
    name: Seq<char>,
)
    requires
        succeeds(maths, library, brief, haul),
        faithful(library),
        black_is_dark(maths),
        shells_bound_media(brief.model),
        brief.model.instances.contains_key(name),
        ({
            let instance = brief.model.instances[name];
            let stock = host::stock(maths, brief, haul);
            host::emits(
                maths,
                instance,
                host::worn(
                    stock.materials[instance.material@],
                    host::medium_in(stock, instance),
                ),
            )
        }),
    ensures
        ({
            let instance = brief.model.instances[name];
            let stock = host::stock(maths, brief, haul);
            host::emitter(brief.model, stock.built, stock.rereads, instance.geometry) == Ok::<
                Shape,
                Problem<Seq<char>>,
            >(host::shape_of(all_geometry(library, brief.model)[instance.geometry@]))
        }),
{
    let model = brief.model;
    let instance = model.instances[name];
    let stock = host::stock(maths, brief, haul);
    let key = instance.geometry@;
    assert(host::placeable(maths, model, stock, instance));
    if stock.built.contains_key(key) {
        assert(haul.built->Ok_0.contains_key(key));
    } else if host::rereads_of(model, instance.geometry) {
        assert(haul.rereads.contains_key(key));
    } else {
        let mesh = instance.geometry->Mesh_0;
        let source = model.meshes[mesh@];
        match source.source {
            MeshSource::Inline { positions, triangles, .. } => {
                assert(host::shape_of((library.meshes)(source)) == (Shape {
                    positions: positions@,
                    triangles: triangles@,
                }));
            },
            MeshSource::MediumBounds => {
                assert(instance.medium is Some);
                let worn = host::worn(
                    stock.materials[instance.material@],
                    host::medium_in(stock, instance),
                );
                assert(worn.emission == Vec3::new(0, 0, 0));
            },
            MeshSource::Ply { .. } => {},
        }
    }
}

/// The media of a round are the library's.
proof fn media_agree<M: Fn(Formula) -> Answer>(
    maths: M,
    library: Library,
    model: Model,
    brief: Brief,
    haul: Haul,
    other: Brief,
    found: Haul,
)
    requires
        brief.model == model,
        other.model == model,
        reads(library, brief, haul),
        reads(library, other, found),
    ensures
        lower::all_media(maths, model.media, haul.grids) == lower::all_media(
            maths,
            model.media,
            found.grids,
        ),
{
    let one = lower::all_media(maths, model.media, haul.grids);
    let two = lower::all_media(maths, model.media, found.grids);
    assert forall|name: Seq<char>| model.media.contains_key(name) implies one[name] == two[name] by {
        if model.media[name].volume is Some {
            assert(haul.grids.contains_key(name));
            assert(found.grids.contains_key(name));
            assert(lower::reading_of(haul.grids, name) == lower::reading_of(found.grids, name));
        }
    }
    assert(one =~= two);
}

/// Two rounds over one model unfold its instances alike.
proof fn stages_agree<M: Fn(Formula) -> Answer>(
    maths: M,
    library: Library,
    brief: Brief,
    haul: Haul,
    other: Brief,
    found: Haul,
)
    requires
        brief.model == other.model,
        succeeds(maths, library, brief, haul),
        succeeds(maths, library, other, found),
        faithful(library),
        black_is_dark(maths),
        shells_bound_media(brief.model),
    ensures
        host::stage(maths, brief, haul) == host::stage(maths, other, found),
        haul.fetched.dom() == found.fetched.dom(),
{
    let model = brief.model;
    textures_of_a_round(maths, library, brief, haul, arbitrary());
    textures_of_a_round(maths, library, other, found, arbitrary());
    media_agree(maths, library, model, brief, haul, other, found);
    let one = host::stock(maths, brief, haul);
    let two = host::stock(maths, other, found);
    table::ranking_holds_all::<String>(model.instances.dom());
    let names = table::ranking::<String>(model.instances.dom());
    assert forall|i: int| 0 <= i < names.len() implies ({
        let instance = model.instances[#[trigger] names[i]];
        host::emits(
            maths,
            instance,
            host::worn(one.materials[instance.material@], host::medium_in(one, instance)),
        ) ==> host::emitter(model, one.built, one.rereads, instance.geometry) == host::emitter(
            model,
            two.built,
            two.rereads,
            instance.geometry,
        )
    }) by {
        let name = names[i];
        assert(names.contains(name));
        assert(model.instances.dom().contains(name));
        let instance = model.instances[name];
        if host::emits(
            maths,
            instance,
            host::worn(one.materials[instance.material@], host::medium_in(one, instance)),
        ) {
            emitters_are_the_librarys(maths, library, brief, haul, name);
            emitters_are_the_librarys(maths, library, other, found, name);
        }
    }
    stagings_agree(maths, model, one, two, model.instances.dom().len() as int);
}

/// With the files as they are, two fresh builds of one description are one
/// scene.
pub proof fn fresh_builds_agree<M: Fn(Formula) -> Answer>(
    maths: M,
    library: Library,
    model: Model,
    limit: usize,
    haul: Haul,
    found: Haul,
)
    requires
        succeeds(maths, library, prep::from_nothing(model, limit), haul),
        succeeds(maths, library, prep::from_nothing(model, limit), found),
        faithful(library),
        black_is_dark(maths),
        shells_bound_media(model),
    ensures
        prep::fresh(maths, prep::from_nothing(model, limit), haul) == prep::fresh(
            maths,
            prep::from_nothing(model, limit),
            found,
        ),
{
    let brief = prep::from_nothing(model, limit);
    stages_agree(maths, library, brief, haul, brief, found);
    media_agree(maths, library, model, brief, haul, brief, found);
    assert(haul.built->Ok_0 =~= found.built->Ok_0) by {
        assert forall|key: (Kind, Seq<char>)|
            haul.built->Ok_0.contains_key(key) == found.built->Ok_0.contains_key(key) by {}
    }
    let one = prep::fresh(maths, brief, haul);
    let two = prep::fresh(maths, brief, found);
    assert(one.textures =~= two.textures) by {
        assert forall|key: Identity| haul.fetched.contains_key(key) implies one.textures[key]
            == two.textures[key] by {
            textures_of_a_round(maths, library, brief, haul, key);
            textures_of_a_round(maths, library, brief, found, key);
        }
    }
}

// -- Updates -------------------------------------------------------------------------

/// Where nothing of a kind was touched, its objects have the names that they had,
/// and what is made of them is what was.
proof fn untouched_objects_stay<M: Fn(Formula) -> Answer>(
    maths: M,
    library: Library,
    before: Model,
    after: Model,
    dirt: DirtySets,
)
    requires
        tracks(before, after, dirt),
        made_of_the_same(maths, library, before, after, dirt),
    ensures
        !host::touched(dirt, Kind::Camera) ==> before.cameras.dom() == after.cameras.dom()
            && forall|name: Seq<char>| #[trigger]
            after.cameras.dom().contains(name) ==> made_alike(
                maths,
                library,
                before,
                after,
                Kind::Camera,
                name,
            ),
        !host::touched(dirt, Kind::Environment) ==> before.environments.dom()
            == after.environments.dom() && forall|name: Seq<char>| #[trigger]
            after.environments.dom().contains(name) ==> made_alike(
                maths,
                library,
                before,
                after,
                Kind::Environment,
                name,
            ),
{
    assert forall|kind: Kind, name: Seq<char>|
        !host::touched(dirt, kind) implies #[trigger] changeset::holds(before, kind, name)
        == changeset::holds(after, kind, name) && (changeset::holds(after, kind, name)
        ==> made_alike(maths, library, before, after, kind, name)) by {
        assert(!dirt.changed.contains((kind, name)));
        assert(!dirt.removed.contains((kind, name)));
    }
    if !host::touched(dirt, Kind::Camera) {
        assert forall|name: Seq<char>|
            #![trigger before.cameras.dom().contains(name)]
            #![trigger after.cameras.dom().contains(name)]
            before.cameras.dom().contains(name) == after.cameras.dom().contains(name) && (
            after.cameras.dom().contains(name) ==> made_alike(
                maths,
                library,
                before,
                after,
                Kind::Camera,
                name,
            )) by {
            assert(changeset::holds(before, Kind::Camera, name) == changeset::holds(
                after,
                Kind::Camera,
                name,
            ));
        }
        assert(before.cameras.dom() =~= after.cameras.dom());
    }
    if !host::touched(dirt, Kind::Environment) {
        assert forall|name: Seq<char>|
            #![trigger before.environments.dom().contains(name)]
            #![trigger after.environments.dom().contains(name)]
            before.environments.dom().contains(name) == after.environments.dom().contains(name)
                && (after.environments.dom().contains(name) ==> made_alike(
                maths,
                library,
                before,
                after,
                Kind::Environment,
                name,
            )) by {
            assert(changeset::holds(before, Kind::Environment, name) == changeset::holds(
                after,
                Kind::Environment,
                name,
            ));
        }
        assert(before.environments.dom() =~= after.environments.dom());
    }
}

/// Where no camera was touched, the one that is resident is the one that would be
/// lowered.
proof fn cameras_agree<M: Fn(Formula) -> Answer>(
    maths: M,
    library: Library,
    before: Model,
    after: Model,
    dirt: DirtySets,
    limit: usize,
)
    requires
        tracks(before, after, dirt),
        made_of_the_same(maths, library, before, after, dirt),
        laws::finite(after),
        host::census_problem(after) is None,
    ensures
        !host::touched(dirt, Kind::Camera) ==> lower::settled_camera(
            maths,
            prep::from_nothing(before, limit).camera(),
        ) == lower::settled_camera(maths, prep::from_nothing(after, limit).camera()),
{
    untouched_objects_stay(maths, library, before, after, dirt);
    if !host::touched(dirt, Kind::Camera) {
        table::ranking_holds_all::<String>(after.cameras.dom());
        let names = table::ranking::<String>(after.cameras.dom());
        assert(names.contains(names[0]));
        assert(after.cameras.dom().contains(names[0]));
        assert(made_alike(maths, library, before, after, Kind::Camera, names[0]));
    }
}

/// The keys of geometry are those of the two kinds that have geometry.
pub proof fn geometry_keys_are_kept(keys: Seq<(Kind, Seq<char>)>, key: (Kind, Seq<char>))
    ensures
        geometry::geometry_keys(keys).contains(key) == (keys.contains(key) && (key.0 == Kind::Mesh
            || key.0 == Kind::Curves)),
    decreases keys.len(),
{
    if keys.len() > 0 {
        let front = keys.drop_last();
        let rest = geometry::geometry_keys(front);
        let last = keys.last();
        geometry_keys_are_kept(front, key);
        assert(keys[keys.len() - 1] == last);
        if front.contains(key) {
            let i = front.index_of(key);
            assert(keys[i] == key);
        }
        if keys.contains(key) && key != last {
            let i = keys.index_of(key);
            assert(front[i] == key);
        }
        let all = geometry::geometry_keys(keys);
        if last.0 == Kind::Mesh || last.0 == Kind::Curves {
            assert(all == rest.push(last));
            assert(all[rest.len() as int] == last);
            if rest.contains(key) {
                let i = rest.index_of(key);
                assert(all[i] == key);
            }
            if all.contains(key) && key != last {
                let i = all.index_of(key);
                assert(rest[i] == key);
            }
        }
    }
}

/// After an update exactly the geometry that the model names is resident, as
/// the library has it: what went is retired, what changed is rebuilt.
pub proof fn updates_track_the_geometry<M: Fn(Formula) -> Answer>(
    maths: M,
    library: Library,
    before: Model,
    after: Model,
    dirt: DirtySets,
    built: Map<(Kind, Seq<char>), Mesh>,
)
    requires
        tracks(before, after, dirt),
        made_of_the_same(maths, library, before, after, dirt),
        dirt.removed.finite(),
        forall|key: (Kind, Seq<char>)| #![trigger built.contains_key(key)]
            built.contains_key(key) == geometry::due(after, dirt.changed, key) && (
            built.contains_key(key) ==> built[key] == all_geometry(library, after)[key]),
    ensures
        prep::geometry_after(all_geometry(library, before), dirt.removed, built) == all_geometry(
            library,
            after,
        ),
{
    let resident = all_geometry(library, before);
    let wanted = all_geometry(library, after);
    let found = prep::geometry_after(resident, dirt.removed, built);
    table::ranking_holds_all::<(Kind, String)>(dirt.removed);
    let gone = geometry::retired(dirt.removed);
    assert forall|key: (Kind, Seq<char>)|
        #![trigger found.dom().contains(key)]
        #![trigger wanted.dom().contains(key)]
        #![trigger found[key]]
        found.dom().contains(key) == wanted.dom().contains(key) && (wanted.dom().contains(key)
            ==> found[key] == wanted[key]) by {
        geometry_keys_are_kept(table::ranking::<(Kind, String)>(dirt.removed), key);
        assert(gone.to_set().contains(key) == gone.contains(key));
        assert(dirt.removed.contains(key) == table::ranking::<(Kind, String)>(
            dirt.removed,
        ).contains(key));
        let (kind, name) = key;
        if kind == Kind::Mesh || kind == Kind::Curves {
            assert(changeset::holds(after, kind, name) == wanted.dom().contains(key));
            assert(changeset::holds(before, kind, name) == resident.dom().contains(key));
            assert(gone.contains(key) == dirt.removed.contains(key));
            if changeset::holds(after, kind, name) {
                if dirt.changed.contains(key) {
                    assert(built.contains_key(key));
                } else {
                    assert(changeset::holds(before, kind, name));
                    assert(made_alike(maths, library, before, after, kind, name));
                    assert(!built.contains_key(key));
                }
            } else {
                assert(!built.contains_key(key));
                if changeset::holds(before, kind, name) {
                    assert(dirt.removed.contains(key));
                }
            }
        } else {
            assert(!built.contains_key(key));
        }
    }
    assert(found.dom() =~= wanted.dom());
    assert(found =~= wanted);
}

/// With the files as they are, an update lands the very scene that a fresh
/// build of the edited description would: bit for bit, in everything that is
/// resident. What the update is told must track what changed, and no difference
/// that it is not told of may show in what stays.
pub proof fn updates_land_where_fresh_builds_do<M: Fn(Formula) -> Answer>(
    maths: M,
    library: Library,
    before: Model,
    after: Model,
    dirt: DirtySets,
    limit: usize,
    first: Haul,
    edit: Haul,
    anew: Haul,
)
    requires
        faithful(library),
        black_is_dark(maths),
        shells_bound_media(after),
        tracks(before, after, dirt),
        made_of_the_same(maths, library, before, after, dirt),
        dirt.removed.finite(),
        succeeds(maths, library, prep::from_nothing(before, limit), first),
        succeeds(
            maths,
            library,
            prep::from_resident(
                prep::fresh(maths, prep::from_nothing(before, limit), first),
                after,
                dirt,
                limit,
            ),
            edit,
        ),
        succeeds(maths, library, prep::from_nothing(after, limit), anew),
    ensures
        ({
            let resident = prep::fresh(maths, prep::from_nothing(before, limit), first);
            prep::updated(
                resident,
                maths,
                prep::from_resident(resident, after, dirt, limit),
                edit,
            ) == prep::fresh(maths, prep::from_nothing(after, limit), anew)
        }),
{
    let start = prep::from_nothing(before, limit);
    let resident = prep::fresh(maths, start, first);
    let brief = prep::from_resident(resident, after, dirt, limit);
    let clean = prep::from_nothing(after, limit);
    stages_agree(maths, library, brief, edit, clean, anew);
    media_agree(maths, library, after, brief, edit, clean, anew);
    cameras_agree(maths, library, before, after, dirt, limit);
    fresh_geometry(maths, library, before, limit, first);
    fresh_geometry(maths, library, after, limit, anew);
    updates_track_the_geometry(maths, library, before, after, dirt, edit.built->Ok_0);
    textures_agree(maths, library, before, after, dirt, limit, first, edit, anew);
    skies_agree(maths, library, before, after, dirt, limit, resident, first);
}

/// A fresh build builds exactly the geometry that the model names.
proof fn fresh_geometry<M: Fn(Formula) -> Answer>(
    maths: M,
    library: Library,
    model: Model,
    limit: usize,
    haul: Haul,
)
    requires
        reads(library, prep::from_nothing(model, limit), haul),
    ensures
        prep::fresh(maths, prep::from_nothing(model, limit), haul).geometry == all_geometry(
            library,
            model,
        ),
{
    let brief = prep::from_nothing(model, limit);
    let built = haul.built->Ok_0;
    let wanted = all_geometry(library, model);
    assert forall|key: (Kind, Seq<char>)|
        #![trigger built.dom().contains(key)]
        #![trigger wanted.dom().contains(key)]
        built.dom().contains(key) == wanted.dom().contains(key) by {
        assert(built.contains_key(key) == geometry::due(model, brief.dirt.changed, key));
        assert(brief.dirt.changed.contains(key) == changeset::holds(model, key.0, key.1));
    }
    assert(built.dom() =~= wanted.dom());
    assert(built =~= wanted);
}

/// The textures after an update are those that a fresh build makes.
proof fn textures_agree<M: Fn(Formula) -> Answer>(
    maths: M,
    library: Library,
    before: Model,
    after: Model,
    dirt: DirtySets,
    limit: usize,
    first: Haul,
    edit: Haul,
    anew: Haul,
)
    requires
        succeeds(maths, library, prep::from_nothing(before, limit), first),
        succeeds(
            maths,
            library,
            prep::from_resident(
                prep::fresh(maths, prep::from_nothing(before, limit), first),
                after,
                dirt,
                limit,
            ),
            edit,
        ),
        succeeds(maths, library, prep::from_nothing(after, limit), anew),
    ensures
        prep::retained(
            prep::fresh(maths, prep::from_nothing(before, limit), first).textures,
            host::uploads(edit.fetched),
        ) == prep::fresh(maths, prep::from_nothing(after, limit), anew).textures,
{
    let start = prep::from_nothing(before, limit);
    let resident = prep::fresh(maths, start, first).textures;
    let brief = prep::from_resident(prep::fresh(maths, start, first), after, dirt, limit);
    let clean = prep::from_nothing(after, limit);
    let found = prep::retained(resident, host::uploads(edit.fetched));
    let wanted = prep::fresh(maths, clean, anew).textures;
    textures_of_a_round(maths, library, brief, edit, arbitrary());
    textures_of_a_round(maths, library, clean, anew, arbitrary());
    assert(found.dom() =~= wanted.dom());
    assert forall|key: Identity| #[trigger] found.dom().contains(key) implies found[key]
        == wanted[key] by {
        textures_of_a_round(maths, library, brief, edit, key);
        textures_of_a_round(maths, library, clean, anew, key);
        textures_of_a_round(maths, library, start, first, key);
        assert(edit.fetched.contains_key(key));
        assert(anew.fetched.contains_key(key));
        assert(wanted[key] == (library.textures)(key));
        if edit.fetched[key] is Kept {
            assert(brief.textures.contains_key(key));
            assert(first.fetched.contains_key(key));
            assert(resident[key] == (library.textures)(key));
        }
    }
    assert(found =~= wanted);
}

/// The sky after an update is the one that a fresh build makes.
proof fn skies_agree<M: Fn(Formula) -> Answer>(
    maths: M,
    library: Library,
    before: Model,
    after: Model,
    dirt: DirtySets,
    limit: usize,
    resident: Residency,
    first: Haul,
)
    requires
        resident == prep::fresh(maths, prep::from_nothing(before, limit), first),
        tracks(before, after, dirt),
        made_of_the_same(maths, library, before, after, dirt),
        laws::finite(after),
    ensures
        ({
            let brief = prep::from_resident(resident, after, dirt, limit);
            let heaven = host::heaven(maths, brief);
            let wanted = host::heaven(maths, prep::from_nothing(after, limit));
            if brief.skyward() {
                &&& (if heaven.image is Some {
                    heaven.image->0
                } else {
                    resident.sky
                }) == wanted.image->0
                &&& heaven.source == wanted.source
                &&& heaven.tint == wanted.tint
                &&& heaven.to_world == wanted.to_world
                &&& heaven.from_world == wanted.from_world
            } else {
                &&& resident.sky == wanted.image->0
                &&& resident.source == wanted.source
                &&& resident.tint == wanted.tint
                &&& resident.to_world == wanted.to_world
                &&& resident.from_world == wanted.from_world
            }
        }),
{
    let brief = prep::from_resident(resident, after, dirt, limit);
    let start = prep::from_nothing(before, limit);
    let names = table::ranking::<String>(after.environments.dom());
    untouched_objects_stay(maths, library, before, after, dirt);
    if !brief.skyward() && names.len() > 0 {
        table::ranking_holds_all::<String>(after.environments.dom());
        assert(names.contains(names[0]));
        assert(after.environments.dom().contains(names[0]));
        assert(made_alike(maths, library, before, after, Kind::Environment, names[0]));
    }
    if brief.skyward() && names.len() > 0 {
        let environment = after.environments[names[0]];
        if let Some(path) = environment.path {
            if let Some(held) = resident.source {
                if held@ == path@ {
                    assert(host::heaven(maths, start).image == Some(Sky::Image));
                    assert(resident.sky == Sky::Image);
                }
            }
        }
    }
}

// -- Sessions ------------------------------------------------------------------------

/// One thing that is done in a session.
pub enum Deed {
    /// A change-set is applied to the description; it lands or is refused.
    Apply {
        /// What it says.
        ops: Seq<Op>,
        /// What the world outside says of its values.
        facts: Facts,
    },
    /// Another description takes the place of the one there is.
    Replace {
        /// The objects of the other.
        model: Model,
        /// What the world outside says of its values.
        facts: Facts,
    },
    /// What changed is taken from the description, and the scene is updated,
    /// or the update is refused; what was taken then waits for the next.
    Update {
        /// What the update reads.
        edit: Haul,
        /// What a fresh build of the description as it stands would read.
        anew: Haul,
    },
}

/// Where a session stands.
pub struct Standing {
    /// The objects of the description.
    pub model: Model,
    /// What changed in it since that was last taken.
    pub dirt: DirtySets,
    /// What was taken, and waits for an update that goes through.
    pub held: DirtySets,
    /// What is resident.
    pub resident: Residency,
    /// The objects as they were when the scene last followed.
    pub landed: Model,
    /// What a fresh build of those reads.
    pub read: Haul,
}

impl Standing {
    /// What the next update is told: what waits for it, with what changed since.
    pub open spec fn owed(self) -> DirtySets {
        self.held.folded(self.dirt)
    }

    /// The brief of the next update.
    pub open spec fn next(self, limit: usize) -> Brief {
        prep::from_resident(self.resident, self.model, self.owed(), limit)
    }
}

/// Where a session stands once the description was built fresh.
pub open spec fn opening<M: Fn(Formula) -> Answer>(
    maths: M,
    limit: usize,
    model: Model,
    haul: Haul,
) -> Standing {
    Standing {
        model,
        dirt: DirtySets::none(),
        held: DirtySets::none(),
        resident: prep::fresh(maths, prep::from_nothing(model, limit), haul),
        landed: model,
        read: haul,
    }
}

/// Where a session stands after one more deed.
pub open spec fn done<M: Fn(Formula) -> Answer>(
    maths: M,
    limit: usize,
    blanks: Blanks,
    standing: Standing,
    deed: Deed,
) -> Standing {
    match deed {
        Deed::Apply { ops, facts } => if changeset::set_problem(
            standing.model,
            blanks,
            ops,
            facts,
        ) is None {
            Standing {
                model: changeset::model_after(standing.model, blanks, ops, ops.len() as int),
                dirt: standing.dirt.folded(
                    changeset::dirt_after(standing.model, blanks, ops, ops.len() as int),
                ),
                ..standing
            }
        } else {
            standing
        },
        Deed::Replace { model, facts } => Standing {
            model,
            dirt: standing.dirt.folded(changeset::difference(standing.model, model)),
            ..standing
        },
        Deed::Update { edit, anew } => if host::refusal(
            maths,
            standing.next(limit),
            edit,
        ) is None {
            Standing {
                model: standing.model,
                dirt: DirtySets::none(),
                held: DirtySets::none(),
                resident: prep::updated(standing.resident, maths, standing.next(limit), edit),
                landed: standing.model,
                read: anew,
            }
        } else {
            Standing { dirt: DirtySets::none(), held: standing.owed(), ..standing }
        },
    }
}

/// Where a session stands after its first `n` deeds.
pub open spec fn standing<M: Fn(Formula) -> Answer>(
    maths: M,
    limit: usize,
    blanks: Blanks,
    start: Standing,
    deeds: Seq<Deed>,
    n: int,
) -> Standing
    decreases n,
{
    if n <= 0 {
        start
    } else {
        done(
            maths,
            limit,
            blanks,
            standing(maths, limit, blanks, start, deeds, n - 1),
            deeds[n - 1],
        )
    }
}

/// The deed goes as it should: a description that takes over is a valid one. An
/// update that is not refused reads what the files hold, as does the fresh
/// build, which is not refused either; and no difference that the update is not
/// told of shows in what stays.
pub open spec fn goes_well<M: Fn(Formula) -> Answer>(
    maths: M,
    library: Library,
    limit: usize,
    blanks: Blanks,
    standing: Standing,
    deed: Deed,
) -> bool {
    match deed {
        Deed::Apply { .. } => true,
        Deed::Replace { model, facts } => {
            &&& laws::finite(model)
            &&& validate::model_problem(model, facts) is None
        },
        Deed::Update { edit, anew } => host::refusal(
            maths,
            standing.next(limit),
            edit,
        ) is None ==> {
            &&& succeeds(maths, library, standing.next(limit), edit)
            &&& succeeds(maths, library, prep::from_nothing(standing.model, limit), anew)
            &&& made_of_the_same(
                maths,
                library,
                standing.landed,
                standing.model,
                standing.owed(),
            )
        },
    }
}

/// In a valid model a shell is only ever placed around a medium.
proof fn valid_shells_bound_media(model: Model, facts: Facts)
    requires
        laws::finite(model),
        validate::model_problem(model, facts) is None,
    ensures
        shells_bound_media(model),
{
    assert forall|name: Seq<char>| #[trigger] model.instances.contains_key(name) implies (
    model.instances[name].geometry matches Geometry::Mesh(mesh) && model.meshes[mesh@].source is MediumBounds
        ==> model.instances[name].medium is Some) by {
        laws::valid_models_resolve(model, facts, name);
        laws::valid_models_pair_grids_with_shells(model, facts, name);
    }
}

/// However a session goes on, with edits applied, refused and taken over and
/// with updates that go through or are refused, what is resident is what a
/// fresh build of the description makes resident, as the description was when
/// the scene last followed; and what the next update is told tracks every edit
/// since. So right after an update that goes through the scene is the one that
/// a fresh build of the edited description makes.
pub proof fn sessions_land_where_fresh_builds_do<M: Fn(Formula) -> Answer>(
    maths: M,
    library: Library,
    limit: usize,
    blanks: Blanks,
    start: Model,
    facts: Facts,
    first: Haul,
    deeds: Seq<Deed>,
    n: int,
)
    requires
        faithful(library),
        black_is_dark(maths),
        validate::model_problem(start, facts) is None,
        succeeds(maths, library, prep::from_nothing(start, limit), first),
        0 <= n <= deeds.len(),
        forall|k: int|
            0 <= k < n ==> goes_well(
                maths,
                library,
                limit,
                blanks,
                standing(maths, limit, blanks, opening(maths, limit, start, first), deeds, k),
                #[trigger] deeds[k],
            ),
    ensures
        ({
            let now = standing(
                maths,
                limit,
                blanks,
                opening(maths, limit, start, first),
                deeds,
                n,
            );
            &&& now.resident == prep::fresh(
                maths,
                prep::from_nothing(now.landed, limit),
                now.read,
            )
            &&& tracks(now.landed, now.model, now.owed())
            &&& n > 0 ==> (deeds[n - 1] matches Deed::Update { edit, anew } ==> {
                let before = standing(
                    maths,
                    limit,
                    blanks,
                    opening(maths, limit, start, first),
                    deeds,
                    n - 1,
                );
                host::refusal(maths, before.next(limit), edit) is None ==> now.resident
                    == prep::fresh(maths, prep::from_nothing(now.model, limit), anew)
            })
        }),
{
    session_stands(maths, library, limit, blanks, start, facts, first, deeds, n);
}

/// What a session keeps.
proof fn session_stands<M: Fn(Formula) -> Answer>(
    maths: M,
    library: Library,
    limit: usize,
    blanks: Blanks,
    start: Model,
    facts: Facts,
    first: Haul,
    deeds: Seq<Deed>,
    n: int,
)
    requires
        faithful(library),
        black_is_dark(maths),
        validate::model_problem(start, facts) is None,
        succeeds(maths, library, prep::from_nothing(start, limit), first),
        0 <= n <= deeds.len(),
        forall|k: int|
            0 <= k < n ==> goes_well(
                maths,
                library,
                limit,
                blanks,
                standing(maths, limit, blanks, opening(maths, limit, start, first), deeds, k),
                #[trigger] deeds[k],
            ),
    ensures
        ({
            let now = standing(
                maths,
                limit,
                blanks,
                opening(maths, limit, start, first),
                deeds,
                n,
            );
            &&& now.resident == prep::fresh(
                maths,
                prep::from_nothing(now.landed, limit),
                now.read,
            )
            &&& succeeds(maths, library, prep::from_nothing(now.landed, limit), now.read)
            &&& tracks(now.landed, now.model, now.owed())
            &&& now.owed().removed.finite()
            &&& laws::finite(now.model)
            &&& shells_bound_media(now.model)
        }),
    decreases n,
{
    let begin = opening(maths, limit, start, first);
    if n <= 0 {
        valid_shells_bound_media(start, facts);
        coverage::standing_still_is_tracked(start);
        laws::folding_is_associative(
            DirtySets::none(),
            DirtySets::none(),
            DirtySets::none(),
        );
    } else {
        session_stands(maths, library, limit, blanks, start, facts, first, deeds, n - 1);
        let old = standing(maths, limit, blanks, begin, deeds, n - 1);
        let deed = deeds[n - 1];
        assert(goes_well(maths, library, limit, blanks, old, deed));
        match deed {
            Deed::Apply { ops, facts } => {
                if changeset::set_problem(old.model, blanks, ops, facts) is None {
                    let after = changeset::model_after(old.model, blanks, ops, ops.len() as int);
                    let dirt = changeset::dirt_after(old.model, blanks, ops, ops.len() as int);
                    coverage::applied_edits_are_tracked(old.model, blanks, ops);
                    coverage::edits_keep_finite(old.model, blanks, ops, ops.len() as int);
                    coverage::records_fold(old.landed, old.model, after, old.owed(), dirt);
                    laws::folding_is_associative(old.held, old.dirt, dirt);
                    valid_shells_bound_media(after, facts);
                }
            },
            Deed::Replace { model, facts } => {
                let dirt = changeset::difference(old.model, model);
                coverage::replacements_are_tracked(old.model, model);
                coverage::losses_are_finite(old.model, model);
                coverage::records_fold(old.landed, old.model, model, old.owed(), dirt);
                laws::folding_is_associative(old.held, old.dirt, dirt);
                valid_shells_bound_media(model, facts);
            },
            Deed::Update { edit, anew } => {
                if host::refusal(maths, old.next(limit), edit) is None {
                    updates_land_where_fresh_builds_do(
                        maths,
                        library,
                        old.landed,
                        old.model,
                        old.owed(),
                        limit,
                        old.read,
                        edit,
                        anew,
                    );
                    coverage::standing_still_is_tracked(old.model);
                }
                laws::folding_is_associative(old.owed(), DirtySets::none(), DirtySets::none());
                laws::folding_is_associative(
                    DirtySets::none(),
                    DirtySets::none(),
                    DirtySets::none(),
                );
            },
        }
    }
}

} // verus!
