//! The host's half of a round: from a description, what changed in it and
//! what was read for it, to everything that the device is handed.
//!
//! A round that is refused is refused here, with nothing built.

use std::sync::Arc;

use vstd::prelude::*;

use crate::bits::{Num, Vec3};
use crate::changeset::{Dirty, DirtySets, Kind, ObjectSet};
use crate::curves;
use crate::curves::{Knot, Span, Tube};
use crate::dds::Prepared;
use crate::description;
use crate::description::{Geometry, Instance, MeshSource, Model, SceneDescription, Transform};
use crate::error::{Problem, SceneError};
use crate::formula;
use crate::formula::{ask_affine, ask_truth, Answer, Formula, Rows};
use crate::geometry;
use crate::geometry::{copied, removed_geometry, resolve_geometry, Payload};
use crate::lower;
use crate::lower::{
    environment_spec, global_medium, lower_camera, lower_delta_lights, lower_materials, lower_media,
    singleton, supersedes, texture_indices, texture_plan, EnvironmentSpec, GridReading, Need, Sky,
};
use crate::material::Material;
use crate::media;
use crate::media::{boundary_material, Medium, Placement};
use crate::mesh::Mesh;
use crate::path::FilePath;
use crate::scene;
use crate::scene::{emissive_triangles, Camera, DeltaLight, TriangleLight};
use crate::table;
use crate::table::Table;
use crate::texture::{Identity, Key};
use crate::validate;
use crate::value::Duplicate;

verus! {

// -- Instances -----------------------------------------------------------------------

/// Where a copy stands. A heterogeneous medium's shell is the unit cube, and
/// the grid's bounds come before the placement.
pub open spec fn placed<M: Fn(Formula) -> Answer>(
    maths: M,
    transform: Transform,
    medium: Option<Medium>,
) -> Rows {
    let base = formula::affine(maths, Formula::Placed(transform));
    match medium {
        Some(medium) => match medium.volume {
            Some(volume) => formula::affine(maths, Formula::Composed(base, volume.bounds_to_asset)),
            None => base,
        },
        None => base,
    }
}

/// The surface that an instance wears: its material, or nothing to see where
/// it bounds a medium.
pub open spec fn worn(authored: Material, medium: Option<Medium>) -> Material {
    if medium is Some {
        media::inert(authored)
    } else {
        authored
    }
}

/// The copies of an instance, in order.
pub open spec fn copies<M: Fn(Formula) -> Answer>(
    maths: M,
    instance: Instance,
    material: Material,
    medium: Option<Medium>,
) -> Seq<Placement> {
    Seq::new(
        instance.transforms@.len(),
        |k: int|
            Placement {
                geometry: instance.geometry,
                transform: placed(maths, instance.transforms@[k], medium),
                material,
                camera_visible: instance.camera_visible,
                medium,
                priority: instance.interior_priority,
            },
    )
}

/// The lights of the first `n` copies of an instance. Each names its copy by
/// its place among all copies, and `start` is the place of the first.
pub open spec fn copies_lit<M: Fn(Formula) -> Answer>(
    maths: M,
    instance: Instance,
    material: Material,
    medium: Option<Medium>,
    shape: Shape,
    start: int,
    n: int,
) -> Seq<TriangleLight>
    decreases n,
{
    if n <= 0 {
        Seq::empty()
    } else {
        copies_lit(maths, instance, material, medium, shape, start, n - 1) + scene::lit_triangles(
            maths,
            shape.positions,
            shape.triangles,
            placed(maths, instance.transforms@[n - 1], medium),
            material.emission,
            (start + n - 1) as u32,
        )
    }
}

/// Positions and triangles.
pub struct Shape {
    /// Where the vertices are.
    pub positions: Seq<Vec3>,
    /// The triangles.
    pub triangles: Seq<[u32; 3]>,
}

/// The shape of a mesh.
pub open spec fn shape_of(mesh: Mesh) -> Shape {
    Shape { positions: mesh.positions@, triangles: mesh.triangles@ }
}

/// What the caller built once more because it emits.
pub open spec fn rebuilt(reread: Result<Mesh, SceneError>) -> Result<Shape, Problem<Seq<char>>> {
    match reread {
        Ok(mesh) => Ok(shape_of(mesh)),
        Err(problem) => Err(problem@),
    }
}

/// The shape that an emitter's lights are unpacked from: what this round
/// built, or what the scene spells out, or else what was read once more.
pub open spec fn emitter(
    model: Model,
    built: Map<(Kind, Seq<char>), Mesh>,
    rereads: Map<(Kind, Seq<char>), Result<Mesh, SceneError>>,
    what: Geometry,
) -> Result<Shape, Problem<Seq<char>>> {
    if built.contains_key(what@) {
        Ok(shape_of(built[what@]))
    } else {
        match what {
            Geometry::Curves(_) => rebuilt(rereads[what@]),
            Geometry::Mesh(name) => match model.meshes[name@].source {
                MeshSource::Inline { positions, triangles, .. } => Ok(
                    Shape { positions: positions@, triangles: triangles@ },
                ),
                MeshSource::Ply { .. } => rebuilt(rereads[what@]),
                MeshSource::MediumBounds => Ok(
                    Shape { positions: Seq::empty(), triangles: Seq::empty() },
                ),
            },
        }
    }
}

/// Geometry that has to be read once more where it emits and nothing built it.
pub open spec fn rereads_of(model: Model, what: Geometry) -> bool {
    match what {
        Geometry::Curves(_) => true,
        Geometry::Mesh(name) => model.meshes[name@].source is Ply,
    }
}

/// An instance emits.
pub open spec fn emits<M: Fn(Formula) -> Answer>(
    maths: M,
    instance: Instance,
    material: Material,
) -> bool {
    formula::truth(maths, Formula::Luminous(material.emission)) && instance.transforms@.len() > 0
}

/// Everything that placing instances is done from.
pub struct Stock {
    /// The materials, lowered.
    pub materials: Map<Seq<char>, Material>,
    /// The media, lowered.
    pub media: Map<Seq<char>, Medium>,
    /// The geometry that this round built.
    pub built: Map<(Kind, Seq<char>), Mesh>,
    /// What was read once more.
    pub rereads: Map<(Kind, Seq<char>), Result<Mesh, SceneError>>,
}

/// The medium that an instance bounds.
pub open spec fn medium_in(stock: Stock, instance: Instance) -> Option<Medium> {
    match instance.medium {
        Some(name) => Some(stock.media[name@]),
        None => None,
    }
}

/// The copies and lights of the instances that came so far.
pub struct Staging {
    /// The copies.
    pub placements: Seq<Placement>,
    /// The lights.
    pub lights: Seq<TriangleLight>,
}

/// The copies and lights of the first `n` instances in name order, or what is
/// wrong with the first of them that emits and cannot be read.
pub open spec fn staged<M: Fn(Formula) -> Answer>(
    maths: M,
    model: Model,
    stock: Stock,
    n: int,
) -> Result<Staging, Problem<Seq<char>>>
    decreases n,
{
    if n <= 0 {
        Ok(Staging { placements: Seq::empty(), lights: Seq::empty() })
    } else {
        match staged(maths, model, stock, n - 1) {
            Err(problem) => Err(problem),
            Ok(before) => {
                let instance = model.instances[table::ranking::<String>(model.instances.dom())[n
                    - 1]];
                let medium = medium_in(stock, instance);
                let material = worn(stock.materials[instance.material@], medium);
                let placements = before.placements + copies(maths, instance, material, medium);
                if emits(maths, instance, material) {
                    match emitter(model, stock.built, stock.rereads, instance.geometry) {
                        Err(problem) => Err(problem),
                        Ok(shape) => Ok(
                            Staging {
                                placements,
                                lights: before.lights + copies_lit(
                                    maths,
                                    instance,
                                    material,
                                    medium,
                                    shape,
                                    before.placements.len() as int,
                                    instance.transforms@.len() as int,
                                ),
                            },
                        ),
                    }
                } else {
                    Ok(Staging { placements, lights: before.lights })
                }
            },
        }
    }
}

/// What is wrong stays wrong.
proof fn staging_stays_refused<M: Fn(Formula) -> Answer>(
    maths: M,
    model: Model,
    stock: Stock,
    k: int,
    n: int,
)
    requires
        0 <= k <= n,
        staged(maths, model, stock, k) is Err,
    ensures
        staged(maths, model, stock, n) == staged(maths, model, stock, k),
    decreases n,
{
    if k < n {
        staging_stays_refused(maths, model, stock, k, n - 1);
    }
}

/// An instance's references resolve, and what it emits from can be unpacked.
pub open spec fn placeable<M: Fn(Formula) -> Answer>(
    maths: M,
    model: Model,
    stock: Stock,
    instance: Instance,
) -> bool {
    &&& stock.materials.contains_key(instance.material@)
    &&& instance.medium matches Some(name) ==> stock.media.contains_key(name@)
    &&& instance.geometry matches Geometry::Mesh(name) ==> model.meshes.contains_key(name@)
        && geometry::consistent(model.meshes[name@].source)
    &&& emits(
        maths,
        instance,
        worn(stock.materials[instance.material@], medium_in(stock, instance)),
    ) && rereads_of(model, instance.geometry) && !stock.built.contains_key(instance.geometry@)
        ==> stock.rereads.contains_key(instance.geometry@)
}

/// What was built fits together.
pub open spec fn well_built(stock: Stock) -> bool {
    &&& forall|key: (Kind, Seq<char>)| #[trigger]
        stock.built.contains_key(key) ==> stock.built[key].wf()
    &&& forall|key: (Kind, Seq<char>)| #[trigger]
        stock.rereads.contains_key(key) && stock.rereads[key] is Ok
            ==> stock.rereads[key]->Ok_0.wf()
}

/// Positions and triangles, to unpack lights from, unless reading them failed.
fn emissive_geometry(
    description: &SceneDescription,
    built: &Table<Geometry, Mesh>,
    rereads: &Table<Geometry, Result<Mesh, SceneError>>,
    what: &Geometry,
) -> (r: Option<(Vec<Vec3>, Vec<[u32; 3]>)>)
    requires
        what matches Geometry::Mesh(name) ==> description.model().meshes.contains_key(name@)
            && geometry::consistent(description.model().meshes[name@].source),
        rereads_of(description.model(), *what) && !built@.contains_key(what@)
            ==> rereads@.contains_key(what@),
        forall|key: (Kind, Seq<char>)| #[trigger]
            built@.contains_key(key) ==> built@[key].wf(),
        forall|key: (Kind, Seq<char>)| #[trigger]
            rereads@.contains_key(key) && rereads@[key] is Ok ==> rereads@[key]->Ok_0.wf(),
    ensures
        ({
            let found = emitter(description.model(), built@, rereads@, *what);
            &&& r is None == found is Err
            &&& r is None ==> rereads@.contains_key(what@) && rereads@[what@] is Err && found
                == Err::<Shape, Problem<Seq<char>>>(rereads@[what@]->Err_0@)
            &&& r matches Some((positions, triangles)) ==> found == Ok::<Shape, Problem<Seq<char>>>(
                Shape { positions: positions@, triangles: triangles@ },
            ) && geometry::inside(triangles@, positions@.len() as int)
        }),
{
    if let Some(mesh) = built.get(what) {
        return Some((copied(&mesh.positions), copied(&mesh.triangles)));
    }
    let inline = match what {
        Geometry::Curves(_) => None,
        Geometry::Mesh(name) => description.meshes().get(name),
    };
    if let Some(mesh) = inline {
        match &mesh.source {
            MeshSource::Inline { positions, triangles, .. } => {
                return Some((copied(&**positions), copied(&**triangles)));
            },
            MeshSource::MediumBounds => {
                let positions: Vec<Vec3> = Vec::new();
                let triangles: Vec<[u32; 3]> = Vec::new();
                return Some((positions, triangles));
            },
            MeshSource::Ply { .. } => {},
        }
    }
    match rereads.get(what) {
        Some(Ok(mesh)) => Some((copied(&mesh.positions), copied(&mesh.triangles))),
        Some(Err(_)) => None,
        None => Some((Vec::new(), Vec::new())),
    }
}

/// Unfold every instance into its copies, in name order, so that a copy's
/// place is its number everywhere after; and every copy that emits into its
/// lights.
pub fn lower_instances<M: Fn(Formula) -> Answer>(
    maths: &M,
    description: &SceneDescription,
    materials: &Table<String, Material>,
    media: &Table<String, Medium>,
    built: &Table<Geometry, Mesh>,
    rereads: Table<Geometry, Result<Mesh, SceneError>>,
) -> (r: Result<(Vec<Placement>, Vec<TriangleLight>), SceneError>)
    requires
        formula::steady(*maths),
        well_built(stocked(materials@, media@, built@, rereads@)),
        forall|name: Seq<char>| #[trigger]
            description.model().instances.contains_key(name) ==> placeable(
                *maths,
                description.model(),
                stocked(materials@, media@, built@, rereads@),
                description.model().instances[name],
            ),
    ensures
        ({
            let found = staged(
                *maths,
                description.model(),
                stocked(materials@, media@, built@, rereads@),
                description.model().instances.dom().len() as int,
            );
            &&& r is Err == found is Err
            &&& r matches Err(error) ==> found == Err::<Staging, Problem<Seq<char>>>(error@)
            &&& r matches Ok((placements, lights)) ==> found == Ok::<Staging, Problem<Seq<char>>>(
                Staging { placements: placements@, lights: lights@ },
            )
        }),
{
    let instances = description.instances();
    let size: usize = instances.len();
    let ghost model = description.model();
    let ghost stock = stocked(materials@, media@, built@, rereads@);
    let ghost names = table::ranking::<String>(model.instances.dom());
    let mut placements: Vec<Placement> = Vec::new();
    let mut lights: Vec<TriangleLight> = Vec::new();
    for i in 0..size
        invariant
            formula::steady(*maths),
            model == description.model(),
            stock == stocked(materials@, media@, built@, rereads@),
            well_built(stock),
            forall|name: Seq<char>| #[trigger]
                model.instances.contains_key(name) ==> placeable(
                    *maths,
                    model,
                    stock,
                    model.instances[name],
                ),
            instances@ == model.instances,
            instances.ranked(),
            size == instances.listed().len(),
            size == model.instances.dom().len(),
            names == table::ranking::<String>(model.instances.dom()),
            staged(*maths, model, stock, i as int) == Ok::<Staging, Problem<Seq<char>>>(
                Staging { placements: placements@, lights: lights@ },
            ),
    {
        let instance = instances.value_at(i);
        let ghost before = Staging { placements: placements@, lights: lights@ };
        proof {
            assert(instances.listed()[i as int].0@ == names[i as int]);
            assert(model.instances.contains_key(names[i as int]));
            assert(*instance == model.instances[names[i as int]]);
            assert(placeable(*maths, model, stock, *instance));
        }
        let medium = match &instance.medium {
            Some(name) => match media.get(name) {
                Some(medium) => Some(medium.duplicate()),
                None => None,
            },
            None => None,
        };
        let authored = match materials.get(&instance.material) {
            Some(material) => *material,
            None => {
                return Ok((placements, lights));
            },
        };
        let material = boundary_material(authored, medium.is_some());
        assert(medium == medium_in(stock, *instance));
        assert(material == worn(authored, medium));
        let count: usize = instance.transforms.len();
        let mut shape: Option<(Vec<Vec3>, Vec<[u32; 3]>)> = None;
        if count > 0 && ask_truth(maths, Formula::Luminous(material.emission)) {
            shape = emissive_geometry(description, built, &rereads, &instance.geometry);
            if shape.is_none() {
                let mut rereads = rereads;
                if let Some(Err(problem)) = rereads.remove(&instance.geometry) {
                    proof {
                        assert(staged(*maths, model, stock, i + 1) == Err::<
                            Staging,
                            Problem<Seq<char>>,
                        >(problem@));
                        staging_stays_refused(*maths, model, stock, i + 1, size as int);
                    }
                    return Err(problem);
                }
                return Ok((placements, lights));
            }
        }
        let ghost start = placements@.len() as int;
        let ghost all = copies(*maths, *instance, material, medium);
        assert(placements@ =~= before.placements + all.take(0));
        assert(lights@ =~= before.lights + Seq::<TriangleLight>::empty());
        for k in 0..count
            invariant
                formula::steady(*maths),
                count == instance.transforms@.len(),
                start == before.placements.len(),
                all == copies(*maths, *instance, material, medium),
                placements@ == before.placements + all.take(k as int),
                shape matches Some((positions, triangles)) ==> geometry::inside(
                    triangles@,
                    positions@.len() as int,
                ),
                lights@ == before.lights + match shape {
                    Some((positions, triangles)) => copies_lit(
                        *maths,
                        *instance,
                        material,
                        medium,
                        Shape { positions: positions@, triangles: triangles@ },
                        start,
                        k as int,
                    ),
                    None => Seq::empty(),
                },
        {
            let index: u32 = placements.len() as u32;
            let base = ask_affine(maths, Formula::Placed(instance.transforms[k]));
            let transform = match &medium {
                Some(filling) => match &filling.volume {
                    Some(volume) => ask_affine(
                        maths,
                        Formula::Composed(base, volume.bounds_to_asset),
                    ),
                    None => base,
                },
                None => base,
            };
            assert(transform == placed(*maths, instance.transforms@[k as int], medium));
            let ghost lit = lights@;
            if let Some((positions, triangles)) = &shape {
                emissive_triangles(
                    maths,
                    &mut lights,
                    positions,
                    triangles,
                    transform,
                    material.emission,
                    index,
                );
                proof {
                    let whole = Shape { positions: positions@, triangles: triangles@ };
                    assert(index == (start + k) as u32);
                    assert(lights@ =~= before.lights + copies_lit(
                        *maths,
                        *instance,
                        material,
                        medium,
                        whole,
                        start,
                        k + 1,
                    ));
                }
            }
            let placement = Placement {
                geometry: instance.geometry.duplicate(),
                transform,
                material,
                camera_visible: instance.camera_visible,
                medium: medium.duplicate(),
                priority: instance.interior_priority,
            };
            assert(placement == all[k as int]);
            placements.push(placement);
            assert(placements@ =~= before.placements + all.take(k + 1));
        }
        proof {
            assert(all.take(count as int) =~= all);
            let fine = emits(*maths, *instance, material);
            assert(fine == shape is Some);
            if shape is None {
                assert(lights@ =~= before.lights);
            }
        }
    }
    Ok((placements, lights))
}

/// Everything that placing instances is done from, put together.
pub open spec fn stocked(
    materials: Map<Seq<char>, Material>,
    media: Map<Seq<char>, Medium>,
    built: Map<(Kind, Seq<char>), Mesh>,
    rereads: Map<(Kind, Seq<char>), Result<Mesh, SceneError>>,
) -> Stock {
    Stock { materials, media, built, rereads }
}

// -- Textures ------------------------------------------------------------------------

/// What fetching a texture came to.
pub enum Fetched {
    /// The resident one stays.
    Kept,
    /// This one is to be uploaded.
    Fresh(Arc<Prepared>),
    /// It failed, for a reason that the reader words.
    Failed(String),
}

/// What is to be done next about a texture.
#[derive(Clone, Copy, Debug, PartialEq, Eq, Structural)]
pub enum Step {
    /// Nothing.
    Keep,
    /// Find the hash that preparing it would come to, from its file's stamp.
    Hash,
    /// Prepare it.
    Prepare,
}

/// Where fetching a texture starts.
pub fn first_step(need: Need) -> (r: Step)
    ensures
        r == (match need {
            Need::Keep => Step::Keep,
            Need::Prepare => Step::Prepare,
            Need::Check(_) => Step::Hash,
        }),
{
    match need {
        Need::Keep => Step::Keep,
        Need::Prepare => Step::Prepare,
        Need::Check(_) => Step::Hash,
    }
}

/// Where it goes on once the hash is known: only a source that moved is read.
pub fn after_hash(need: Need, expected: u64) -> (r: Step)
    ensures
        r == (match need {
            Need::Check(hash) if hash == expected => Step::Keep,
            _ => Step::Prepare,
        }),
{
    match need {
        Need::Check(hash) => if hash == expected {
            Step::Keep
        } else {
            Step::Prepare
        },
        _ => Step::Prepare,
    }
}

/// What fetching comes to once the texture is prepared: a resident one with
/// the same hash stays.
pub fn after_preparing(need: Need, prepared: Prepared) -> (r: Fetched)
    ensures
        r == (match need {
            Need::Check(hash) if hash == prepared.hash => Fetched::Kept,
            _ => Fetched::Fresh(Arc::new(prepared)),
        }),
{
    match need {
        Need::Check(hash) => if supersedes(hash, &prepared) {
            Fetched::Fresh(Arc::new(prepared))
        } else {
            Fetched::Kept
        },
        _ => Fetched::Fresh(Arc::new(prepared)),
    }
}

/// What fetching came to is what was asked for: only a resident texture is
/// kept, and one that nothing touched always is.
pub open spec fn answered(need: Need, fetched: Fetched) -> bool {
    match need {
        Need::Keep => fetched is Kept,
        Need::Prepare => !(fetched is Kept),
        Need::Check(_) => true,
    }
}

/// The texture to upload; `None` keeps the resident one.
pub open spec fn upload(fetched: Fetched) -> Option<Arc<Prepared>> {
    match fetched {
        Fetched::Fresh(prepared) => Some(prepared),
        _ => None,
    }
}

/// Why textures are refused: the first in key order that failed.
pub open spec fn texture_trouble(fetched: Map<Identity, Fetched>, n: int) -> Option<
    Problem<Seq<char>>,
>
    decreases n,
{
    if n <= 0 {
        None
    } else {
        match texture_trouble(fetched, n - 1) {
            Some(problem) => Some(problem),
            None => match fetched[table::ranking::<Key>(fetched.dom())[n - 1]] {
                Fetched::Failed(words) => Some(Problem::Told { words: words@ }),
                _ => None,
            },
        }
    }
}

/// What is wrong stays wrong.
proof fn texture_trouble_stays(fetched: Map<Identity, Fetched>, k: int, n: int)
    requires
        0 <= k <= n,
        texture_trouble(fetched, k) is Some,
    ensures
        texture_trouble(fetched, n) == texture_trouble(fetched, k),
    decreases n,
{
    if k < n {
        texture_trouble_stays(fetched, k, n - 1);
    }
}

/// The textures to upload, and those to keep.
pub open spec fn uploads(fetched: Map<Identity, Fetched>) -> Map<Identity, Option<Arc<Prepared>>> {
    fetched.map_values(|one: Fetched| upload(one))
}

/// No texture failed.
pub open spec fn none_failed(fetched: Map<Identity, Fetched>) -> bool {
    forall|key: Identity| #[trigger] fetched.contains_key(key) ==> !(fetched[key] is Failed)
}

/// Sort what was fetched into what is uploaded and what is kept.
pub fn settle_textures(fetched: &Table<Key, Fetched>) -> (r: Result<
    Table<Key, Option<Arc<Prepared>>>,
    SceneError,
>)
    ensures
        ({
            let trouble = texture_trouble(fetched@, fetched@.dom().len() as int);
            &&& r is Err == trouble is Some
            &&& r matches Err(error) ==> trouble == Some(error@)
        }),
        r matches Ok(textures) ==> textures@ == uploads(fetched@) && none_failed(fetched@),
{
    let size: usize = fetched.len();
    let mut textures: Table<Key, Option<Arc<Prepared>>> = Table::new();
    let ghost keys = table::ranking::<Key>(fetched@.dom());
    for i in 0..size
        invariant
            fetched.ranked(),
            size == fetched.listed().len(),
            size == fetched@.dom().len(),
            keys == table::ranking::<Key>(fetched@.dom()),
            texture_trouble(fetched@, i as int) is None,
            forall|key: Identity| #![trigger textures@.contains_key(key)]
                textures@.contains_key(key) == (exists|m: int|
                    0 <= m < i && #[trigger] keys[m] == key),
            forall|key: Identity| #[trigger]
                textures@.contains_key(key) ==> textures@[key] == upload(fetched@[key]) && !(
                fetched@[key] is Failed),
    {
        let key = fetched.key_at(i);
        let one = fetched.value_at(i);
        let ghost before = textures@;
        assert(keys[i as int] == key@);
        let settled = match one {
            Fetched::Kept => None,
            Fetched::Fresh(prepared) => Some(prepared.duplicate()),
            Fetched::Failed(words) => {
                proof {
                    texture_trouble_stays(fetched@, i + 1, size as int);
                }
                return Err(Problem::Told { words: words.clone() });
            },
        };
        textures.insert(key.duplicate(), settled);
        proof {
            assert forall|key: Identity| #![trigger textures@.contains_key(key)]
                textures@.contains_key(key) == (exists|m: int|
                    0 <= m < i + 1 && #[trigger] keys[m] == key) by {
                assert(before.contains_key(key) == (exists|m: int|
                    0 <= m < i && #[trigger] keys[m] == key));
                if key == keys[i as int] {
                    assert(keys[i as int] == key);
                }
            }
        }
    }
    proof {
        table::ranking_covers(*fetched);
        assert forall|key: Identity| textures@.dom().contains(key) == fetched@.dom().contains(key) by {
            assert(fetched@.dom().contains(key) == keys.contains(key));
            assert(textures@.contains_key(key) == (exists|m: int|
                0 <= m < size && #[trigger] keys[m] == key));
        }
        assert(textures@ =~= uploads(fetched@));
        assert forall|key: Identity| #[trigger] fetched@.contains_key(key) implies !(
        fetched@[key] is Failed) by {
            assert(fetched@.dom().contains(key));
            assert(textures@.contains_key(key));
        }
    }
    Ok(textures)
}

// -- What changed --------------------------------------------------------------------

/// Some object of a kind changed or went.
pub open spec fn touched(dirt: DirtySets, kind: Kind) -> bool {
    ||| exists|name: Seq<char>| #[trigger] dirt.changed.contains((kind, name))
    ||| exists|name: Seq<char>| #[trigger] dirt.removed.contains((kind, name))
}

/// Whether a set holds an object of a kind.
fn holds_kind(set: &ObjectSet, kind: Kind) -> (r: bool)
    ensures
        r == exists|name: Seq<char>| #[trigger] set@.contains((kind, name)),
{
    let size: usize = set.len();
    for i in 0..size
        invariant
            size == set.listed().len(),
            forall|k: int| 0 <= k < i ==> (#[trigger] set.listed()[k]).0 != kind,
            forall|i: int|
                0 <= i < set.listed().len() ==> set@.contains((#[trigger] set.listed()[i])@),
            forall|key: (Kind, Seq<char>)| #[trigger]
                set@.contains(key) ==> exists|i: int|
                    0 <= i < set.listed().len() && (#[trigger] set.listed()[i])@ == key,
    {
        let entry = set.at(i);
        if entry.0 == kind {
            assert(set@.contains((kind, entry.1@)));
            return true;
        }
    }
    false
}

/// Whether some object of a kind changed or went.
pub fn touches(dirty: &Dirty, kind: Kind) -> (r: bool)
    ensures
        r == touched(dirty@, kind),
{
    let changed = holds_kind(&dirty.changed, kind);
    let removed = holds_kind(&dirty.removed, kind);
    proof {
        if changed {
            let name = choose|name: Seq<char>| #[trigger] dirty.changed@.contains((kind, name));
            assert(dirty@.changed.contains((kind, name)));
        }
        if removed {
            let name = choose|name: Seq<char>| #[trigger] dirty.removed@.contains((kind, name));
            assert(dirty@.removed.contains((kind, name)));
        }
        if touched(dirty@, kind) {
            if exists|name: Seq<char>| #[trigger] dirty@.changed.contains((kind, name)) {
                let name = choose|name: Seq<char>| #[trigger] dirty@.changed.contains((kind, name));
                assert(dirty.changed@.contains((kind, name)));
            } else {
                let name = choose|name: Seq<char>| #[trigger] dirty@.removed.contains((kind, name));
                assert(dirty.removed@.contains((kind, name)));
            }
        }
    }
    changed || removed
}

// -- The round -----------------------------------------------------------------------

/// What is wrong with how many there are of what a scene renders one of.
pub open spec fn census_problem(model: Model) -> Option<Problem<Seq<char>>> {
    let cameras = lower::lone_problem(Kind::Camera, model.cameras.dom().len());
    let settings = lower::lone_problem(Kind::Settings, model.settings.dom().len());
    if cameras is Some {
        cameras
    } else if settings is Some {
        settings
    } else if model.environments.dom().len() > 1 {
        Some(Problem::ManyEnvironments { count: model.environments.dom().len() as usize })
    } else {
        None
    }
}

/// Check that a scene has one camera, one settings and at most one
/// environment.
pub fn census(description: &SceneDescription) -> (r: Result<(), SceneError>)
    ensures
        r is Err == census_problem(description.model()) is Some,
        r matches Err(error) ==> census_problem(description.model()) == Some(error@),
{
    if let Err(problem) = singleton(description.cameras(), Kind::Camera) {
        return Err(problem);
    }
    if let Err(problem) = singleton(description.settings(), Kind::Settings) {
        return Err(problem);
    }
    let count: usize = description.environments().len();
    if count > 1 {
        return Err(Problem::ManyEnvironments { count });
    }
    Ok(())
}

/// What a round starts from.
pub struct Brief {
    /// The scene.
    pub model: Model,
    /// What changed in it.
    pub dirt: DirtySets,
    /// Whether nothing is resident yet.
    pub fresh: bool,
    /// The resident textures, with their hashes.
    pub textures: Map<Identity, u64>,
    /// The file that the resident sky came from.
    pub sky: Option<FilePath>,
    /// How many textures can be bound.
    pub limit: usize,
}

/// What was read for a round.
pub struct Haul {
    /// The geometry that changed, built, or why it could not be.
    pub built: Result<Map<(Kind, Seq<char>), Mesh>, Problem<Seq<char>>>,
    /// The textures.
    pub fetched: Map<Identity, Fetched>,
    /// The media's grids.
    pub grids: Map<Seq<char>, GridReading>,
    /// Emitters that had to be read once more.
    pub rereads: Map<(Kind, Seq<char>), Result<Mesh, SceneError>>,
    /// Why the sky's image could not be read, if it could not.
    pub sky: Option<Seq<char>>,
}

/// What was read for a round, by the caller.
pub struct Intake {
    /// The geometry that changed, built, or why it could not be.
    pub built: Result<Table<Geometry, Mesh>, SceneError>,
    /// The textures.
    pub fetched: Table<Key, Fetched>,
    /// The media's grids.
    pub grids: Table<String, GridReading>,
    /// Emitters that had to be read once more.
    pub rereads: Table<Geometry, Result<Mesh, SceneError>>,
    /// Why the sky's image could not be read, if it could not.
    pub sky: Option<String>,
}

impl View for Intake {
    type V = Haul;

    open spec fn view(&self) -> Haul {
        Haul {
            built: match self.built {
                Ok(built) => Ok(built@),
                Err(problem) => Err(problem@),
            },
            fetched: self.fetched@,
            grids: self.grids@,
            rereads: self.rereads@,
            sky: match self.sky {
                Some(words) => Some(words@),
                None => None,
            },
        }
    }
}

impl Brief {
    /// The only camera.
    pub open spec fn camera(self) -> description::Camera {
        self.model.cameras[table::ranking::<String>(self.model.cameras.dom())[0]]
    }

    /// The only settings.
    pub open spec fn settings(self) -> description::Settings {
        self.model.settings[table::ranking::<String>(self.model.settings.dom())[0]]
    }

    /// The sky is lowered: on a fresh build, and where it changed.
    pub open spec fn skyward(self) -> bool {
        self.fresh || touched(self.dirt, Kind::Environment)
    }

    /// The top-level structure is rebuilt: where geometry, an instance or a
    /// material changed. How opaque a material is, is part of it.
    pub open spec fn restacked(self) -> bool {
        touched(self.dirt, Kind::Mesh) || touched(self.dirt, Kind::Curves) || touched(
            self.dirt,
            Kind::Instance,
        ) || touched(self.dirt, Kind::Material)
    }
}

/// What a round's instances are placed from.
pub open spec fn stock<M: Fn(Formula) -> Answer>(maths: M, brief: Brief, haul: Haul) -> Stock {
    Stock {
        materials: lower::all_lowered(
            maths,
            brief.model.materials,
            lower::indexed(haul.fetched.dom()),
        ),
        media: lower::all_media(maths, brief.model.media, haul.grids),
        built: haul.built->Ok_0,
        rereads: haul.rereads,
    }
}

/// The copies and lights of a round.
pub open spec fn stage<M: Fn(Formula) -> Answer>(maths: M, brief: Brief, haul: Haul) -> Result<
    Staging,
    Problem<Seq<char>>,
> {
    staged(
        maths,
        brief.model,
        stock(maths, brief, haul),
        brief.model.instances.dom().len() as int,
    )
}

/// The sky of a round.
pub open spec fn heaven<M: Fn(Formula) -> Answer>(maths: M, brief: Brief) -> EnvironmentSpec {
    lower::scene_sky(maths, brief.model.environments, brief.sky)
}

/// Why a round is refused, if it is. What is looked at first is told first.
pub open spec fn refusal<M: Fn(Formula) -> Answer>(maths: M, brief: Brief, haul: Haul) -> Option<
    Problem<Seq<char>>,
> {
    let model = brief.model;
    let asked = lower::asked_for(model.materials).len();
    let textures = texture_trouble(haul.fetched, haul.fetched.dom().len() as int);
    let media = validate::first_problem(model.media, lower::medium_trouble(maths, haul.grids));
    let instances = stage(maths, brief, haul);
    if census_problem(model) is Some {
        census_problem(model)
    } else if haul.built is Err {
        Some(haul.built->Err_0)
    } else if asked > brief.limit {
        Some(Problem::TooManyTextures { count: asked as usize, limit: brief.limit })
    } else if textures is Some {
        textures
    } else if media is Some {
        media
    } else if instances is Err {
        Some(instances->Err_0)
    } else if brief.skyward() && heaven(maths, brief).image == Some(Sky::Image) && haul.sky is Some {
        Some(Problem::Told { words: haul.sky->0 })
    } else {
        match brief.settings().global_medium {
            Some(name) => if model.media.contains_key(name@) {
                None
            } else {
                Some(Problem::GlobalMediumGone { medium: name@ })
            },
            None => None,
        }
    }
}

/// What was read is what the round asks to be read.
pub open spec fn supplied<M: Fn(Formula) -> Answer>(maths: M, brief: Brief, haul: Haul) -> bool {
    let model = brief.model;
    &&& lower::asked_for(model.materials).len() <= brief.limit ==> haul.fetched.dom()
        == lower::asked_for(model.materials) && haul.fetched.dom().len() <= u32::MAX
    &&& forall|key: Identity| #[trigger]
        haul.fetched.contains_key(key) ==> answered(
            lower::need(
                brief.textures,
                key,
                lower::touched(model.materials, brief.dirt.changed, key),
            ),
            haul.fetched[key],
        )
    &&& lower::grids_read(model.media, haul.grids)
    &&& haul.built is Ok ==> well_built(stock(maths, brief, haul))
    &&& haul.built is Ok ==> forall|name: Seq<char>| #[trigger]
        model.instances.contains_key(name) ==> placeable(
            maths,
            model,
            stock(maths, brief, haul),
            model.instances[name],
        )
}

/// Everything that the device is handed for a round.
pub struct HostScene {
    /// The geometry to upload.
    pub geometry: Table<Geometry, Mesh>,
    /// The geometry to retire, before anything is uploaded.
    pub removed_geometry: Vec<Geometry>,
    /// Every copy of every instance; its place is its number.
    pub instances: Vec<Placement>,
    /// The triangles that emit.
    pub triangle_lights: Vec<TriangleLight>,
    /// The lights without an extent.
    pub delta_lights: Vec<DeltaLight>,
    /// Every texture, in the order of their indices; `None` keeps the resident
    /// one.
    pub textures: Table<Key, Option<Arc<Prepared>>>,
    /// The sky, where it is lowered.
    pub environment: Option<EnvironmentSpec>,
    /// The camera, where it changed.
    pub camera: Option<Camera>,
    /// What fills the open space.
    pub global_medium: Option<Medium>,
    /// Whether the top-level structure has to be rebuilt.
    pub tlas_dirty: bool,
}

impl HostScene {
    /// How many lights there are.
    pub fn light_count(&self) -> (r: u32)
        requires
            self.triangle_lights@.len() + self.delta_lights@.len() <= u32::MAX,
        ensures
            r == self.triangle_lights@.len() + self.delta_lights@.len(),
    {
        (self.triangle_lights.len() + self.delta_lights.len()) as u32
    }

    /// This is what a round comes to.
    pub open spec fn lowers<M: Fn(Formula) -> Answer>(self, maths: M, brief: Brief, haul: Haul) -> bool {
        &&& self.geometry@ == haul.built->Ok_0
        &&& self.removed_geometry@.map_values(|geometry: Geometry| geometry@) == geometry::retired(
            brief.dirt.removed,
        )
        &&& stage(maths, brief, haul) == Ok::<Staging, Problem<Seq<char>>>(
            Staging { placements: self.instances@, lights: self.triangle_lights@ },
        )
        &&& self.delta_lights@ == lower::delta_lights(maths, brief.model.lights)
        &&& self.textures@ == uploads(haul.fetched)
        &&& none_failed(haul.fetched)
        &&& self.environment == if brief.skyward() {
            Some(heaven(maths, brief))
        } else {
            None
        }
        &&& self.camera == if touched(brief.dirt, Kind::Camera) {
            Some(lower::settled_camera(maths, brief.camera()))
        } else {
            None
        }
        &&& self.global_medium == match brief.settings().global_medium {
            Some(name) => Some(
                lower::all_media(maths, brief.model.media, haul.grids)[name@],
            ),
            None => None,
        }
        &&& self.tlas_dirty == brief.restacked()
    }
}

/// Derive everything that the device is handed, from a description, what
/// changed in it and what was read for it.
pub fn host_phase<M: Fn(Formula) -> Answer>(
    maths: &M,
    description: &SceneDescription,
    dirty: &Dirty,
    fresh: bool,
    resident_textures: &Table<Key, u64>,
    resident_sky: Option<&FilePath>,
    limit: usize,
    intake: Intake,
) -> (r: Result<HostScene, SceneError>)
    requires
        formula::steady(*maths),
        supplied(
            *maths,
            Brief {
                model: description.model(),
                dirt: dirty@,
                fresh,
                textures: resident_textures@,
                sky: lower::told(resident_sky),
                limit,
            },
            intake@,
        ),
    ensures
        ({
            let brief = Brief {
                model: description.model(),
                dirt: dirty@,
                fresh,
                textures: resident_textures@,
                sky: lower::told(resident_sky),
                limit,
            };
            &&& r is Err == refusal(*maths, brief, intake@) is Some
            &&& r matches Err(error) ==> refusal(*maths, brief, intake@) == Some(error@)
            &&& r matches Ok(scene) ==> scene.lowers(*maths, brief, intake@)
        }),
{
    let ghost brief = Brief {
        model: description.model(),
        dirt: dirty@,
        fresh,
        textures: resident_textures@,
        sky: lower::told(resident_sky),
        limit,
    };
    let ghost haul = intake@;
    if let Err(problem) = census(description) {
        return Err(problem);
    }
    let (_, camera) = match singleton(description.cameras(), Kind::Camera) {
        Ok(found) => found,
        Err(problem) => {
            return Err(problem);
        },
    };
    let (_, settings) = match singleton(description.settings(), Kind::Settings) {
        Ok(found) => found,
        Err(problem) => {
            return Err(problem);
        },
    };
    let geometry = match intake.built {
        Ok(built) => built,
        Err(problem) => {
            return Err(problem);
        },
    };
    if let Err(problem) = texture_plan(description.materials(), dirty, resident_textures, limit) {
        return Err(problem);
    }
    let textures = match settle_textures(&intake.fetched) {
        Ok(textures) => textures,
        Err(problem) => {
            return Err(problem);
        },
    };
    assert(textures@.dom() =~= haul.fetched.dom());
    let indices = texture_indices(&textures);
    let materials = lower_materials(maths, description.materials(), &indices);
    let media = match lower_media(maths, description.media(), &intake.grids) {
        Ok(media) => media,
        Err(problem) => {
            return Err(problem);
        },
    };
    let delta_lights = lower_delta_lights(maths, description.lights());
    assert(stocked(materials@, media@, geometry@, intake.rereads@) == stock(*maths, brief, haul));
    let (instances, triangle_lights) = match lower_instances(
        maths,
        description,
        &materials,
        &media,
        &geometry,
        intake.rereads,
    ) {
        Ok(found) => found,
        Err(problem) => {
            return Err(problem);
        },
    };
    let camera = if touches(dirty, Kind::Camera) {
        Some(lower_camera(maths, camera))
    } else {
        None
    };
    let environment = if fresh || touches(dirty, Kind::Environment) {
        let spec = environment_spec(maths, description.environments(), resident_sky);
        if let Some(words) = intake.sky {
            if let Some(Sky::Image) = spec.image {
                return Err(Problem::Told { words });
            }
        }
        Some(spec)
    } else {
        None
    };
    let global_medium = match global_medium(settings.global_medium.as_ref(), &media) {
        Ok(found) => found,
        Err(problem) => {
            return Err(problem);
        },
    };
    let tlas_dirty = touches(dirty, Kind::Mesh) || touches(dirty, Kind::Curves) || touches(
        dirty,
        Kind::Instance,
    ) || touches(dirty, Kind::Material);
    Ok(
        HostScene {
            geometry,
            removed_geometry: removed_geometry(&dirty.removed),
            instances,
            triangle_lights,
            delta_lights,
            textures,
            environment,
            camera,
            global_medium,
            tlas_dirty,
        },
    )
}

/// What was read for a round beside its geometry.
pub struct Gleanings {
    /// The textures.
    pub fetched: Table<Key, Fetched>,
    /// The media's grids.
    pub grids: Table<String, GridReading>,
    /// Emitters that had to be read once more.
    pub rereads: Table<Geometry, Result<Mesh, SceneError>>,
    /// Why the sky's image could not be read, if it could not.
    pub sky: Option<String>,
}

impl Gleanings {
    /// Everything that was read, once the geometry came to this.
    pub open spec fn with(
        self,
        built: Result<Map<(Kind, Seq<char>), Mesh>, Problem<Seq<char>>>,
    ) -> Haul {
        Haul {
            built,
            fetched: self.fetched@,
            grids: self.grids@,
            rereads: self.rereads@,
            sky: match self.sky {
                Some(words) => Some(words@),
                None => None,
            },
        }
    }
}

/// Geometry that a round may have built: what is due, each piece whole; or none,
/// because it could not be built.
pub open spec fn buildable(
    model: Model,
    changed: Set<(Kind, Seq<char>)>,
    built: Result<Map<(Kind, Seq<char>), Mesh>, Problem<Seq<char>>>,
) -> bool {
    built matches Ok(found) ==> forall|key: (Kind, Seq<char>)|
        #![trigger found.contains_key(key)]
        found.contains_key(key) == geometry::due(model, changed, key) && (found.contains_key(key)
            ==> found[key].wf())
}

/// Resolve the geometry that changed, and derive from it and from what else was
/// read everything that the device is handed.
pub fn host_round<
    M: Fn(Formula) -> Answer,
    P: Fn(Vec3, Vec3) -> Vec3,
    W: Fn(Num, Num) -> Num,
    K: Fn(Span, u32) -> Knot,
    C: Fn(Span, u32, u32) -> bool,
    F: Fn(&[Knot], u32) -> Tube,
    N: Fn(&Vec<Vec3>, &Vec<[u32; 3]>) -> Vec<Vec3>,
>(
    maths: &M,
    description: &SceneDescription,
    dirty: &Dirty,
    fresh: bool,
    resident_textures: &Table<Key, u64>,
    resident_sky: Option<&FilePath>,
    limit: usize,
    payloads: &Table<Geometry, Payload>,
    mirror: &P,
    mirror_width: &W,
    sample: &K,
    curved: &C,
    sweep: &F,
    smooth: &N,
    gleanings: Gleanings,
) -> (r: Result<HostScene, SceneError>)
    requires
        formula::steady(*maths),
        curves::able(*mirror, *mirror_width, *sample, *curved),
        curves::rings_all(*sweep),
        geometry::smooths(*smooth),
        geometry::meshes_read(description.model(), dirty@.changed, payloads@),
        geometry::batches_read(
            *mirror,
            *mirror_width,
            *sample,
            *curved,
            description.model(),
            dirty@.changed,
            payloads@,
        ),
        forall|built: Result<Map<(Kind, Seq<char>), Mesh>, Problem<Seq<char>>>| #[trigger]
            buildable(description.model(), dirty@.changed, built) ==> supplied(
                *maths,
                Brief {
                    model: description.model(),
                    dirt: dirty@,
                    fresh,
                    textures: resident_textures@,
                    sky: lower::told(resident_sky),
                    limit,
                },
                gleanings.with(built),
            ),
    ensures
        ({
            let brief = Brief {
                model: description.model(),
                dirt: dirty@,
                fresh,
                textures: resident_textures@,
                sky: lower::told(resident_sky),
                limit,
            };
            exists|built: Result<Map<(Kind, Seq<char>), Mesh>, Problem<Seq<char>>>| #[trigger]
                geometry::geometry_resolves(
                    *mirror,
                    *mirror_width,
                    *sample,
                    *curved,
                    *sweep,
                    *smooth,
                    description.model(),
                    dirty@.changed,
                    payloads@,
                    built,
                ) && {
                    let haul = gleanings.with(built);
                    &&& r is Err == refusal(*maths, brief, haul) is Some
                    &&& r matches Err(error) ==> refusal(*maths, brief, haul) == Some(error@)
                    &&& r matches Ok(scene) ==> scene.lowers(*maths, brief, haul)
                }
        }),
{
    let built = resolve_geometry(
        description,
        dirty,
        payloads,
        mirror,
        mirror_width,
        sample,
        curved,
        sweep,
        smooth,
    );
    let intake = Intake {
        built,
        fetched: gleanings.fetched,
        grids: gleanings.grids,
        rereads: gleanings.rereads,
        sky: gleanings.sky,
    };
    assert(buildable(description.model(), dirty@.changed, intake@.built));
    assert(intake@ == gleanings.with(intake@.built));
    host_phase(
        maths,
        description,
        dirty,
        fresh,
        resident_textures,
        resident_sky,
        limit,
        intake,
    )
}

// -- What to read, and what to say -----------------------------------------------------

/// The names that pass a test, in order.
pub open spec fn picked(names: Seq<Seq<char>>, test: spec_fn(Seq<char>) -> bool) -> Seq<Seq<char>>
    decreases names.len(),
{
    if names.len() == 0 {
        Seq::empty()
    } else {
        let rest = picked(names.drop_last(), test);
        if test(names.last()) {
            rest.push(names.last())
        } else {
            rest
        }
    }
}

/// An instance that changed wears a texture on a mesh that has no coordinates
/// to look it up at: every look-up reads one texel. Curves bring their own
/// coordinates, a file may hold some, and a shell is never shaded.
pub open spec fn uvless(model: Model, changed: Set<(Kind, Seq<char>)>) -> spec_fn(Seq<char>) -> bool {
    |name: Seq<char>|
        {
            let instance = model.instances[name];
            &&& model.materials[instance.material@].references().len() > 0
            &&& match instance.geometry {
                Geometry::Mesh(mesh) => match model.meshes[mesh@].source {
                    MeshSource::Inline { uvs, .. } => uvs is None,
                    _ => false,
                },
                Geometry::Curves(_) => false,
            }
            &&& changed.contains((Kind::Instance, name)) || changed.contains(
                (Kind::Material, instance.material@),
            ) || changed.contains(instance.geometry@)
        }
}

/// The instances whose textures read one texel, and that are new to it.
pub fn textured_without_uvs(description: &SceneDescription, dirty: &Dirty) -> (r: Vec<String>)
    requires
        forall|name: Seq<char>| #[trigger]
            description.model().instances.contains_key(name) ==> {
                let instance = description.model().instances[name];
                &&& description.model().materials.contains_key(instance.material@)
                &&& instance.geometry matches Geometry::Mesh(
                    mesh,
                ) ==> description.model().meshes.contains_key(mesh@)
            },
    ensures
        r@.map_values(|name: String| name@) == picked(
            table::ranking::<String>(description.model().instances.dom()),
            uvless(description.model(), dirty@.changed),
        ),
{
    let instances = description.instances();
    let size: usize = instances.len();
    let mut found: Vec<String> = Vec::new();
    let ghost model = description.model();
    let ghost names = table::ranking::<String>(model.instances.dom());
    let ghost test = uvless(model, dirty@.changed);
    assert(names.take(0) =~= Seq::<Seq<char>>::empty());
    assert(found@.map_values(|name: String| name@) =~= picked(names.take(0), test));
    for i in 0..size
        invariant
            model == description.model(),
            instances@ == model.instances,
            instances.ranked(),
            size == instances.listed().len(),
            names == table::ranking::<String>(model.instances.dom()),
            test == uvless(model, dirty@.changed),
            forall|name: Seq<char>| #[trigger]
                model.instances.contains_key(name) ==> {
                    let instance = model.instances[name];
                    &&& model.materials.contains_key(instance.material@)
                    &&& instance.geometry matches Geometry::Mesh(
                        mesh,
                    ) ==> model.meshes.contains_key(mesh@)
                },
            found@.map_values(|name: String| name@) == picked(names.take(i as int), test),
    {
        let name = instances.key_at(i);
        let instance = instances.value_at(i);
        proof {
            assert(names[i as int] == name@);
            assert(model.instances.contains_key(name@));
            assert(names.take(i + 1).drop_last() =~= names.take(i as int));
        }
        let textured = match description.materials().get(&instance.material) {
            Some(material) => material.textures().len() > 0,
            None => false,
        };
        let bare = match &instance.geometry {
            Geometry::Curves(_) => false,
            Geometry::Mesh(mesh) => match description.meshes().get(mesh) {
                Some(mesh) => match &mesh.source {
                    MeshSource::Inline { uvs, .. } => uvs.is_none(),
                    _ => false,
                },
                None => false,
            },
        };
        let noisy = dirty.changed.contains(Kind::Instance, name) || dirty.changed.contains(
            Kind::Material,
            &instance.material,
        ) || dirty.changed.contains(instance.geometry.kind(), instance.geometry.name());
        let ghost before = found@;
        if textured && bare && noisy {
            found.push(name.duplicate());
            assert(found@.map_values(|name: String| name@) =~= before.map_values(
                |name: String| name@,
            ).push(name@));
        }
    }
    assert(names.take(size as int) =~= names);
    found
}

/// An instance emits from geometry that has to be read once more.
pub open spec fn rereads_for<M: Fn(Formula) -> Answer>(
    maths: M,
    model: Model,
    materials: Map<Seq<char>, Material>,
    built: Map<(Kind, Seq<char>), Mesh>,
    name: Seq<char>,
) -> bool {
    let instance = model.instances[name];
    &&& model.instances.contains_key(name)
    &&& emits(
        maths,
        instance,
        if instance.medium is Some {
            media::inert(materials[instance.material@])
        } else {
            materials[instance.material@]
        },
    )
    &&& rereads_of(model, instance.geometry)
    &&& !built.contains_key(instance.geometry@)
}

/// Some instance emits from this geometry, and it has to be read once more.
pub open spec fn wanted_again<M: Fn(Formula) -> Answer>(
    maths: M,
    model: Model,
    materials: Map<Seq<char>, Material>,
    built: Map<(Kind, Seq<char>), Mesh>,
    what: Geometry,
) -> bool {
    exists|name: Seq<char>| #[trigger]
        rereads_for(maths, model, materials, built, name) && model.instances[name].geometry == what
}

/// The geometry that has to be read once more, because it emits and this
/// round did not build it.
pub fn emitters_to_read<M: Fn(Formula) -> Answer>(
    maths: &M,
    description: &SceneDescription,
    materials: &Table<String, Material>,
    built: &Table<Geometry, Mesh>,
) -> (r: Vec<Geometry>)
    requires
        formula::steady(*maths),
        forall|name: Seq<char>| #[trigger]
            description.model().instances.contains_key(name) ==> {
                let instance = description.model().instances[name];
                &&& materials@.contains_key(instance.material@)
                &&& instance.geometry matches Geometry::Mesh(
                    mesh,
                ) ==> description.model().meshes.contains_key(mesh@)
            },
    ensures
        forall|i: int|
            0 <= i < r@.len() ==> wanted_again(
                *maths,
                description.model(),
                materials@,
                built@,
                #[trigger] r@[i],
            ),
        forall|name: Seq<char>| #[trigger]
            rereads_for(*maths, description.model(), materials@, built@, name) ==> r@.contains(
                description.model().instances[name].geometry,
            ),
{
    let instances = description.instances();
    let size: usize = instances.len();
    let mut found: Vec<Geometry> = Vec::new();
    let ghost model = description.model();
    let ghost names = table::ranking::<String>(model.instances.dom());
    for i in 0..size
        invariant
            formula::steady(*maths),
            model == description.model(),
            instances@ == model.instances,
            instances.ranked(),
            size == instances.listed().len(),
            names == table::ranking::<String>(model.instances.dom()),
            forall|name: Seq<char>| #[trigger]
                model.instances.contains_key(name) ==> {
                    let instance = model.instances[name];
                    &&& materials@.contains_key(instance.material@)
                    &&& instance.geometry matches Geometry::Mesh(
                        mesh,
                    ) ==> model.meshes.contains_key(mesh@)
                },
            forall|k: int|
                0 <= k < found@.len() ==> wanted_again(
                    *maths,
                    model,
                    materials@,
                    built@,
                    #[trigger] found@[k],
                ),
            forall|k: int|
                0 <= k < i && rereads_for(
                    *maths,
                    model,
                    materials@,
                    built@,
                    #[trigger] names[k],
                ) ==> found@.contains(model.instances[names[k]].geometry),
    {
        let instance = instances.value_at(i);
        let ghost name = names[i as int];
        proof {
            assert(instances.listed()[i as int].0@ == name);
            assert(model.instances.contains_key(name));
        }
        let authored = match materials.get(&instance.material) {
            Some(material) => *material,
            None => {
                return found;
            },
        };
        let material = boundary_material(authored, instance.medium.is_some());
        let filed = match &instance.geometry {
            Geometry::Curves(_) => true,
            Geometry::Mesh(mesh) => match description.meshes().get(mesh) {
                Some(mesh) => match &mesh.source {
                    MeshSource::Ply { .. } => true,
                    _ => false,
                },
                None => false,
            },
        };
        let lit = instance.transforms.len() > 0 && ask_truth(
            maths,
            Formula::Luminous(material.emission),
        );
        let ghost before = found@;
        if lit && filed && !built.contains_key(&instance.geometry) {
            assert(rereads_for(*maths, model, materials@, built@, name));
            found.push(instance.geometry.duplicate());
            proof {
                assert forall|k: int| 0 <= k < found@.len() implies wanted_again(
                    *maths,
                    model,
                    materials@,
                    built@,
                    #[trigger] found@[k],
                ) by {
                    if k < before.len() {
                        assert(found@[k] == before[k]);
                    }
                }
            }
        }
        proof {
            assert forall|k: int|
                0 <= k < i + 1 && rereads_for(
                    *maths,
                    model,
                    materials@,
                    built@,
                    #[trigger] names[k],
                ) implies found@.contains(model.instances[names[k]].geometry) by {
                if k < i {
                    let at = before.index_of(model.instances[names[k]].geometry);
                    assert(found@[at] == before[at]);
                } else {
                    assert(found@[found@.len() - 1] == instance.geometry);
                }
            }
        }
    }
    proof {
        table::ranking_covers(*instances);
        assert forall|name: Seq<char>| #[trigger]
            rereads_for(*maths, model, materials@, built@, name) implies found@.contains(
            model.instances[name].geometry,
        ) by {
            assert(model.instances.dom().contains(name));
            assert(names.contains(name));
            let k = names.index_of(name);
            assert(rereads_for(*maths, model, materials@, built@, names[k]));
        }
    }
    found
}

} // verus!
