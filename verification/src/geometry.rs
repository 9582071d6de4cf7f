//! Geometry: from what a scene says of a mesh or of curves to triangles.

use vstd::prelude::*;

use crate::bits::{Num, Vec2, Vec3, ONE};
use crate::changeset::{Dirty, Kind, ObjectSet};
use crate::curves;
use crate::curves::{Knot, Span, Strands, Tube};
use crate::description;
use crate::description::{Curves, Geometry, MeshSource, Model, SceneDescription};
use crate::error::{Problem, SceneError};
use crate::mesh;
use crate::mesh::Mesh;
use crate::table;
use crate::table::Table;
use crate::value::Duplicate;

verus! {

/// What a mesh file held.
#[derive(Clone, Debug, PartialEq, Eq)]
pub struct FileMesh {
    /// Where the vertices are.
    pub positions: Vec<Vec3>,
    /// The shading normal at each, where the file holds them.
    pub normals: Option<Vec<Vec3>>,
    /// The texture coordinates at each, where the file holds them.
    pub uvs: Option<Vec<Vec2>>,
    /// The triangles.
    pub triangles: Vec<[u32; 3]>,
}

/// Every triangle's corners are vertices.
pub open spec fn inside(triangles: Seq<[u32; 3]>, vertices: int) -> bool {
    forall|i: int|
        0 <= i < triangles.len() ==> mesh::within(#[trigger] triangles[i], vertices)
}

impl FileMesh {
    /// What the file held fits together.
    pub open spec fn wf(self) -> bool {
        &&& self.normals matches Some(normals) ==> normals@.len() == self.positions@.len()
        &&& self.uvs matches Some(uvs) ==> uvs@.len() == self.positions@.len()
        &&& inside(self.triangles@, self.positions@.len() as int)
    }
}

/// What reading a geometry's file came to.
pub enum Payload {
    /// There is no file to read.
    Nothing,
    /// A mesh.
    Triangles(FileMesh),
    /// Strands.
    Groom(Strands),
    /// It failed, for a reason that the reader words.
    Failed(String),
}

/// A mesh says things that fit together.
pub open spec fn consistent(source: MeshSource) -> bool {
    match source {
        MeshSource::Inline { positions, normals, uvs, triangles } => {
            &&& normals matches Some(normals) ==> normals@.len() == positions@.len()
            &&& uvs matches Some(uvs) ==> uvs@.len() == positions@.len()
            &&& inside(triangles@, positions@.len() as int)
        },
        _ => true,
    }
}

/// What was read is what the source asks to be read.
pub open spec fn mesh_read(source: MeshSource, payload: Payload) -> bool {
    source is Ply ==> match payload {
        Payload::Triangles(mesh) => mesh.wf(),
        Payload::Failed(_) => true,
        _ => false,
    }
}

/// Derives a normal for every vertex.
pub open spec fn smooths<N: Fn(&Vec<Vec3>, &Vec<[u32; 3]>) -> Vec<Vec3>>(smooth: N) -> bool {
    &&& forall|positions: &Vec<Vec3>, triangles: &Vec<[u32; 3]>|
        inside(triangles@, positions@.len() as int) ==> call_requires(
            smooth,
            (positions, triangles),
        )
    &&& forall|positions: &Vec<Vec3>, triangles: &Vec<[u32; 3]>, normals: Vec<Vec3>|
        call_ensures(smooth, (positions, triangles), normals) ==> normals@.len() == positions@.len()
}

/// Where the corners of the unit cube are: the bits of a corner's number say
/// along which axes it lies.
pub open spec fn corner(i: int) -> Vec3 {
    Vec3 {
        x: if i % 2 == 1 {
            Num { bits: ONE }
        } else {
            Num { bits: 0 }
        },
        y: if (i / 2) % 2 == 1 {
            Num { bits: ONE }
        } else {
            Num { bits: 0 }
        },
        z: if (i / 4) % 2 == 1 {
            Num { bits: ONE }
        } else {
            Num { bits: 0 }
        },
    }
}

/// The unit cube's triangles, two for each side, wound outward.
pub open spec fn shell() -> Seq<[u32; 3]> {
    seq![
        [0, 2, 3],
        [0, 3, 1],
        [4, 5, 7],
        [4, 7, 6],
        [0, 1, 5],
        [0, 5, 4],
        [2, 6, 7],
        [2, 7, 3],
        [0, 4, 6],
        [0, 6, 2],
        [1, 3, 7],
        [1, 7, 5],
    ]
}

/// The normals that were given, or ones derived from the triangles.
pub open spec fn shaded<N: Fn(&Vec<Vec3>, &Vec<[u32; 3]>) -> Vec<Vec3>>(
    smooth: N,
    given: Option<Seq<Vec3>>,
    found: Mesh,
) -> bool {
    match given {
        Some(normals) => found.normals@ == normals,
        None => call_ensures(smooth, (&found.positions, &found.triangles), found.normals),
    }
}

/// The coordinates that were given, or the origin for every vertex.
pub open spec fn unwrapped(given: Option<Seq<Vec2>>, vertices: nat) -> Seq<Vec2> {
    match given {
        Some(uvs) => uvs,
        None => Seq::new(vertices, |i: int| Vec2::splat(0)),
    }
}

/// A mesh is what a source resolves to. Missing normals are derived; missing
/// coordinates are the origin, where a texture is constant.
pub open spec fn mesh_resolves<N: Fn(&Vec<Vec3>, &Vec<[u32; 3]>) -> Vec<Vec3>>(
    smooth: N,
    source: MeshSource,
    payload: Payload,
    found: Mesh,
) -> bool {
    match source {
        MeshSource::Inline { positions, normals, uvs, triangles } => {
            &&& found.positions@ == positions@
            &&& found.triangles@ == triangles@
            &&& shaded(
                smooth,
                match normals {
                    Some(normals) => Some(normals@),
                    None => None,
                },
                found,
            )
            &&& found.uvs@ == unwrapped(
                match uvs {
                    Some(uvs) => Some(uvs@),
                    None => None,
                },
                positions@.len(),
            )
        },
        MeshSource::MediumBounds => {
            &&& found.positions@ == Seq::new(8, |i: int| corner(i))
            &&& found.triangles@ == shell()
            &&& shaded(smooth, None, found)
            &&& found.uvs@ == unwrapped(None, 8)
        },
        MeshSource::Ply { .. } => {
            &&& payload is Triangles
            &&& found.positions@ == payload->Triangles_0.positions@
            &&& found.triangles@ == payload->Triangles_0.triangles@
            &&& shaded(
                smooth,
                match payload->Triangles_0.normals {
                    Some(normals) => Some(normals@),
                    None => None,
                },
                found,
            )
            &&& found.uvs@ == unwrapped(
                match payload->Triangles_0.uvs {
                    Some(uvs) => Some(uvs@),
                    None => None,
                },
                payload->Triangles_0.positions@.len(),
            )
        },
    }
}

/// Why a mesh has no geometry, if it has none.
pub open spec fn mesh_unread(name: Seq<char>, source: MeshSource, payload: Payload) -> Option<
    Problem<Seq<char>>,
> {
    match payload {
        Payload::Failed(words) if source is Ply => Some(Problem::MeshFile { name, words: words@ }),
        _ => None,
    }
}

/// A copy of a list.
pub fn copied<T: Copy>(list: &Vec<T>) -> (r: Vec<T>)
    ensures
        r@ == list@,
{
    let mut found: Vec<T> = Vec::new();
    for i in 0..list.len()
        invariant
            found@ == list@.take(i as int),
    {
        found.push(list[i]);
        assert(found@ =~= list@.take(i + 1));
    }
    assert(found@ =~= list@);
    found
}

/// The origin, for every vertex.
pub fn origins(vertices: usize) -> (r: Vec<Vec2>)
    ensures
        r@ == unwrapped(None, vertices as nat),
{
    let mut found: Vec<Vec2> = Vec::new();
    for i in 0..vertices
        invariant
            found@ == Seq::new(i as nat, |i: int| Vec2::splat(0)),
    {
        found.push(Vec2::splat(0));
        assert(found@ =~= Seq::new((i + 1) as nat, |i: int| Vec2::splat(0)));
    }
    found
}

/// Where the corners of the unit cube are.
fn corners() -> (r: Vec<Vec3>)
    ensures
        r@ == Seq::new(8, |i: int| corner(i)),
{
    let mut found: Vec<Vec3> = Vec::new();
    for i in 0..8u32
        invariant
            found@ == Seq::new(i as nat, |i: int| corner(i)),
    {
        let x = if i % 2 == 1 {
            Num::new(ONE)
        } else {
            Num::new(0)
        };
        let y = if (i / 2) % 2 == 1 {
            Num::new(ONE)
        } else {
            Num::new(0)
        };
        let z = if (i / 4) % 2 == 1 {
            Num::new(ONE)
        } else {
            Num::new(0)
        };
        found.push(Vec3 { x, y, z });
        assert(found@ =~= Seq::new((i + 1) as nat, |i: int| corner(i)));
    }
    found
}

/// The unit cube's triangles.
fn sides() -> (r: Vec<[u32; 3]>)
    ensures
        r@ == shell(),
        inside(r@, 8),
{
    let r: Vec<[u32; 3]> = vec![
        [0, 2, 3],
        [0, 3, 1],
        [4, 5, 7],
        [4, 7, 6],
        [0, 1, 5],
        [0, 5, 4],
        [2, 6, 7],
        [2, 7, 3],
        [0, 4, 6],
        [0, 6, 2],
        [1, 3, 7],
        [1, 7, 5],
    ];
    assert(r@ =~= shell());
    r
}

/// Resolve a mesh: what it spells out, what its file held, or the unit cube
/// that a grid's bounds stretch. Missing normals are derived, and missing
/// coordinates are the origin.
pub fn resolve_mesh<N: Fn(&Vec<Vec3>, &Vec<[u32; 3]>) -> Vec<Vec3>>(
    name: &String,
    mesh: &description::Mesh,
    payload: &Payload,
    smooth: &N,
) -> (r: Result<Mesh, SceneError>)
    requires
        smooths(*smooth),
        consistent(mesh.source),
        mesh_read(mesh.source, *payload),
    ensures
        r is Err == mesh_unread(name@, mesh.source, *payload) is Some,
        r matches Err(error) ==> mesh_unread(name@, mesh.source, *payload) == Some(error@),
        r matches Ok(found) ==> found.wf() && mesh_resolves(*smooth, mesh.source, *payload, found),
{
    match &mesh.source {
        MeshSource::Inline { positions, normals, uvs, triangles } => {
            let positions = copied(&**positions);
            let triangles = copied(&**triangles);
            let normals = match normals {
                Some(normals) => copied(&**normals),
                None => smooth(&positions, &triangles),
            };
            let uvs = match uvs {
                Some(uvs) => copied(&**uvs),
                None => origins(positions.len()),
            };
            Ok(Mesh { positions, normals, uvs, triangles })
        },
        MeshSource::MediumBounds => {
            let positions = corners();
            let triangles = sides();
            assert(positions@.len() == 8);
            let normals = smooth(&positions, &triangles);
            let uvs = origins(8);
            Ok(Mesh { positions, normals, uvs, triangles })
        },
        MeshSource::Ply { .. } => match payload {
            Payload::Triangles(read) => {
                let positions = copied(&read.positions);
                let triangles = copied(&read.triangles);
                let normals = match &read.normals {
                    Some(normals) => copied(normals),
                    None => smooth(&positions, &triangles),
                };
                let uvs = match &read.uvs {
                    Some(uvs) => copied(uvs),
                    None => origins(positions.len()),
                };
                Ok(Mesh { positions, normals, uvs, triangles })
            },
            Payload::Failed(words) => Err(
                Problem::MeshFile { name: name.clone(), words: words.clone() },
            ),
            _ => Err(Problem::MeshFile { name: name.clone(), words: name.clone() }),
        },
    }
}

// -- A round of edits ----------------------------------------------------------------

/// What reading a geometry's file came to, where there was one to read.
pub open spec fn payload_of(
    payloads: Map<(Kind, Seq<char>), Payload>,
    kind: Kind,
    name: Seq<char>,
) -> Payload {
    if payloads.contains_key((kind, name)) {
        payloads[(kind, name)]
    } else {
        Payload::Nothing
    }
}

/// The strands that a file held, or none.
pub open spec fn groom_of(payload: Payload) -> curves::Bundle {
    match payload {
        Payload::Groom(strands) => strands@,
        _ => curves::Bundle { strands: Seq::empty(), open: Seq::empty() },
    }
}

/// Why a batch has no geometry, if it has none.
pub open spec fn batch_unread(name: Seq<char>, batch: Curves, payload: Payload) -> Option<
    Problem<Seq<char>>,
> {
    match payload {
        Payload::Failed(words) if batch.source is Hair => Some(
            Problem::CurvesFile { name, words: words@ },
        ),
        _ => curves::batch_problem(name, batch, groom_of(payload)),
    }
}

/// Why a changed mesh has no geometry, if it has none.
pub open spec fn mesh_trouble(
    changed: Set<(Kind, Seq<char>)>,
    payloads: Map<(Kind, Seq<char>), Payload>,
) -> spec_fn(Seq<char>, description::Mesh) -> Option<Problem<Seq<char>>> {
    |name: Seq<char>, mesh: description::Mesh|
        if changed.contains((Kind::Mesh, name)) {
            mesh_unread(name, mesh.source, payload_of(payloads, Kind::Mesh, name))
        } else {
            None
        }
}

/// Why a changed batch has no geometry, if it has none.
pub open spec fn batch_trouble(
    changed: Set<(Kind, Seq<char>)>,
    payloads: Map<(Kind, Seq<char>), Payload>,
) -> spec_fn(Seq<char>, Curves) -> Option<Problem<Seq<char>>> {
    |name: Seq<char>, batch: Curves|
        if changed.contains((Kind::Curves, name)) {
            batch_unread(name, batch, payload_of(payloads, Kind::Curves, name))
        } else {
            None
        }
}

/// Why a round's geometry does not resolve: the first mesh in name order that
/// does not, or else the first batch.
pub open spec fn geometry_problem(
    model: Model,
    changed: Set<(Kind, Seq<char>)>,
    payloads: Map<(Kind, Seq<char>), Payload>,
) -> Option<Problem<Seq<char>>> {
    crate::validate::either(
        crate::validate::first_problem(model.meshes, mesh_trouble(changed, payloads)),
        crate::validate::first_problem(model.curves, batch_trouble(changed, payloads)),
    )
}

/// What was read is what the changed meshes ask to be read, and fits what the
/// scene says of it.
pub open spec fn meshes_read(
    model: Model,
    changed: Set<(Kind, Seq<char>)>,
    payloads: Map<(Kind, Seq<char>), Payload>,
) -> bool {
    forall|name: Seq<char>| #[trigger]
        model.meshes.contains_key(name) && changed.contains((Kind::Mesh, name)) ==> consistent(
            model.meshes[name].source,
        ) && mesh_read(model.meshes[name].source, payload_of(payloads, Kind::Mesh, name))
}

/// The changed batches can be resolved with what was read.
pub open spec fn batches_read<
    P: Fn(Vec3, Vec3) -> Vec3,
    W: Fn(Num, Num) -> Num,
    K: Fn(Span, u32) -> Knot,
    C: Fn(Span, u32, u32) -> bool,
>(
    mirror: P,
    mirror_width: W,
    sample: K,
    curved: C,
    model: Model,
    changed: Set<(Kind, Seq<char>)>,
    payloads: Map<(Kind, Seq<char>), Payload>,
) -> bool {
    forall|name: Seq<char>| #[trigger]
        model.curves.contains_key(name) && changed.contains((Kind::Curves, name))
            ==> curves::resolvable(
            mirror,
            mirror_width,
            sample,
            curved,
            model.curves[name],
            groom_of(payload_of(payloads, Kind::Curves, name)),
        )
}

/// A mesh is what a batch resolves to.
pub open spec fn batch_resolves<
    P: Fn(Vec3, Vec3) -> Vec3,
    W: Fn(Num, Num) -> Num,
    K: Fn(Span, u32) -> Knot,
    C: Fn(Span, u32, u32) -> bool,
    F: Fn(&[Knot], u32) -> Tube,
>(
    mirror: P,
    mirror_width: W,
    sample: K,
    curved: C,
    sweep: F,
    batch: Curves,
    groom: curves::Bundle,
    found: Mesh,
) -> bool {
    exists|strands: Seq<Seq<Knot>>|
        #[trigger] curves::batch_strands(
            mirror,
            mirror_width,
            sample,
            curved,
            batch,
            groom,
            strands,
        ) && found.positions@.len() == curves::SIDES * curves::knots_in(strands) && found.triangles@
            == curves::all_triangles(strands) && curves::tubes(
            sweep,
            strands,
            found.positions@,
            found.normals@,
            found.uvs@,
        )
}

/// The geometry that a round has to build.
pub open spec fn due(model: Model, changed: Set<(Kind, Seq<char>)>, key: (Kind, Seq<char>)) -> bool {
    &&& changed.contains(key)
    &&& (key.0 == Kind::Mesh && model.meshes.contains_key(key.1)) || (key.0 == Kind::Curves
        && model.curves.contains_key(key.1))
}

/// The keys of geometry, in order.
pub open spec fn geometry_keys(keys: Seq<(Kind, Seq<char>)>) -> Seq<(Kind, Seq<char>)>
    decreases keys.len(),
{
    if keys.len() == 0 {
        Seq::empty()
    } else {
        let rest = geometry_keys(keys.drop_last());
        if keys.last().0 == Kind::Mesh || keys.last().0 == Kind::Curves {
            rest.push(keys.last())
        } else {
            rest
        }
    }
}

/// The geometry that a round retires: meshes in name order, then curves.
pub open spec fn retired(removed: Set<(Kind, Seq<char>)>) -> Seq<(Kind, Seq<char>)> {
    geometry_keys(table::ranking::<(Kind, String)>(removed))
}

/// The geometry that a round retires.
pub fn removed_geometry(removed: &ObjectSet) -> (r: Vec<Geometry>)
    ensures
        r@.map_values(|geometry: Geometry| geometry@) == retired(removed@),
{
    let mut found: Vec<Geometry> = Vec::new();
    let size: usize = removed.len();
    let ghost keys = table::ranking::<(Kind, String)>(removed@);
    assert(keys.take(0) =~= Seq::empty());
    assert(found@.map_values(|geometry: Geometry| geometry@) =~= geometry_keys(keys.take(0)));
    for i in 0..size
        invariant
            size == removed.listed().len(),
            removed.ranked(),
            keys == table::ranking::<(Kind, String)>(removed@),
            found@.map_values(|geometry: Geometry| geometry@) == geometry_keys(keys.take(i as int)),
    {
        let entry = removed.at(i);
        let ghost before = found@;
        proof {
            assert(removed.listed().map_values(|entry: (Kind, String)| entry@)[i as int]
                == entry@);
            assert(keys.take(i + 1).drop_last() =~= keys.take(i as int));
            assert(keys.take(i + 1).last() == entry@);
        }
        match entry.0 {
            Kind::Mesh => {
                found.push(Geometry::Mesh(entry.1.duplicate()));
            },
            Kind::Curves => {
                found.push(Geometry::Curves(entry.1.duplicate()));
            },
            _ => {},
        }
        proof {
            if found@.len() > before.len() {
                assert(found@.map_values(|geometry: Geometry| geometry@) =~= before.map_values(
                    |geometry: Geometry| geometry@,
                ).push(entry@));
            }
        }
    }
    assert(keys.take(size as int) =~= keys) by {
        assert(removed.listed().map_values(|entry: (Kind, String)| entry@).len() == size);
    }
    found
}

/// Resolve the meshes that changed.
pub fn resolve_meshes<N: Fn(&Vec<Vec3>, &Vec<[u32; 3]>) -> Vec<Vec3>>(
    description: &SceneDescription,
    dirty: &Dirty,
    payloads: &Table<Geometry, Payload>,
    smooth: &N,
) -> (r: Result<Table<Geometry, Mesh>, SceneError>)
    requires
        smooths(*smooth),
        meshes_read(description.model(), dirty@.changed, payloads@),
    ensures
        ({
            let trouble = crate::validate::first_problem(
                description.model().meshes,
                mesh_trouble(dirty@.changed, payloads@),
            );
            &&& r is Err == trouble is Some
            &&& r matches Err(error) ==> trouble == Some(error@)
        }),
        r matches Ok(found) ==> forall|key: (Kind, Seq<char>)| #![trigger found@.contains_key(key)]
            found@.contains_key(key) == (key.0 == Kind::Mesh && due(
                description.model(),
                dirty@.changed,
                key,
            )) && (found@.contains_key(key) ==> found@[key].wf() && mesh_resolves(
                *smooth,
                description.model().meshes[key.1].source,
                payload_of(payloads@, Kind::Mesh, key.1),
                found@[key],
            )),
{
    let meshes = description.meshes();
    let size: usize = meshes.len();
    let mut found: Table<Geometry, Mesh> = Table::new();
    let nothing = Payload::Nothing;
    let ghost model = description.model();
    let ghost rule = mesh_trouble(dirty@.changed, payloads@);
    let ghost names = table::ranking::<String>(model.meshes.dom());
    for i in 0..size
        invariant
            smooths(*smooth),
            meshes_read(model, dirty@.changed, payloads@),
            model == description.model(),
            meshes@ == model.meshes,
            meshes.ranked(),
            size == meshes.listed().len(),
            table::ascending(meshes.listed()),
            nothing == Payload::Nothing,
            rule == mesh_trouble(dirty@.changed, payloads@),
            names == table::ranking::<String>(model.meshes.dom()),
            forall|j: int|
                0 <= j < i ==> rule(
                    (#[trigger] meshes.listed()[j]).0@,
                    meshes@[meshes.listed()[j].0@],
                ) is None,
            forall|key: (Kind, Seq<char>)| #![trigger found@.contains_key(key)]
                found@.contains_key(key) == (key.0 == Kind::Mesh && dirty@.changed.contains(key)
                    && names.take(i as int).contains(key.1)) && (found@.contains_key(key)
                    ==> found@[key].wf() && mesh_resolves(
                    *smooth,
                    model.meshes[key.1].source,
                    payload_of(payloads@, Kind::Mesh, key.1),
                    found@[key],
                )),
    {
        let name = meshes.key_at(i);
        let object = meshes.value_at(i);
        let ghost before = found@;
        proof {
            assert(names[i as int] == name@);
            assert(model.meshes.contains_key(name@));
            assert(names.take(i + 1) =~= names.take(i as int).push(name@));
            assert(forall|other: Seq<char>|
                #![trigger names.take(i + 1).contains(other)]
                names.take(i + 1).contains(other) == (names.take(i as int).contains(other) || other
                    == name@)) by {
                assert(names.take(i + 1)[i as int] == name@);
                assert forall|other: Seq<char>| names.take(i as int).contains(other) implies #[trigger]
                    names.take(i + 1).contains(other) by {
                    let k = names.take(i as int).index_of(other);
                    assert(names.take(i + 1)[k] == other);
                }
            }
        }
        if dirty.changed.contains(Kind::Mesh, name) {
            let key = Geometry::Mesh(name.duplicate());
            let payload = match payloads.get(&key) {
                Some(payload) => payload,
                None => &nothing,
            };
            match resolve_mesh(name, object, payload, smooth) {
                Err(problem) => {
                    proof {
                        crate::validate::listed_first(*meshes, rule, i as int);
                    }
                    return Err(problem);
                },
                Ok(mesh) => {
                    found.insert(key, mesh);
                },
            }
        }
    }
    proof {
        crate::validate::listed_none(*meshes, rule);
        table::ranking_covers(*meshes);
        assert(names.take(size as int) =~= names);
        assert(forall|key: (Kind, Seq<char>)| #![trigger found@.contains_key(key)]
            names.contains(key.1) == model.meshes.dom().contains(key.1));
    }
    Ok(found)
}

/// What resolving a round's geometry comes to: the geometry that is due, each by
/// the reference that an instance holds, or why there is none.
pub open spec fn geometry_resolves<
    P: Fn(Vec3, Vec3) -> Vec3,
    W: Fn(Num, Num) -> Num,
    K: Fn(Span, u32) -> Knot,
    C: Fn(Span, u32, u32) -> bool,
    F: Fn(&[Knot], u32) -> Tube,
    N: Fn(&Vec<Vec3>, &Vec<[u32; 3]>) -> Vec<Vec3>,
>(
    mirror: P,
    mirror_width: W,
    sample: K,
    curved: C,
    sweep: F,
    smooth: N,
    model: Model,
    changed: Set<(Kind, Seq<char>)>,
    payloads: Map<(Kind, Seq<char>), Payload>,
    outcome: Result<Map<(Kind, Seq<char>), Mesh>, Problem<Seq<char>>>,
) -> bool {
    let trouble = geometry_problem(model, changed, payloads);
    &&& outcome is Err == trouble is Some
    &&& outcome matches Err(problem) ==> trouble == Some(problem)
    &&& outcome matches Ok(found) ==> forall|key: (Kind, Seq<char>)|
        #![trigger found.contains_key(key)]
        found.contains_key(key) == due(model, changed, key) && (found.contains_key(key)
            ==> found[key].wf() && if key.0 == Kind::Mesh {
            mesh_resolves(
                smooth,
                model.meshes[key.1].source,
                payload_of(payloads, Kind::Mesh, key.1),
                found[key],
            )
        } else {
            batch_resolves(
                mirror,
                mirror_width,
                sample,
                curved,
                sweep,
                model.curves[key.1],
                groom_of(payload_of(payloads, Kind::Curves, key.1)),
                found[key],
            )
        })
}

/// Resolve the geometry that changed: meshes in name order, then curves. They
/// share one table, by the reference that an instance holds.
pub fn resolve_geometry<
    P: Fn(Vec3, Vec3) -> Vec3,
    W: Fn(Num, Num) -> Num,
    K: Fn(Span, u32) -> Knot,
    C: Fn(Span, u32, u32) -> bool,
    F: Fn(&[Knot], u32) -> Tube,
    N: Fn(&Vec<Vec3>, &Vec<[u32; 3]>) -> Vec<Vec3>,
>(
    description: &SceneDescription,
    dirty: &Dirty,
    payloads: &Table<Geometry, Payload>,
    mirror: &P,
    mirror_width: &W,
    sample: &K,
    curved: &C,
    sweep: &F,
    smooth: &N,
) -> (r: Result<Table<Geometry, Mesh>, SceneError>)
    requires
        curves::able(*mirror, *mirror_width, *sample, *curved),
        curves::rings_all(*sweep),
        smooths(*smooth),
        meshes_read(description.model(), dirty@.changed, payloads@),
        batches_read(
            *mirror,
            *mirror_width,
            *sample,
            *curved,
            description.model(),
            dirty@.changed,
            payloads@,
        ),
    ensures
        geometry_resolves(
            *mirror,
            *mirror_width,
            *sample,
            *curved,
            *sweep,
            *smooth,
            description.model(),
            dirty@.changed,
            payloads@,
            match r {
                Ok(found) => Ok(found@),
                Err(error) => Err(error@),
            },
        ),
{
    let mut found = match resolve_meshes(description, dirty, payloads, smooth) {
        Ok(found) => found,
        Err(problem) => {
            return Err(problem);
        },
    };
    let batches = description.curves();
    let size: usize = batches.len();
    let bald = Strands::new();
    let ghost model = description.model();
    let ghost rule = batch_trouble(dirty@.changed, payloads@);
    let ghost names = table::ranking::<String>(model.curves.dom());
    for i in 0..size
        invariant
            curves::able(*mirror, *mirror_width, *sample, *curved),
            curves::rings_all(*sweep),
            batches_read(
                *mirror,
                *mirror_width,
                *sample,
                *curved,
                model,
                dirty@.changed,
                payloads@,
            ),
            model == description.model(),
            crate::validate::first_problem(
                model.meshes,
                mesh_trouble(dirty@.changed, payloads@),
            ) is None,
            batches@ == model.curves,
            batches.ranked(),
            size == batches.listed().len(),
            table::ascending(batches.listed()),
            bald@ == groom_of(Payload::Nothing),
            rule == batch_trouble(dirty@.changed, payloads@),
            names == table::ranking::<String>(model.curves.dom()),
            forall|j: int|
                0 <= j < i ==> rule(
                    (#[trigger] batches.listed()[j]).0@,
                    batches@[batches.listed()[j].0@],
                ) is None,
            forall|key: (Kind, Seq<char>)| #![trigger found@.contains_key(key)]
                found@.contains_key(key) == ((key.0 == Kind::Mesh && due(
                    model,
                    dirty@.changed,
                    key,
                )) || (key.0 == Kind::Curves && dirty@.changed.contains(key) && names.take(
                    i as int,
                ).contains(key.1))) && (found@.contains_key(key) ==> found@[key].wf() && if key.0
                    == Kind::Mesh {
                    mesh_resolves(
                        *smooth,
                        model.meshes[key.1].source,
                        payload_of(payloads@, Kind::Mesh, key.1),
                        found@[key],
                    )
                } else {
                    batch_resolves(
                        *mirror,
                        *mirror_width,
                        *sample,
                        *curved,
                        *sweep,
                        model.curves[key.1],
                        groom_of(payload_of(payloads@, Kind::Curves, key.1)),
                        found@[key],
                    )
                }),
    {
        let name = batches.key_at(i);
        let object = batches.value_at(i);
        let ghost before = found@;
        proof {
            assert(names[i as int] == name@);
            assert(model.curves.contains_key(name@));
            assert(names.take(i + 1) =~= names.take(i as int).push(name@));
            assert(forall|other: Seq<char>|
                #![trigger names.take(i + 1).contains(other)]
                names.take(i + 1).contains(other) == (names.take(i as int).contains(other) || other
                    == name@)) by {
                assert(names.take(i + 1)[i as int] == name@);
                assert forall|other: Seq<char>| names.take(i as int).contains(other) implies #[trigger]
                    names.take(i + 1).contains(other) by {
                    let k = names.take(i as int).index_of(other);
                    assert(names.take(i + 1)[k] == other);
                }
            }
        }
        if dirty.changed.contains(Kind::Curves, name) {
            let key = Geometry::Curves(name.duplicate());
            let hair = match &object.source {
                description::CurvesSource::Hair { .. } => true,
                _ => false,
            };
            let mut groom = &bald;
            match payloads.get(&key) {
                Some(Payload::Groom(strands)) => {
                    groom = strands;
                },
                Some(Payload::Failed(words)) => {
                    if hair {
                        proof {
                            crate::validate::listed_first(*batches, rule, i as int);
                        }
                        return Err(
                            Problem::CurvesFile { name: name.clone(), words: words.clone() },
                        );
                    }
                },
                _ => {},
            }
            assert(groom@ == groom_of(payload_of(payloads@, Kind::Curves, name@)));
            match curves::resolve(
                name,
                object,
                groom,
                mirror,
                mirror_width,
                sample,
                curved,
                sweep,
            ) {
                Err(problem) => {
                    proof {
                        crate::validate::listed_first(*batches, rule, i as int);
                    }
                    return Err(problem);
                },
                Ok(mesh) => {
                    found.insert(key, mesh);
                },
            }
        }
    }
    proof {
        crate::validate::listed_none(*batches, rule);
        table::ranking_covers(*batches);
        assert(names.take(size as int) =~= names);
        assert(forall|key: (Kind, Seq<char>)| #![trigger found@.contains_key(key)]
            names.contains(key.1) == model.curves.dom().contains(key.1));
    }
    Ok(found)
}

} // verus!
