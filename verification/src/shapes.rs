//! Solids to test with: a sphere of triangles, and a plane.

use std::collections::HashMap;

use vstd::arithmetic::power::pow;
use vstd::prelude::*;

use crate::bits::{Num, Vec2, Vec3, ONE};
use crate::formula;
use crate::formula::{ask_vector, Answer, Formula};
use crate::geometry;
use crate::geometry::{copied, origins};
use crate::mesh;
use crate::mesh::Mesh;
use crate::surface;

verus! {

/// The shorter coordinate of an icosahedron's corner at unit length.
pub const NEAR: u32 = 0x3f06_9650;

/// The longer coordinate of an icosahedron's corner at unit length.
pub const FAR: u32 = 0x3f59_c440;

/// The shorter coordinate with the other sign.
pub const NEAR_BACK: u32 = 0xbf06_9650;

/// The longer coordinate with the other sign.
pub const FAR_BACK: u32 = 0xbf59_c440;

/// The corners of the icosahedron: those of three rectangles at right angles,
/// at unit length.
pub open spec fn corners() -> Seq<Vec3> {
    seq![
        Vec3::new(NEAR_BACK, FAR, 0),
        Vec3::new(NEAR, FAR, 0),
        Vec3::new(NEAR_BACK, FAR_BACK, 0),
        Vec3::new(NEAR, FAR_BACK, 0),
        Vec3::new(0, NEAR_BACK, FAR),
        Vec3::new(0, NEAR, FAR),
        Vec3::new(0, NEAR_BACK, FAR_BACK),
        Vec3::new(0, NEAR, FAR_BACK),
        Vec3::new(FAR, 0, NEAR_BACK),
        Vec3::new(FAR, 0, NEAR),
        Vec3::new(FAR_BACK, 0, NEAR_BACK),
        Vec3::new(FAR_BACK, 0, NEAR),
    ]
}

/// The faces of the icosahedron, counter-clockwise from outside.
pub open spec fn faces() -> Seq<[u32; 3]> {
    seq![
        [0, 11, 5],
        [0, 5, 1],
        [0, 1, 7],
        [0, 7, 10],
        [0, 10, 11],
        [1, 5, 9],
        [5, 11, 4],
        [11, 10, 2],
        [10, 7, 6],
        [7, 1, 8],
        [3, 9, 4],
        [3, 4, 2],
        [3, 2, 6],
        [3, 6, 8],
        [3, 8, 9],
        [4, 9, 5],
        [2, 4, 11],
        [6, 2, 10],
        [8, 6, 7],
        [9, 8, 1],
    ]
}

/// The name of the edge between two vertices, whichever comes first.
pub open spec fn edge(a: u32, b: u32) -> u64 {
    if a <= b {
        (a * 0x1_0000_0000 + b) as u64
    } else {
        (b * 0x1_0000_0000 + a) as u64
    }
}

/// Vertices, and the midpoints of edges that are among them.
pub struct Web {
    /// The vertices.
    pub positions: Seq<Vec3>,
    /// The midpoint of an edge.
    pub midpoints: Map<u64, u32>,
}

/// The midpoint of an edge: the one that is there, or a new one.
pub open spec fn bisected<M: Fn(Formula) -> Answer>(maths: M, web: Web, a: u32, b: u32) -> (Web, u32) {
    if web.midpoints.contains_key(edge(a, b)) {
        (web, web.midpoints[edge(a, b)])
    } else {
        let index = web.positions.len() as u32;
        (
            Web {
                positions: web.positions.push(
                    formula::vector(
                        maths,
                        Formula::Midway(web.positions[a as int], web.positions[b as int]),
                    ),
                ),
                midpoints: web.midpoints.insert(edge(a, b), index),
            },
            index,
        )
    }
}

/// A face split at the midpoints of its edges: three corners and the middle.
pub open spec fn quartered<M: Fn(Formula) -> Answer>(maths: M, web: Web, face: [u32; 3]) -> (
    Web,
    Seq<[u32; 3]>,
) {
    let (a, b, c) = (face[0], face[1], face[2]);
    let (first, ab) = bisected(maths, web, a, b);
    let (second, bc) = bisected(maths, first, b, c);
    let (third, ca) = bisected(maths, second, c, a);
    (third, seq![[a, ab, ca], [ab, b, bc], [ca, bc, c], [ab, bc, ca]])
}

/// The first `n` faces split, in order.
pub open spec fn split<M: Fn(Formula) -> Answer>(
    maths: M,
    positions: Seq<Vec3>,
    list: Seq<[u32; 3]>,
    n: int,
) -> (Web, Seq<[u32; 3]>)
    decreases n,
{
    if n <= 0 {
        (Web { positions, midpoints: Map::empty() }, Seq::empty())
    } else {
        let (web, before) = split(maths, positions, list, n - 1);
        let (after, more) = quartered(maths, web, list[n - 1]);
        (after, before + more)
    }
}

/// Vertices and faces after so many rounds.
pub open spec fn ball<M: Fn(Formula) -> Answer>(maths: M, rounds: nat) -> (Seq<Vec3>, Seq<[u32; 3]>)
    decreases rounds,
{
    if rounds == 0 {
        (corners(), faces())
    } else {
        let (positions, list) = ball(maths, (rounds - 1) as nat);
        let (web, found) = split(maths, positions, list, list.len() as int);
        (web.positions, found)
    }
}

/// Every round makes four faces of one: there are twenty times four to the
/// power of the rounds.
pub proof fn rounds_quadruple_the_faces<M: Fn(Formula) -> Answer>(maths: M, rounds: nat)
    ensures
        ball(maths, rounds).1.len() == 20 * pow(4, rounds),
    decreases rounds,
{
    reveal(pow);
    if rounds > 0 {
        rounds_quadruple_the_faces(maths, (rounds - 1) as nat);
        let (positions, list) = ball(maths, (rounds - 1) as nat);
        splits_quadruple(maths, positions, list, list.len() as int);
    }
}

/// Splitting makes four faces of each.
proof fn splits_quadruple<M: Fn(Formula) -> Answer>(
    maths: M,
    positions: Seq<Vec3>,
    list: Seq<[u32; 3]>,
    n: int,
)
    requires
        0 <= n <= list.len(),
    ensures
        split(maths, positions, list, n).1.len() == 4 * n,
    decreases n,
{
    if n > 0 {
        splits_quadruple(maths, positions, list, n - 1);
    }
}

/// The corners of the icosahedron.
fn icosahedron() -> (r: (Vec<Vec3>, Vec<[u32; 3]>))
    ensures
        r.0@ == corners(),
        r.1@ == faces(),
        geometry::inside(r.1@, r.0@.len() as int),
{
    let positions: Vec<Vec3> = vec![
        Vec3::new(NEAR_BACK, FAR, 0),
        Vec3::new(NEAR, FAR, 0),
        Vec3::new(NEAR_BACK, FAR_BACK, 0),
        Vec3::new(NEAR, FAR_BACK, 0),
        Vec3::new(0, NEAR_BACK, FAR),
        Vec3::new(0, NEAR, FAR),
        Vec3::new(0, NEAR_BACK, FAR_BACK),
        Vec3::new(0, NEAR, FAR_BACK),
        Vec3::new(FAR, 0, NEAR_BACK),
        Vec3::new(FAR, 0, NEAR),
        Vec3::new(FAR_BACK, 0, NEAR_BACK),
        Vec3::new(FAR_BACK, 0, NEAR),
    ];
    let triangles: Vec<[u32; 3]> = vec![
        [0, 11, 5],
        [0, 5, 1],
        [0, 1, 7],
        [0, 7, 10],
        [0, 10, 11],
        [1, 5, 9],
        [5, 11, 4],
        [11, 10, 2],
        [10, 7, 6],
        [7, 1, 8],
        [3, 9, 4],
        [3, 4, 2],
        [3, 2, 6],
        [3, 6, 8],
        [3, 8, 9],
        [4, 9, 5],
        [2, 4, 11],
        [6, 2, 10],
        [8, 6, 7],
        [9, 8, 1],
    ];
    assert(positions@ =~= corners());
    assert(triangles@ =~= faces());
    (positions, triangles)
}

/// The vertices and midpoints so far.
pub open spec fn web_of(positions: Seq<Vec3>, midpoints: Map<u64, u32>) -> Web {
    Web { positions, midpoints }
}

/// Every midpoint is a vertex.
pub open spec fn woven(web: Web) -> bool {
    forall|key: u64| #[trigger]
        web.midpoints.contains_key(key) ==> web.midpoints[key] < web.positions.len()
}

/// The midpoint of an edge. Neighbouring faces share it.
fn midpoint<M: Fn(Formula) -> Answer>(
    maths: &M,
    positions: &mut Vec<Vec3>,
    cache: &mut HashMap<u64, u32>,
    a: u32,
    b: u32,
) -> (r: u32)
    requires
        formula::steady(*maths),
        a < old(positions)@.len(),
        b < old(positions)@.len(),
        woven(web_of(old(positions)@, old(cache)@)),
    ensures
        bisected(*maths, web_of(old(positions)@, old(cache)@), a, b) == (
            web_of(final(positions)@, final(cache)@),
            r,
        ),
        woven(web_of(final(positions)@, final(cache)@)),
        r < final(positions)@.len(),
        final(positions)@.len() >= old(positions)@.len(),
{
    broadcast use vstd::std_specs::hash::group_hash_axioms;

    let key: u64 = if a <= b {
        a as u64 * 0x1_0000_0000 + b as u64
    } else {
        b as u64 * 0x1_0000_0000 + a as u64
    };
    assert(key == edge(a, b));
    let found = match cache.get(&key) {
        Some(index) => Some(*index),
        None => None,
    };
    if let Some(index) = found {
        return index;
    }
    let size: usize = positions.len();
    let index: u32 = size as u32;
    assert(size as u32 <= size) by (bit_vector);
    let middle = ask_vector(
        maths,
        Formula::Midway(positions[a as usize], positions[b as usize]),
    );
    let ghost before = cache@;
    positions.push(middle);
    cache.insert(key, index);
    proof {
        assert(cache@ == before.insert(key, index));
        assert forall|other: u64| #[trigger] cache@.contains_key(other) implies cache@[other]
            < positions@.len() by {
            if other != key {
                assert(before.contains_key(other));
                assert(web_of(old(positions)@, old(cache)@).midpoints.contains_key(other));
            }
        }
    }
    index
}

/// Split every face in four.
fn subdivide<M: Fn(Formula) -> Answer>(
    maths: &M,
    positions: &mut Vec<Vec3>,
    list: &Vec<[u32; 3]>,
) -> (r: Vec<[u32; 3]>)
    requires
        formula::steady(*maths),
        geometry::inside(list@, old(positions)@.len() as int),
    ensures
        ({
            let (web, found) = split(*maths, old(positions)@, list@, list@.len() as int);
            final(positions)@ == web.positions && r@ == found
        }),
        geometry::inside(r@, final(positions)@.len() as int),
{
    broadcast use vstd::std_specs::hash::group_hash_axioms;

    let ghost start = positions@;
    let mut cache: HashMap<u64, u32> = HashMap::new();
    let mut found: Vec<[u32; 3]> = Vec::new();
    assert(cache@ =~= Map::<u64, u32>::empty());
    for i in 0..list.len()
        invariant
            formula::steady(*maths),
            start.len() <= positions@.len(),
            geometry::inside(list@, start.len() as int),
            geometry::inside(found@, positions@.len() as int),
            woven(web_of(positions@, cache@)),
            split(*maths, start, list@, i as int) == (web_of(positions@, cache@), found@),
    {
        let face = list[i];
        assert(mesh::within(list@[i as int], start.len() as int));
        let (a, b, c) = (face[0], face[1], face[2]);
        let ghost before = found@;
        let ghost size = positions@.len() as int;
        let ab = midpoint(maths, positions, &mut cache, a, b);
        let bc = midpoint(maths, positions, &mut cache, b, c);
        let ca = midpoint(maths, positions, &mut cache, c, a);
        found.push([a, ab, ca]);
        found.push([ab, b, bc]);
        found.push([ca, bc, c]);
        found.push([ab, bc, ca]);
        proof {
            let more = seq![[a, ab, ca], [ab, b, bc], [ca, bc, c], [ab, bc, ca]];
            assert(found@ =~= before + more);
            assert forall|k: int| 0 <= k < found@.len() implies mesh::within(
                #[trigger] found@[k],
                positions@.len() as int,
            ) by {
                if k < before.len() {
                    assert(mesh::within(before[k], size));
                } else {
                    assert(found@[k] == more[k - before.len()]);
                }
            }
        }
    }
    found
}

/// A sphere of triangles: an icosahedron whose faces are split in four, round
/// by round, with every new vertex moved onto the unit sphere. The normal at a
/// vertex is the vertex, and there is nothing to look textures up at.
pub fn icosphere<M: Fn(Formula) -> Answer>(maths: &M, subdivisions: u32) -> (r: Mesh)
    requires
        formula::steady(*maths),
    ensures
        r.wf(),
        (r.positions@, r.triangles@) == ball(*maths, subdivisions as nat),
        r.normals@ == r.positions@,
        r.uvs@ == geometry::unwrapped(None, r.positions@.len()),
        r.triangles@.len() == 20 * pow(4, subdivisions as nat),
        10 * pow(4, subdivisions as nat) + 2 <= u32::MAX + 1 ==> r.positions@.len() == 10 * pow(
            4,
            subdivisions as nat,
        ) + 2 && surface::sealed(r.triangles@, r.positions@.len() as int),
{
    let (mut positions, mut triangles) = icosahedron();
    for i in 0..subdivisions
        invariant
            formula::steady(*maths),
            (positions@, triangles@) == ball(*maths, i as nat),
            geometry::inside(triangles@, positions@.len() as int),
    {
        triangles = subdivide(maths, &mut positions, &triangles);
    }
    proof {
        rounds_quadruple_the_faces(*maths, subdivisions as nat);
        if 10 * pow(4, subdivisions as nat) + 2 <= u32::MAX + 1 {
            surface::balls_are_sealed(*maths, subdivisions as nat);
        }
    }
    let normals = copied(&positions);
    let uvs = origins(positions.len());
    Mesh { positions, normals, uvs, triangles }
}

/// A square on the ground: flat at height zero, facing up, this far to every
/// side, with coordinates that grow to the right and toward the viewer.
pub fn ground_plane(half_extent: Num) -> (r: Mesh)
    ensures
        r.wf(),
        ({
            let e = half_extent;
            let none = Num::new(0);
            let one = Num::new(ONE);
            &&& r.positions@ == seq![
                Vec3 { x: e.flipped(), y: none, z: e.flipped() },
                Vec3 { x: e.flipped(), y: none, z: e },
                Vec3 { x: e, y: none, z: e },
                Vec3 { x: e, y: none, z: e.flipped() },
            ]
            &&& r.normals@ == seq![
                Vec3::new(0, ONE, 0),
                Vec3::new(0, ONE, 0),
                Vec3::new(0, ONE, 0),
                Vec3::new(0, ONE, 0),
            ]
            &&& r.uvs@ == seq![
                Vec2 { x: none, y: none },
                Vec2 { x: none, y: one },
                Vec2 { x: one, y: one },
                Vec2 { x: one, y: none },
            ]
            &&& r.triangles@ == seq![[0u32, 1, 2], [0u32, 2, 3]]
        }),
{
    let e = half_extent;
    let back = half_extent.flip();
    let none = Num::new(0);
    let one = Num::new(ONE);
    let r = Mesh {
        positions: vec![
            Vec3 { x: back, y: none, z: back },
            Vec3 { x: back, y: none, z: e },
            Vec3 { x: e, y: none, z: e },
            Vec3 { x: e, y: none, z: back },
        ],
        normals: vec![
            Vec3::new(0, ONE, 0),
            Vec3::new(0, ONE, 0),
            Vec3::new(0, ONE, 0),
            Vec3::new(0, ONE, 0),
        ],
        uvs: vec![
            Vec2 { x: none, y: none },
            Vec2 { x: none, y: one },
            Vec2 { x: one, y: one },
            Vec2 { x: one, y: none },
        ],
        triangles: vec![[0, 1, 2], [0, 2, 3]],
    };
    assert(r.positions@ =~= seq![
        Vec3 { x: back, y: none, z: back },
        Vec3 { x: back, y: none, z: e },
        Vec3 { x: e, y: none, z: e },
        Vec3 { x: e, y: none, z: back },
    ]);
    assert(r.normals@ =~= seq![
        Vec3::new(0, ONE, 0),
        Vec3::new(0, ONE, 0),
        Vec3::new(0, ONE, 0),
        Vec3::new(0, ONE, 0),
    ]);
    assert(r.uvs@ =~= seq![
        Vec2 { x: none, y: none },
        Vec2 { x: none, y: one },
        Vec2 { x: one, y: one },
        Vec2 { x: one, y: none },
    ]);
    assert(r.triangles@ =~= seq![[0u32, 1, 2], [0u32, 2, 3]]);
    r
}

} // verus!
