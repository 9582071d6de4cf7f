//! How a sphere of triangles is refined: where the new vertices are, and what becomes
//! of each face.

use vstd::prelude::*;

use crate::bits::Vec3;
use crate::formula;
use crate::formula::{Answer, Formula};
use crate::geometry;
use crate::mesh;
use crate::shapes;
use crate::shapes::Web;

verus! {

/// The vertex lies midway between two others, on the sphere.
pub open spec fn midway<M: Fn(Formula) -> Answer>(
    maths: M,
    positions: Seq<Vec3>,
    vertex: int,
    a: int,
    b: int,
) -> bool {
    &&& 0 <= vertex < positions.len()
    &&& positions[vertex] == formula::vector(maths, Formula::Midway(positions[a], positions[b]))
        || positions[vertex] == formula::vector(maths, Formula::Midway(positions[b], positions[a]))
}

/// Every midpoint that is kept is that of the edge it is kept under.
pub open spec fn true_midpoints<M: Fn(Formula) -> Answer>(maths: M, web: Web) -> bool {
    forall|a: u32, b: u32|
        a < web.positions.len() && b < web.positions.len() && #[trigger] web.midpoints.contains_key(
            shapes::edge(a, b),
        ) ==> midway(
            maths,
            web.positions,
            web.midpoints[shapes::edge(a, b)] as int,
            a as int,
            b as int,
        )
}

/// No midpoint is kept for an edge with an end that is not there.
pub open spec fn anchored(web: Web) -> bool {
    forall|a: u32, b: u32| #[trigger]
        web.midpoints.contains_key(shapes::edge(a, b)) ==> a < web.positions.len() && b
            < web.positions.len()
}

/// An edge is named by its ends alone, whichever comes first.
pub proof fn edges_are_named_by_their_ends(a: u32, b: u32, c: u32, d: u32)
    ensures
        shapes::edge(a, b) == shapes::edge(b, a),
        shapes::edge(a, b) == shapes::edge(c, d) ==> (a == c && b == d) || (a == d && b == c),
{
}

/// Splitting an edge keeps every vertex, and gives the one midway between its ends.
pub proof fn edges_are_split_midway<M: Fn(Formula) -> Answer>(maths: M, web: Web, a: u32, b: u32)
    requires
        true_midpoints(maths, web),
        anchored(web),
        web.positions.len() < u32::MAX,
        a < web.positions.len(),
        b < web.positions.len(),
    ensures
        ({
            let (after, middle) = shapes::bisected(maths, web, a, b);
            &&& web.positions.is_prefix_of(after.positions)
            &&& after.positions.len() <= web.positions.len() + 1
            &&& true_midpoints(maths, after)
            &&& anchored(after)
            &&& midway(maths, after.positions, middle as int, a as int, b as int)
        }),
{
    let (after, middle) = shapes::bisected(maths, web, a, b);
    if !web.midpoints.contains_key(shapes::edge(a, b)) {
        assert forall|c: u32, d: u32| #[trigger]
            after.midpoints.contains_key(shapes::edge(c, d)) implies c < after.positions.len() && d
            < after.positions.len() by {
            edges_are_named_by_their_ends(a, b, c, d);
            if shapes::edge(c, d) != shapes::edge(a, b) {
                assert(web.midpoints.contains_key(shapes::edge(c, d)));
            }
        }
        assert forall|c: u32, d: u32|
            c < after.positions.len() && d < after.positions.len()
                && #[trigger] after.midpoints.contains_key(shapes::edge(c, d)) implies midway(
            maths,
            after.positions,
            after.midpoints[shapes::edge(c, d)] as int,
            c as int,
            d as int,
        ) by {
            edges_are_named_by_their_ends(a, b, c, d);
            if shapes::edge(c, d) != shapes::edge(a, b) {
                assert(web.midpoints.contains_key(shapes::edge(c, d)));
                assert(midway(
                    maths,
                    web.positions,
                    web.midpoints[shapes::edge(c, d)] as int,
                    c as int,
                    d as int,
                ));
            }
        }
    }
}

/// The four that a face is split into: three at its corners and one in the middle, all
/// facing as the face did. Each new corner lies midway on the edge it splits.
pub open spec fn quarters<M: Fn(Formula) -> Answer>(
    maths: M,
    positions: Seq<Vec3>,
    face: [u32; 3],
    found: Seq<[u32; 3]>,
    at: int,
) -> bool {
    let (a, b, c) = (face[0], face[1], face[2]);
    let (ab, bc, ca) = (found[at + 3][0], found[at + 3][1], found[at + 3][2]);
    &&& found[at][0] == a && found[at][1] == ab && found[at][2] == ca
    &&& found[at + 1][0] == ab && found[at + 1][1] == b && found[at + 1][2] == bc
    &&& found[at + 2][0] == ca && found[at + 2][1] == bc && found[at + 2][2] == c
    &&& midway(maths, positions, ab as int, a as int, b as int)
    &&& midway(maths, positions, bc as int, b as int, c as int)
    &&& midway(maths, positions, ca as int, c as int, a as int)
}

/// Longer lists of vertices leave midpoints where they are.
proof fn midpoints_stay<M: Fn(Formula) -> Answer>(
    maths: M,
    short: Seq<Vec3>,
    long: Seq<Vec3>,
    vertex: int,
    a: int,
    b: int,
)
    requires
        short.is_prefix_of(long),
        0 <= a < short.len(),
        0 <= b < short.len(),
        midway(maths, short, vertex, a, b),
    ensures
        midway(maths, long, vertex, a, b),
{
    assert(long[a] == short[a] && long[b] == short[b] && long[vertex] == short[vertex]);
}

/// A round keeps every vertex, and splits face `k` into four.
pub proof fn faces_are_quartered<M: Fn(Formula) -> Answer>(
    maths: M,
    positions: Seq<Vec3>,
    list: Seq<[u32; 3]>,
    n: int,
)
    requires
        0 <= n <= list.len(),
        geometry::inside(list, positions.len() as int),
        positions.len() + 3 * n < u32::MAX,
    ensures
        ({
            let (web, found) = shapes::split(maths, positions, list, n);
            &&& positions.is_prefix_of(web.positions)
            &&& web.positions.len() <= positions.len() + 3 * n
            &&& found.len() == 4 * n
            &&& true_midpoints(maths, web)
            &&& anchored(web)
            &&& forall|k: int|
                0 <= k < n ==> quarters(maths, web.positions, #[trigger] list[k], found, 4 * k)
        }),
    decreases n,
{
    if n > 0 {
        faces_are_quartered(maths, positions, list, n - 1);
        let (web, before) = shapes::split(maths, positions, list, n - 1);
        let face = list[n - 1];
        let (a, b, c) = (face[0], face[1], face[2]);
        assert(mesh::within(list[n - 1], positions.len() as int));
        let (first, ab) = shapes::bisected(maths, web, a, b);
        let (second, bc) = shapes::bisected(maths, first, b, c);
        let (third, ca) = shapes::bisected(maths, second, c, a);
        edges_are_split_midway(maths, web, a, b);
        edges_are_split_midway(maths, first, b, c);
        edges_are_split_midway(maths, second, c, a);
        midpoints_stay(maths, first.positions, second.positions, ab as int, a as int, b as int);
        midpoints_stay(maths, second.positions, third.positions, ab as int, a as int, b as int);
        midpoints_stay(maths, second.positions, third.positions, bc as int, b as int, c as int);
        let more = shapes::quartered(maths, web, face).1;
        let (after, found) = shapes::split(maths, positions, list, n);
        assert(after == third);
        assert(found == before + more);
        assert(web.positions.is_prefix_of(third.positions));
        assert forall|k: int| 0 <= k < n implies quarters(
            maths,
            third.positions,
            #[trigger] list[k],
            found,
            4 * k,
        ) by {
            if k < n - 1 {
                assert(quarters(maths, web.positions, list[k], before, 4 * k));
                assert(found[4 * k] == before[4 * k]);
                assert(found[4 * k + 1] == before[4 * k + 1]);
                assert(found[4 * k + 2] == before[4 * k + 2]);
                assert(found[4 * k + 3] == before[4 * k + 3]);
                assert(mesh::within(list[k], positions.len() as int));
                let mid = before[4 * k + 3];
                midpoints_stay(
                    maths,
                    web.positions,
                    third.positions,
                    mid[0] as int,
                    list[k][0] as int,
                    list[k][1] as int,
                );
                midpoints_stay(
                    maths,
                    web.positions,
                    third.positions,
                    mid[1] as int,
                    list[k][1] as int,
                    list[k][2] as int,
                );
                midpoints_stay(
                    maths,
                    web.positions,
                    third.positions,
                    mid[2] as int,
                    list[k][2] as int,
                    list[k][0] as int,
                );
            } else {
                assert(found[4 * k] == more[0]);
                assert(found[4 * k + 1] == more[1]);
                assert(found[4 * k + 2] == more[2]);
                assert(found[4 * k + 3] == more[3]);
            }
        }
    }
}

/// The icosahedron that spheres start from: twelve corners, each in one of the three
/// planes through the middle, the shorter coordinate before the longer in turn;
/// opposite corners come in pairs.
pub proof fn corners_come_in_pairs(i: int)
    requires
        0 <= i < 12,
    ensures
        shapes::corners().len() == 12,
        shapes::faces().len() == 20,
        ({
            let p = shapes::corners()[i];
            let (near, far) = (0x3f06_9650u32, 0x3f59_c440u32);
            let is = |x: crate::bits::Num, m: u32| x.bits % 0x8000_0000 == m;
            &&& i < 4 ==> is(p.x, near) && is(p.y, far) && p.z.bits == 0
            &&& 4 <= i < 8 ==> p.x.bits == 0 && is(p.y, near) && is(p.z, far)
            &&& 8 <= i ==> is(p.x, far) && p.y.bits == 0 && is(p.z, near)
            &&& forall|j: int|
                0 <= j < 12 && j != i ==> #[trigger] shapes::corners()[j] != p
        }),
{
    let all = shapes::corners();
    assert forall|j: int| 0 <= j < 12 && j != i implies #[trigger] all[j] != all[i] by {
        assert(all[j].x.bits != all[i].x.bits || all[j].y.bits != all[i].y.bits || all[j].z.bits
            != all[i].z.bits);
    }
}

} // verus!
