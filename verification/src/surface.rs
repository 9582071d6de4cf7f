//! Sealed surfaces: along every side of a face exactly one other runs back, and
//! no two faces meet along two sides. Splitting every face in four, at midpoints
//! that neighbours share, leaves a surface sealed and adds a vertex for each
//! edge.

use vstd::arithmetic::power::pow;
use vstd::prelude::*;

use crate::bits::Vec3;
use crate::formula::{Answer, Formula};
use crate::shapes;
use crate::shapes::Web;

verus! {

/// The corner after corner `k`.
pub open spec fn next(k: int) -> int {
    if k == 2 {
        0
    } else {
        k + 1
    }
}

/// The corner before corner `k`.
pub open spec fn back(k: int) -> int {
    if k == 0 {
        2
    } else {
        k - 1
    }
}

/// There is such a side of such a face.
pub open spec fn on(list: Seq<[u32; 3]>, i: int, k: int) -> bool {
    0 <= i < list.len() && 0 <= k < 3
}

/// Side `k` of face `i`, from corner to corner.
pub open spec fn side(list: Seq<[u32; 3]>, i: int, k: int) -> (u32, u32) {
    (list[i]@[k], list[i]@[next(k)])
}

/// A side in the other direction.
pub open spec fn turned(pair: (u32, u32)) -> (u32, u32) {
    (pair.1, pair.0)
}

/// The edge that side `k` of face `i` runs along.
pub open spec fn along(list: Seq<[u32; 3]>, i: int, k: int) -> u64 {
    shapes::edge(side(list, i, k).0, side(list, i, k).1)
}

/// Every corner is a vertex, and no side ends where it begins.
#[verifier::opaque]
pub open spec fn proper(list: Seq<[u32; 3]>, vertices: int) -> bool {
    forall|i: int, k: int|
        #![trigger side(list, i, k)]
        on(list, i, k) ==> side(list, i, k).0 < vertices && side(list, i, k).0 != side(
            list,
            i,
            k,
        ).1
}

/// No two sides run along an edge in the same direction.
#[verifier::opaque]
pub open spec fn single(list: Seq<[u32; 3]>) -> bool {
    forall|i: int, k: int, j: int, l: int|
        #![trigger side(list, i, k), side(list, j, l)]
        on(list, i, k) && on(list, j, l) && side(list, i, k) == side(list, j, l) ==> i == j && k
            == l
}

/// Some side is this one.
pub open spec fn met(list: Seq<[u32; 3]>, pair: (u32, u32)) -> bool {
    exists|j: int, l: int| on(list, j, l) && #[trigger] side(list, j, l) == pair
}

/// Along every side another runs back.
#[verifier::opaque]
pub open spec fn paired(list: Seq<[u32; 3]>) -> bool {
    forall|i: int, k: int|
        #![trigger side(list, i, k)]
        on(list, i, k) ==> met(list, turned(side(list, i, k)))
}

/// Two sides of one face run back along two of another.
pub open spec fn hinged(
    list: Seq<[u32; 3]>,
    i: int,
    k: int,
    h: int,
    j: int,
    l: int,
    g: int,
) -> bool {
    &&& on(list, i, k)
    &&& on(list, i, h)
    &&& on(list, j, l)
    &&& on(list, j, g)
    &&& k != h
    &&& side(list, j, l) == turned(side(list, i, k))
    &&& side(list, j, g) == turned(side(list, i, h))
}

/// No two faces meet along two sides.
#[verifier::opaque]
pub open spec fn spread(list: Seq<[u32; 3]>) -> bool {
    forall|i: int, k: int, h: int, j: int, l: int, g: int| !hinged(list, i, k, h, j, l, g)
}

/// A closed surface.
pub open spec fn sealed(list: Seq<[u32; 3]>, vertices: int) -> bool {
    &&& proper(list, vertices)
    &&& single(list)
    &&& paired(list)
    &&& spread(list)
}

// -- Edges --------------------------------------------------------------------------

/// Two edges are one where they join the same vertices.
proof fn edges_join(a: u32, b: u32, c: u32, d: u32)
    ensures
        shapes::edge(a, b) == shapes::edge(c, d) <==> (a == c && b == d) || (a == d && b == c),
{
}

/// The edges of the first `n` faces.
spec fn edges(list: Seq<[u32; 3]>, n: int) -> Set<u64>
    decreases n,
{
    if n <= 0 {
        Set::empty()
    } else {
        edges(list, n - 1).insert(along(list, n - 1, 0)).insert(along(list, n - 1, 1)).insert(
            along(list, n - 1, 2),
        )
    }
}

/// The sides of the first `n` faces.
spec fn sides(list: Seq<[u32; 3]>, n: int) -> Set<(u32, u32)>
    decreases n,
{
    if n <= 0 {
        Set::empty()
    } else {
        sides(list, n - 1).insert(side(list, n - 1, 0)).insert(side(list, n - 1, 1)).insert(
            side(list, n - 1, 2),
        )
    }
}

/// What the sides of the first faces are.
proof fn sides_listed(list: Seq<[u32; 3]>, n: int)
    requires
        0 <= n <= list.len(),
    ensures
        sides(list, n).finite(),
        forall|pair: (u32, u32)| #[trigger]
            sides(list, n).contains(pair) ==> exists|j: int, l: int|
                0 <= j < n && 0 <= l < 3 && #[trigger] side(list, j, l) == pair,
        forall|j: int, l: int|
            0 <= j < n && 0 <= l < 3 ==> sides(list, n).contains(#[trigger] side(list, j, l)),
    decreases n,
{
    if n > 0 {
        sides_listed(list, n - 1);
        assert forall|pair: (u32, u32)| #[trigger]
            sides(list, n).contains(pair) implies exists|j: int, l: int|
            0 <= j < n && 0 <= l < 3 && #[trigger] side(list, j, l) == pair by {
            if pair == side(list, n - 1, 0) || pair == side(list, n - 1, 1) || pair == side(
                list,
                n - 1,
                2,
            ) {
            } else {
                assert(sides(list, n - 1).contains(pair));
            }
        }
        assert forall|j: int, l: int| 0 <= j < n && 0 <= l < 3 implies sides(list, n).contains(
            #[trigger] side(list, j, l),
        ) by {
            if j < n - 1 {
                assert(sides(list, n - 1).contains(side(list, j, l)));
            } else {
                assert(l == 0 || l == 1 || l == 2);
            }
        }
    }
}

/// Three sides to a face.
proof fn sides_counted(list: Seq<[u32; 3]>, n: int)
    requires
        0 <= n <= list.len(),
        single(list),
    ensures
        sides(list, n).len() == 3 * n,
    decreases n,
{
    if n > 0 {
        reveal(single);
        sides_counted(list, n - 1);
        sides_listed(list, n - 1);
        let before = sides(list, n - 1);
        let (a, b, c) = (side(list, n - 1, 0), side(list, n - 1, 1), side(list, n - 1, 2));
        assert(!before.contains(a));
        assert(!before.contains(b));
        assert(!before.contains(c));
        assert(a != b && b != c && a != c);
        assert(before.insert(a).len() == before.len() + 1);
        assert(before.insert(a).insert(b).len() == before.len() + 2);
        assert(before.insert(a).insert(b).insert(c).len() == before.len() + 3);
    }
}

/// The edges of the first faces are those that their sides run along.
proof fn edges_listed(list: Seq<[u32; 3]>, n: int)
    requires
        0 <= n <= list.len(),
    ensures
        edges(list, n).finite(),
        forall|key: u64| #[trigger]
            edges(list, n).contains(key) ==> exists|j: int, l: int|
                #![trigger side(list, j, l)]
                0 <= j < n && 0 <= l < 3 && along(list, j, l) == key,
        forall|j: int, l: int|
            0 <= j < n && 0 <= l < 3 ==> edges(list, n).contains(#[trigger] along(list, j, l)),
    decreases n,
{
    if n > 0 {
        edges_listed(list, n - 1);
        assert forall|key: u64| #[trigger]
            edges(list, n).contains(key) implies exists|j: int, l: int|
            #![trigger side(list, j, l)]
            0 <= j < n && 0 <= l < 3 && along(list, j, l) == key by {
            if edges(list, n - 1).contains(key) {
            } else {
                let l = if key == along(list, n - 1, 0) {
                    0int
                } else if key == along(list, n - 1, 1) {
                    1
                } else {
                    2
                };
                assert(along(list, n - 1, l) == key);
                let _ = side(list, n - 1, l);
            }
        }
        assert forall|j: int, l: int| 0 <= j < n && 0 <= l < 3 implies edges(list, n).contains(
            #[trigger] along(list, j, l),
        ) by {
            if j < n - 1 {
                assert(edges(list, n - 1).contains(along(list, j, l)));
            } else {
                assert(l == 0 || l == 1 || l == 2);
            }
        }
    }
}

/// Edges in both directions.
spec fn both_ways(keys: Set<u64>) -> Set<(u32, u32)> {
    Set::new(|pair: (u32, u32)| pair.0 != pair.1 && keys.contains(shapes::edge(pair.0, pair.1)))
}

/// An edge joins two vertices.
spec fn joins(key: u64) -> bool {
    exists|a: u32, b: u32| a != b && #[trigger] shapes::edge(a, b) == key
}

/// There are two directions to an edge.
proof fn two_ways(keys: Set<u64>)
    requires
        keys.finite(),
        forall|key: u64| #[trigger] keys.contains(key) ==> joins(key),
    ensures
        both_ways(keys).finite(),
        both_ways(keys).len() == 2 * keys.len(),
    decreases keys.len(),
{
    if keys.len() == 0 {
        assert(keys =~= Set::empty());
        assert(both_ways(keys) =~= Set::empty());
    } else {
        let key = keys.choose();
        let rest = keys.remove(key);
        two_ways(rest);
        assert(joins(key));
        let (a, b) = choose|a: u32, b: u32| a != b && #[trigger] shapes::edge(a, b) == key;
        assert forall|pair: (u32, u32)| both_ways(keys).contains(pair) == both_ways(rest).insert(
            (a, b),
        ).insert((b, a)).contains(pair) by {
            edges_join(a, b, pair.0, pair.1);
        }
        assert(both_ways(keys) =~= both_ways(rest).insert((a, b)).insert((b, a)));
        edges_join(a, b, b, a);
        assert(!both_ways(rest).contains((a, b)));
        assert(!both_ways(rest).contains((b, a)));
        assert((a, b) != (b, a));
    }
}

/// A surface that is sealed has two edges to three of its corners.
proof fn edges_counted(list: Seq<[u32; 3]>, vertices: int)
    requires
        sealed(list, vertices),
    ensures
        edges(list, list.len() as int).finite(),
        2 * edges(list, list.len() as int).len() == 3 * list.len(),
{
    let n = list.len() as int;
    let keys = edges(list, n);
    edges_listed(list, n);
    sides_listed(list, n);
    sides_counted(list, n);
    assert forall|key: u64| #[trigger] keys.contains(key) implies joins(key) by {
        reveal(proper);
        let (j, l) = choose|j: int, l: int|
            #![trigger side(list, j, l)]
            0 <= j < n && 0 <= l < 3 && along(list, j, l) == key;
        let pair = side(list, j, l);
        assert(shapes::edge(pair.0, pair.1) == key);
    }
    two_ways(keys);
    assert forall|pair: (u32, u32)| both_ways(keys).contains(pair) == sides(list, n).contains(
        pair,
    ) by {
        if both_ways(keys).contains(pair) {
            let key = shapes::edge(pair.0, pair.1);
            let (j, l) = choose|j: int, l: int|
                #![trigger side(list, j, l)]
                0 <= j < n && 0 <= l < 3 && along(list, j, l) == key;
            let found = side(list, j, l);
            edges_join(found.0, found.1, pair.0, pair.1);
            if found != pair {
                reveal(paired);
                assert(on(list, j, l));
                assert(met(list, turned(found)));
                let (i, k) = choose|i: int, k: int|
                    on(list, i, k) && #[trigger] side(list, i, k) == turned(found);
                assert(sides(list, n).contains(side(list, i, k)));
            }
        }
        if sides(list, n).contains(pair) {
            reveal(proper);
            let (j, l) = choose|j: int, l: int|
                0 <= j < n && 0 <= l < 3 && #[trigger] side(list, j, l) == pair;
            assert(on(list, j, l));
            assert(keys.contains(along(list, j, l)));
        }
    }
    assert(both_ways(keys) =~= sides(list, n));
}

/// Fewer faces have no more edges.
proof fn edges_grow(list: Seq<[u32; 3]>, n: int)
    requires
        0 <= n <= list.len(),
    ensures
        edges(list, n).subset_of(edges(list, list.len() as int)),
        edges(list, n).len() <= edges(list, list.len() as int).len(),
{
    edges_listed(list, n);
    edges_listed(list, list.len() as int);
    assert forall|key: u64| edges(list, n).contains(key) implies edges(
        list,
        list.len() as int,
    ).contains(key) by {
        let (j, l) = choose|j: int, l: int|
            #![trigger side(list, j, l)]
            0 <= j < n && 0 <= l < 3 && along(list, j, l) == key;
        assert(edges(list, list.len() as int).contains(along(list, j, l)));
    }
    vstd::set_lib::lemma_len_subset(edges(list, n), edges(list, list.len() as int));
}

// -- Splitting ----------------------------------------------------------------------

/// A map from edges to midpoints goes from one edge to one midpoint.
pub open spec fn told_apart(midpoints: Map<u64, u32>) -> bool {
    forall|e: u64, f: u64|
        #![trigger midpoints[e], midpoints[f]]
        midpoints.contains_key(e) && midpoints.contains_key(f) && midpoints[e] == midpoints[f]
            ==> e == f
}

/// Every midpoint is a vertex of its own, after the first `vertices`.
spec fn tidy(web: Web, vertices: int) -> bool {
    &&& web.midpoints.dom().finite()
    &&& web.positions.len() == vertices + web.midpoints.dom().len()
    &&& forall|key: u64| #[trigger]
        web.midpoints.contains_key(key) ==> vertices <= web.midpoints[key] < web.positions.len()
    &&& told_apart(web.midpoints)
}

/// Bisecting an edge adds its midpoint where it was not there.
proof fn bisecting<M: Fn(Formula) -> Answer>(maths: M, web: Web, a: u32, b: u32, vertices: int)
    requires
        tidy(web, vertices),
        web.midpoints.contains_key(shapes::edge(a, b)) || web.positions.len() <= u32::MAX,
    ensures
        ({
            let (after, index) = shapes::bisected(maths, web, a, b);
            &&& tidy(after, vertices)
            &&& after.midpoints.dom() == web.midpoints.dom().insert(shapes::edge(a, b))
            &&& web.midpoints.submap_of(after.midpoints)
            &&& after.midpoints[shapes::edge(a, b)] == index
        }),
{
    let key = shapes::edge(a, b);
    let (after, index) = shapes::bisected(maths, web, a, b);
    if web.midpoints.contains_key(key) {
        assert(web.midpoints.dom() =~= web.midpoints.dom().insert(key));
    } else {
        assert(index == web.positions.len());
        assert(after.midpoints.dom() =~= web.midpoints.dom().insert(key));
        assert forall|e: u64, f: u64|
            #![trigger after.midpoints[e], after.midpoints[f]]
            after.midpoints.contains_key(e) && after.midpoints.contains_key(f)
                && after.midpoints[e] == after.midpoints[f] implies e == f by {
            if e != key {
                assert(web.midpoints.contains_key(e));
                assert(after.midpoints[e] == web.midpoints[e]);
            }
            if f != key {
                assert(web.midpoints.contains_key(f));
                assert(after.midpoints[f] == web.midpoints[f]);
            }
        }
    }
}

/// The midpoint of side `k` of face `i`.
pub open spec fn mid(list: Seq<[u32; 3]>, midpoints: Map<u64, u32>, i: int, k: int) -> u32 {
    midpoints[along(list, i, k)]
}

/// Piece `p` of face `i`: three corners, and the middle.
pub open spec fn piece(
    list: Seq<[u32; 3]>,
    midpoints: Map<u64, u32>,
    i: int,
    p: int,
) -> [u32; 3] {
    let (a, b, c) = (list[i]@[0], list[i]@[1], list[i]@[2]);
    let (ab, bc, ca) = (
        mid(list, midpoints, i, 0),
        mid(list, midpoints, i, 1),
        mid(list, midpoints, i, 2),
    );
    if p == 0 {
        [a, ab, ca]
    } else if p == 1 {
        [ab, b, bc]
    } else if p == 2 {
        [ca, bc, c]
    } else {
        [ab, bc, ca]
    }
}

/// There is room for another midpoint while there is an edge without one.
proof fn room(web: Web, whole: Set<u64>, vertices: int, key: u64)
    requires
        tidy(web, vertices),
        whole.finite(),
        whole.contains(key),
        web.midpoints.dom().subset_of(whole),
        2 * vertices + 2 * whole.len() <= 2 * (u32::MAX + 1),
    ensures
        web.midpoints.contains_key(key) || web.positions.len() <= u32::MAX,
{
    if !web.midpoints.contains_key(key) {
        let more = web.midpoints.dom().insert(key);
        assert(more.subset_of(whole));
        vstd::set_lib::lemma_len_subset(more, whole);
    }
}

/// What splitting one more face comes to.
proof fn quartering<M: Fn(Formula) -> Answer>(
    maths: M,
    web: Web,
    list: Seq<[u32; 3]>,
    i: int,
    whole: Set<u64>,
    vertices: int,
)
    requires
        0 <= i < list.len(),
        tidy(web, vertices),
        whole.finite(),
        web.midpoints.dom().subset_of(whole),
        forall|k: int| 0 <= k < 3 ==> whole.contains(#[trigger] along(list, i, k)),
        2 * vertices + 2 * whole.len() <= 2 * (u32::MAX + 1),
    ensures
        ({
            let (after, more) = shapes::quartered(maths, web, list[i]);
            &&& tidy(after, vertices)
            &&& after.midpoints.dom() == web.midpoints.dom().insert(along(list, i, 0)).insert(
                along(list, i, 1),
            ).insert(along(list, i, 2))
            &&& web.midpoints.submap_of(after.midpoints)
            &&& more.len() == 4
            &&& forall|p: int|
                0 <= p < 4 ==> more[p] == #[trigger] piece(list, after.midpoints, i, p)
        }),
{
    let face = list[i];
    let (a, b, c) = (face[0], face[1], face[2]);
    let (first, ab) = shapes::bisected(maths, web, a, b);
    let (second, bc) = shapes::bisected(maths, first, b, c);
    let (third, ca) = shapes::bisected(maths, second, c, a);
    let (x, y, z) = (along(list, i, 0), along(list, i, 1), along(list, i, 2));
    assert(x == shapes::edge(a, b));
    assert(y == shapes::edge(b, c));
    assert(z == shapes::edge(c, a));
    room(web, whole, vertices, x);
    bisecting(maths, web, a, b, vertices);
    room(first, whole, vertices, y);
    bisecting(maths, first, b, c, vertices);
    room(second, whole, vertices, z);
    bisecting(maths, second, c, a, vertices);
    assert(first.midpoints.dom().contains(x));
    assert(second.midpoints.dom().contains(x) && second.midpoints[x] == ab);
    assert(third.midpoints.dom().contains(x) && third.midpoints[x] == ab);
    assert(second.midpoints.dom().contains(y));
    assert(third.midpoints.dom().contains(y) && third.midpoints[y] == bc);
    assert(third.midpoints[z] == ca);
    let (after, more) = shapes::quartered(maths, web, list[i]);
    assert(after == third);
    assert(more[0] == piece(list, third.midpoints, i, 0));
    assert(more[1] == piece(list, third.midpoints, i, 1));
    assert(more[2] == piece(list, third.midpoints, i, 2));
    assert(more[3] == piece(list, third.midpoints, i, 3));
}

/// A face that was split stays split as it was.
proof fn kept(
    list: Seq<[u32; 3]>,
    before: Map<u64, u32>,
    after: Map<u64, u32>,
    i: int,
    p: int,
    n: int,
)
    requires
        before.submap_of(after),
        0 <= i < n <= list.len(),
        before.dom() == edges(list, n),
    ensures
        piece(list, after, i, p) == piece(list, before, i, p),
{
    edges_listed(list, n);
    assert forall|k: int| 0 <= k < 3 implies after[#[trigger] along(list, i, k)] == before[along(
        list,
        i,
        k,
    )] by {
        assert(before.dom().contains(along(list, i, k)));
        assert(after.dom().contains(along(list, i, k)));
    }
    assert(mid(list, after, i, 0) == mid(list, before, i, 0));
    assert(mid(list, after, i, 1) == mid(list, before, i, 1));
    assert(mid(list, after, i, 2) == mid(list, before, i, 2));
}

/// What splitting the first faces comes to.
proof fn splitting<M: Fn(Formula) -> Answer>(
    maths: M,
    positions: Seq<Vec3>,
    list: Seq<[u32; 3]>,
    n: int,
)
    requires
        0 <= n <= list.len(),
        sealed(list, positions.len() as int),
        2 * positions.len() + 3 * list.len() <= 2 * (u32::MAX + 1),
    ensures
        ({
            let (web, made) = shapes::split(maths, positions, list, n);
            &&& tidy(web, positions.len() as int)
            &&& web.midpoints.dom() == edges(list, n)
            &&& made.len() == 4 * n
            &&& forall|i: int, p: int|
                #![trigger piece(list, web.midpoints, i, p)]
                0 <= i < n && 0 <= p < 4 ==> made[4 * i + p] == piece(list, web.midpoints, i, p)
        }),
    decreases n,
{
    let vertices = positions.len() as int;
    let (after, made) = shapes::split(maths, positions, list, n);
    if n <= 0 {
        assert(after.midpoints.dom() =~= Set::empty());
    } else {
        splitting(maths, positions, list, n - 1);
        edges_counted(list, vertices);
        edges_grow(list, n - 1);
        let (web, before) = shapes::split(maths, positions, list, n - 1);
        let whole = edges(list, list.len() as int);
        assert forall|k: int| 0 <= k < 3 implies whole.contains(
            #[trigger] along(list, n - 1, k),
        ) by {
            edges_listed(list, list.len() as int);
        }
        quartering(maths, web, list, n - 1, whole, vertices);
        let (third, more) = shapes::quartered(maths, web, list[n - 1]);
        assert(after == third && made == before + more);
        assert forall|i: int, p: int|
            #![trigger piece(list, after.midpoints, i, p)]
            0 <= i < n && 0 <= p < 4 implies made[4 * i + p] == piece(
            list,
            after.midpoints,
            i,
            p,
        ) by {
            if i < n - 1 {
                assert(made[4 * i + p] == before[4 * i + p]);
                assert(before[4 * i + p] == piece(list, web.midpoints, i, p));
                kept(list, web.midpoints, after.midpoints, i, p, n - 1);
            } else {
                assert(made[4 * i + p] == more[p]);
            }
        }
    }
}

// -- The pieces ---------------------------------------------------------------------

/// Every face is in its four pieces, and every edge has a midpoint of its own.
spec fn halved(
    list: Seq<[u32; 3]>,
    vertices: int,
    midpoints: Map<u64, u32>,
    made: Seq<[u32; 3]>,
) -> bool {
    &&& made.len() == 4 * list.len()
    &&& forall|i: int, p: int|
        #![trigger piece(list, midpoints, i, p)]
        0 <= i < list.len() && 0 <= p < 4 ==> made[4 * i + p] == piece(list, midpoints, i, p)
    &&& forall|i: int, k: int|
        #![trigger along(list, i, k)]
        on(list, i, k) ==> midpoints.contains_key(along(list, i, k)) && midpoints[along(
            list,
            i,
            k,
        )] >= vertices
    &&& told_apart(midpoints)
}

/// The sides of the pieces: from a corner to the midpoint after it, from the
/// midpoint before it, between the two, and around the middle.
proof fn piece_sides(
    list: Seq<[u32; 3]>,
    vertices: int,
    midpoints: Map<u64, u32>,
    made: Seq<[u32; 3]>,
    i: int,
    p: int,
    k: int,
)
    requires
        halved(list, vertices, midpoints, made),
        0 <= i < list.len(),
        0 <= p < 4,
        0 <= k < 3,
    ensures
        on(made, 4 * i + p, k),
        p < 3 && k == p ==> side(made, 4 * i + p, k) == (
            list[i]@[p],
            mid(list, midpoints, i, p),
        ),
        p < 3 && k == back(p) ==> side(made, 4 * i + p, k) == (
            mid(list, midpoints, i, k),
            list[i]@[p],
        ),
        p < 3 && k == next(p) ==> side(made, 4 * i + p, k) == (
            mid(list, midpoints, i, p),
            mid(list, midpoints, i, back(p)),
        ),
        p == 3 ==> side(made, 4 * i + p, k) == (
            mid(list, midpoints, i, k),
            mid(list, midpoints, i, next(k)),
        ),
{
    assert(made[4 * i + p] == piece(list, midpoints, i, p));
    assert(k == 0 || k == 1 || k == 2);
    assert(p == 0 || p == 1 || p == 2 || p == 3);
}

/// What is known of a side of a sealed surface that was split.
proof fn corner_facts(
    list: Seq<[u32; 3]>,
    vertices: int,
    midpoints: Map<u64, u32>,
    made: Seq<[u32; 3]>,
    i: int,
    k: int,
)
    requires
        sealed(list, vertices),
        halved(list, vertices, midpoints, made),
        on(list, i, k),
    ensures
        list[i]@[k] < vertices,
        mid(list, midpoints, i, k) >= vertices,
        side(list, i, k) == (list[i]@[k], list[i]@[next(k)]),
        list[i]@[k] != list[i]@[next(k)],
        list[i]@[k] != list[i]@[back(k)],
{
    reveal(proper);
    assert(side(list, i, k).0 < vertices);
    assert(along(list, i, k) == along(list, i, k));
    assert(side(list, i, back(k)).0 != side(list, i, back(k)).1);
}

/// No side of a face runs back along another of it.
proof fn never_back(list: Seq<[u32; 3]>, vertices: int, i: int, k: int, h: int)
    requires
        proper(list, vertices),
        on(list, i, k),
        on(list, i, h),
    ensures
        side(list, i, k) != turned(side(list, i, h)),
{
    reveal(proper);
    assert(side(list, i, 0).0 != side(list, i, 0).1);
    assert(side(list, i, 1).0 != side(list, i, 1).1);
    assert(side(list, i, 2).0 != side(list, i, 2).1);
    assert(k == 0 || k == 1 || k == 2);
    assert(h == 0 || h == 1 || h == 2);
}

/// Sides with one midpoint run along one edge.
proof fn one_edge(
    list: Seq<[u32; 3]>,
    vertices: int,
    midpoints: Map<u64, u32>,
    made: Seq<[u32; 3]>,
    i: int,
    k: int,
    j: int,
    l: int,
)
    requires
        halved(list, vertices, midpoints, made),
        on(list, i, k),
        on(list, j, l),
        mid(list, midpoints, i, k) == mid(list, midpoints, j, l),
    ensures
        side(list, i, k) == side(list, j, l) || side(list, i, k) == turned(side(list, j, l)),
{
    let (e, f) = (along(list, i, k), along(list, j, l));
    assert(midpoints.contains_key(e) && midpoints.contains_key(f));
    assert(midpoints[e] == midpoints[f]);
    assert(e == f);
    let (s, t) = (side(list, i, k), side(list, j, l));
    edges_join(s.0, s.1, t.0, t.1);
}

/// Two midpoints are those of one face, and of two of its sides.
proof fn one_face(
    list: Seq<[u32; 3]>,
    vertices: int,
    midpoints: Map<u64, u32>,
    made: Seq<[u32; 3]>,
    i: int,
    k: int,
    h: int,
    j: int,
    l: int,
    g: int,
)
    requires
        sealed(list, vertices),
        halved(list, vertices, midpoints, made),
        on(list, i, k),
        on(list, i, h),
        on(list, j, l),
        on(list, j, g),
        k != h,
        mid(list, midpoints, i, k) == mid(list, midpoints, j, l),
        mid(list, midpoints, i, h) == mid(list, midpoints, j, g),
    ensures
        i == j,
        k == l,
        h == g,
{
    reveal(single);
    one_edge(list, vertices, midpoints, made, i, k, j, l);
    one_edge(list, vertices, midpoints, made, i, h, j, g);
    if side(list, i, k) == side(list, j, l) {
        never_back(list, vertices, i, h, g);
    } else if side(list, i, h) == side(list, j, g) {
        never_back(list, vertices, i, k, l);
    } else {
        reveal(spread);
        assert(hinged(list, i, k, h, j, l, g));
    }
}

/// The sides whose midpoints an inner side of a piece runs between.
spec fn ends(p: int, k: int) -> (int, int) {
    if p == 3 {
        (k, next(k))
    } else {
        (p, back(p))
    }
}

/// No two sides of pieces run along an edge in the same direction.
proof fn pieces_single_at(
    list: Seq<[u32; 3]>,
    vertices: int,
    midpoints: Map<u64, u32>,
    made: Seq<[u32; 3]>,
    i: int,
    p: int,
    k: int,
    j: int,
    q: int,
    l: int,
)
    requires
        sealed(list, vertices),
        halved(list, vertices, midpoints, made),
        0 <= i < list.len(),
        0 <= p < 4,
        0 <= k < 3,
        0 <= j < list.len(),
        0 <= q < 4,
        0 <= l < 3,
        side(made, 4 * i + p, k) == side(made, 4 * j + q, l),
    ensures
        i == j,
        p == q,
        k == l,
{
    piece_sides(list, vertices, midpoints, made, i, p, k);
    piece_sides(list, vertices, midpoints, made, j, q, l);
    assert forall|a: int, b: int| on(list, a, b) implies (#[trigger] list[a]@[b]) < vertices && mid(
        list,
        midpoints,
        a,
        b,
    ) >= vertices by {
        corner_facts(list, vertices, midpoints, made, a, b);
    }
    if p < 3 && k == p {
        assert(on(list, i, p));
        assert(list[i]@[p] < vertices);
        assert(q < 3 && l == q) by {
            if q < 3 {
                assert(on(list, j, q));
                assert(mid(list, midpoints, j, q) >= vertices && list[j]@[q] < vertices);
                assert(on(list, j, back(q)) && list[j]@[back(q)] < vertices);
                assert(l == q || l == back(q) || l == next(q));
            } else {
                assert(on(list, j, l) && list[j]@[l] < vertices);
            }
        }
        one_edge(list, vertices, midpoints, made, i, p, j, q);
        corner_facts(list, vertices, midpoints, made, i, p);
        assert(side(list, i, p) == side(list, j, q));
        reveal(single);
    } else if p < 3 && k == back(p) {
        assert(on(list, i, p));
        assert(list[i]@[p] < vertices);
        assert(q < 3 && l == back(q)) by {
            if q < 3 {
                assert(on(list, j, q) && list[j]@[q] < vertices);
                assert(on(list, j, back(q)) && list[j]@[back(q)] < vertices);
                assert(l == q || l == back(q) || l == next(q));
            } else {
                assert(on(list, j, next(l)) && list[j]@[next(l)] < vertices);
            }
        }
        one_edge(list, vertices, midpoints, made, i, k, j, l);
        corner_facts(list, vertices, midpoints, made, i, k);
        corner_facts(list, vertices, midpoints, made, j, l);
        assert(side(list, i, k).1 == list[i]@[p]);
        assert(side(list, j, l).1 == list[j]@[q]);
        assert(side(list, i, k) == side(list, j, l));
        reveal(single);
    } else {
        let (s, t) = ends(p, k);
        assert(on(list, i, s) && on(list, i, t) && s != t);
        assert(list[i]@[s] < vertices && list[i]@[t] < vertices);
        assert(side(made, 4 * i + p, k) == (
            mid(list, midpoints, i, s),
            mid(list, midpoints, i, t),
        ));
        assert(q == 3 || l == next(q)) by {
            if q < 3 {
                assert(on(list, j, q) && list[j]@[q] < vertices);
                assert(l == q || l == back(q) || l == next(q));
            }
        }
        let (u, v) = ends(q, l);
        assert(on(list, j, u) && on(list, j, v));
        assert(side(made, 4 * j + q, l) == (
            mid(list, midpoints, j, u),
            mid(list, midpoints, j, v),
        ));
        one_face(list, vertices, midpoints, made, i, s, t, j, u, v);
    }
}

/// The side of a piece that runs back along another: inside a face the middle
/// and a corner face each other, and across an edge the corners do.
proof fn across(
    list: Seq<[u32; 3]>,
    vertices: int,
    midpoints: Map<u64, u32>,
    made: Seq<[u32; 3]>,
    i: int,
    p: int,
    k: int,
) -> (found: (int, int, int))
    requires
        sealed(list, vertices),
        halved(list, vertices, midpoints, made),
        0 <= i < list.len(),
        0 <= p < 4,
        0 <= k < 3,
    ensures
        ({
            let (j, q, l) = found;
            &&& 0 <= j < list.len()
            &&& 0 <= q < 4
            &&& 0 <= l < 3
            &&& side(made, 4 * j + q, l) == turned(side(made, 4 * i + p, k))
            &&& p == 3 ==> j == i && q == next(k)
            &&& p < 3 && k == next(p) ==> q == 3
            &&& p < 3 && k == p ==> q < 3 && side(list, j, l) == turned(side(list, i, p))
            &&& p < 3 && k == back(p) ==> q < 3 && side(list, j, l) == turned(side(list, i, k))
        }),
{
    piece_sides(list, vertices, midpoints, made, i, p, k);
    if p == 3 {
        piece_sides(list, vertices, midpoints, made, i, next(k), next(next(k)));
        (i, next(k), next(next(k)))
    } else if k == next(p) {
        piece_sides(list, vertices, midpoints, made, i, 3, back(p));
        (i, 3, back(p))
    } else {
        reveal(paired);
        assert(on(list, i, k));
        assert(met(list, turned(side(list, i, k))));
        let (j, l) = choose|j: int, l: int|
            on(list, j, l) && #[trigger] side(list, j, l) == turned(side(list, i, k));
        let (s, t) = (side(list, i, k), side(list, j, l));
        edges_join(s.0, s.1, t.0, t.1);
        assert(along(list, i, k) == along(list, j, l));
        let q = if k == p {
            next(l)
        } else {
            l
        };
        piece_sides(list, vertices, midpoints, made, j, q, l);
        (j, q, l)
    }
}

/// No two pieces meet along two sides.
proof fn pieces_spread_at(
    list: Seq<[u32; 3]>,
    vertices: int,
    midpoints: Map<u64, u32>,
    made: Seq<[u32; 3]>,
    i: int,
    p: int,
    k: int,
    h: int,
    j: int,
    q: int,
    l: int,
    g: int,
)
    requires
        sealed(list, vertices),
        halved(list, vertices, midpoints, made),
        0 <= i < list.len(),
        0 <= p < 4,
        0 <= j < list.len(),
        0 <= q < 4,
    ensures
        !hinged(made, 4 * i + p, k, h, 4 * j + q, l, g),
{
    if hinged(made, 4 * i + p, k, h, 4 * j + q, l, g) {
        let (a, b, c) = across(list, vertices, midpoints, made, i, p, k);
        let (d, e, f) = across(list, vertices, midpoints, made, i, p, h);
        pieces_single_at(list, vertices, midpoints, made, j, q, l, a, b, c);
        pieces_single_at(list, vertices, midpoints, made, j, q, g, d, e, f);
        if p < 3 {
            assert(k == p || k == back(p) || k == next(p));
            assert(h == p || h == back(p) || h == next(p));
            reveal(spread);
            if k == p && h == back(p) {
                assert(hinged(list, i, p, h, a, c, f));
            } else if h == p && k == back(p) {
                assert(hinged(list, i, k, p, a, c, f));
            }
        }
    }
}

/// Splitting the faces of a sealed surface leaves it sealed.
proof fn pieces_sealed(
    list: Seq<[u32; 3]>,
    vertices: int,
    midpoints: Map<u64, u32>,
    made: Seq<[u32; 3]>,
    after: int,
)
    requires
        sealed(list, vertices),
        halved(list, vertices, midpoints, made),
        vertices <= after,
        forall|key: u64| #[trigger] midpoints.contains_key(key) ==> midpoints[key] < after,
    ensures
        sealed(made, after),
{
    assert(proper(made, after)) by {
        reveal(proper);
        assert forall|n: int, k: int|
            #![trigger side(made, n, k)]
            on(made, n, k) implies side(made, n, k).0 < after && side(made, n, k).0 != side(
            made,
            n,
            k,
        ).1 by {
            let (i, p) = (n / 4, n % 4);
            assert(n == 4 * i + p);
            piece_sides(list, vertices, midpoints, made, i, p, k);
            let (s, t) = ends(p, k);
            assert(on(list, i, s) && on(list, i, t));
            corner_facts(list, vertices, midpoints, made, i, s);
            corner_facts(list, vertices, midpoints, made, i, t);
            assert(midpoints.contains_key(along(list, i, s)));
            assert(midpoints.contains_key(along(list, i, t)));
            if mid(list, midpoints, i, s) == mid(list, midpoints, i, t) {
                one_edge(list, vertices, midpoints, made, i, s, i, t);
                never_back(list, vertices, i, s, t);
                reveal(single);
            }
            assert(p == 3 || k == p || k == back(p) || k == next(p));
        }
    }
    assert(single(made)) by {
        reveal(single);
        assert forall|n: int, k: int, m: int, l: int|
            #![trigger side(made, n, k), side(made, m, l)]
            on(made, n, k) && on(made, m, l) && side(made, n, k) == side(made, m, l) implies n == m
            && k == l by {
            assert(n == 4 * (n / 4) + n % 4);
            assert(m == 4 * (m / 4) + m % 4);
            pieces_single_at(
                list,
                vertices,
                midpoints,
                made,
                n / 4,
                n % 4,
                k,
                m / 4,
                m % 4,
                l,
            );
        }
    }
    assert(paired(made)) by {
        reveal(paired);
        assert forall|n: int, k: int| #![trigger side(made, n, k)] on(made, n, k) implies met(
            made,
            turned(side(made, n, k)),
        ) by {
            assert(n == 4 * (n / 4) + n % 4);
            let (j, q, l) = across(list, vertices, midpoints, made, n / 4, n % 4, k);
            assert(on(made, 4 * j + q, l));
        }
    }
    assert(spread(made)) by {
        reveal(spread);
        assert forall|n: int, k: int, h: int, m: int, l: int, g: int|
            !hinged(made, n, k, h, m, l, g) by {
            if hinged(made, n, k, h, m, l, g) {
                assert(n == 4 * (n / 4) + n % 4);
                assert(m == 4 * (m / 4) + m % 4);
                pieces_spread_at(
                    list,
                    vertices,
                    midpoints,
                    made,
                    n / 4,
                    n % 4,
                    k,
                    h,
                    m / 4,
                    m % 4,
                    l,
                    g,
                );
            }
        }
    }
}

/// A round of splitting leaves a sealed surface sealed, and adds one vertex for
/// each of its edges, of which there are three to two faces.
pub proof fn splits_stay_sealed<M: Fn(Formula) -> Answer>(
    maths: M,
    positions: Seq<Vec3>,
    list: Seq<[u32; 3]>,
)
    requires
        sealed(list, positions.len() as int),
        2 * positions.len() + 3 * list.len() <= 2 * (u32::MAX + 1),
    ensures
        ({
            let (web, made) = shapes::split(maths, positions, list, list.len() as int);
            &&& sealed(made, web.positions.len() as int)
            &&& 2 * web.positions.len() == 2 * positions.len() + 3 * list.len()
        }),
{
    let n = list.len() as int;
    let vertices = positions.len() as int;
    let (web, made) = shapes::split(maths, positions, list, n);
    splitting(maths, positions, list, n);
    edges_counted(list, vertices);
    edges_listed(list, n);
    assert forall|i: int, k: int|
        #![trigger along(list, i, k)]
        on(list, i, k) implies web.midpoints.contains_key(along(list, i, k)) && web.midpoints[along(
        list,
        i,
        k,
    )] >= vertices by {
        assert(edges(list, n).contains(along(list, i, k)));
        assert(web.midpoints.dom().contains(along(list, i, k)));
    }
    pieces_sealed(list, vertices, web.midpoints, made, web.positions.len() as int);
}

// -- The icosahedron ------------------------------------------------------------------

/// The corners of face `i` of the icosahedron.
spec fn face_at(i: int) -> (u32, u32, u32) {
    if i == 0 {
        (0, 11, 5)
    } else if i == 1 {
        (0, 5, 1)
    } else if i == 2 {
        (0, 1, 7)
    } else if i == 3 {
        (0, 7, 10)
    } else if i == 4 {
        (0, 10, 11)
    } else if i == 5 {
        (1, 5, 9)
    } else if i == 6 {
        (5, 11, 4)
    } else if i == 7 {
        (11, 10, 2)
    } else if i == 8 {
        (10, 7, 6)
    } else if i == 9 {
        (7, 1, 8)
    } else if i == 10 {
        (3, 9, 4)
    } else if i == 11 {
        (3, 4, 2)
    } else if i == 12 {
        (3, 2, 6)
    } else if i == 13 {
        (3, 6, 8)
    } else if i == 14 {
        (3, 8, 9)
    } else if i == 15 {
        (4, 9, 5)
    } else if i == 16 {
        (2, 4, 11)
    } else if i == 17 {
        (6, 2, 10)
    } else if i == 18 {
        (8, 6, 7)
    } else {
        (9, 8, 1)
    }
}

/// Where the side from one corner to another is, three numbers to a face.
spec fn place(pair: (u32, u32)) -> int {
    let (a, b) = pair;
    if a == 0 {
        if b == 1 {
            6
        } else if b == 5 {
            3
        } else if b == 7 {
            9
        } else if b == 10 {
            12
        } else if b == 11 {
            0
        } else {
            60
        }
    } else if a == 1 {
        if b == 0 {
            5
        } else if b == 5 {
            15
        } else if b == 7 {
            7
        } else if b == 8 {
            28
        } else if b == 9 {
            59
        } else {
            60
        }
    } else if a == 2 {
        if b == 3 {
            35
        } else if b == 4 {
            48
        } else if b == 6 {
            37
        } else if b == 10 {
            52
        } else if b == 11 {
            23
        } else {
            60
        }
    } else if a == 3 {
        if b == 2 {
            36
        } else if b == 4 {
            33
        } else if b == 6 {
            39
        } else if b == 8 {
            42
        } else if b == 9 {
            30
        } else {
            60
        }
    } else if a == 4 {
        if b == 2 {
            34
        } else if b == 3 {
            32
        } else if b == 5 {
            20
        } else if b == 9 {
            45
        } else if b == 11 {
            49
        } else {
            60
        }
    } else if a == 5 {
        if b == 0 {
            2
        } else if b == 1 {
            4
        } else if b == 4 {
            47
        } else if b == 9 {
            16
        } else if b == 11 {
            18
        } else {
            60
        }
    } else if a == 6 {
        if b == 2 {
            51
        } else if b == 3 {
            38
        } else if b == 7 {
            55
        } else if b == 8 {
            40
        } else if b == 10 {
            26
        } else {
            60
        }
    } else if a == 7 {
        if b == 0 {
            8
        } else if b == 1 {
            27
        } else if b == 6 {
            25
        } else if b == 8 {
            56
        } else if b == 10 {
            10
        } else {
            60
        }
    } else if a == 8 {
        if b == 1 {
            58
        } else if b == 3 {
            41
        } else if b == 6 {
            54
        } else if b == 7 {
            29
        } else if b == 9 {
            43
        } else {
            60
        }
    } else if a == 9 {
        if b == 1 {
            17
        } else if b == 3 {
            44
        } else if b == 4 {
            31
        } else if b == 5 {
            46
        } else if b == 8 {
            57
        } else {
            60
        }
    } else if a == 10 {
        if b == 0 {
            11
        } else if b == 2 {
            22
        } else if b == 6 {
            53
        } else if b == 7 {
            24
        } else if b == 11 {
            13
        } else {
            60
        }
    } else if a == 11 {
        if b == 0 {
            14
        } else if b == 2 {
            50
        } else if b == 4 {
            19
        } else if b == 5 {
            1
        } else if b == 10 {
            21
        } else {
            60
        }
    } else {
        60
    }
}

/// The faces, one by one.
proof fn faces_listed(i: int)
    requires
        0 <= i < 20,
    ensures
        (shapes::faces()[i]@[0], shapes::faces()[i]@[1], shapes::faces()[i]@[2]) == face_at(i),
{
    let list = shapes::faces();
    if i == 0 {
        assert(list[0] == [0u32, 11, 5]);
    } else if i == 1 {
        assert(list[1] == [0u32, 5, 1]);
    } else if i == 2 {
        assert(list[2] == [0u32, 1, 7]);
    } else if i == 3 {
        assert(list[3] == [0u32, 7, 10]);
    } else if i == 4 {
        assert(list[4] == [0u32, 10, 11]);
    } else if i == 5 {
        assert(list[5] == [1u32, 5, 9]);
    } else if i == 6 {
        assert(list[6] == [5u32, 11, 4]);
    } else if i == 7 {
        assert(list[7] == [11u32, 10, 2]);
    } else if i == 8 {
        assert(list[8] == [10u32, 7, 6]);
    } else if i == 9 {
        assert(list[9] == [7u32, 1, 8]);
    } else if i == 10 {
        assert(list[10] == [3u32, 9, 4]);
    } else if i == 11 {
        assert(list[11] == [3u32, 4, 2]);
    } else if i == 12 {
        assert(list[12] == [3u32, 2, 6]);
    } else if i == 13 {
        assert(list[13] == [3u32, 6, 8]);
    } else if i == 14 {
        assert(list[14] == [3u32, 8, 9]);
    } else if i == 15 {
        assert(list[15] == [4u32, 9, 5]);
    } else if i == 16 {
        assert(list[16] == [2u32, 4, 11]);
    } else if i == 17 {
        assert(list[17] == [6u32, 2, 10]);
    } else if i == 18 {
        assert(list[18] == [8u32, 6, 7]);
    } else {
        assert(list[19] == [9u32, 8, 1]);
    }
}

/// A side of the icosahedron is where its place says, and so is the side that
/// runs back; and the faces across the sides of one are three.
proof fn faces_placed(i: int, k: int)
    requires
        0 <= i < 20,
        0 <= k < 3,
    ensures
        ({
            let list = shapes::faces();
            let pair = side(list, i, k);
            let other = place(turned(pair));
            &&& pair.0 < 12
            &&& pair.0 != pair.1
            &&& place(pair) == 3 * i + k
            &&& 0 <= other < 60
            &&& side(list, other / 3, other % 3) == turned(pair)
            &&& other / 3 != place(turned(side(list, i, next(k)))) / 3
        }),
{
    let list = shapes::faces();
    faces_listed(i);
    let other = place(turned(side(list, i, k)));
    assert(k == 0 || k == 1 || k == 2);
    assert(0 <= other < 60);
    faces_listed(other / 3);
    assert(other % 3 == 0 || other % 3 == 1 || other % 3 == 2);
}

/// The icosahedron is sealed.
pub proof fn icosahedron_is_sealed()
    ensures
        sealed(shapes::faces(), 12),
{
    let list = shapes::faces();
    assert(proper(list, 12)) by {
        reveal(proper);
        assert forall|i: int, k: int|
            #![trigger side(list, i, k)]
            on(list, i, k) implies side(list, i, k).0 < 12 && side(list, i, k).0 != side(
            list,
            i,
            k,
        ).1 by {
            faces_placed(i, k);
        }
    }
    assert(single(list)) by {
        reveal(single);
        assert forall|i: int, k: int, j: int, l: int|
            #![trigger side(list, i, k), side(list, j, l)]
            on(list, i, k) && on(list, j, l) && side(list, i, k) == side(list, j, l) implies i == j
            && k == l by {
            faces_placed(i, k);
            faces_placed(j, l);
        }
    }
    assert(paired(list)) by {
        reveal(paired);
        assert forall|i: int, k: int| #![trigger side(list, i, k)] on(list, i, k) implies met(
            list,
            turned(side(list, i, k)),
        ) by {
            faces_placed(i, k);
            let other = place(turned(side(list, i, k)));
            assert(on(list, other / 3, other % 3));
        }
    }
    assert(spread(list)) by {
        reveal(spread);
        assert forall|i: int, k: int, h: int, j: int, l: int, g: int|
            !hinged(list, i, k, h, j, l, g) by {
            if hinged(list, i, k, h, j, l, g) {
                faces_placed(i, k);
                faces_placed(i, h);
                faces_placed(j, l);
                faces_placed(j, g);
                assert(place(turned(side(list, i, k))) / 3 == j);
                assert(place(turned(side(list, i, h))) / 3 == j);
                assert(h == next(k) || k == next(h));
            }
        }
    }
}

/// However often the faces of the icosahedron are split, the surface is sealed:
/// neighbouring faces share the midpoints between them. So there are ten times
/// four to the power of the rounds, and two, vertices, as long as they can be
/// numbered.
pub proof fn balls_are_sealed<M: Fn(Formula) -> Answer>(maths: M, rounds: nat)
    requires
        10 * pow(4, rounds) + 2 <= u32::MAX + 1,
    ensures
        sealed(
            shapes::ball(maths, rounds).1,
            shapes::ball(maths, rounds).0.len() as int,
        ),
        shapes::ball(maths, rounds).0.len() == 10 * pow(4, rounds) + 2,
    decreases rounds,
{
    reveal(pow);
    if rounds == 0 {
        icosahedron_is_sealed();
    } else {
        let before = (rounds - 1) as nat;
        assert(pow(4, rounds) == 4 * pow(4, before));
        vstd::arithmetic::power::lemma_pow_positive(4, before);
        balls_are_sealed(maths, before);
        shapes::rounds_quadruple_the_faces(maths, before);
        let (positions, list) = shapes::ball(maths, before);
        splits_stay_sealed(maths, positions, list);
    }
}

} // verus!
