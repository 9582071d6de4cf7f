//! The orders that names, objects, paths and textures are kept in.

use vstd::prelude::*;
use vstd::utf8::encode_utf8;

use crate::changeset::Kind;
use crate::error::Problem;
use crate::laws;
use crate::path::{FilePath, Part};
use crate::table::Ranked;
use crate::text;
use crate::texture::{Identity, Key};
use crate::validate;

verus! {

/// Two sequences agree in their first elements, and then the first ends or has the
/// lesser one.
pub open spec fn less_at(a: Seq<u8>, b: Seq<u8>, n: int) -> bool {
    &&& 0 <= n <= a.len()
    &&& n < b.len()
    &&& a.take(n) == b.take(n)
    &&& n == a.len() || a[n] < b[n]
}

/// Names are in dictionary order of their bytes: one goes before another exactly where it
/// is its beginning, or has the lesser byte where the two first differ.
pub proof fn names_are_in_dictionary_order(a: Seq<char>, b: Seq<char>)
    ensures
        String::precedes(a, b) == exists|n: int| #[trigger]
            less_at(encode_utf8(a), encode_utf8(b), n),
{
    let (left, right) = (encode_utf8(a), encode_utf8(b));
    assert(left.take(0) == right.take(0));
    bytes_differ_somewhere(left, right, 0);
}

/// Sequences that begin alike are alike at every place there.
proof fn alike_before(a: Seq<u8>, b: Seq<u8>, at: int, i: int)
    requires
        0 <= i < at <= a.len(),
        at <= b.len(),
        a.take(at) == b.take(at),
    ensures
        a[i] == b[i],
{
    assert(a.take(at)[i] == a[i]);
    assert(b.take(at)[i] == b[i]);
}

/// The order from a byte on is that of the first difference behind it.
proof fn bytes_differ_somewhere(a: Seq<u8>, b: Seq<u8>, at: int)
    requires
        0 <= at <= a.len(),
        at <= b.len(),
        a.take(at) == b.take(at),
    ensures
        text::bytes_precede(a, b, at) == exists|n: int| #[trigger] less_at(a, b, n),
    decreases a.len() - at,
{
    if at >= b.len() {
        assert forall|n: int| !(#[trigger] less_at(a, b, n)) by {
            if less_at(a, b, n) {
                alike_before(a, b, at, n);
            }
        }
    } else if at >= a.len() {
        assert(less_at(a, b, at));
    } else if a[at] != b[at] {
        if a[at] < b[at] {
            assert(less_at(a, b, at));
        } else {
            assert forall|n: int| !(#[trigger] less_at(a, b, n)) by {
                if less_at(a, b, n) {
                    if n < at {
                        alike_before(a, b, at, n);
                    } else if n > at {
                        alike_before(a, b, n, at);
                    }
                }
            }
        }
    } else {
        assert(a.take(at + 1) == b.take(at + 1)) by {
            assert forall|i: int| 0 <= i < at + 1 implies #[trigger] a.take(at + 1)[i]
                == b.take(at + 1)[i] by {
                if i < at {
                    alike_before(a, b, at, i);
                }
            }
        }
        bytes_differ_somewhere(a, b, at + 1);
    }
}

/// Objects are in order of their kind, the geometry first and what holds for the whole
/// scene last, and within a kind by name.
pub proof fn objects_are_in_order_of_kind(a: Seq<char>, b: Seq<char>, kind: Kind)
    ensures
        <(Kind, String)>::precedes((Kind::Mesh, a), (Kind::Curves, b)),
        <(Kind, String)>::precedes((Kind::Curves, a), (Kind::Instance, b)),
        <(Kind, String)>::precedes((Kind::Instance, a), (Kind::Material, b)),
        <(Kind, String)>::precedes((Kind::Material, a), (Kind::Medium, b)),
        <(Kind, String)>::precedes((Kind::Medium, a), (Kind::Light, b)),
        <(Kind, String)>::precedes((Kind::Light, a), (Kind::Camera, b)),
        <(Kind, String)>::precedes((Kind::Camera, a), (Kind::Environment, b)),
        <(Kind, String)>::precedes((Kind::Environment, a), (Kind::Settings, b)),
        <(Kind, String)>::precedes((kind, a), (kind, b)) == String::precedes(a, b),
{
}

/// Paths are in order of their first different step: the root before a step that stays,
/// that before one up, and that before a name; names by their own order. A path goes
/// before what lies below it.
pub proof fn paths_are_in_order_of_their_steps(
    base: Seq<Part<Seq<char>>>,
    below: Seq<Part<Seq<char>>>,
    name: Seq<char>,
    other: Seq<char>,
)
    ensures
        below.len() > 0 ==> FilePath::precedes(base, base + below),
        FilePath::precedes(base + seq![Part::Root], base + seq![Part::Here]),
        FilePath::precedes(base + seq![Part::Here], base + seq![Part::Up]),
        FilePath::precedes(base + seq![Part::Up], base + seq![Part::Name(name)]),
        FilePath::precedes(base + seq![Part::Name(name)], base + seq![Part::Name(other)])
            == String::precedes(name, other),
{
    let root = base + seq![Part::<Seq<char>>::Root];
    let here = base + seq![Part::<Seq<char>>::Here];
    let up = base + seq![Part::<Seq<char>>::Up];
    let one = base + seq![Part::Name(name)];
    let two = base + seq![Part::Name(other)];
    beginnings_do_not_matter(base, base, base + below, 0);
    beginnings_do_not_matter(base, root, here, 0);
    beginnings_do_not_matter(base, here, up, 0);
    beginnings_do_not_matter(base, up, one, 0);
    beginnings_do_not_matter(base, one, two, 0);
    let n = base.len() as int;
    assert(root[n] == Part::<Seq<char>>::Root && here[n] == Part::<Seq<char>>::Here);
    assert(up[n] == Part::<Seq<char>>::Up);
    assert(one[n] == Part::Name(name) && two[n] == Part::Name(other));
    String::never_precedes_itself(name);
    reveal_with_fuel(crate::path::parts_precede, 3);
}

/// Paths that begin alike are ordered by what follows.
proof fn beginnings_do_not_matter(
    base: Seq<Part<Seq<char>>>,
    a: Seq<Part<Seq<char>>>,
    b: Seq<Part<Seq<char>>>,
    at: int,
)
    requires
        0 <= at <= base.len() <= a.len(),
        base.len() <= b.len(),
        forall|i: int| 0 <= i < base.len() ==> #[trigger] a[i] == b[i],
    ensures
        crate::path::parts_precede(a, b, at) == crate::path::parts_precede(
            a,
            b,
            base.len() as int,
        ),
    decreases base.len() - at,
{
    if at < base.len() {
        assert(a[at] == b[at]);
        beginnings_do_not_matter(base, a, b, at + 1);
    }
}

/// Textures are in order of their files first.
pub proof fn textures_are_in_order_of_their_files(a: Identity, b: Identity)
    ensures
        FilePath::precedes(a.path, b.path) ==> Key::precedes(a, b),
        FilePath::precedes(b.path, a.path) && a.path != b.path ==> !Key::precedes(a, b),
{
    if FilePath::precedes(b.path, a.path) && FilePath::precedes(a.path, b.path) {
        FilePath::precedes_transitively(a.path, b.path, a.path);
        FilePath::never_precedes_itself(a.path);
    }
}

/// What is told of many objects that break a rule is what the first of them in order of
/// names is told, and where none breaks it, nothing is told.
pub proof fn the_first_by_name_is_told<T>(
    map: Map<Seq<char>, T>,
    rule: spec_fn(Seq<char>, T) -> Option<Problem<Seq<char>>>,
    name: Seq<char>,
)
    requires
        map.dom().finite(),
    ensures
        map.contains_key(name) && rule(name, map[name]) is Some && (forall|other: Seq<char>|
            #[trigger] map.contains_key(other) && rule(other, map[other]) is Some && other != name
                ==> String::precedes(name, other)) ==> validate::first_problem(map, rule) == rule(
            name,
            map[name],
        ),
        validate::first_problem(map, rule) is None == forall|other: Seq<char>| #[trigger]
            map.contains_key(other) ==> rule(other, map[other]) is None,
{
    let found = validate::first_problem(map, rule);
    if found is None {
        assert forall|other: Seq<char>| #[trigger] map.contains_key(other) implies rule(
            other,
            map[other],
        ) is None by {
            if rule(other, map[other]) is Some {
                laws::some_first(map, rule, other);
            }
        }
    } else {
        let first = choose|name: Seq<char>| validate::breaks_first(map, rule, name);
        assert(validate::breaks_first(map, rule, first));
        assert(map.contains_key(first));
        if map.contains_key(name) && rule(name, map[name]) is Some && (forall|other: Seq<char>|
            #[trigger] map.contains_key(other) && rule(other, map[other]) is Some && other != name
                ==> String::precedes(name, other)) && first != name {
            assert(String::precedes(name, first));
        }
    }
}

} // verus!
