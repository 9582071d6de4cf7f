//! Change-sets: ordered, typed edits to a [`SceneDescription`], the scene
//! model's one verb.
//!
//! A patch targets an object by name: the first mention creates it with its
//! kind's defaults, and only the fields that are there overwrite. References
//! resolve after the whole set. Everything is checked against the state
//! after the set before any of it becomes visible, so a rejected set leaves
//! the description exactly as it was. Every op records what the renderer
//! must rebuild, in [`Dirty`]; an op whose values are already in place
//! records nothing.

use std::sync::Arc;

use vstd::prelude::*;
use vstd::string::*;

use crate::bits::{Num, Vec3};
use crate::description::{
    Blanks, Camera, Curves, CurvesSource, Environment, Geometry, Instance, Light, Material, Medium,
    Mesh, MeshSource, Model, Objects, Settings, Texturable, TextureRef, Transform,
    VolumeSource,
};
use crate::error::{Problem, SceneError};
use crate::path;
use crate::path::FilePath;
use crate::table::{Order, Ranked, Table};
use crate::validate;
use crate::validate::Facts;
use crate::value::{Duplicate, Same};

verus! {

/// The nine object kinds a description holds: the closed schema.
#[derive(Clone, Copy, Debug, PartialEq, Eq, PartialOrd, Ord, Hash, Structural)]
pub enum Kind {
    /// Triangle geometry.
    Mesh,
    /// Curve geometry: hair, fur, grass, fiber.
    Curves,
    /// Placed geometry with a material.
    Instance,
    /// A surface.
    Material,
    /// A participating medium.
    Medium,
    /// A delta light.
    Light,
    /// A viewpoint.
    Camera,
    /// The surrounding light.
    Environment,
    /// Render settings.
    Settings,
}

impl View for Kind {
    type V = Kind;

    open spec fn view(&self) -> Kind {
        *self
    }
}

impl Kind {
    /// The word for the kind.
    pub open spec fn text(self) -> Seq<char> {
        match self {
            Kind::Mesh => "mesh"@,
            Kind::Curves => "curves"@,
            Kind::Instance => "instance"@,
            Kind::Material => "material"@,
            Kind::Medium => "medium"@,
            Kind::Light => "light"@,
            Kind::Camera => "camera"@,
            Kind::Environment => "environment"@,
            Kind::Settings => "settings"@,
        }
    }

    /// The word for the kind.
    pub fn word(&self) -> (r: &'static str)
        ensures
            r@ == self.text(),
    {
        match self {
            Kind::Mesh => "mesh",
            Kind::Curves => "curves",
            Kind::Instance => "instance",
            Kind::Material => "material",
            Kind::Medium => "medium",
            Kind::Light => "light",
            Kind::Camera => "camera",
            Kind::Environment => "environment",
            Kind::Settings => "settings",
        }
    }

    /// Where the kind stands among the others.
    pub open spec fn rank(self) -> int {
        match self {
            Kind::Mesh => 0,
            Kind::Curves => 1,
            Kind::Instance => 2,
            Kind::Material => 3,
            Kind::Medium => 4,
            Kind::Light => 5,
            Kind::Camera => 6,
            Kind::Environment => 7,
            Kind::Settings => 8,
        }
    }

    /// Where the kind stands among the others.
    fn place(&self) -> (r: u8)
        ensures
            r == self.rank(),
    {
        match self {
            Kind::Mesh => 0,
            Kind::Curves => 1,
            Kind::Instance => 2,
            Kind::Material => 3,
            Kind::Medium => 4,
            Kind::Light => 5,
            Kind::Camera => 6,
            Kind::Environment => 7,
            Kind::Settings => 8,
        }
    }
}

impl Ranked for (Kind, String) {
    /// By kind, then by name.
    open spec fn precedes(a: (Kind, Seq<char>), b: (Kind, Seq<char>)) -> bool {
        a.0.rank() < b.0.rank() || (a.0 == b.0 && String::precedes(a.1, b.1))
    }

    proof fn never_precedes_itself(a: (Kind, Seq<char>)) {
        String::never_precedes_itself(a.1);
    }

    proof fn precedes_transitively(
        a: (Kind, Seq<char>),
        b: (Kind, Seq<char>),
        c: (Kind, Seq<char>),
    ) {
        if a.0 == b.0 && b.0 == c.0 {
            String::precedes_transitively(a.1, b.1, c.1);
        }
    }

    proof fn precedes_one_way(a: (Kind, Seq<char>), b: (Kind, Seq<char>)) {
        if a.0 == b.0 {
            String::precedes_one_way(a.1, b.1);
        }
    }

    fn order(&self, other: &(Kind, String)) -> (r: Order) {
        let left: u8 = self.0.place();
        let right: u8 = other.0.place();
        if left < right {
            Order::Less
        } else if left > right {
            Order::Greater
        } else {
            self.1.order(&other.1)
        }
    }
}

impl Duplicate for (Kind, String) {
    fn duplicate(&self) -> (r: (Kind, String)) {
        (self.0, self.1.duplicate())
    }
}

/// A set of objects, each by its kind and name.
#[derive(Debug)]
pub struct ObjectSet {
    entries: Table<(Kind, String), ()>,
}

impl View for ObjectSet {
    type V = Set<(Kind, Seq<char>)>;

    closed spec fn view(&self) -> Set<(Kind, Seq<char>)> {
        self.entries@.dom()
    }
}

impl ObjectSet {
    /// The members, in order.
    pub closed spec fn listed(self) -> Seq<(Kind, String)> {
        self.entries.listed().map_values(|entry: ((Kind, String), ())| entry.0)
    }

    /// No objects.
    pub fn new() -> (r: ObjectSet)
        ensures
            r@ == Set::<(Kind, Seq<char>)>::empty(),
    {
        let r = ObjectSet { entries: Table::new() };
        assert(r@ =~= Set::<(Kind, Seq<char>)>::empty());
        r
    }

    /// The members are listed in the one order that they are in.
    pub open spec fn ranked(self) -> bool {
        self.listed().map_values(|entry: (Kind, String)| entry@) == crate::table::ranking::<
            (Kind, String),
        >(self@)
    }

    /// How many objects the set holds. They are in order of kind, then name.
    pub fn len(&self) -> (r: usize)
        ensures
            r == self.listed().len(),
            self.ranked(),
            self@.finite(),
            r == self@.len(),
            forall|i: int, j: int|
                #![trigger self.listed()[i], self.listed()[j]]
                0 <= i < j < self.listed().len() ==> <(Kind, String)>::precedes(
                    self.listed()[i]@,
                    self.listed()[j]@,
                ),
            forall|i: int|
                0 <= i < self.listed().len() ==> self@.contains((#[trigger] self.listed()[i])@),
            forall|key: (Kind, Seq<char>)| #[trigger]
                self@.contains(key) ==> exists|i: int|
                    0 <= i < self.listed().len() && (#[trigger] self.listed()[i])@ == key,
    {
        let size: usize = self.entries.len();
        proof {
            let inner = self.entries.listed();
            assert(self.listed().map_values(|entry: (Kind, String)| entry@)
                =~= crate::table::ranking::<(Kind, String)>(self@)) by {
                assert forall|i: int| 0 <= i < inner.len() implies self.listed()[i]@
                    == crate::table::ranking::<(Kind, String)>(self@)[i] by {
                    assert(inner[i].0@ == crate::table::ranking::<(Kind, String)>(self@)[i]);
                }
            }
            assert forall|i: int| 0 <= i < self.listed().len() implies self@.contains(
                (#[trigger] self.listed()[i])@,
            ) by {
                assert(inner[i].0 == self.listed()[i]);
            }
            assert forall|key: (Kind, Seq<char>)| #[trigger] self@.contains(key) implies exists|i: int|
                0 <= i < self.listed().len() && (#[trigger] self.listed()[i])@ == key by {
                let i = crate::table::position::<(Kind, String), ()>(inner, key);
                assert(self.listed()[i]@ == key);
            }
            assert forall|i: int, j: int|
                #![trigger self.listed()[i], self.listed()[j]]
                0 <= i < j < self.listed().len() implies <(Kind, String)>::precedes(
                self.listed()[i]@,
                self.listed()[j]@,
            ) by {
                assert(inner[i].0 == self.listed()[i]);
                assert(inner[j].0 == self.listed()[j]);
            }
        }
        size
    }

    /// Whether the set holds nothing.
    pub fn is_empty(&self) -> (r: bool)
        ensures
            r == (self@ == Set::<(Kind, Seq<char>)>::empty()),
    {
        let r = self.entries.is_empty();
        proof {
            if self@ == Set::<(Kind, Seq<char>)>::empty() {
                assert(self.entries@ =~= Map::empty());
            } else if r {
                assert(self@ =~= Set::empty());
            }
        }
        r
    }

    /// Member `i`.
    pub fn at(&self, i: usize) -> (r: &(Kind, String))
        requires
            i < self.listed().len(),
        ensures
            *r == self.listed()[i as int],
    {
        self.entries.key_at(i)
    }

    /// Whether the set holds the object.
    pub fn contains(&self, kind: Kind, name: &String) -> (r: bool)
        ensures
            r == self@.contains((kind, name@)),
    {
        self.entries.contains_key(&(kind, name.duplicate()))
    }

    /// Put the object in.
    pub fn insert(&mut self, kind: Kind, name: &String)
        ensures
            final(self)@ == old(self)@.insert((kind, name@)),
    {
        let _ = self.entries.insert((kind, name.duplicate()), ());
        assert(self@ =~= old(self)@.insert((kind, name@)));
    }

    /// Take the object out.
    pub fn remove(&mut self, kind: Kind, name: &String)
        ensures
            final(self)@ == old(self)@.remove((kind, name@)),
    {
        let _ = self.entries.remove(&(kind, name.duplicate()));
        assert(self@ =~= old(self)@.remove((kind, name@)));
    }
}

/// What the renderer must rebuild, as sets.
pub struct DirtySets {
    /// Objects created or modified.
    pub changed: Set<(Kind, Seq<char>)>,
    /// Objects deleted.
    pub removed: Set<(Kind, Seq<char>)>,
}

impl DirtySets {
    /// Nothing to rebuild.
    pub open spec fn none() -> DirtySets {
        DirtySets { changed: Set::empty(), removed: Set::empty() }
    }

    /// A newer round folded in: a newer removal supersedes an older change.
    pub open spec fn folded(self, newer: DirtySets) -> DirtySets {
        DirtySets {
            changed: self.changed.difference(newer.removed).union(newer.changed),
            removed: self.removed.union(newer.removed),
        }
    }
}

/// What the renderer must rebuild, accumulated until
/// [`SceneDescription::take_dirty`] hands it over.
///
/// `changed` says to build an object's residency anew; `removed` says to
/// retire whatever residency it had. An object removed and then created
/// again is in both; one patched and then removed is in `removed` alone.
#[derive(Debug)]
pub struct Dirty {
    /// Objects created or modified.
    pub changed: ObjectSet,
    /// Objects deleted.
    pub removed: ObjectSet,
}

impl View for Dirty {
    type V = DirtySets;

    open spec fn view(&self) -> DirtySets {
        DirtySets { changed: self.changed@, removed: self.removed@ }
    }
}

impl Dirty {
    /// Nothing to rebuild.
    pub fn new() -> (r: Dirty)
        ensures
            r@ == DirtySets::none(),
    {
        Dirty { changed: ObjectSet::new(), removed: ObjectSet::new() }
    }

    /// Whether there is nothing to rebuild.
    pub fn is_empty(&self) -> (r: bool)
        ensures
            r == (self@ == DirtySets::none()),
    {
        self.changed.is_empty() && self.removed.is_empty()
    }

    /// Fold a newer round into this one: a newer removal supersedes an older
    /// change.
    pub fn merge(&mut self, newer: Dirty)
        ensures
            final(self)@ == old(self)@.folded(newer@),
    {
        let removals: usize = newer.removed.len();
        let mut at: usize = 0;
        while at < removals
            invariant
                at <= removals == newer.removed.listed().len(),
                forall|key: (Kind, Seq<char>)| #[trigger]
                    self.changed@.contains(key) == (old(self).changed@.contains(key) && !(exists|
                        i: int,
                    |
                        0 <= i < at && (#[trigger] newer.removed.listed()[i])@ == key)),
                forall|key: (Kind, Seq<char>)| #[trigger]
                    self.removed@.contains(key) == (old(self).removed@.contains(key) || (exists|
                        i: int,
                    |
                        0 <= i < at && (#[trigger] newer.removed.listed()[i])@ == key)),
            decreases removals - at,
        {
            let key = newer.removed.at(at);
            let ghost before = *self;
            self.changed.remove(key.0, &key.1);
            self.removed.insert(key.0, &key.1);
            let ghost taken = newer.removed.listed()[at as int]@;
            proof {
                assert forall|key: (Kind, Seq<char>)| #[trigger]
                    self.changed@.contains(key) == (old(self).changed@.contains(key) && !(exists|
                        i: int,
                    |
                        0 <= i < at + 1 && (#[trigger] newer.removed.listed()[i])@ == key)) by {
                    assert(self.changed@.contains(key) == (before.changed@.contains(key) && key
                        != taken));
                }
                assert forall|key: (Kind, Seq<char>)| #[trigger]
                    self.removed@.contains(key) == (old(self).removed@.contains(key) || (exists|
                        i: int,
                    |
                        0 <= i < at + 1 && (#[trigger] newer.removed.listed()[i])@ == key)) by {
                    assert(self.removed@.contains(key) == (before.removed@.contains(key) || key
                        == taken));
                }
            }
            at = at + 1;
        }
        let ghost middle = *self;
        assert(middle.changed@ =~= old(self).changed@.difference(newer.removed@));
        assert(middle.removed@ =~= old(self).removed@.union(newer.removed@));
        let changes: usize = newer.changed.len();
        at = 0;
        while at < changes
            invariant
                at <= changes == newer.changed.listed().len(),
                self.removed@ == middle.removed@,
                forall|key: (Kind, Seq<char>)| #[trigger]
                    self.changed@.contains(key) == (middle.changed@.contains(key) || (exists|
                        i: int,
                    |
                        0 <= i < at && (#[trigger] newer.changed.listed()[i])@ == key)),
            decreases changes - at,
        {
            let key = newer.changed.at(at);
            let ghost before = *self;
            self.changed.insert(key.0, &key.1);
            let ghost put = newer.changed.listed()[at as int]@;
            proof {
                assert forall|key: (Kind, Seq<char>)| #[trigger]
                    self.changed@.contains(key) == (middle.changed@.contains(key) || (exists|
                        i: int,
                    |
                        0 <= i < at + 1 && (#[trigger] newer.changed.listed()[i])@ == key)) by {
                    assert(self.changed@.contains(key) == (before.changed@.contains(key) || key
                        == put));
                }
            }
            at = at + 1;
        }
        assert(self.changed@ =~= middle.changed@.union(newer.changed@));
    }
}

/// Which way paths are respelled.
#[derive(Clone, Copy, Debug, PartialEq, Eq, Structural)]
pub enum Respell {
    /// Relative paths are taken from the base.
    Rebase,
    /// The base is taken off the paths under it.
    Relativize,
}

/// `new` is `old` respelled against `base`.
pub open spec fn respelled(old: FilePath, new: FilePath, base: FilePath, how: Respell) -> bool {
    match how {
        Respell::Rebase => if path::absolute(old.text@) {
            new == old
        } else {
            new.text@ == FilePath::under(base.text@, old.text@)
        },
        Respell::Relativize => if base@.is_prefix_of(old@) {
            base@ + new@ == old@ && (base@.len() > 0 ==> !path::absolute(new.text@)
                && !path::starts_here(new.text@))
        } else {
            new == old
        },
    }
}

/// Values that hold paths.
pub trait Repathed: Sized {
    /// `new` is this value with its paths respelled and nothing else changed.
    spec fn repathed(self, new: Self, base: FilePath, how: Respell) -> bool;

    /// The value with its paths respelled.
    fn repath(&self, base: &FilePath, how: Respell) -> (r: Self)
        ensures
            self.repathed(r, *base, how),
    ;

    /// Every path in the value is absolute.
    spec fn rooted(self) -> bool;

    /// The values differ in how they spell their paths, at most.
    spec fn alike(self, other: Self) -> bool;

    /// A base taken off absolute paths and put back leaves the same paths.
    proof fn round_trip(self, middle: Self, last: Self, base: FilePath)
        requires
            self.rooted(),
            base@.len() > 0,
            self.repathed(middle, base, Respell::Relativize),
            middle.repathed(last, base, Respell::Rebase),
        ensures
            self.alike(last),
    ;
}

impl Repathed for FilePath {
    open spec fn repathed(self, new: FilePath, base: FilePath, how: Respell) -> bool {
        respelled(self, new, base, how)
    }

    fn repath(&self, base: &FilePath, how: Respell) -> (r: FilePath) {
        match how {
            Respell::Rebase => {
                if self.is_absolute() {
                    self.duplicate()
                } else {
                    base.join(self)
                }
            },
            Respell::Relativize => {
                match self.strip_prefix(base) {
                    Some(rest) => rest,
                    None => self.duplicate(),
                }
            },
        }
    }

    open spec fn rooted(self) -> bool {
        path::absolute(self.text@)
    }

    open spec fn alike(self, other: FilePath) -> bool {
        self@ == other@
    }

    proof fn round_trip(self, middle: FilePath, last: FilePath, base: FilePath) {
        if base@.is_prefix_of(self@) {
            path::stripping_is_undone(base.text@, middle.text@, self.text@);
        }
    }
}

impl<T: Repathed> Repathed for Option<T> {
    open spec fn repathed(self, new: Option<T>, base: FilePath, how: Respell) -> bool {
        match (self, new) {
            (Some(old), Some(new)) => old.repathed(new, base, how),
            (None, None) => true,
            _ => false,
        }
    }

    fn repath(&self, base: &FilePath, how: Respell) -> (r: Option<T>) {
        match self {
            Some(value) => Some(value.repath(base, how)),
            None => None,
        }
    }

    open spec fn rooted(self) -> bool {
        match self {
            Some(value) => value.rooted(),
            None => true,
        }
    }

    open spec fn alike(self, other: Option<T>) -> bool {
        match (self, other) {
            (Some(left), Some(right)) => left.alike(right),
            (None, None) => true,
            _ => false,
        }
    }

    proof fn round_trip(self, middle: Option<T>, last: Option<T>, base: FilePath) {
        if let (Some(a), Some(b), Some(c)) = (self, middle, last) {
            a.round_trip(b, c, base);
        }
    }
}

impl Repathed for TextureRef {
    open spec fn repathed(self, new: TextureRef, base: FilePath, how: Respell) -> bool {
        &&& self.path.repathed(new.path, base, how)
        &&& new == (TextureRef { path: new.path, ..self })
    }

    fn repath(&self, base: &FilePath, how: Respell) -> (r: TextureRef) {
        TextureRef {
            path: self.path.repath(base, how),
            color_space: self.color_space,
            channel: self.channel,
            scale: self.scale,
            uv: self.uv,
        }
    }

    open spec fn rooted(self) -> bool {
        self.path.rooted()
    }

    open spec fn alike(self, other: TextureRef) -> bool {
        self.path.alike(other.path) && other == (TextureRef { path: other.path, ..self })
    }

    proof fn round_trip(self, middle: TextureRef, last: TextureRef, base: FilePath) {
        self.path.round_trip(middle.path, last.path, base);
    }
}

impl<T: Copy> Repathed for Texturable<T> {
    open spec fn repathed(self, new: Texturable<T>, base: FilePath, how: Respell) -> bool {
        match self {
            Texturable::Constant(_) => new == self,
            Texturable::Texture(old) => new is Texture && old.repathed(new->Texture_0, base, how),
        }
    }

    fn repath(&self, base: &FilePath, how: Respell) -> (r: Texturable<T>) {
        match self {
            Texturable::Constant(value) => Texturable::Constant(*value),
            Texturable::Texture(reference) => Texturable::Texture(reference.repath(base, how)),
        }
    }

    open spec fn rooted(self) -> bool {
        match self {
            Texturable::Constant(_) => true,
            Texturable::Texture(reference) => reference.rooted(),
        }
    }

    open spec fn alike(self, other: Texturable<T>) -> bool {
        match self {
            Texturable::Constant(_) => other == self,
            Texturable::Texture(reference) => other is Texture && reference.alike(
                other->Texture_0,
            ),
        }
    }

    proof fn round_trip(self, middle: Texturable<T>, last: Texturable<T>, base: FilePath) {
        if let Texturable::Texture(reference) = self {
            reference.round_trip(middle->Texture_0, last->Texture_0, base);
        }
    }
}

impl Repathed for MeshSource {
    open spec fn repathed(self, new: MeshSource, base: FilePath, how: Respell) -> bool {
        match self {
            MeshSource::Ply { path } => new is Ply && path.repathed(new->Ply_path, base, how),
            _ => new == self,
        }
    }

    fn repath(&self, base: &FilePath, how: Respell) -> (r: MeshSource) {
        match self {
            MeshSource::Ply { path } => MeshSource::Ply { path: path.repath(base, how) },
            _ => self.duplicate(),
        }
    }

    open spec fn rooted(self) -> bool {
        self is Ply ==> self->Ply_path.rooted()
    }

    open spec fn alike(self, other: MeshSource) -> bool {
        match self {
            MeshSource::Ply { path } => other is Ply && path.alike(other->Ply_path),
            _ => other == self,
        }
    }

    proof fn round_trip(self, middle: MeshSource, last: MeshSource, base: FilePath) {
        if let MeshSource::Ply { path } = self {
            path.round_trip(middle->Ply_path, last->Ply_path, base);
        }
    }
}

impl Repathed for CurvesSource {
    open spec fn repathed(self, new: CurvesSource, base: FilePath, how: Respell) -> bool {
        match self {
            CurvesSource::Hair { path } => new is Hair && path.repathed(new->Hair_path, base, how),
            _ => new == self,
        }
    }

    fn repath(&self, base: &FilePath, how: Respell) -> (r: CurvesSource) {
        match self {
            CurvesSource::Hair { path } => CurvesSource::Hair { path: path.repath(base, how) },
            _ => self.duplicate(),
        }
    }

    open spec fn rooted(self) -> bool {
        self is Hair ==> self->Hair_path.rooted()
    }

    open spec fn alike(self, other: CurvesSource) -> bool {
        match self {
            CurvesSource::Hair { path } => other is Hair && path.alike(other->Hair_path),
            _ => other == self,
        }
    }

    proof fn round_trip(self, middle: CurvesSource, last: CurvesSource, base: FilePath) {
        if let CurvesSource::Hair { path } = self {
            path.round_trip(middle->Hair_path, last->Hair_path, base);
        }
    }
}

impl Repathed for VolumeSource {
    open spec fn repathed(self, new: VolumeSource, base: FilePath, how: Respell) -> bool {
        &&& self.path.repathed(new.path, base, how)
        &&& new == (VolumeSource { path: new.path, ..self })
    }

    fn repath(&self, base: &FilePath, how: Respell) -> (r: VolumeSource) {
        VolumeSource {
            path: self.path.repath(base, how),
            grid: self.grid.duplicate(),
            temperature_grid: self.temperature_grid.duplicate(),
            temperature_scale: self.temperature_scale,
            temperature_offset: self.temperature_offset,
            emission: self.emission,
        }
    }

    open spec fn rooted(self) -> bool {
        self.path.rooted()
    }

    open spec fn alike(self, other: VolumeSource) -> bool {
        self.path.alike(other.path) && other == (VolumeSource { path: other.path, ..self })
    }

    proof fn round_trip(self, middle: VolumeSource, last: VolumeSource, base: FilePath) {
        self.path.round_trip(middle.path, last.path, base);
    }
}

/// What a patch field leaves: its own value where there is one.
pub open spec fn overlay<T>(new: Option<T>, old: T) -> T {
    match new {
        Some(value) => value,
        None => old,
    }
}

fn chosen<T: Copy>(new: Option<T>, old: T) -> (r: T)
    ensures
        r == overlay(new, old),
{
    match new {
        Some(value) => value,
        None => old,
    }
}

fn laid_over<T: Duplicate>(new: &Option<T>, old: &T) -> (r: T)
    ensures
        r == overlay(*new, *old),
{
    match new {
        Some(value) => value.duplicate(),
        None => old.duplicate(),
    }
}

/// A field that is put in place again is in place as if it had never been before.
proof fn overlays_absorb<T>(first: Option<T>, second: Option<T>, under: T)
    ensures
        overlay(first, overlay(second, overlay(first, under))) == overlay(
            first,
            overlay(second, under),
        ),
{
}

/// Objects that a patch of type `P` lands on.
pub trait Patched<P>: Sized {
    /// The object with the patch's fields in place.
    spec fn merged(self, patch: P) -> Self;

    /// The object with the patch's fields in place.
    fn merge(&self, patch: &P) -> (r: Self)
        ensures
            r == self.merged(*patch),
    ;

    /// A patch that has landed changes nothing more.
    proof fn merging_twice(self, patch: P)
        ensures
            self.merged(patch).merged(patch) == self.merged(patch),
    ;

    /// What a patch puts in place, the same patch later puts in place alone.
    proof fn later_wins(self, patch: P, other: P)
        ensures
            self.merged(patch).merged(other).merged(patch) == self.merged(other).merged(patch),
    ;
}

/// Patch for a [`Mesh`]: each field that is there replaces its target.
#[derive(Clone, Debug, PartialEq)]
pub struct MeshPatch {
    /// Target name.
    pub name: String,
    /// New geometry payload.
    pub source: Option<MeshSource>,
}

impl MeshPatch {
    /// The patch changes nothing.
    pub open spec fn idle(self) -> bool {
        &&& self.source is None
    }

    /// A patch of `name` that changes nothing.
    pub fn new(name: &str) -> (r: MeshPatch)
        ensures
            r.name@ == name@,
            r.idle(),
    {
        MeshPatch {
            name: name.to_owned(),
            source: None,
        }
    }
}

impl Patched<MeshPatch> for Mesh {
    open spec fn merged(self, patch: MeshPatch) -> Mesh {
        Mesh {
            source: overlay(patch.source, self.source),
        }
    }

    fn merge(&self, patch: &MeshPatch) -> (r: Mesh) {
        Mesh {
            source: laid_over(&patch.source, &self.source),
        }
    }

    proof fn merging_twice(self, patch: MeshPatch) {
    }

    proof fn later_wins(self, patch: MeshPatch, other: MeshPatch) {
    }
}

impl Repathed for MeshPatch {
    open spec fn repathed(self, new: MeshPatch, base: FilePath, how: Respell) -> bool {
        &&& new.name == self.name
        &&& self.source.repathed(new.source, base, how)
    }

    fn repath(&self, base: &FilePath, how: Respell) -> (r: MeshPatch) {
        MeshPatch {
            name: self.name.duplicate(),
            source: self.source.repath(base, how),
        }
    }

    open spec fn rooted(self) -> bool {
        &&& self.source.rooted()
    }

    open spec fn alike(self, other: MeshPatch) -> bool {
        &&& other.name == self.name
        &&& self.source.alike(other.source)
    }

    proof fn round_trip(self, middle: MeshPatch, last: MeshPatch, base: FilePath) {
        self.source.round_trip(middle.source, last.source, base);
    }
}

/// Patch for a [`Curves`] batch: each field that is there replaces its target.
#[derive(Clone, Debug, PartialEq)]
pub struct CurvesPatch {
    /// Target name.
    pub name: String,
    /// New curve payload.
    pub source: Option<CurvesSource>,
}

impl CurvesPatch {
    /// The patch changes nothing.
    pub open spec fn idle(self) -> bool {
        &&& self.source is None
    }

    /// A patch of `name` that changes nothing.
    pub fn new(name: &str) -> (r: CurvesPatch)
        ensures
            r.name@ == name@,
            r.idle(),
    {
        CurvesPatch {
            name: name.to_owned(),
            source: None,
        }
    }
}

impl Patched<CurvesPatch> for Curves {
    open spec fn merged(self, patch: CurvesPatch) -> Curves {
        Curves {
            source: overlay(patch.source, self.source),
        }
    }

    fn merge(&self, patch: &CurvesPatch) -> (r: Curves) {
        Curves {
            source: laid_over(&patch.source, &self.source),
        }
    }

    proof fn merging_twice(self, patch: CurvesPatch) {
    }

    proof fn later_wins(self, patch: CurvesPatch, other: CurvesPatch) {
    }
}

impl Repathed for CurvesPatch {
    open spec fn repathed(self, new: CurvesPatch, base: FilePath, how: Respell) -> bool {
        &&& new.name == self.name
        &&& self.source.repathed(new.source, base, how)
    }

    fn repath(&self, base: &FilePath, how: Respell) -> (r: CurvesPatch) {
        CurvesPatch {
            name: self.name.duplicate(),
            source: self.source.repath(base, how),
        }
    }

    open spec fn rooted(self) -> bool {
        &&& self.source.rooted()
    }

    open spec fn alike(self, other: CurvesPatch) -> bool {
        &&& other.name == self.name
        &&& self.source.alike(other.source)
    }

    proof fn round_trip(self, middle: CurvesPatch, last: CurvesPatch, base: FilePath) {
        self.source.round_trip(middle.source, last.source, base);
    }
}

/// Patch for an [`Instance`]: each field that is there replaces its target.
#[derive(Clone, Debug, PartialEq)]
pub struct InstancePatch {
    /// Target name.
    pub name: String,
    /// Mesh reference, by name.
    pub mesh: Option<String>,
    /// Curves reference, by name: the other spelling of the same field.
    pub curves: Option<String>,
    /// Material reference, by name.
    pub material: Option<String>,
    /// Placements, one per copy; the whole array replaces.
    pub transforms: Option<Arc<Vec<Transform>>>,
    /// Whether camera rays see it.
    pub camera_visible: Option<bool>,
    /// The medium it bounds: `Some(None)` clears the reference.
    pub medium: Option<Option<String>>,
    /// Which solid wins where refractive interiors overlap.
    pub interior_priority: Option<u32>,
}

impl InstancePatch {
    /// The patch changes nothing.
    pub open spec fn idle(self) -> bool {
        &&& self.mesh is None
        &&& self.curves is None
        &&& self.material is None
        &&& self.transforms is None
        &&& self.camera_visible is None
        &&& self.medium is None
        &&& self.interior_priority is None
    }

    /// A patch of `name` that changes nothing.
    pub fn new(name: &str) -> (r: InstancePatch)
        ensures
            r.name@ == name@,
            r.idle(),
    {
        InstancePatch {
            name: name.to_owned(),
            mesh: None,
            curves: None,
            material: None,
            transforms: None,
            camera_visible: None,
            medium: None,
            interior_priority: None,
        }
    }
}

impl Patched<InstancePatch> for Instance {
    open spec fn merged(self, patch: InstancePatch) -> Instance {
        Instance {
            geometry: match (patch.mesh, patch.curves) {
                (_, Some(curves)) => Geometry::Curves(curves),
                (Some(mesh), None) => Geometry::Mesh(mesh),
                (None, None) => self.geometry,
            },
            material: overlay(patch.material, self.material),
            transforms: overlay(patch.transforms, self.transforms),
            camera_visible: overlay(patch.camera_visible, self.camera_visible),
            medium: overlay(patch.medium, self.medium),
            interior_priority: overlay(patch.interior_priority, self.interior_priority),
        }
    }

    fn merge(&self, patch: &InstancePatch) -> (r: Instance) {
        let geometry = match (&patch.mesh, &patch.curves) {
            (_, Some(curves)) => Geometry::Curves(curves.duplicate()),
            (Some(mesh), None) => Geometry::Mesh(mesh.duplicate()),
            (None, None) => self.geometry.duplicate(),
        };
        Instance {
            geometry,
            material: laid_over(&patch.material, &self.material),
            transforms: laid_over(&patch.transforms, &self.transforms),
            camera_visible: chosen(patch.camera_visible, self.camera_visible),
            medium: laid_over(&patch.medium, &self.medium),
            interior_priority: chosen(patch.interior_priority, self.interior_priority),
        }
    }

    proof fn merging_twice(self, patch: InstancePatch) {
    }

    proof fn later_wins(self, patch: InstancePatch, other: InstancePatch) {
    }
}

impl Duplicate for InstancePatch {
    fn duplicate(&self) -> (r: InstancePatch) {
        InstancePatch {
            name: self.name.duplicate(),
            mesh: self.mesh.duplicate(),
            curves: self.curves.duplicate(),
            material: self.material.duplicate(),
            transforms: self.transforms.duplicate(),
            camera_visible: self.camera_visible,
            medium: self.medium.duplicate(),
            interior_priority: self.interior_priority,
        }
    }
}

/// Patch for a [`Material`]: each field that is there replaces its target.
#[derive(Clone, Debug, PartialEq)]
pub struct MaterialPatch {
    /// Target name.
    pub name: String,
    /// Diffuse albedo, and the conductor's reflectance as `base_metalness` rises.
    pub base_color: Option<Texturable<Vec3>>,
    /// Diffuse roughness; 0 is Lambert.
    pub base_diffuse_roughness: Option<Num>,
    /// Conductor blend: 0 dielectric base, 1 pure metal.
    pub base_metalness: Option<Texturable<Num>>,
    /// Weight of the dielectric specular layer; 0 removes it.
    pub specular_weight: Option<Num>,
    /// Roughness of both specular lobes.
    pub specular_roughness: Option<Texturable<Num>>,
    /// Index of refraction of the specular layer and of transmission.
    pub specular_ior: Option<Num>,
    /// Weight of the transmissive lobe; 0 is opaque.
    pub transmission_weight: Option<Num>,
    /// The color light has picked up after `transmission_depth` inside.
    pub transmission_color: Option<Vec3>,
    /// Distance at which `transmission_color` is reached, in meters; 0 tints the interface.
    pub transmission_depth: Option<Num>,
    /// The part of that extinction which scatters rather than absorbs.
    pub transmission_scatter: Option<Vec3>,
    /// Anisotropy of the interior's scattering.
    pub transmission_scatter_anisotropy: Option<Num>,
    /// Weight of the subsurface lobe; 0 removes it.
    pub subsurface_weight: Option<Texturable<Num>>,
    /// The color light has picked up after scattering many times inside.
    pub subsurface_color: Option<Texturable<Vec3>>,
    /// Scattering mean free path in meters, before the scale.
    pub subsurface_radius: Option<Texturable<Num>>,
    /// Per-channel multipliers on `subsurface_radius`.
    pub subsurface_radius_scale: Option<Texturable<Vec3>>,
    /// Anisotropy of the subsurface interior's scattering.
    pub subsurface_scatter_anisotropy: Option<Texturable<Num>>,
    /// Weight of the clear coat.
    pub coat_weight: Option<Num>,
    /// Tint the coat multiplies onto the base.
    pub coat_color: Option<Vec3>,
    /// Roughness of the coat.
    pub coat_roughness: Option<Num>,
    /// Index of refraction of the coat.
    pub coat_ior: Option<Num>,
    /// How strongly the coat's internal reflections darken the base.
    pub coat_darkening: Option<Num>,
    /// Weight of the fuzz lobe.
    pub fuzz_weight: Option<Num>,
    /// Fuzz color.
    pub fuzz_color: Option<Vec3>,
    /// Fuzz fiber roughness.
    pub fuzz_roughness: Option<Num>,
    /// Emitted luminance; nonzero marks the instance as a light.
    pub emission_luminance: Option<Num>,
    /// Emission tint.
    pub emission_color: Option<Texturable<Vec3>>,
    /// Coverage: 1 opaque, 0 invisible.
    pub geometry_opacity: Option<Texturable<Num>>,
    /// Thin-walled surfaces have no interior.
    pub geometry_thin_walled: Option<bool>,
    /// Tangent-space normal map, if any.
    pub geometry_normal: Option<Option<TextureRef>>,
}

impl MaterialPatch {
    /// The patch changes nothing.
    pub open spec fn idle(self) -> bool {
        &&& self.base_color is None
        &&& self.base_diffuse_roughness is None
        &&& self.base_metalness is None
        &&& self.specular_weight is None
        &&& self.specular_roughness is None
        &&& self.specular_ior is None
        &&& self.transmission_weight is None
        &&& self.transmission_color is None
        &&& self.transmission_depth is None
        &&& self.transmission_scatter is None
        &&& self.transmission_scatter_anisotropy is None
        &&& self.subsurface_weight is None
        &&& self.subsurface_color is None
        &&& self.subsurface_radius is None
        &&& self.subsurface_radius_scale is None
        &&& self.subsurface_scatter_anisotropy is None
        &&& self.coat_weight is None
        &&& self.coat_color is None
        &&& self.coat_roughness is None
        &&& self.coat_ior is None
        &&& self.coat_darkening is None
        &&& self.fuzz_weight is None
        &&& self.fuzz_color is None
        &&& self.fuzz_roughness is None
        &&& self.emission_luminance is None
        &&& self.emission_color is None
        &&& self.geometry_opacity is None
        &&& self.geometry_thin_walled is None
        &&& self.geometry_normal is None
    }

    /// A patch of `name` that changes nothing.
    pub fn new(name: &str) -> (r: MaterialPatch)
        ensures
            r.name@ == name@,
            r.idle(),
    {
        MaterialPatch {
            name: name.to_owned(),
            base_color: None,
            base_diffuse_roughness: None,
            base_metalness: None,
            specular_weight: None,
            specular_roughness: None,
            specular_ior: None,
            transmission_weight: None,
            transmission_color: None,
            transmission_depth: None,
            transmission_scatter: None,
            transmission_scatter_anisotropy: None,
            subsurface_weight: None,
            subsurface_color: None,
            subsurface_radius: None,
            subsurface_radius_scale: None,
            subsurface_scatter_anisotropy: None,
            coat_weight: None,
            coat_color: None,
            coat_roughness: None,
            coat_ior: None,
            coat_darkening: None,
            fuzz_weight: None,
            fuzz_color: None,
            fuzz_roughness: None,
            emission_luminance: None,
            emission_color: None,
            geometry_opacity: None,
            geometry_thin_walled: None,
            geometry_normal: None,
        }
    }
}

impl Patched<MaterialPatch> for Material {
    open spec fn merged(self, patch: MaterialPatch) -> Material {
        Material {
            base_color: overlay(patch.base_color, self.base_color),
            base_diffuse_roughness: overlay(patch.base_diffuse_roughness, self.base_diffuse_roughness),
            base_metalness: overlay(patch.base_metalness, self.base_metalness),
            specular_weight: overlay(patch.specular_weight, self.specular_weight),
            specular_roughness: overlay(patch.specular_roughness, self.specular_roughness),
            specular_ior: overlay(patch.specular_ior, self.specular_ior),
            transmission_weight: overlay(patch.transmission_weight, self.transmission_weight),
            transmission_color: overlay(patch.transmission_color, self.transmission_color),
            transmission_depth: overlay(patch.transmission_depth, self.transmission_depth),
            transmission_scatter: overlay(patch.transmission_scatter, self.transmission_scatter),
            transmission_scatter_anisotropy: overlay(patch.transmission_scatter_anisotropy, self.transmission_scatter_anisotropy),
            subsurface_weight: overlay(patch.subsurface_weight, self.subsurface_weight),
            subsurface_color: overlay(patch.subsurface_color, self.subsurface_color),
            subsurface_radius: overlay(patch.subsurface_radius, self.subsurface_radius),
            subsurface_radius_scale: overlay(patch.subsurface_radius_scale, self.subsurface_radius_scale),
            subsurface_scatter_anisotropy: overlay(patch.subsurface_scatter_anisotropy, self.subsurface_scatter_anisotropy),
            coat_weight: overlay(patch.coat_weight, self.coat_weight),
            coat_color: overlay(patch.coat_color, self.coat_color),
            coat_roughness: overlay(patch.coat_roughness, self.coat_roughness),
            coat_ior: overlay(patch.coat_ior, self.coat_ior),
            coat_darkening: overlay(patch.coat_darkening, self.coat_darkening),
            fuzz_weight: overlay(patch.fuzz_weight, self.fuzz_weight),
            fuzz_color: overlay(patch.fuzz_color, self.fuzz_color),
            fuzz_roughness: overlay(patch.fuzz_roughness, self.fuzz_roughness),
            emission_luminance: overlay(patch.emission_luminance, self.emission_luminance),
            emission_color: overlay(patch.emission_color, self.emission_color),
            geometry_opacity: overlay(patch.geometry_opacity, self.geometry_opacity),
            geometry_thin_walled: overlay(patch.geometry_thin_walled, self.geometry_thin_walled),
            geometry_normal: overlay(patch.geometry_normal, self.geometry_normal),
        }
    }

    fn merge(&self, patch: &MaterialPatch) -> (r: Material) {
        Material {
            base_color: laid_over(&patch.base_color, &self.base_color),
            base_diffuse_roughness: chosen(patch.base_diffuse_roughness, self.base_diffuse_roughness),
            base_metalness: laid_over(&patch.base_metalness, &self.base_metalness),
            specular_weight: chosen(patch.specular_weight, self.specular_weight),
            specular_roughness: laid_over(&patch.specular_roughness, &self.specular_roughness),
            specular_ior: chosen(patch.specular_ior, self.specular_ior),
            transmission_weight: chosen(patch.transmission_weight, self.transmission_weight),
            transmission_color: chosen(patch.transmission_color, self.transmission_color),
            transmission_depth: chosen(patch.transmission_depth, self.transmission_depth),
            transmission_scatter: chosen(patch.transmission_scatter, self.transmission_scatter),
            transmission_scatter_anisotropy: chosen(patch.transmission_scatter_anisotropy, self.transmission_scatter_anisotropy),
            subsurface_weight: laid_over(&patch.subsurface_weight, &self.subsurface_weight),
            subsurface_color: laid_over(&patch.subsurface_color, &self.subsurface_color),
            subsurface_radius: laid_over(&patch.subsurface_radius, &self.subsurface_radius),
            subsurface_radius_scale: laid_over(&patch.subsurface_radius_scale, &self.subsurface_radius_scale),
            subsurface_scatter_anisotropy: laid_over(&patch.subsurface_scatter_anisotropy, &self.subsurface_scatter_anisotropy),
            coat_weight: chosen(patch.coat_weight, self.coat_weight),
            coat_color: chosen(patch.coat_color, self.coat_color),
            coat_roughness: chosen(patch.coat_roughness, self.coat_roughness),
            coat_ior: chosen(patch.coat_ior, self.coat_ior),
            coat_darkening: chosen(patch.coat_darkening, self.coat_darkening),
            fuzz_weight: chosen(patch.fuzz_weight, self.fuzz_weight),
            fuzz_color: chosen(patch.fuzz_color, self.fuzz_color),
            fuzz_roughness: chosen(patch.fuzz_roughness, self.fuzz_roughness),
            emission_luminance: chosen(patch.emission_luminance, self.emission_luminance),
            emission_color: laid_over(&patch.emission_color, &self.emission_color),
            geometry_opacity: laid_over(&patch.geometry_opacity, &self.geometry_opacity),
            geometry_thin_walled: chosen(patch.geometry_thin_walled, self.geometry_thin_walled),
            geometry_normal: laid_over(&patch.geometry_normal, &self.geometry_normal),
        }
    }

    proof fn merging_twice(self, patch: MaterialPatch) {
    }

    proof fn later_wins(self, patch: MaterialPatch, other: MaterialPatch) {
        overlays_absorb(patch.base_color, other.base_color, self.base_color);
        overlays_absorb(patch.base_diffuse_roughness, other.base_diffuse_roughness, self.base_diffuse_roughness);
        overlays_absorb(patch.base_metalness, other.base_metalness, self.base_metalness);
        overlays_absorb(patch.specular_weight, other.specular_weight, self.specular_weight);
        overlays_absorb(patch.specular_roughness, other.specular_roughness, self.specular_roughness);
        overlays_absorb(patch.specular_ior, other.specular_ior, self.specular_ior);
        overlays_absorb(patch.transmission_weight, other.transmission_weight, self.transmission_weight);
        overlays_absorb(patch.transmission_color, other.transmission_color, self.transmission_color);
        overlays_absorb(patch.transmission_depth, other.transmission_depth, self.transmission_depth);
        overlays_absorb(patch.transmission_scatter, other.transmission_scatter, self.transmission_scatter);
        overlays_absorb(patch.transmission_scatter_anisotropy, other.transmission_scatter_anisotropy, self.transmission_scatter_anisotropy);
        overlays_absorb(patch.subsurface_weight, other.subsurface_weight, self.subsurface_weight);
        overlays_absorb(patch.subsurface_color, other.subsurface_color, self.subsurface_color);
        overlays_absorb(patch.subsurface_radius, other.subsurface_radius, self.subsurface_radius);
        overlays_absorb(patch.subsurface_radius_scale, other.subsurface_radius_scale, self.subsurface_radius_scale);
        overlays_absorb(patch.subsurface_scatter_anisotropy, other.subsurface_scatter_anisotropy, self.subsurface_scatter_anisotropy);
        overlays_absorb(patch.coat_weight, other.coat_weight, self.coat_weight);
        overlays_absorb(patch.coat_color, other.coat_color, self.coat_color);
        overlays_absorb(patch.coat_roughness, other.coat_roughness, self.coat_roughness);
        overlays_absorb(patch.coat_ior, other.coat_ior, self.coat_ior);
        overlays_absorb(patch.coat_darkening, other.coat_darkening, self.coat_darkening);
        overlays_absorb(patch.fuzz_weight, other.fuzz_weight, self.fuzz_weight);
        overlays_absorb(patch.fuzz_color, other.fuzz_color, self.fuzz_color);
        overlays_absorb(patch.fuzz_roughness, other.fuzz_roughness, self.fuzz_roughness);
        overlays_absorb(patch.emission_luminance, other.emission_luminance, self.emission_luminance);
        overlays_absorb(patch.emission_color, other.emission_color, self.emission_color);
        overlays_absorb(patch.geometry_opacity, other.geometry_opacity, self.geometry_opacity);
        overlays_absorb(patch.geometry_thin_walled, other.geometry_thin_walled, self.geometry_thin_walled);
        overlays_absorb(patch.geometry_normal, other.geometry_normal, self.geometry_normal);
    }
}

impl Repathed for MaterialPatch {
    open spec fn repathed(self, new: MaterialPatch, base: FilePath, how: Respell) -> bool {
        &&& new.name == self.name
        &&& self.base_color.repathed(new.base_color, base, how)
        &&& new.base_diffuse_roughness == self.base_diffuse_roughness
        &&& self.base_metalness.repathed(new.base_metalness, base, how)
        &&& new.specular_weight == self.specular_weight
        &&& self.specular_roughness.repathed(new.specular_roughness, base, how)
        &&& new.specular_ior == self.specular_ior
        &&& new.transmission_weight == self.transmission_weight
        &&& new.transmission_color == self.transmission_color
        &&& new.transmission_depth == self.transmission_depth
        &&& new.transmission_scatter == self.transmission_scatter
        &&& new.transmission_scatter_anisotropy == self.transmission_scatter_anisotropy
        &&& self.subsurface_weight.repathed(new.subsurface_weight, base, how)
        &&& self.subsurface_color.repathed(new.subsurface_color, base, how)
        &&& self.subsurface_radius.repathed(new.subsurface_radius, base, how)
        &&& self.subsurface_radius_scale.repathed(new.subsurface_radius_scale, base, how)
        &&& self.subsurface_scatter_anisotropy.repathed(new.subsurface_scatter_anisotropy, base, how)
        &&& new.coat_weight == self.coat_weight
        &&& new.coat_color == self.coat_color
        &&& new.coat_roughness == self.coat_roughness
        &&& new.coat_ior == self.coat_ior
        &&& new.coat_darkening == self.coat_darkening
        &&& new.fuzz_weight == self.fuzz_weight
        &&& new.fuzz_color == self.fuzz_color
        &&& new.fuzz_roughness == self.fuzz_roughness
        &&& new.emission_luminance == self.emission_luminance
        &&& self.emission_color.repathed(new.emission_color, base, how)
        &&& self.geometry_opacity.repathed(new.geometry_opacity, base, how)
        &&& new.geometry_thin_walled == self.geometry_thin_walled
        &&& self.geometry_normal.repathed(new.geometry_normal, base, how)
    }

    fn repath(&self, base: &FilePath, how: Respell) -> (r: MaterialPatch) {
        MaterialPatch {
            name: self.name.duplicate(),
            base_color: self.base_color.repath(base, how),
            base_diffuse_roughness: self.base_diffuse_roughness,
            base_metalness: self.base_metalness.repath(base, how),
            specular_weight: self.specular_weight,
            specular_roughness: self.specular_roughness.repath(base, how),
            specular_ior: self.specular_ior,
            transmission_weight: self.transmission_weight,
            transmission_color: self.transmission_color,
            transmission_depth: self.transmission_depth,
            transmission_scatter: self.transmission_scatter,
            transmission_scatter_anisotropy: self.transmission_scatter_anisotropy,
            subsurface_weight: self.subsurface_weight.repath(base, how),
            subsurface_color: self.subsurface_color.repath(base, how),
            subsurface_radius: self.subsurface_radius.repath(base, how),
            subsurface_radius_scale: self.subsurface_radius_scale.repath(base, how),
            subsurface_scatter_anisotropy: self.subsurface_scatter_anisotropy.repath(base, how),
            coat_weight: self.coat_weight,
            coat_color: self.coat_color,
            coat_roughness: self.coat_roughness,
            coat_ior: self.coat_ior,
            coat_darkening: self.coat_darkening,
            fuzz_weight: self.fuzz_weight,
            fuzz_color: self.fuzz_color,
            fuzz_roughness: self.fuzz_roughness,
            emission_luminance: self.emission_luminance,
            emission_color: self.emission_color.repath(base, how),
            geometry_opacity: self.geometry_opacity.repath(base, how),
            geometry_thin_walled: self.geometry_thin_walled,
            geometry_normal: self.geometry_normal.repath(base, how),
        }
    }

    open spec fn rooted(self) -> bool {
        &&& self.base_color.rooted()
        &&& self.base_metalness.rooted()
        &&& self.specular_roughness.rooted()
        &&& self.subsurface_weight.rooted()
        &&& self.subsurface_color.rooted()
        &&& self.subsurface_radius.rooted()
        &&& self.subsurface_radius_scale.rooted()
        &&& self.subsurface_scatter_anisotropy.rooted()
        &&& self.emission_color.rooted()
        &&& self.geometry_opacity.rooted()
        &&& self.geometry_normal.rooted()
    }

    open spec fn alike(self, other: MaterialPatch) -> bool {
        &&& other.name == self.name
        &&& self.base_color.alike(other.base_color)
        &&& other.base_diffuse_roughness == self.base_diffuse_roughness
        &&& self.base_metalness.alike(other.base_metalness)
        &&& other.specular_weight == self.specular_weight
        &&& self.specular_roughness.alike(other.specular_roughness)
        &&& other.specular_ior == self.specular_ior
        &&& other.transmission_weight == self.transmission_weight
        &&& other.transmission_color == self.transmission_color
        &&& other.transmission_depth == self.transmission_depth
        &&& other.transmission_scatter == self.transmission_scatter
        &&& other.transmission_scatter_anisotropy == self.transmission_scatter_anisotropy
        &&& self.subsurface_weight.alike(other.subsurface_weight)
        &&& self.subsurface_color.alike(other.subsurface_color)
        &&& self.subsurface_radius.alike(other.subsurface_radius)
        &&& self.subsurface_radius_scale.alike(other.subsurface_radius_scale)
        &&& self.subsurface_scatter_anisotropy.alike(other.subsurface_scatter_anisotropy)
        &&& other.coat_weight == self.coat_weight
        &&& other.coat_color == self.coat_color
        &&& other.coat_roughness == self.coat_roughness
        &&& other.coat_ior == self.coat_ior
        &&& other.coat_darkening == self.coat_darkening
        &&& other.fuzz_weight == self.fuzz_weight
        &&& other.fuzz_color == self.fuzz_color
        &&& other.fuzz_roughness == self.fuzz_roughness
        &&& other.emission_luminance == self.emission_luminance
        &&& self.emission_color.alike(other.emission_color)
        &&& self.geometry_opacity.alike(other.geometry_opacity)
        &&& other.geometry_thin_walled == self.geometry_thin_walled
        &&& self.geometry_normal.alike(other.geometry_normal)
    }

    proof fn round_trip(self, middle: MaterialPatch, last: MaterialPatch, base: FilePath) {
        self.base_color.round_trip(middle.base_color, last.base_color, base);
        self.base_metalness.round_trip(middle.base_metalness, last.base_metalness, base);
        self.specular_roughness.round_trip(middle.specular_roughness, last.specular_roughness, base);
        self.subsurface_weight.round_trip(middle.subsurface_weight, last.subsurface_weight, base);
        self.subsurface_color.round_trip(middle.subsurface_color, last.subsurface_color, base);
        self.subsurface_radius.round_trip(middle.subsurface_radius, last.subsurface_radius, base);
        self.subsurface_radius_scale.round_trip(middle.subsurface_radius_scale, last.subsurface_radius_scale, base);
        self.subsurface_scatter_anisotropy.round_trip(middle.subsurface_scatter_anisotropy, last.subsurface_scatter_anisotropy, base);
        self.emission_color.round_trip(middle.emission_color, last.emission_color, base);
        self.geometry_opacity.round_trip(middle.geometry_opacity, last.geometry_opacity, base);
        self.geometry_normal.round_trip(middle.geometry_normal, last.geometry_normal, base);
    }
}

/// Patch for a [`Medium`]: each field that is there replaces its target.
#[derive(Clone, Debug, PartialEq)]
pub struct MediumPatch {
    /// Target name.
    pub name: String,
    /// Absorption coefficient per meter.
    pub absorption: Option<Vec3>,
    /// Scattering coefficient per meter.
    pub scattering: Option<Vec3>,
    /// How far scattering leans forward.
    pub anisotropy: Option<Num>,
    /// The grid: `Some(None)` makes the medium homogeneous again.
    pub volume: Option<Option<VolumeSource>>,
}

impl MediumPatch {
    /// The patch changes nothing.
    pub open spec fn idle(self) -> bool {
        &&& self.absorption is None
        &&& self.scattering is None
        &&& self.anisotropy is None
        &&& self.volume is None
    }

    /// A patch of `name` that changes nothing.
    pub fn new(name: &str) -> (r: MediumPatch)
        ensures
            r.name@ == name@,
            r.idle(),
    {
        MediumPatch {
            name: name.to_owned(),
            absorption: None,
            scattering: None,
            anisotropy: None,
            volume: None,
        }
    }
}

impl Patched<MediumPatch> for Medium {
    open spec fn merged(self, patch: MediumPatch) -> Medium {
        Medium {
            absorption: overlay(patch.absorption, self.absorption),
            scattering: overlay(patch.scattering, self.scattering),
            anisotropy: overlay(patch.anisotropy, self.anisotropy),
            volume: overlay(patch.volume, self.volume),
        }
    }

    fn merge(&self, patch: &MediumPatch) -> (r: Medium) {
        Medium {
            absorption: chosen(patch.absorption, self.absorption),
            scattering: chosen(patch.scattering, self.scattering),
            anisotropy: chosen(patch.anisotropy, self.anisotropy),
            volume: laid_over(&patch.volume, &self.volume),
        }
    }

    proof fn merging_twice(self, patch: MediumPatch) {
    }

    proof fn later_wins(self, patch: MediumPatch, other: MediumPatch) {
    }
}

impl Repathed for MediumPatch {
    open spec fn repathed(self, new: MediumPatch, base: FilePath, how: Respell) -> bool {
        &&& new.name == self.name
        &&& new.absorption == self.absorption
        &&& new.scattering == self.scattering
        &&& new.anisotropy == self.anisotropy
        &&& self.volume.repathed(new.volume, base, how)
    }

    fn repath(&self, base: &FilePath, how: Respell) -> (r: MediumPatch) {
        MediumPatch {
            name: self.name.duplicate(),
            absorption: self.absorption,
            scattering: self.scattering,
            anisotropy: self.anisotropy,
            volume: self.volume.repath(base, how),
        }
    }

    open spec fn rooted(self) -> bool {
        &&& self.volume.rooted()
    }

    open spec fn alike(self, other: MediumPatch) -> bool {
        &&& other.name == self.name
        &&& other.absorption == self.absorption
        &&& other.scattering == self.scattering
        &&& other.anisotropy == self.anisotropy
        &&& self.volume.alike(other.volume)
    }

    proof fn round_trip(self, middle: MediumPatch, last: MediumPatch, base: FilePath) {
        self.volume.round_trip(middle.volume, last.volume, base);
    }
}

/// Patch for a [`Light`]: each field that is there replaces its target.
#[derive(Clone, Debug, PartialEq)]
pub struct LightPatch {
    /// Target name.
    pub name: String,
    /// New definition.
    pub light: Option<Light>,
}

impl LightPatch {
    /// The patch changes nothing.
    pub open spec fn idle(self) -> bool {
        &&& self.light is None
    }

    /// A patch of `name` that changes nothing.
    pub fn new(name: &str) -> (r: LightPatch)
        ensures
            r.name@ == name@,
            r.idle(),
    {
        LightPatch {
            name: name.to_owned(),
            light: None,
        }
    }
}

impl Patched<LightPatch> for Light {
    open spec fn merged(self, patch: LightPatch) -> Light {
        overlay(patch.light, self)
    }

    fn merge(&self, patch: &LightPatch) -> (r: Light) {
        match patch.light {
            Some(light) => light,
            None => *self,
        }
    }

    proof fn merging_twice(self, patch: LightPatch) {
    }

    proof fn later_wins(self, patch: LightPatch, other: LightPatch) {
    }
}

impl Duplicate for LightPatch {
    fn duplicate(&self) -> (r: LightPatch) {
        LightPatch {
            name: self.name.duplicate(),
            light: self.light,
        }
    }
}

/// Patch for a [`Camera`]: each field that is there replaces its target.
#[derive(Clone, Debug, PartialEq)]
pub struct CameraPatch {
    /// Target name.
    pub name: String,
    /// Eye position, meters.
    pub position: Option<Vec3>,
    /// The point the view axis passes through.
    pub look_at: Option<Vec3>,
    /// Screen-up direction.
    pub up: Option<Vec3>,
    /// Vertical field of view, degrees.
    pub vfov_degrees: Option<Num>,
    /// Focal distance: `Some(None)` focuses at `look_at` again.
    pub focus_distance: Option<Option<Num>>,
    /// Lens radius, meters.
    pub aperture_radius: Option<Num>,
}

impl CameraPatch {
    /// The patch changes nothing.
    pub open spec fn idle(self) -> bool {
        &&& self.position is None
        &&& self.look_at is None
        &&& self.up is None
        &&& self.vfov_degrees is None
        &&& self.focus_distance is None
        &&& self.aperture_radius is None
    }

    /// A patch of `name` that changes nothing.
    pub fn new(name: &str) -> (r: CameraPatch)
        ensures
            r.name@ == name@,
            r.idle(),
    {
        CameraPatch {
            name: name.to_owned(),
            position: None,
            look_at: None,
            up: None,
            vfov_degrees: None,
            focus_distance: None,
            aperture_radius: None,
        }
    }
}

impl Patched<CameraPatch> for Camera {
    open spec fn merged(self, patch: CameraPatch) -> Camera {
        Camera {
            position: overlay(patch.position, self.position),
            look_at: overlay(patch.look_at, self.look_at),
            up: overlay(patch.up, self.up),
            vfov_degrees: overlay(patch.vfov_degrees, self.vfov_degrees),
            focus_distance: overlay(patch.focus_distance, self.focus_distance),
            aperture_radius: overlay(patch.aperture_radius, self.aperture_radius),
        }
    }

    fn merge(&self, patch: &CameraPatch) -> (r: Camera) {
        Camera {
            position: chosen(patch.position, self.position),
            look_at: chosen(patch.look_at, self.look_at),
            up: chosen(patch.up, self.up),
            vfov_degrees: chosen(patch.vfov_degrees, self.vfov_degrees),
            focus_distance: chosen(patch.focus_distance, self.focus_distance),
            aperture_radius: chosen(patch.aperture_radius, self.aperture_radius),
        }
    }

    proof fn merging_twice(self, patch: CameraPatch) {
    }

    proof fn later_wins(self, patch: CameraPatch, other: CameraPatch) {
    }
}

impl Duplicate for CameraPatch {
    fn duplicate(&self) -> (r: CameraPatch) {
        CameraPatch {
            name: self.name.duplicate(),
            position: self.position,
            look_at: self.look_at,
            up: self.up,
            vfov_degrees: self.vfov_degrees,
            focus_distance: self.focus_distance,
            aperture_radius: self.aperture_radius,
        }
    }
}

/// Patch for an [`Environment`]: each field that is there replaces its target.
#[derive(Clone, Debug, PartialEq)]
pub struct EnvironmentPatch {
    /// Target name.
    pub name: String,
    /// The radiance image: `Some(None)` clears it.
    pub path: Option<Option<FilePath>>,
    /// Multiplier over the sky's radiance.
    pub tint: Option<Vec3>,
    /// Environment-to-world placement.
    pub transform: Option<Transform>,
}

impl EnvironmentPatch {
    /// The patch changes nothing.
    pub open spec fn idle(self) -> bool {
        &&& self.path is None
        &&& self.tint is None
        &&& self.transform is None
    }

    /// A patch of `name` that changes nothing.
    pub fn new(name: &str) -> (r: EnvironmentPatch)
        ensures
            r.name@ == name@,
            r.idle(),
    {
        EnvironmentPatch {
            name: name.to_owned(),
            path: None,
            tint: None,
            transform: None,
        }
    }
}

impl Patched<EnvironmentPatch> for Environment {
    open spec fn merged(self, patch: EnvironmentPatch) -> Environment {
        Environment {
            path: overlay(patch.path, self.path),
            tint: overlay(patch.tint, self.tint),
            transform: overlay(patch.transform, self.transform),
        }
    }

    fn merge(&self, patch: &EnvironmentPatch) -> (r: Environment) {
        Environment {
            path: laid_over(&patch.path, &self.path),
            tint: chosen(patch.tint, self.tint),
            transform: chosen(patch.transform, self.transform),
        }
    }

    proof fn merging_twice(self, patch: EnvironmentPatch) {
    }

    proof fn later_wins(self, patch: EnvironmentPatch, other: EnvironmentPatch) {
    }
}

impl Repathed for EnvironmentPatch {
    open spec fn repathed(self, new: EnvironmentPatch, base: FilePath, how: Respell) -> bool {
        &&& new.name == self.name
        &&& self.path.repathed(new.path, base, how)
        &&& new.tint == self.tint
        &&& new.transform == self.transform
    }

    fn repath(&self, base: &FilePath, how: Respell) -> (r: EnvironmentPatch) {
        EnvironmentPatch {
            name: self.name.duplicate(),
            path: self.path.repath(base, how),
            tint: self.tint,
            transform: self.transform,
        }
    }

    open spec fn rooted(self) -> bool {
        &&& self.path.rooted()
    }

    open spec fn alike(self, other: EnvironmentPatch) -> bool {
        &&& other.name == self.name
        &&& self.path.alike(other.path)
        &&& other.tint == self.tint
        &&& other.transform == self.transform
    }

    proof fn round_trip(self, middle: EnvironmentPatch, last: EnvironmentPatch, base: FilePath) {
        self.path.round_trip(middle.path, last.path, base);
    }
}

/// Patch for [`Settings`]: each field that is there replaces its target.
#[derive(Clone, Debug, PartialEq)]
pub struct SettingsPatch {
    /// Target name.
    pub name: String,
    /// Output width and height, pixels.
    pub resolution: Option<[u32; 2]>,
    /// The sample budget.
    pub spp: Option<u32>,
    /// The early-out threshold: `Some(None)` turns it off.
    pub noise_threshold: Option<Option<Num>>,
    /// Maximum path length in bounces.
    pub max_bounces: Option<u32>,
    /// Denoise the published image.
    pub denoise: Option<bool>,
    /// Sampler seed.
    pub seed: Option<u32>,
    /// The medium filling open space: `Some(None)` is vacuum.
    pub global_medium: Option<Option<String>>,
}

impl SettingsPatch {
    /// The patch changes nothing.
    pub open spec fn idle(self) -> bool {
        &&& self.resolution is None
        &&& self.spp is None
        &&& self.noise_threshold is None
        &&& self.max_bounces is None
        &&& self.denoise is None
        &&& self.seed is None
        &&& self.global_medium is None
    }

    /// A patch of `name` that changes nothing.
    pub fn new(name: &str) -> (r: SettingsPatch)
        ensures
            r.name@ == name@,
            r.idle(),
    {
        SettingsPatch {
            name: name.to_owned(),
            resolution: None,
            spp: None,
            noise_threshold: None,
            max_bounces: None,
            denoise: None,
            seed: None,
            global_medium: None,
        }
    }
}

impl Patched<SettingsPatch> for Settings {
    open spec fn merged(self, patch: SettingsPatch) -> Settings {
        Settings {
            resolution: overlay(patch.resolution, self.resolution),
            spp: overlay(patch.spp, self.spp),
            noise_threshold: overlay(patch.noise_threshold, self.noise_threshold),
            max_bounces: overlay(patch.max_bounces, self.max_bounces),
            denoise: overlay(patch.denoise, self.denoise),
            seed: overlay(patch.seed, self.seed),
            global_medium: overlay(patch.global_medium, self.global_medium),
        }
    }

    fn merge(&self, patch: &SettingsPatch) -> (r: Settings) {
        Settings {
            resolution: chosen(patch.resolution, self.resolution),
            spp: chosen(patch.spp, self.spp),
            noise_threshold: chosen(patch.noise_threshold, self.noise_threshold),
            max_bounces: chosen(patch.max_bounces, self.max_bounces),
            denoise: chosen(patch.denoise, self.denoise),
            seed: chosen(patch.seed, self.seed),
            global_medium: laid_over(&patch.global_medium, &self.global_medium),
        }
    }

    proof fn merging_twice(self, patch: SettingsPatch) {
    }

    proof fn later_wins(self, patch: SettingsPatch, other: SettingsPatch) {
    }
}

impl Duplicate for SettingsPatch {
    fn duplicate(&self) -> (r: SettingsPatch) {
        SettingsPatch {
            name: self.name.duplicate(),
            resolution: self.resolution,
            spp: self.spp,
            noise_threshold: self.noise_threshold,
            max_bounces: self.max_bounces,
            denoise: self.denoise,
            seed: self.seed,
            global_medium: self.global_medium.duplicate(),
        }
    }
}

/// One edit: a patch of an object of some kind, or a removal.
#[derive(Clone, Debug, PartialEq)]
pub enum Op {
    /// Patch a mesh.
    Mesh(MeshPatch),
    /// Patch a curve batch.
    Curves(CurvesPatch),
    /// Patch an instance.
    Instance(InstancePatch),
    /// Patch a material. Boxed: the patch is far wider than any other.
    Material(Box<MaterialPatch>),
    /// Patch a medium.
    Medium(MediumPatch),
    /// Patch a delta light.
    Light(LightPatch),
    /// Patch a camera.
    Camera(CameraPatch),
    /// Patch an environment.
    Environment(EnvironmentPatch),
    /// Patch render settings.
    Settings(SettingsPatch),
    /// Delete an object outright.
    Remove(Kind, String),
}

impl Op {
    /// The kind and name this op targets.
    pub open spec fn aim(self) -> (Kind, Seq<char>) {
        match self {
            Op::Mesh(patch) => (Kind::Mesh, patch.name@),
            Op::Curves(patch) => (Kind::Curves, patch.name@),
            Op::Instance(patch) => (Kind::Instance, patch.name@),
            Op::Material(patch) => (Kind::Material, patch.name@),
            Op::Medium(patch) => (Kind::Medium, patch.name@),
            Op::Light(patch) => (Kind::Light, patch.name@),
            Op::Camera(patch) => (Kind::Camera, patch.name@),
            Op::Environment(patch) => (Kind::Environment, patch.name@),
            Op::Settings(patch) => (Kind::Settings, patch.name@),
            Op::Remove(kind, name) => (kind, name@),
        }
    }

    /// The kind and name this op targets.
    pub fn target(&self) -> (r: (Kind, &String))
        ensures
            (r.0, r.1@) == self.aim(),
    {
        match self {
            Op::Mesh(patch) => (Kind::Mesh, &patch.name),
            Op::Curves(patch) => (Kind::Curves, &patch.name),
            Op::Instance(patch) => (Kind::Instance, &patch.name),
            Op::Material(patch) => (Kind::Material, &patch.name),
            Op::Medium(patch) => (Kind::Medium, &patch.name),
            Op::Light(patch) => (Kind::Light, &patch.name),
            Op::Camera(patch) => (Kind::Camera, &patch.name),
            Op::Environment(patch) => (Kind::Environment, &patch.name),
            Op::Settings(patch) => (Kind::Settings, &patch.name),
            Op::Remove(kind, name) => (*kind, name),
        }
    }
}

impl Repathed for Op {
    open spec fn repathed(self, new: Op, base: FilePath, how: Respell) -> bool {
        match self {
            Op::Mesh(old) => new is Mesh && old.repathed(new->Mesh_0, base, how),
            Op::Curves(old) => new is Curves && old.repathed(new->Curves_0, base, how),
            Op::Material(old) => new is Material && (*old).repathed(*new->Material_0, base, how),
            Op::Medium(old) => new is Medium && old.repathed(new->Medium_0, base, how),
            Op::Environment(old) => new is Environment && old.repathed(
                new->Environment_0,
                base,
                how,
            ),
            _ => new == self,
        }
    }

    fn repath(&self, base: &FilePath, how: Respell) -> (r: Op) {
        match self {
            Op::Mesh(patch) => Op::Mesh(patch.repath(base, how)),
            Op::Curves(patch) => Op::Curves(patch.repath(base, how)),
            Op::Instance(patch) => Op::Instance(patch.duplicate()),
            Op::Material(patch) => Op::Material(Box::new((**patch).repath(base, how))),
            Op::Medium(patch) => Op::Medium(patch.repath(base, how)),
            Op::Light(patch) => Op::Light(patch.duplicate()),
            Op::Camera(patch) => Op::Camera(patch.duplicate()),
            Op::Environment(patch) => Op::Environment(patch.repath(base, how)),
            Op::Settings(patch) => Op::Settings(patch.duplicate()),
            Op::Remove(kind, name) => Op::Remove(*kind, name.duplicate()),
        }
    }

    open spec fn rooted(self) -> bool {
        match self {
            Op::Mesh(patch) => patch.rooted(),
            Op::Curves(patch) => patch.rooted(),
            Op::Material(patch) => (*patch).rooted(),
            Op::Medium(patch) => patch.rooted(),
            Op::Environment(patch) => patch.rooted(),
            _ => true,
        }
    }

    open spec fn alike(self, other: Op) -> bool {
        match self {
            Op::Mesh(patch) => other is Mesh && patch.alike(other->Mesh_0),
            Op::Curves(patch) => other is Curves && patch.alike(other->Curves_0),
            Op::Material(patch) => other is Material && (*patch).alike(*other->Material_0),
            Op::Medium(patch) => other is Medium && patch.alike(other->Medium_0),
            Op::Environment(patch) => other is Environment && patch.alike(other->Environment_0),
            _ => other == self,
        }
    }

    proof fn round_trip(self, middle: Op, last: Op, base: FilePath) {
        match self {
            Op::Mesh(patch) => patch.round_trip(middle->Mesh_0, last->Mesh_0, base),
            Op::Curves(patch) => patch.round_trip(middle->Curves_0, last->Curves_0, base),
            Op::Material(patch) => (*patch).round_trip(
                *middle->Material_0,
                *last->Material_0,
                base,
            ),
            Op::Medium(patch) => patch.round_trip(middle->Medium_0, last->Medium_0, base),
            Op::Environment(patch) => patch.round_trip(
                middle->Environment_0,
                last->Environment_0,
                base,
            ),
            _ => {},
        }
    }
}

/// An ordered list of edits, applied as a whole.
#[derive(Clone, Debug, PartialEq)]
pub struct ChangeSet {
    /// The edits, in application order.
    pub ops: Vec<Op>,
}

/// Every op of `new` is the op of `old` in its place, respelled.
pub open spec fn ops_repathed(
    old: Seq<Op>,
    new: Seq<Op>,
    base: FilePath,
    how: Respell,
) -> bool {
    old.len() == new.len() && forall|i: int|
        0 <= i < old.len() ==> (#[trigger] old[i]).repathed(new[i], base, how)
}

impl ChangeSet {
    /// Take every relative path in the set from `base`, so that paths in a
    /// scene file mean relative to the file.
    pub fn rebase_paths(&mut self, base: &FilePath)
        ensures
            ops_repathed(old(self).ops@, final(self).ops@, *base, Respell::Rebase),
    {
        self.respell_paths(base, Respell::Rebase);
    }

    /// Take `base` off every path under it, leaving the rest as they are:
    /// the inverse of [`ChangeSet::rebase_paths`].
    pub fn relativize_paths(&mut self, base: &FilePath)
        ensures
            ops_repathed(old(self).ops@, final(self).ops@, *base, Respell::Relativize),
    {
        self.respell_paths(base, Respell::Relativize);
    }

    fn respell_paths(&mut self, base: &FilePath, how: Respell)
        ensures
            ops_repathed(old(self).ops@, final(self).ops@, *base, how),
    {
        let mut ops: Vec<Op> = Vec::new();
        let mut at: usize = 0;
        while at < self.ops.len()
            invariant
                at <= self.ops@.len(),
                self.ops@ == old(self).ops@,
                ops@.len() == at,
                forall|i: int| 0 <= i < at ==> (#[trigger] self.ops@[i]).repathed(ops@[i], *base, how),
            decreases self.ops@.len() - at,
        {
            ops.push(self.ops[at].repath(base, how));
            at = at + 1;
        }
        self.ops = ops;
    }
}

/// The model holds the object.
pub open spec fn holds(model: Model, kind: Kind, name: Seq<char>) -> bool {
    match kind {
        Kind::Mesh => model.meshes.contains_key(name),
        Kind::Curves => model.curves.contains_key(name),
        Kind::Instance => model.instances.contains_key(name),
        Kind::Material => model.materials.contains_key(name),
        Kind::Medium => model.media.contains_key(name),
        Kind::Light => model.lights.contains_key(name),
        Kind::Camera => model.cameras.contains_key(name),
        Kind::Environment => model.environments.contains_key(name),
        Kind::Settings => model.settings.contains_key(name),
    }
}

/// The model without the object.
pub open spec fn without(model: Model, kind: Kind, name: Seq<char>) -> Model {
    match kind {
        Kind::Mesh => Model { meshes: model.meshes.remove(name), ..model },
        Kind::Curves => Model { curves: model.curves.remove(name), ..model },
        Kind::Instance => Model { instances: model.instances.remove(name), ..model },
        Kind::Material => Model { materials: model.materials.remove(name), ..model },
        Kind::Medium => Model { media: model.media.remove(name), ..model },
        Kind::Light => Model { lights: model.lights.remove(name), ..model },
        Kind::Camera => Model { cameras: model.cameras.remove(name), ..model },
        Kind::Environment => Model { environments: model.environments.remove(name), ..model },
        Kind::Settings => Model { settings: model.settings.remove(name), ..model },
    }
}

/// A model is the same without an object that it does not hold.
proof fn removing_nothing(model: Model, kind: Kind, name: Seq<char>)
    requires
        !holds(model, kind, name),
    ensures
        without(model, kind, name) == model,
{
    let left = without(model, kind, name);
    assert(left.meshes =~= model.meshes);
    assert(left.curves =~= model.curves);
    assert(left.instances =~= model.instances);
    assert(left.materials =~= model.materials);
    assert(left.media =~= model.media);
    assert(left.lights =~= model.lights);
    assert(left.cameras =~= model.cameras);
    assert(left.environments =~= model.environments);
    assert(left.settings =~= model.settings);
}

/// The two models' objects at `name` are equal.
pub open spec fn same_object(a: Model, b: Model, kind: Kind, name: Seq<char>) -> bool {
    match kind {
        Kind::Mesh => a.meshes[name].same(b.meshes[name]),
        Kind::Curves => a.curves[name].same(b.curves[name]),
        Kind::Instance => a.instances[name].same(b.instances[name]),
        Kind::Material => a.materials[name].same(b.materials[name]),
        Kind::Medium => a.media[name].same(b.media[name]),
        Kind::Light => a.lights[name].same(b.lights[name]),
        Kind::Camera => a.cameras[name].same(b.cameras[name]),
        Kind::Environment => a.environments[name].same(b.environments[name]),
        Kind::Settings => a.settings[name].same(b.settings[name]),
    }
}

/// What there is to rebuild when one model takes another's place: objects
/// that are new or have another value, and objects that are gone.
pub open spec fn difference(old: Model, new: Model) -> DirtySets {
    DirtySets {
        changed: Set::new(
            |key: (Kind, Seq<char>)|
                holds(new, key.0, key.1) && !(holds(old, key.0, key.1) && same_object(
                    new,
                    old,
                    key.0,
                    key.1,
                )),
        ),
        removed: Set::new(
            |key: (Kind, Seq<char>)| holds(old, key.0, key.1) && !holds(new, key.0, key.1),
        ),
    }
}

/// The object that a patch leaves at `name`: the one that was there, or a
/// fresh one, with the patch's fields in place.
pub open spec fn upserted<T: Patched<P>, P>(
    map: Map<Seq<char>, T>,
    blank: T,
    name: Seq<char>,
    patch: P,
) -> T {
    (if map.contains_key(name) {
        map[name]
    } else {
        blank
    }).merged(patch)
}

/// The patch creates its object, or leaves it with another value.
pub open spec fn changes<T: Patched<P> + Same, P>(
    map: Map<Seq<char>, T>,
    blank: T,
    name: Seq<char>,
    patch: P,
) -> bool {
    !map.contains_key(name) || !upserted(map, blank, name, patch).same(map[name])
}

/// Why the op cannot be applied to the model.
pub open spec fn op_problem(model: Model, op: Op) -> Option<Problem<Seq<char>>> {
    let (kind, name) = op.aim();
    if name.len() == 0 {
        Some(Problem::EmptyName { kind })
    } else {
        match op {
            Op::Instance(patch) => if patch.mesh is Some && patch.curves is Some {
                Some(Problem::TwoGeometries { name })
            } else {
                None
            },
            Op::Remove(_, _) => if holds(model, kind, name) {
                None
            } else {
                Some(Problem::NothingToRemove { kind, name })
            },
            _ => None,
        }
    }
}

/// The model after the op.
pub open spec fn op_model(model: Model, blanks: Blanks, op: Op) -> Model {
    match op {
        Op::Mesh(patch) => Model {
            meshes: model.meshes.insert(patch.name@, upserted(model.meshes, blanks.meshes, patch.name@, patch)),
            ..model
        },
        Op::Curves(patch) => Model {
            curves: model.curves.insert(patch.name@, upserted(model.curves, blanks.curves, patch.name@, patch)),
            ..model
        },
        Op::Instance(patch) => Model {
            instances: model.instances.insert(patch.name@, upserted(model.instances, blanks.instances, patch.name@, patch)),
            ..model
        },
        Op::Material(patch) => Model {
            materials: model.materials.insert(patch.name@, upserted(model.materials, blanks.materials, patch.name@, *patch)),
            ..model
        },
        Op::Medium(patch) => Model {
            media: model.media.insert(patch.name@, upserted(model.media, blanks.media, patch.name@, patch)),
            ..model
        },
        Op::Light(patch) => Model {
            lights: model.lights.insert(patch.name@, upserted(model.lights, blanks.lights, patch.name@, patch)),
            ..model
        },
        Op::Camera(patch) => Model {
            cameras: model.cameras.insert(patch.name@, upserted(model.cameras, blanks.cameras, patch.name@, patch)),
            ..model
        },
        Op::Environment(patch) => Model {
            environments: model.environments.insert(patch.name@, upserted(model.environments, blanks.environments, patch.name@, patch)),
            ..model
        },
        Op::Settings(patch) => Model {
            settings: model.settings.insert(patch.name@, upserted(model.settings, blanks.settings, patch.name@, patch)),
            ..model
        },
        Op::Remove(kind, name) => without(model, kind, name@),
    }
}

/// The op is a patch that creates its object or leaves it with another value.
pub open spec fn op_changes(model: Model, blanks: Blanks, op: Op) -> bool {
    match op {
        Op::Mesh(patch) => changes(model.meshes, blanks.meshes, patch.name@, patch),
        Op::Curves(patch) => changes(model.curves, blanks.curves, patch.name@, patch),
        Op::Instance(patch) => changes(model.instances, blanks.instances, patch.name@, patch),
        Op::Material(patch) => changes(model.materials, blanks.materials, patch.name@, *patch),
        Op::Medium(patch) => changes(model.media, blanks.media, patch.name@, patch),
        Op::Light(patch) => changes(model.lights, blanks.lights, patch.name@, patch),
        Op::Camera(patch) => changes(model.cameras, blanks.cameras, patch.name@, patch),
        Op::Environment(patch) => changes(model.environments, blanks.environments, patch.name@, patch),
        Op::Settings(patch) => changes(model.settings, blanks.settings, patch.name@, patch),
        Op::Remove(_, _) => false,
    }
}

/// What there is to rebuild after the op.
pub open spec fn op_dirt(model: Model, blanks: Blanks, dirt: DirtySets, op: Op) -> DirtySets {
    match op {
        Op::Remove(kind, name) => DirtySets {
            changed: dirt.changed.remove((kind, name@)),
            removed: dirt.removed.insert((kind, name@)),
        },
        _ => if op_changes(model, blanks, op) {
            DirtySets { changed: dirt.changed.insert(op.aim()), removed: dirt.removed }
        } else {
            dirt
        },
    }
}

/// The model after the first `n` ops.
pub open spec fn model_after(model: Model, blanks: Blanks, ops: Seq<Op>, n: int) -> Model
    decreases n,
{
    if n <= 0 {
        model
    } else {
        op_model(model_after(model, blanks, ops, n - 1), blanks, ops[n - 1])
    }
}

/// What the first `n` ops leave to rebuild.
pub open spec fn dirt_after(model: Model, blanks: Blanks, ops: Seq<Op>, n: int) -> DirtySets
    decreases n,
{
    if n <= 0 {
        DirtySets::none()
    } else {
        op_dirt(
            model_after(model, blanks, ops, n - 1),
            blanks,
            dirt_after(model, blanks, ops, n - 1),
            ops[n - 1],
        )
    }
}

/// Why the ops from `n` on cannot be applied: the first problem among them.
pub open spec fn ops_problem(
    model: Model,
    blanks: Blanks,
    ops: Seq<Op>,
    n: int,
) -> Option<Problem<Seq<char>>>
    decreases ops.len() - n,
{
    if n >= ops.len() {
        None
    } else {
        match op_problem(model_after(model, blanks, ops, n), ops[n]) {
            Some(problem) => Some(problem),
            None => ops_problem(model, blanks, ops, n + 1),
        }
    }
}

/// Why the set is rejected: the first op that cannot be applied, or the first
/// thing wrong with what the whole set leaves.
pub open spec fn set_problem(
    model: Model,
    blanks: Blanks,
    ops: Seq<Op>,
    facts: Facts,
) -> Option<Problem<Seq<char>>> {
    match ops_problem(model, blanks, ops, 0) {
        Some(problem) => Some(problem),
        None => validate::model_problem(model_after(model, blanks, ops, ops.len() as int), facts),
    }
}

/// Create the object or find it, and put the patch's fields in place; true
/// when the object is new or now has another value. This is what keeps a set
/// that is applied again from leaving anything to rebuild.
fn upsert<T: Patched<P> + Same + Duplicate, P>(
    table: &mut Table<String, T>,
    name: &String,
    blank: &T,
    patch: &P,
) -> (r: bool)
    ensures
        final(table)@ == old(table)@.insert(
            name@,
            upserted(old(table)@, *blank, name@, *patch),
        ),
        r == changes(old(table)@, *blank, name@, *patch),
{
    let (value, changed) = match table.get(name) {
        Some(existing) => {
            let value = existing.merge(patch);
            let changed = !value.is_same(existing);
            (value, changed)
        },
        None => (blank.merge(patch), true),
    };
    let _ = table.insert(name.duplicate(), value);
    changed
}

impl Objects {
    /// Drop the named object; false if it was never there.
    pub fn remove(&mut self, kind: Kind, name: &String) -> (r: bool)
        ensures
            final(self)@ == without(old(self)@, kind, name@),
            r == holds(old(self)@, kind, name@),
    {
        match kind {
            Kind::Mesh => self.meshes.remove(name).is_some(),
            Kind::Curves => self.curves.remove(name).is_some(),
            Kind::Instance => self.instances.remove(name).is_some(),
            Kind::Material => self.materials.remove(name).is_some(),
            Kind::Medium => self.media.remove(name).is_some(),
            Kind::Light => self.lights.remove(name).is_some(),
            Kind::Camera => self.cameras.remove(name).is_some(),
            Kind::Environment => self.environments.remove(name).is_some(),
            Kind::Settings => self.settings.remove(name).is_some(),
        }
    }
}

/// Merge one op into the working copy, recording what it leaves to rebuild. A
/// refused op leaves the copy and the record as they were.
pub fn apply_op(objects: &mut Objects, dirty: &mut Dirty, blanks: &Blanks, op: &Op) -> (r: Result<
    (),
    SceneError,
>)
    ensures
        r is Ok == op_problem(old(objects)@, *op) is None,
        r matches Err(e) ==> op_problem(old(objects)@, *op) == Some(e@),
        r is Ok ==> final(objects)@ == op_model(old(objects)@, *blanks, *op),
        r is Ok ==> final(dirty)@ == op_dirt(old(objects)@, *blanks, old(dirty)@, *op),
        r is Err ==> final(objects)@ == old(objects)@ && final(dirty)@ == old(dirty)@,
{
    let (kind, name) = op.target();
    if name.as_str().is_empty() {
        return Err(Problem::EmptyName { kind });
    }
    if let Op::Instance(patch) = op {
        if patch.mesh.is_some() && patch.curves.is_some() {
            return Err(Problem::TwoGeometries { name: name.duplicate() });
        }
    }
    let changed = match op {
        Op::Mesh(patch) => upsert(&mut objects.meshes, &patch.name, &blanks.meshes, patch),
        Op::Curves(patch) => upsert(&mut objects.curves, &patch.name, &blanks.curves, patch),
        Op::Instance(patch) => upsert(&mut objects.instances, &patch.name, &blanks.instances, patch),
        Op::Material(patch) => upsert(&mut objects.materials, &patch.name, &blanks.materials, &**patch),
        Op::Medium(patch) => upsert(&mut objects.media, &patch.name, &blanks.media, patch),
        Op::Light(patch) => upsert(&mut objects.lights, &patch.name, &blanks.lights, patch),
        Op::Camera(patch) => upsert(&mut objects.cameras, &patch.name, &blanks.cameras, patch),
        Op::Environment(patch) => upsert(&mut objects.environments, &patch.name, &blanks.environments, patch),
        Op::Settings(patch) => upsert(&mut objects.settings, &patch.name, &blanks.settings, patch),
        Op::Remove(kind, name) => {
            let ghost before = objects@;
            if !objects.remove(*kind, name) {
                proof {
                    removing_nothing(before, *kind, name@);
                }
                return Err(Problem::NothingToRemove { kind: *kind, name: name.duplicate() });
            }
            dirty.changed.remove(*kind, name);
            dirty.removed.insert(*kind, name);
            return Ok(());
        },
    };
    if changed {
        dirty.changed.insert(kind, name);
    }
    Ok(())
}

} // verus!
