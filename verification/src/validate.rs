//! Validation: what must hold of a scene before it becomes visible.
//!
//! The first problem decides, kind by kind and name by name in order. Some
//! answers come from outside the model: whether a file is there, whether a
//! matrix inverts, whether two directions are parallel. Those are [`Facts`].

use vstd::prelude::*;
use vstd::string::*;

use crate::bits::{Num, Vec3};
use crate::bits;
use crate::changeset::Kind;
use crate::curves;
use crate::description::{
    Camera, CurveBasis, CurveType, CurveWrap, Curves, CurvesSource, Environment, Geometry, Instance,
    Light, Material, Medium, Mesh, MeshSource, Model, Objects, Settings, Transform, WidthInterpolation,
};
use crate::error::{Coefficient, MAX_BOUNCES_LIMIT, Owner, Problem, SceneError};
use crate::path;
use crate::path::FilePath;
use crate::table;
use crate::table::{Ranked, Table};
use crate::value::{Duplicate, Same};

verus! {

/// Where a camera stands, what it looks at, and what it calls up.
#[derive(Clone, Copy, Debug, PartialEq, Eq, Structural)]
pub struct Sight {
    /// Eye position.
    pub position: Vec3,
    /// The point the view axis passes through.
    pub look_at: Vec3,
    /// Which way is up.
    pub up: Vec3,
}

/// What the world outside the model says of the values a scene mentions.
#[derive(Debug)]
pub struct Facts {
    /// The paths that lead to a file.
    pub files: Vec<FilePath>,
    /// The placements whose matrix, or its inverse, is not finite.
    pub singular: Vec<Transform>,
    /// The sights whose up is parallel to the view axis.
    pub parallel: Vec<Sight>,
}

impl Facts {
    /// The path leads to a file.
    pub open spec fn file(self, path: FilePath) -> bool {
        exists|i: int| 0 <= i < self.files@.len() && (#[trigger] self.files@[i])@ == path@
    }

    /// The placement cannot be inverted.
    pub open spec fn degenerate(self, transform: Transform) -> bool {
        self.singular@.contains(transform)
    }

    /// Up is parallel to the view axis.
    pub open spec fn aligned(self, sight: Sight) -> bool {
        self.parallel@.contains(sight)
    }

    /// Whether the path leads to a file.
    fn is_file(&self, path: &FilePath) -> (r: bool)
        ensures
            r == self.file(*path),
    {
        for i in 0..self.files.len()
            invariant
                forall|j: int| 0 <= j < i ==> (#[trigger] self.files@[j])@ != path@,
        {
            if self.files[i].is_same(path) {
                assert(self.files@[i as int]@ == path@);
                return true;
            }
        }
        false
    }

    /// Whether the placement cannot be inverted.
    fn is_degenerate(&self, transform: &Transform) -> (r: bool)
        ensures
            r == self.degenerate(*transform),
    {
        for i in 0..self.singular.len()
            invariant
                forall|j: int| 0 <= j < i ==> self.singular@[j] != *transform,
        {
            if self.singular[i] == *transform {
                return true;
            }
        }
        false
    }

    /// Whether up is parallel to the view axis.
    fn is_aligned(&self, sight: &Sight) -> (r: bool)
        ensures
            r == self.aligned(*sight),
    {
        for i in 0..self.parallel.len()
            invariant
                forall|j: int| 0 <= j < i ==> self.parallel@[j] != *sight,
        {
            if self.parallel[i] == *sight {
                return true;
            }
        }
        false
    }
}

/// The first of two problems.
pub open spec fn either(
    first: Option<Problem<Seq<char>>>,
    second: Option<Problem<Seq<char>>>,
) -> Option<Problem<Seq<char>>> {
    match first {
        Some(problem) => Some(problem),
        None => second,
    }
}

/// The object at `name` breaks the rule, and none before it does.
pub open spec fn breaks_first<T>(
    map: Map<Seq<char>, T>,
    rule: spec_fn(Seq<char>, T) -> Option<Problem<Seq<char>>>,
    name: Seq<char>,
) -> bool {
    &&& map.contains_key(name)
    &&& rule(name, map[name]) is Some
    &&& forall|other: Seq<char>| #[trigger]
        map.contains_key(other) && String::precedes(other, name) ==> rule(other, map[other]) is None
}

/// What is wrong with the first object, in name order, that breaks the rule.
pub open spec fn first_problem<T>(
    map: Map<Seq<char>, T>,
    rule: spec_fn(Seq<char>, T) -> Option<Problem<Seq<char>>>,
) -> Option<Problem<Seq<char>>> {
    if exists|name: Seq<char>| breaks_first(map, rule, name) {
        let name = choose|name: Seq<char>| breaks_first(map, rule, name);
        rule(name, map[name])
    } else {
        None
    }
}

/// The first entry that breaks the rule is the first object that does.
pub proof fn listed_first<T>(
    table: Table<String, T>,
    rule: spec_fn(Seq<char>, T) -> Option<Problem<Seq<char>>>,
    at: int,
)
    requires
        table::ascending(table.listed()),
        0 <= at < table.listed().len(),
        table@.contains_key(table.listed()[at].0@),
        table@[table.listed()[at].0@] == table.listed()[at].1,
        forall|i: int|
            0 <= i < at ==> rule((#[trigger] table.listed()[i]).0@, table@[table.listed()[i].0@]) is None,
        rule(table.listed()[at].0@, table.listed()[at].1) is Some,
    ensures
        first_problem(table@, rule) == rule(table.listed()[at].0@, table.listed()[at].1),
{
    let entries = table.listed();
    let name = entries[at].0@;
    assert forall|other: Seq<char>| #[trigger]
        table@.contains_key(other) && String::precedes(other, name) implies rule(
        other,
        table@[other],
    ) is None by {
        let i = table::position::<String, T>(entries, other);
        assert(entries[i].0@ == other);
        if i == at {
            String::never_precedes_itself(name);
        } else if at < i {
            String::precedes_transitively(name, other, name);
            String::never_precedes_itself(name);
        }
    }
    assert(breaks_first(table@, rule, name));
    let chosen = choose|name: Seq<char>| breaks_first(table@, rule, name);
    if chosen != name {
        String::precedes_one_way(chosen, name);
    }
}

/// If no entry breaks the rule, no object does.
pub proof fn listed_none<T>(
    table: Table<String, T>,
    rule: spec_fn(Seq<char>, T) -> Option<Problem<Seq<char>>>,
)
    requires
        forall|i: int|
            0 <= i < table.listed().len() ==> rule(
                (#[trigger] table.listed()[i]).0@,
                table@[table.listed()[i].0@],
            ) is None,
    ensures
        first_problem(table@, rule) is None,
        forall|name: Seq<char>| #[trigger]
            table@.contains_key(name) ==> rule(name, table@[name]) is None,
{
    assert forall|name: Seq<char>| #[trigger] table@.contains_key(name) implies rule(
        name,
        table@[name],
    ) is None by {
        let i = table::position::<String, T>(table.listed(), name);
        assert(table.listed()[i].0@ == name);
    }
}

/// What is wrong with a file reference.
pub open spec fn path_problem(
    owner: Owner<Seq<char>>,
    path: FilePath,
    facts: Facts,
) -> Option<Problem<Seq<char>>> {
    if path.text@.len() == 0 {
        Some(Problem::NoPath { owner })
    } else if !path::absolute(path.text@) {
        Some(Problem::RelativePath { owner, path: path.text@ })
    } else if !facts.file(path) {
        Some(Problem::MissingFile { owner, path: path.text@ })
    } else {
        None
    }
}

/// Referenced files must be there, and must already be absolute: relative
/// paths mean relative to the scene file, and are rebased when it is loaded.
pub fn validate_path(owner: Owner<String>, path: &FilePath, facts: &Facts) -> (r: Result<
    (),
    SceneError,
>)
    ensures
        r is Ok == path_problem(owner@, *path, *facts) is None,
        r matches Err(e) ==> path_problem(owner@, *path, *facts) == Some(e@),
{
    if path.is_empty() {
        return Err(Problem::NoPath { owner });
    }
    if !path.is_absolute() {
        return Err(Problem::RelativePath { owner, path: path.text.duplicate() });
    }
    if !facts.is_file(path) {
        return Err(Problem::MissingFile { owner, path: path.text.duplicate() });
    }
    Ok(())
}

/// Some corner of some triangle names none of the `count` positions.
pub open spec fn strays(triangles: Seq<[u32; 3]>, count: int) -> bool {
    exists|i: int, j: int|
        0 <= i < triangles.len() && 0 <= j < 3 && (#[trigger] triangles[i]@[j]) >= count
}

/// What is wrong with a mesh.
pub open spec fn mesh_problem(name: Seq<char>, mesh: Mesh, facts: Facts) -> Option<
    Problem<Seq<char>>,
> {
    match mesh.source {
        MeshSource::Inline { positions, normals, uvs, triangles } => if positions@.len() == 0
            || triangles@.len() == 0 {
            Some(Problem::NoGeometry { name })
        } else if normals is Some && normals->0@.len() != positions@.len() {
            Some(
                Problem::NormalCount {
                    name,
                    normals: normals->0@.len() as usize,
                    positions: positions@.len() as usize,
                },
            )
        } else if uvs is Some && uvs->0@.len() != positions@.len() {
            Some(
                Problem::UvCount {
                    name,
                    uvs: uvs->0@.len() as usize,
                    positions: positions@.len() as usize,
                },
            )
        } else if strays(triangles@, positions@.len() as int) {
            Some(Problem::IndexOutOfBounds { name })
        } else {
            None
        },
        MeshSource::Ply { path } => path_problem(Owner::Mesh(name), path, facts),
        MeshSource::MediumBounds => None,
    }
}

/// Whether some triangle names a position that is not there.
fn any_stray(triangles: &Vec<[u32; 3]>, count: usize) -> (r: bool)
    ensures
        r == strays(triangles@, count as int),
{
    for i in 0..triangles.len()
        invariant
            forall|k: int, j: int|
                0 <= k < i && 0 <= j < 3 ==> (#[trigger] triangles@[k]@[j]) < count,
    {
        let corners = triangles[i];
        if corners[0] as usize >= count {
            assert(triangles@[i as int]@[0] >= count);
            return true;
        }
        if corners[1] as usize >= count {
            assert(triangles@[i as int]@[1] >= count);
            return true;
        }
        if corners[2] as usize >= count {
            assert(triangles@[i as int]@[2] >= count);
            return true;
        }
    }
    false
}

/// Check a mesh: inline geometry must be there and consistent, and a file
/// must be.
pub fn validate_mesh(name: &String, mesh: &Mesh, facts: &Facts) -> (r: Result<(), SceneError>)
    ensures
        r is Ok == mesh_problem(name@, *mesh, *facts) is None,
        r matches Err(e) ==> mesh_problem(name@, *mesh, *facts) == Some(e@),
{
    match &mesh.source {
        MeshSource::Inline { positions, normals, uvs, triangles } => {
            let count: usize = positions.len();
            if count == 0 || triangles.len() == 0 {
                return Err(Problem::NoGeometry { name: name.duplicate() });
            }
            if let Some(normals) = normals {
                if normals.len() != count {
                    return Err(
                        Problem::NormalCount {
                            name: name.duplicate(),
                            normals: normals.len(),
                            positions: count,
                        },
                    );
                }
            }
            if let Some(uvs) = uvs {
                if uvs.len() != count {
                    return Err(
                        Problem::UvCount {
                            name: name.duplicate(),
                            uvs: uvs.len(),
                            positions: count,
                        },
                    );
                }
            }
            if any_stray(triangles, count) {
                return Err(Problem::IndexOutOfBounds { name: name.duplicate() });
            }
            Ok(())
        },
        MeshSource::Ply { path } => validate_path(Owner::Mesh(name.duplicate()), path, facts),
        MeshSource::MediumBounds => Ok(()),
    }
}

/// How many control points the first `n` curves take.
pub open spec fn vertices_before(counts: Seq<u32>, n: int) -> int
    decreases n,
{
    if n <= 0 {
        0
    } else {
        vertices_before(counts, n - 1) + counts[n - 1]
    }
}

/// How many segment ends the first `n` curves have.
pub open spec fn ends_before(
    counts: Seq<u32>,
    curve_type: CurveType,
    basis: CurveBasis,
    wrap: CurveWrap,
    n: int,
) -> int
    decreases n,
{
    if n <= 0 {
        0
    } else {
        ends_before(counts, curve_type, basis, wrap, n - 1) + curves::segments_of(
            counts[n - 1] as int,
            curve_type,
            basis,
            wrap,
        )->0 + 1
    }
}

/// The first curve from `n` on that cannot be walked, if there is one.
pub open spec fn first_bad_curve(
    counts: Seq<u32>,
    curve_type: CurveType,
    basis: CurveBasis,
    wrap: CurveWrap,
    n: int,
) -> Option<int>
    decreases counts.len() - n,
{
    if n >= counts.len() {
        None
    } else if curves::segments_of(counts[n] as int, curve_type, basis, wrap) is None {
        Some(n)
    } else {
        first_bad_curve(counts, curve_type, basis, wrap, n + 1)
    }
}

/// How many values a width stream must hold.
pub open spec fn widths_expected(
    interpolation: WidthInterpolation,
    counts: Seq<u32>,
    curve_type: CurveType,
    basis: CurveBasis,
    wrap: CurveWrap,
) -> int {
    match interpolation {
        WidthInterpolation::Constant => 1,
        WidthInterpolation::Uniform => counts.len() as int,
        WidthInterpolation::Varying => ends_before(
            counts,
            curve_type,
            basis,
            wrap,
            counts.len() as int,
        ),
        WidthInterpolation::Vertex => vertices_before(counts, counts.len() as int),
    }
}

/// What is wrong with a curve batch.
pub open spec fn curves_problem(name: Seq<char>, batch: Curves, facts: Facts) -> Option<
    Problem<Seq<char>>,
> {
    match batch.source {
        CurvesSource::Hair { path } => path_problem(Owner::Curves(name), path, facts),
        CurvesSource::Inline { points, curve_vertex_counts, widths, curve_type, basis, wrap } => {
            let counts = curve_vertex_counts@;
            let bad = first_bad_curve(counts, curve_type, basis, wrap, 0);
            let vertices = vertices_before(counts, counts.len() as int);
            if counts.len() == 0 {
                Some(Problem::NoCurves { name })
            } else if wrap == CurveWrap::Periodic {
                Some(Problem::PeriodicCurves { name })
            } else if bad is Some {
                Some(
                    Problem::BadCurve {
                        name,
                        index: bad->0 as usize,
                        problem: curves::segment_problem(
                            counts[bad->0] as usize,
                            curve_type,
                            basis,
                            wrap,
                        ),
                    },
                )
            } else if vertices != points@.len() {
                Some(
                    Problem::PointCount {
                        name,
                        vertices: vertices as u128,
                        curves: counts.len() as usize,
                        points: points@.len() as usize,
                    },
                )
            } else if widths is Some && widths->0.values@.len() != widths_expected(
                widths->0.interpolation,
                counts,
                curve_type,
                basis,
                wrap,
            ) {
                Some(
                    Problem::WidthCount {
                        name,
                        values: widths->0.values@.len() as usize,
                        interpolation: widths->0.interpolation,
                        expected: widths_expected(
                            widths->0.interpolation,
                            counts,
                            curve_type,
                            basis,
                            wrap,
                        ) as u128,
                    },
                )
            } else {
                None
            }
        },
    }
}

/// Check a curve batch: the vertex counts must partition the points, each
/// must be one that a segment rule accepts, and the width stream must hold
/// exactly as many values as its rule says.
pub fn validate_curves(name: &String, batch: &Curves, facts: &Facts) -> (r: Result<(), SceneError>)
    ensures
        r is Ok == curves_problem(name@, *batch, *facts) is None,
        r matches Err(e) ==> curves_problem(name@, *batch, *facts) == Some(e@),
{
    match &batch.source {
        CurvesSource::Hair { path } => validate_path(Owner::Curves(name.duplicate()), path, facts),
        CurvesSource::Inline { points, curve_vertex_counts, widths, curve_type, basis, wrap } => {
            let ghost counts = curve_vertex_counts@;
            let curves: usize = curve_vertex_counts.len();
            if curves == 0 {
                return Err(Problem::NoCurves { name: name.duplicate() });
            }
            if *wrap == CurveWrap::Periodic {
                return Err(Problem::PeriodicCurves { name: name.duplicate() });
            }
            let mut vertices: u128 = 0;
            let mut ends: u128 = 0;
            for index in 0..curves
                invariant
                    counts == curve_vertex_counts@,
                    curves == counts.len(),
                    *wrap != CurveWrap::Periodic,
                    *batch == (Curves {
                        source: CurvesSource::Inline {
                            points: *points,
                            curve_vertex_counts: *curve_vertex_counts,
                            widths: *widths,
                            curve_type: *curve_type,
                            basis: *basis,
                            wrap: *wrap,
                        },
                    }),
                    vertices == vertices_before(counts, index as int),
                    ends == ends_before(counts, *curve_type, *basis, *wrap, index as int),
                    vertices <= index * 0xffff_ffff,
                    ends <= index * 0x1_0000_0000,
                    first_bad_curve(counts, *curve_type, *basis, *wrap, 0) == first_bad_curve(
                        counts,
                        *curve_type,
                        *basis,
                        *wrap,
                        index as int,
                    ),
            {
                let count: usize = curve_vertex_counts[index] as usize;
                match curves::segment_count(count, *curve_type, *basis, *wrap) {
                    Ok(segments) => {
                        vertices = vertices + count as u128;
                        ends = ends + (segments as u128 + 1);
                    },
                    Err(problem) => {
                        return Err(
                            Problem::BadCurve { name: name.duplicate(), index, problem },
                        );
                    },
                }
            }
            if vertices != points.len() as u128 {
                return Err(
                    Problem::PointCount {
                        name: name.duplicate(),
                        vertices,
                        curves,
                        points: points.len(),
                    },
                );
            }
            if let Some(widths) = widths {
                let expected: u128 = match widths.interpolation {
                    WidthInterpolation::Constant => 1,
                    WidthInterpolation::Uniform => curves as u128,
                    WidthInterpolation::Varying => ends,
                    WidthInterpolation::Vertex => vertices,
                };
                if widths.values.len() as u128 != expected {
                    return Err(
                        Problem::WidthCount {
                            name: name.duplicate(),
                            values: widths.values.len(),
                            interpolation: widths.interpolation,
                            expected,
                        },
                    );
                }
            }
            Ok(())
        },
    }
}

/// What is wrong with a reference an instance holds.
pub open spec fn reference_problem<T>(
    map: Map<Seq<char>, T>,
    kind: Kind,
    instance: Seq<char>,
    reference: Seq<char>,
) -> Option<Problem<Seq<char>>> {
    if reference.len() == 0 {
        Some(Problem::NeverGiven { kind, instance })
    } else if !map.contains_key(reference) {
        Some(Problem::Dangling { kind, instance, reference })
    } else {
        None
    }
}

/// Check that a reference was given and resolves.
pub fn validate_reference<T>(
    table: &Table<String, T>,
    kind: Kind,
    instance: &String,
    reference: &String,
) -> (r: Result<(), SceneError>)
    ensures
        r is Ok == reference_problem(table@, kind, instance@, reference@) is None,
        r matches Err(e) ==> reference_problem(table@, kind, instance@, reference@) == Some(e@),
{
    if reference.as_str().is_empty() {
        return Err(Problem::NeverGiven { kind, instance: instance.duplicate() });
    }
    if !table.contains_key(reference) {
        return Err(
            Problem::Dangling {
                kind,
                instance: instance.duplicate(),
                reference: reference.duplicate(),
            },
        );
    }
    Ok(())
}

/// The instance bounds a medium that a grid fills.
pub open spec fn bounds_grid(model: Model, instance: Instance) -> bool {
    instance.medium is Some && model.media.contains_key(instance.medium->0@)
        && model.media[instance.medium->0@].volume is Some
}

/// The instance places the shell of a heterogeneous medium.
pub open spec fn places_shell(model: Model, instance: Instance) -> bool {
    match instance.geometry {
        Geometry::Mesh(mesh) => model.meshes.contains_key(mesh@)
            && model.meshes[mesh@].source is MediumBounds,
        Geometry::Curves(_) => false,
    }
}

/// The first placement from `n` on that cannot be inverted, if there is one.
pub open spec fn first_singular(transforms: Seq<Transform>, facts: Facts, n: int) -> Option<int>
    decreases transforms.len() - n,
{
    if n >= transforms.len() {
        None
    } else if facts.degenerate(transforms[n]) {
        Some(n)
    } else {
        first_singular(transforms, facts, n + 1)
    }
}

/// What is wrong with an instance.
pub open spec fn instance_problem(
    model: Model,
    name: Seq<char>,
    instance: Instance,
    facts: Facts,
) -> Option<Problem<Seq<char>>> {
    let geometry = match instance.geometry {
        Geometry::Mesh(mesh) => reference_problem(model.meshes, Kind::Mesh, name, mesh@),
        Geometry::Curves(batch) => reference_problem(model.curves, Kind::Curves, name, batch@),
    };
    let material = reference_problem(model.materials, Kind::Material, name, instance.material@);
    let singular = first_singular(instance.transforms@, facts, 0);
    if geometry is Some {
        geometry
    } else if material is Some {
        material
    } else if instance.medium is Some && !model.media.contains_key(instance.medium->0@) {
        Some(Problem::MissingMedium { instance: name, medium: instance.medium->0@ })
    } else if bounds_grid(model, instance) && !places_shell(model, instance) {
        Some(Problem::UserMeshUnderGrid { instance: name })
    } else if places_shell(model, instance) && !bounds_grid(model, instance) {
        Some(Problem::ShellWithoutGrid { instance: name })
    } else if singular is Some {
        Some(Problem::SingularPlacement { instance: name, element: singular->0 as usize })
    } else {
        None
    }
}

/// Check an instance: its references resolve, a heterogeneous medium pairs
/// with the shell and nothing else, and every placement inverts.
pub fn validate_instance(
    objects: &Objects,
    name: &String,
    instance: &Instance,
    facts: &Facts,
) -> (r: Result<(), SceneError>)
    ensures
        r is Ok == instance_problem(objects@, name@, *instance, *facts) is None,
        r matches Err(e) ==> instance_problem(objects@, name@, *instance, *facts) == Some(e@),
{
    match &instance.geometry {
        Geometry::Mesh(mesh) => {
            if let Err(problem) = validate_reference(&objects.meshes, Kind::Mesh, name, mesh) {
                return Err(problem);
            }
        },
        Geometry::Curves(batch) => {
            if let Err(problem) = validate_reference(&objects.curves, Kind::Curves, name, batch) {
                return Err(problem);
            }
        },
    }
    if let Err(problem) = validate_reference(
        &objects.materials,
        Kind::Material,
        name,
        &instance.material,
    ) {
        return Err(problem);
    }
    let mut heterogeneous = false;
    if let Some(medium) = &instance.medium {
        match objects.media.get(medium) {
            Some(found) => {
                heterogeneous = found.volume.is_some();
            },
            None => {
                return Err(
                    Problem::MissingMedium {
                        instance: name.duplicate(),
                        medium: medium.duplicate(),
                    },
                );
            },
        }
    }
    let shell = match &instance.geometry {
        Geometry::Mesh(mesh) => match objects.meshes.get(mesh) {
            Some(found) => matches!(found.source, MeshSource::MediumBounds),
            None => false,
        },
        Geometry::Curves(_) => false,
    };
    if heterogeneous && !shell {
        return Err(Problem::UserMeshUnderGrid { instance: name.duplicate() });
    }
    if shell && !heterogeneous {
        return Err(Problem::ShellWithoutGrid { instance: name.duplicate() });
    }
    let ghost transforms = instance.transforms@;
    for element in 0..instance.transforms.len()
        invariant
            transforms == instance.transforms@,
            instance_problem(objects@, name@, *instance, *facts) == (match first_singular(
                transforms,
                *facts,
                0,
            ) {
                Some(at) => Some(
                    Problem::SingularPlacement { instance: name@, element: at as usize },
                ),
                None => None,
            }),
            first_singular(transforms, *facts, 0) == first_singular(
                transforms,
                *facts,
                element as int,
            ),
    {
        if facts.is_degenerate(&instance.transforms[element]) {
            return Err(Problem::SingularPlacement { instance: name.duplicate(), element });
        }
    }
    Ok(())
}

/// The first of a material's textures from `n` on that is not there.
pub open spec fn textures_problem(
    name: Seq<char>,
    material: Material,
    facts: Facts,
    n: int,
) -> Option<Problem<Seq<char>>>
    decreases material.references().len() - n,
{
    if n >= material.references().len() {
        None
    } else {
        either(
            path_problem(Owner::Texture(name), material.references()[n].path, facts),
            textures_problem(name, material, facts, n + 1),
        )
    }
}

/// Check that a material's textures are there.
pub fn validate_material(name: &String, material: &Material, facts: &Facts) -> (r: Result<
    (),
    SceneError,
>)
    ensures
        r is Ok == textures_problem(name@, *material, *facts, 0) is None,
        r matches Err(e) ==> textures_problem(name@, *material, *facts, 0) == Some(e@),
{
    let textures = material.textures();
    for i in 0..textures.len()
        invariant
            textures@.len() == material.references().len(),
            forall|j: int|
                0 <= j < textures@.len() ==> *(#[trigger] textures@[j]) == material.references()[j],
            textures_problem(name@, *material, *facts, 0) == textures_problem(
                name@,
                *material,
                *facts,
                i as int,
            ),
    {
        assert(*textures@[i as int] == material.references()[i as int]);
        if let Err(problem) = validate_path(
            Owner::Texture(name.duplicate()),
            &textures[i].path,
            facts,
        ) {
            return Err(problem);
        }
    }
    Ok(())
}

/// What is wrong with a light.
pub open spec fn light_problem(name: Seq<char>, light: Light) -> Option<Problem<Seq<char>>> {
    match light {
        Light::Distant { direction, .. } => if direction.zero() {
            Some(Problem::ZeroDirection { light: name })
        } else {
            None
        },
        Light::Point { .. } => None,
    }
}

/// Check that a distant light has a direction.
pub fn validate_light(name: &String, light: &Light) -> (r: Result<(), SceneError>)
    ensures
        r is Ok == light_problem(name@, *light) is None,
        r matches Err(e) ==> light_problem(name@, *light) == Some(e@),
{
    if let Light::Distant { direction, .. } = light {
        if direction.is_zero() {
            return Err(Problem::ZeroDirection { light: name.duplicate() });
        }
    }
    Ok(())
}

/// The difference of two numbers is zero: both are finite, and equal.
pub open spec fn no_distance(a: Num, b: Num) -> bool {
    a.finite() && b.finite() && a.equal(b)
}

/// The difference of two points is zero.
pub open spec fn coincide(a: Vec3, b: Vec3) -> bool {
    no_distance(a.x, b.x) && no_distance(a.y, b.y) && no_distance(a.z, b.z)
}

fn is_no_distance(a: &Num, b: &Num) -> (r: bool)
    ensures
        r == no_distance(*a, *b),
{
    a.is_finite() && b.is_finite() && a.equals(b)
}

/// What is wrong with a camera.
pub open spec fn camera_problem(name: Seq<char>, camera: Camera, facts: Facts) -> Option<
    Problem<Seq<char>>,
> {
    let sight = Sight { position: camera.position, look_at: camera.look_at, up: camera.up };
    let fov = camera.vfov_degrees;
    if coincide(camera.look_at, camera.position) {
        Some(Problem::Coincident { camera: name })
    } else if facts.aligned(sight) {
        Some(Problem::ParallelUp { camera: name })
    } else if !(fov.finite() && Num::new(0).below(fov) && fov.below(Num::new(bits::HALF_TURN))) {
        Some(Problem::FieldOfView { camera: name, value: fov })
    } else if camera.focus_distance is Some && !Num::new(0).below(camera.focus_distance->0) {
        Some(Problem::FocusDistance { camera: name, value: camera.focus_distance->0 })
    } else if camera.aperture_radius.nan() || camera.aperture_radius.below(Num::new(0)) {
        Some(Problem::Aperture { camera: name, value: camera.aperture_radius })
    } else {
        None
    }
}

/// Check that a camera sees something, the right way up, through a lens that
/// can be.
pub fn validate_camera(name: &String, camera: &Camera, facts: &Facts) -> (r: Result<(), SceneError>)
    ensures
        r is Ok == camera_problem(name@, *camera, *facts) is None,
        r matches Err(e) ==> camera_problem(name@, *camera, *facts) == Some(e@),
{
    let to = camera.look_at;
    let from = camera.position;
    if is_no_distance(&to.x, &from.x) && is_no_distance(&to.y, &from.y) && is_no_distance(
        &to.z,
        &from.z,
    ) {
        return Err(Problem::Coincident { camera: name.duplicate() });
    }
    let sight = Sight { position: from, look_at: to, up: camera.up };
    if facts.is_aligned(&sight) {
        return Err(Problem::ParallelUp { camera: name.duplicate() });
    }
    let fov = camera.vfov_degrees;
    if !fov.is_finite() || !fov.is_positive() || !fov.is_below(&Num::new(bits::HALF_TURN)) {
        return Err(Problem::FieldOfView { camera: name.duplicate(), value: fov });
    }
    if let Some(distance) = camera.focus_distance {
        if !distance.is_positive() {
            return Err(Problem::FocusDistance { camera: name.duplicate(), value: distance });
        }
    }
    if camera.aperture_radius.is_nan() || camera.aperture_radius.is_negative() {
        return Err(Problem::Aperture { camera: name.duplicate(), value: camera.aperture_radius });
    }
    Ok(())
}

/// What is wrong with an environment.
pub open spec fn environment_problem(
    name: Seq<char>,
    environment: Environment,
    facts: Facts,
) -> Option<Problem<Seq<char>>> {
    let file = match environment.path {
        Some(path) => path_problem(Owner::Environment(name), path, facts),
        None => None,
    };
    if file is Some {
        file
    } else if facts.degenerate(environment.transform) {
        Some(Problem::SingularSky { environment: name })
    } else {
        None
    }
}

/// Check that an environment's image is there and its placement inverts.
pub fn validate_environment(name: &String, environment: &Environment, facts: &Facts) -> (r: Result<
    (),
    SceneError,
>)
    ensures
        r is Ok == environment_problem(name@, *environment, *facts) is None,
        r matches Err(e) ==> environment_problem(name@, *environment, *facts) == Some(e@),
{
    if let Some(path) = &environment.path {
        if let Err(problem) = validate_path(Owner::Environment(name.duplicate()), path, facts) {
            return Err(problem);
        }
    }
    if facts.is_degenerate(&environment.transform) {
        return Err(Problem::SingularSky { environment: name.duplicate() });
    }
    Ok(())
}

/// A coefficient that attenuates: finite, and not below zero.
pub open spec fn attenuates(channel: Num) -> bool {
    channel.finite() && !channel.below(Num::new(0))
}

/// Every channel attenuates.
pub open spec fn physical(coefficient: Vec3) -> bool {
    attenuates(coefficient.x) && attenuates(coefficient.y) && attenuates(coefficient.z)
}

fn is_physical(coefficient: &Vec3) -> (r: bool)
    ensures
        r == physical(*coefficient),
{
    coefficient.x.is_finite() && !coefficient.x.is_negative() && coefficient.y.is_finite()
        && !coefficient.y.is_negative() && coefficient.z.is_finite() && !coefficient.z.is_negative()
}

/// What is wrong with a medium.
pub open spec fn medium_problem(name: Seq<char>, medium: Medium, facts: Facts) -> Option<
    Problem<Seq<char>>,
> {
    if !physical(medium.absorption) {
        Some(
            Problem::Coefficient {
                medium: name,
                what: Coefficient::Absorption,
                channels: medium.absorption,
            },
        )
    } else if !physical(medium.scattering) {
        Some(
            Problem::Coefficient {
                medium: name,
                what: Coefficient::Scattering,
                channels: medium.scattering,
            },
        )
    } else if !medium.anisotropy.finite() {
        Some(Problem::Anisotropy { medium: name, value: medium.anisotropy })
    } else {
        match medium.volume {
            Some(volume) => either(
                path_problem(Owner::Volume(name), volume.path, facts),
                if volume.grid@.len() == 0 {
                    Some(Problem::NoGrid { medium: name })
                } else {
                    None
                },
            ),
            None => None,
        }
    }
}

/// Check that a medium attenuates: a negative extinction amplifies, and one
/// path's runaway throughput reaches the whole image.
pub fn validate_medium(name: &String, medium: &Medium, facts: &Facts) -> (r: Result<(), SceneError>)
    ensures
        r is Ok == medium_problem(name@, *medium, *facts) is None,
        r matches Err(e) ==> medium_problem(name@, *medium, *facts) == Some(e@),
{
    if !is_physical(&medium.absorption) {
        return Err(
            Problem::Coefficient {
                medium: name.duplicate(),
                what: Coefficient::Absorption,
                channels: medium.absorption,
            },
        );
    }
    if !is_physical(&medium.scattering) {
        return Err(
            Problem::Coefficient {
                medium: name.duplicate(),
                what: Coefficient::Scattering,
                channels: medium.scattering,
            },
        );
    }
    if !medium.anisotropy.is_finite() {
        return Err(Problem::Anisotropy { medium: name.duplicate(), value: medium.anisotropy });
    }
    if let Some(volume) = &medium.volume {
        if let Err(problem) = validate_path(Owner::Volume(name.duplicate()), &volume.path, facts) {
            return Err(problem);
        }
        if volume.grid.as_str().is_empty() {
            return Err(Problem::NoGrid { medium: name.duplicate() });
        }
    }
    Ok(())
}

/// A fraction, in (0, 1].
pub open spec fn fraction(value: Num) -> bool {
    value.finite() && Num::new(0).below(value) && !Num::new(bits::ONE).below(value)
}

/// What is wrong with settings.
pub open spec fn settings_problem(model: Model, name: Seq<char>, settings: Settings) -> Option<
    Problem<Seq<char>>,
> {
    if settings.global_medium is Some && !model.media.contains_key(settings.global_medium->0@) {
        Some(
            Problem::MissingGlobalMedium { settings: name, medium: settings.global_medium->0@ },
        )
    } else if settings.global_medium is Some
        && model.media[settings.global_medium->0@].volume is Some {
        Some(
            Problem::BoundedGlobalMedium { settings: name, medium: settings.global_medium->0@ },
        )
    } else if settings.resolution@[0] == 0 || settings.resolution@[1] == 0 {
        Some(Problem::ZeroResolution { settings: name })
    } else if settings.spp == 0 || settings.max_bounces == 0 {
        Some(Problem::ZeroBudget { settings: name })
    } else if settings.max_bounces > MAX_BOUNCES_LIMIT {
        Some(Problem::TooDeep { settings: name, max_bounces: settings.max_bounces })
    } else if settings.noise_threshold is Some && !fraction(settings.noise_threshold->0) {
        Some(Problem::NoiseThreshold { settings: name, value: settings.noise_threshold->0 })
    } else {
        None
    }
}

/// Check settings: the global medium resolves and has no bounds, and the
/// numbers are ones the renderer can count with.
pub fn validate_settings(objects: &Objects, name: &String, settings: &Settings) -> (r: Result<
    (),
    SceneError,
>)
    ensures
        r is Ok == settings_problem(objects@, name@, *settings) is None,
        r matches Err(e) ==> settings_problem(objects@, name@, *settings) == Some(e@),
{
    if let Some(medium) = &settings.global_medium {
        match objects.media.get(medium) {
            Some(found) => {
                if found.volume.is_some() {
                    return Err(
                        Problem::BoundedGlobalMedium {
                            settings: name.duplicate(),
                            medium: medium.duplicate(),
                        },
                    );
                }
            },
            None => {
                return Err(
                    Problem::MissingGlobalMedium {
                        settings: name.duplicate(),
                        medium: medium.duplicate(),
                    },
                );
            },
        }
    }
    if settings.resolution[0] == 0 || settings.resolution[1] == 0 {
        return Err(Problem::ZeroResolution { settings: name.duplicate() });
    }
    if settings.spp == 0 || settings.max_bounces == 0 {
        return Err(Problem::ZeroBudget { settings: name.duplicate() });
    }
    if settings.max_bounces > MAX_BOUNCES_LIMIT {
        return Err(
            Problem::TooDeep { settings: name.duplicate(), max_bounces: settings.max_bounces },
        );
    }
    if let Some(threshold) = settings.noise_threshold {
        if !threshold.is_finite() || !threshold.is_positive() || Num::new(bits::ONE).is_below(
            &threshold,
        ) {
            return Err(Problem::NoiseThreshold { settings: name.duplicate(), value: threshold });
        }
    }
    Ok(())
}

/// The rule that every object of its kind must keep.
pub open spec fn mesh_rule(facts: Facts) -> spec_fn(Seq<char>, Mesh) -> Option<Problem<Seq<char>>> {
    |name: Seq<char>, object: Mesh| mesh_problem(name, object, facts)
}

/// The rule that every object of its kind must keep.
pub open spec fn curves_rule(facts: Facts) -> spec_fn(Seq<char>, Curves) -> Option<Problem<Seq<char>>> {
    |name: Seq<char>, object: Curves| curves_problem(name, object, facts)
}

/// The rule that every object of its kind must keep.
pub open spec fn instance_rule(model: Model, facts: Facts) -> spec_fn(Seq<char>, Instance) -> Option<Problem<Seq<char>>> {
    |name: Seq<char>, object: Instance| instance_problem(model, name, object, facts)
}

/// The rule that every object of its kind must keep.
pub open spec fn material_rule(facts: Facts) -> spec_fn(Seq<char>, Material) -> Option<Problem<Seq<char>>> {
    |name: Seq<char>, object: Material| textures_problem(name, object, facts, 0)
}

/// The rule that every object of its kind must keep.
pub open spec fn light_rule() -> spec_fn(Seq<char>, Light) -> Option<Problem<Seq<char>>> {
    |name: Seq<char>, object: Light| light_problem(name, object)
}

/// The rule that every object of its kind must keep.
pub open spec fn camera_rule(facts: Facts) -> spec_fn(Seq<char>, Camera) -> Option<Problem<Seq<char>>> {
    |name: Seq<char>, object: Camera| camera_problem(name, object, facts)
}

/// The rule that every object of its kind must keep.
pub open spec fn environment_rule(facts: Facts) -> spec_fn(Seq<char>, Environment) -> Option<Problem<Seq<char>>> {
    |name: Seq<char>, object: Environment| environment_problem(name, object, facts)
}

/// The rule that every object of its kind must keep.
pub open spec fn medium_rule(facts: Facts) -> spec_fn(Seq<char>, Medium) -> Option<Problem<Seq<char>>> {
    |name: Seq<char>, object: Medium| medium_problem(name, object, facts)
}

/// The rule that every object of its kind must keep.
pub open spec fn settings_rule(model: Model) -> spec_fn(Seq<char>, Settings) -> Option<Problem<Seq<char>>> {
    |name: Seq<char>, object: Settings| settings_problem(model, name, object)
}

/// The first thing wrong with a model: meshes, curves, instances, textures,
/// lights, cameras, environments, media and settings, each in name order.
pub open spec fn model_problem(model: Model, facts: Facts) -> Option<Problem<Seq<char>>> {
    let meshes = first_problem(model.meshes, mesh_rule(facts));
    let curves = first_problem(model.curves, curves_rule(facts));
    let instances = first_problem(model.instances, instance_rule(model, facts));
    let materials = first_problem(model.materials, material_rule(facts));
    let lights = first_problem(model.lights, light_rule());
    let cameras = first_problem(model.cameras, camera_rule(facts));
    let environments = first_problem(model.environments, environment_rule(facts));
    let media = first_problem(model.media, medium_rule(facts));
    let settings = first_problem(model.settings, settings_rule(model));
    if meshes is Some {
        meshes
    } else if curves is Some {
        curves
    } else if instances is Some {
        instances
    } else if materials is Some {
        materials
    } else if lights is Some {
        lights
    } else if cameras is Some {
        cameras
    } else if environments is Some {
        environments
    } else if media is Some {
        media
    } else {
        settings
    }
}

/// Check the state after a set as a whole, before any of it becomes visible.
pub fn validate(objects: &Objects, facts: &Facts) -> (r: Result<(), SceneError>)
    ensures
        r is Ok == model_problem(objects@, *facts) is None,
        r matches Err(e) ==> model_problem(objects@, *facts) == Some(e@),
{
    if let Err(problem) = validate_all_meshes(objects, facts) {
        return Err(problem);
    }
    if let Err(problem) = validate_all_curves(objects, facts) {
        return Err(problem);
    }
    if let Err(problem) = validate_all_instances(objects, facts) {
        return Err(problem);
    }
    if let Err(problem) = validate_all_materials(objects, facts) {
        return Err(problem);
    }
    if let Err(problem) = validate_all_lights(objects, facts) {
        return Err(problem);
    }
    if let Err(problem) = validate_all_cameras(objects, facts) {
        return Err(problem);
    }
    if let Err(problem) = validate_all_environments(objects, facts) {
        return Err(problem);
    }
    if let Err(problem) = validate_all_media(objects, facts) {
        return Err(problem);
    }
    if let Err(problem) = validate_all_settings(objects, facts) {
        return Err(problem);
    }
    Ok(())
}

fn validate_all_meshes(objects: &Objects, facts: &Facts) -> (r: Result<(), SceneError>)
    ensures
        r is Ok == first_problem(objects@.meshes, mesh_rule(*facts)) is None,
        r matches Err(e) ==> first_problem(objects@.meshes, mesh_rule(*facts)) == Some(e@),
{
    let ghost rule = mesh_rule(*facts);
    let size: usize = objects.meshes.len();
    for i in 0..size
        invariant
            rule == mesh_rule(*facts),
            size == objects.meshes.listed().len(),
            table::ascending(objects.meshes.listed()),
            forall|j: int|
                0 <= j < i ==> rule(
                    (#[trigger] objects.meshes.listed()[j]).0@,
                    objects.meshes@[objects.meshes.listed()[j].0@],
                ) is None,
    {
        let name = objects.meshes.key_at(i);
        let object = objects.meshes.value_at(i);
        if let Err(problem) = validate_mesh(name, object, facts) {
            proof {
                listed_first(objects.meshes, rule, i as int);
            }
            return Err(problem);
        }
    }
    proof {
        listed_none(objects.meshes, rule);
    }
    Ok(())
}

fn validate_all_curves(objects: &Objects, facts: &Facts) -> (r: Result<(), SceneError>)
    ensures
        r is Ok == first_problem(objects@.curves, curves_rule(*facts)) is None,
        r matches Err(e) ==> first_problem(objects@.curves, curves_rule(*facts)) == Some(e@),
{
    let ghost rule = curves_rule(*facts);
    let size: usize = objects.curves.len();
    for i in 0..size
        invariant
            rule == curves_rule(*facts),
            size == objects.curves.listed().len(),
            table::ascending(objects.curves.listed()),
            forall|j: int|
                0 <= j < i ==> rule(
                    (#[trigger] objects.curves.listed()[j]).0@,
                    objects.curves@[objects.curves.listed()[j].0@],
                ) is None,
    {
        let name = objects.curves.key_at(i);
        let object = objects.curves.value_at(i);
        if let Err(problem) = validate_curves(name, object, facts) {
            proof {
                listed_first(objects.curves, rule, i as int);
            }
            return Err(problem);
        }
    }
    proof {
        listed_none(objects.curves, rule);
    }
    Ok(())
}

fn validate_all_instances(objects: &Objects, facts: &Facts) -> (r: Result<(), SceneError>)
    ensures
        r is Ok == first_problem(objects@.instances, instance_rule(objects@, *facts)) is None,
        r matches Err(e) ==> first_problem(objects@.instances, instance_rule(objects@, *facts)) == Some(e@),
{
    let ghost rule = instance_rule(objects@, *facts);
    let size: usize = objects.instances.len();
    for i in 0..size
        invariant
            rule == instance_rule(objects@, *facts),
            size == objects.instances.listed().len(),
            table::ascending(objects.instances.listed()),
            forall|j: int|
                0 <= j < i ==> rule(
                    (#[trigger] objects.instances.listed()[j]).0@,
                    objects.instances@[objects.instances.listed()[j].0@],
                ) is None,
    {
        let name = objects.instances.key_at(i);
        let object = objects.instances.value_at(i);
        if let Err(problem) = validate_instance(objects, name, object, facts) {
            proof {
                listed_first(objects.instances, rule, i as int);
            }
            return Err(problem);
        }
    }
    proof {
        listed_none(objects.instances, rule);
    }
    Ok(())
}

fn validate_all_materials(objects: &Objects, facts: &Facts) -> (r: Result<(), SceneError>)
    ensures
        r is Ok == first_problem(objects@.materials, material_rule(*facts)) is None,
        r matches Err(e) ==> first_problem(objects@.materials, material_rule(*facts)) == Some(e@),
{
    let ghost rule = material_rule(*facts);
    let size: usize = objects.materials.len();
    for i in 0..size
        invariant
            rule == material_rule(*facts),
            size == objects.materials.listed().len(),
            table::ascending(objects.materials.listed()),
            forall|j: int|
                0 <= j < i ==> rule(
                    (#[trigger] objects.materials.listed()[j]).0@,
                    objects.materials@[objects.materials.listed()[j].0@],
                ) is None,
    {
        let name = objects.materials.key_at(i);
        let object = objects.materials.value_at(i);
        if let Err(problem) = validate_material(name, object, facts) {
            proof {
                listed_first(objects.materials, rule, i as int);
            }
            return Err(problem);
        }
    }
    proof {
        listed_none(objects.materials, rule);
    }
    Ok(())
}

fn validate_all_lights(objects: &Objects, facts: &Facts) -> (r: Result<(), SceneError>)
    ensures
        r is Ok == first_problem(objects@.lights, light_rule()) is None,
        r matches Err(e) ==> first_problem(objects@.lights, light_rule()) == Some(e@),
{
    let ghost rule = light_rule();
    let size: usize = objects.lights.len();
    for i in 0..size
        invariant
            rule == light_rule(),
            size == objects.lights.listed().len(),
            table::ascending(objects.lights.listed()),
            forall|j: int|
                0 <= j < i ==> rule(
                    (#[trigger] objects.lights.listed()[j]).0@,
                    objects.lights@[objects.lights.listed()[j].0@],
                ) is None,
    {
        let name = objects.lights.key_at(i);
        let object = objects.lights.value_at(i);
        if let Err(problem) = validate_light(name, object) {
            proof {
                listed_first(objects.lights, rule, i as int);
            }
            return Err(problem);
        }
    }
    proof {
        listed_none(objects.lights, rule);
    }
    Ok(())
}

fn validate_all_cameras(objects: &Objects, facts: &Facts) -> (r: Result<(), SceneError>)
    ensures
        r is Ok == first_problem(objects@.cameras, camera_rule(*facts)) is None,
        r matches Err(e) ==> first_problem(objects@.cameras, camera_rule(*facts)) == Some(e@),
{
    let ghost rule = camera_rule(*facts);
    let size: usize = objects.cameras.len();
    for i in 0..size
        invariant
            rule == camera_rule(*facts),
            size == objects.cameras.listed().len(),
            table::ascending(objects.cameras.listed()),
            forall|j: int|
                0 <= j < i ==> rule(
                    (#[trigger] objects.cameras.listed()[j]).0@,
                    objects.cameras@[objects.cameras.listed()[j].0@],
                ) is None,
    {
        let name = objects.cameras.key_at(i);
        let object = objects.cameras.value_at(i);
        if let Err(problem) = validate_camera(name, object, facts) {
            proof {
                listed_first(objects.cameras, rule, i as int);
            }
            return Err(problem);
        }
    }
    proof {
        listed_none(objects.cameras, rule);
    }
    Ok(())
}

fn validate_all_environments(objects: &Objects, facts: &Facts) -> (r: Result<(), SceneError>)
    ensures
        r is Ok == first_problem(objects@.environments, environment_rule(*facts)) is None,
        r matches Err(e) ==> first_problem(objects@.environments, environment_rule(*facts)) == Some(e@),
{
    let ghost rule = environment_rule(*facts);
    let size: usize = objects.environments.len();
    for i in 0..size
        invariant
            rule == environment_rule(*facts),
            size == objects.environments.listed().len(),
            table::ascending(objects.environments.listed()),
            forall|j: int|
                0 <= j < i ==> rule(
                    (#[trigger] objects.environments.listed()[j]).0@,
                    objects.environments@[objects.environments.listed()[j].0@],
                ) is None,
    {
        let name = objects.environments.key_at(i);
        let object = objects.environments.value_at(i);
        if let Err(problem) = validate_environment(name, object, facts) {
            proof {
                listed_first(objects.environments, rule, i as int);
            }
            return Err(problem);
        }
    }
    proof {
        listed_none(objects.environments, rule);
    }
    Ok(())
}

fn validate_all_media(objects: &Objects, facts: &Facts) -> (r: Result<(), SceneError>)
    ensures
        r is Ok == first_problem(objects@.media, medium_rule(*facts)) is None,
        r matches Err(e) ==> first_problem(objects@.media, medium_rule(*facts)) == Some(e@),
{
    let ghost rule = medium_rule(*facts);
    let size: usize = objects.media.len();
    for i in 0..size
        invariant
            rule == medium_rule(*facts),
            size == objects.media.listed().len(),
            table::ascending(objects.media.listed()),
            forall|j: int|
                0 <= j < i ==> rule(
                    (#[trigger] objects.media.listed()[j]).0@,
                    objects.media@[objects.media.listed()[j].0@],
                ) is None,
    {
        let name = objects.media.key_at(i);
        let object = objects.media.value_at(i);
        if let Err(problem) = validate_medium(name, object, facts) {
            proof {
                listed_first(objects.media, rule, i as int);
            }
            return Err(problem);
        }
    }
    proof {
        listed_none(objects.media, rule);
    }
    Ok(())
}

fn validate_all_settings(objects: &Objects, facts: &Facts) -> (r: Result<(), SceneError>)
    ensures
        r is Ok == first_problem(objects@.settings, settings_rule(objects@)) is None,
        r matches Err(e) ==> first_problem(objects@.settings, settings_rule(objects@)) == Some(e@),
{
    let ghost rule = settings_rule(objects@);
    let size: usize = objects.settings.len();
    for i in 0..size
        invariant
            rule == settings_rule(objects@),
            size == objects.settings.listed().len(),
            table::ascending(objects.settings.listed()),
            forall|j: int|
                0 <= j < i ==> rule(
                    (#[trigger] objects.settings.listed()[j]).0@,
                    objects.settings@[objects.settings.listed()[j].0@],
                ) is None,
    {
        let name = objects.settings.key_at(i);
        let object = objects.settings.value_at(i);
        if let Err(problem) = validate_settings(objects, name, object) {
            proof {
                listed_first(objects.settings, rule, i as int);
            }
            return Err(problem);
        }
    }
    proof {
        listed_none(objects.settings, rule);
    }
    Ok(())
}

} // verus!
