//! Everything that can be wrong with a scene, and the words for it.

use vstd::prelude::*;
use vstd::string::*;

use crate::bits::{Num, Vec3};
use crate::changeset::Kind;
use crate::curves::{SegmentProblem, WalkProblem};
use crate::description::WidthInterpolation;
use crate::formula::Rows;
use crate::text;

verus! {

/// The longest path the renderer counts: its length travels in one byte.
pub const MAX_BOUNCES_LIMIT: u32 = 255;

/// The object a file reference belongs to.
#[derive(Clone, Debug, PartialEq, Eq)]
pub enum Owner<T> {
    /// A mesh.
    Mesh(T),
    /// A curve batch.
    Curves(T),
    /// A material, through one of its textures.
    Texture(T),
    /// An environment.
    Environment(T),
    /// A medium, through its grid.
    Volume(T),
}

/// A medium's two coefficients.
#[derive(Clone, Copy, Debug, PartialEq, Eq, Structural)]
pub enum Coefficient {
    /// What the medium removes.
    Absorption,
    /// What the medium redirects.
    Scattering,
}

/// What is wrong with a scene, over names of type `T`.
#[derive(Clone, Debug, PartialEq, Eq)]
pub enum Problem<T> {
    /// An op names nothing.
    EmptyName {
        /// The kind.
        kind: Kind,
    },
    /// An instance patch names both kinds of geometry.
    TwoGeometries {
        /// The object.
        name: T,
    },
    /// A removal targets nothing.
    NothingToRemove {
        /// The kind.
        kind: Kind,
        /// The object.
        name: T,
    },
    /// A mesh has no positions or no triangles.
    NoGeometry {
        /// The object.
        name: T,
    },
    /// A mesh's normals do not match its positions.
    NormalCount {
        /// The object.
        name: T,
        /// How many normals.
        normals: usize,
        /// How many positions.
        positions: usize,
    },
    /// A mesh's texture coordinates do not match its positions.
    UvCount {
        /// The object.
        name: T,
        /// How many coordinates.
        uvs: usize,
        /// How many positions.
        positions: usize,
    },
    /// A triangle names a position that is not there.
    IndexOutOfBounds {
        /// The object.
        name: T,
    },
    /// A file reference is empty.
    NoPath {
        /// What references it.
        owner: Owner<T>,
    },
    /// A file reference is not absolute.
    RelativePath {
        /// What references it.
        owner: Owner<T>,
        /// The path.
        path: T,
    },
    /// A referenced file is not there.
    MissingFile {
        /// What references it.
        owner: Owner<T>,
        /// The path.
        path: T,
    },
    /// A curve batch holds no curve.
    NoCurves {
        /// The object.
        name: T,
    },
    /// A curve batch closes on itself.
    PeriodicCurves {
        /// The object.
        name: T,
    },
    /// A curve of a batch has a vertex count that no segment rule accepts.
    BadCurve {
        /// The object.
        name: T,
        /// Which curve.
        index: usize,
        /// What is wrong with it.
        problem: SegmentProblem,
    },
    /// The vertex counts do not partition the points.
    PointCount {
        /// The object.
        name: T,
        /// How many vertices the counts name.
        vertices: u128,
        /// How many curves.
        curves: usize,
        /// How many points.
        points: usize,
    },
    /// The width stream has the wrong length.
    WidthCount {
        /// The object.
        name: T,
        /// How many values.
        values: usize,
        /// What the values belong to.
        interpolation: WidthInterpolation,
        /// How many the topology asks for.
        expected: u128,
    },
    /// An instance holds an empty reference.
    NeverGiven {
        /// The kind.
        kind: Kind,
        /// The instance.
        instance: T,
    },
    /// An instance references what is not there.
    Dangling {
        /// The kind.
        kind: Kind,
        /// The instance.
        instance: T,
        /// What it references.
        reference: T,
    },
    /// An instance bounds a medium that is not there.
    MissingMedium {
        /// The instance.
        instance: T,
        /// The medium.
        medium: T,
    },
    /// A heterogeneous medium is bounded by an ordinary mesh.
    UserMeshUnderGrid {
        /// The instance.
        instance: T,
    },
    /// A medium shell has no heterogeneous medium.
    ShellWithoutGrid {
        /// The instance.
        instance: T,
    },
    /// A placement cannot be inverted.
    SingularPlacement {
        /// The instance.
        instance: T,
        /// Which placement.
        element: usize,
    },
    /// A distant light travels nowhere.
    ZeroDirection {
        /// The light.
        light: T,
    },
    /// A camera looks at itself.
    Coincident {
        /// The camera.
        camera: T,
    },
    /// A camera's up is no help.
    ParallelUp {
        /// The camera.
        camera: T,
    },
    /// A field of view is out of range.
    FieldOfView {
        /// The camera.
        camera: T,
        /// The value.
        value: Num,
    },
    /// A focus distance is not positive.
    FocusDistance {
        /// The camera.
        camera: T,
        /// The value.
        value: Num,
    },
    /// An aperture is negative.
    Aperture {
        /// The camera.
        camera: T,
        /// The value.
        value: Num,
    },
    /// An environment's placement cannot be inverted.
    SingularSky {
        /// The environment.
        environment: T,
    },
    /// A medium's coefficient amplifies.
    Coefficient {
        /// The medium.
        medium: T,
        /// Which coefficient.
        what: Coefficient,
        /// Its three channels.
        channels: Vec3,
    },
    /// A medium's anisotropy is not finite.
    Anisotropy {
        /// The medium.
        medium: T,
        /// The value.
        value: Num,
    },
    /// A volume names no grid.
    NoGrid {
        /// The medium.
        medium: T,
    },
    /// The settings name a medium that is not there.
    MissingGlobalMedium {
        /// The settings.
        settings: T,
        /// The medium.
        medium: T,
    },
    /// The settings fill open space with a grid.
    BoundedGlobalMedium {
        /// The settings.
        settings: T,
        /// The medium.
        medium: T,
    },
    /// The image has no pixels.
    ZeroResolution {
        /// The settings.
        settings: T,
    },
    /// The settings ask for no samples or no bounces.
    ZeroBudget {
        /// The settings.
        settings: T,
    },
    /// The settings ask for longer paths than the renderer counts.
    TooDeep {
        /// The settings.
        settings: T,
        /// What they ask for.
        max_bounces: u32,
    },
    /// A convergence threshold is no fraction.
    NoiseThreshold {
        /// The settings.
        settings: T,
        /// The value.
        value: Num,
    },
    /// A scene lacks an object it needs.
    NoneOf {
        /// The kind.
        kind: Kind,
    },
    /// A scene holds more than one of what it renders one of.
    ManyOf {
        /// The kind.
        kind: Kind,
        /// How many.
        count: usize,
    },
    /// A scene holds more than one environment.
    ManyEnvironments {
        /// How many.
        count: usize,
    },
    /// A scene references more textures than can be bound.
    TooManyTextures {
        /// How many.
        count: usize,
        /// How many fit.
        limit: usize,
    },
    /// The scene's open space is filled with what is not there.
    GlobalMediumGone {
        /// The medium.
        medium: T,
    },
    /// An environment image is in no format that is read.
    UnknownEnvironment {
        /// The environment.
        environment: T,
        /// The path.
        path: T,
    },
    /// A batch has nothing to sweep.
    NoStrand {
        /// The object.
        name: T,
    },
    /// A batch holds a curve that cannot be walked.
    Unwalkable {
        /// The object.
        name: T,
        /// What is wrong with it.
        problem: WalkProblem,
    },
    /// A temperature field lies on another lattice than its density.
    IndexMaps {
        /// The prepared file.
        volume: T,
        /// The temperature grid.
        temperature: T,
        /// The density grid.
        grid: T,
        /// The map to the temperature's lattice.
        found: Rows,
        /// The map to the density's.
        expected: Rows,
    },
    /// A mesh's file could not be read.
    MeshFile {
        /// The object.
        name: T,
        /// What reading it came to.
        words: T,
    },
    /// A curve batch's file could not be read.
    CurvesFile {
        /// The object.
        name: T,
        /// What reading it came to.
        words: T,
    },
    /// A file could not be read.
    Told {
        /// What reading it came to.
        words: T,
    },
}

/// A rejected edit or malformed scene input.
pub type SceneError = Problem<String>;

impl View for Owner<String> {
    type V = Owner<Seq<char>>;

    open spec fn view(&self) -> Owner<Seq<char>> {
        match *self {
            Owner::Mesh(name) => Owner::Mesh(name@),
            Owner::Curves(name) => Owner::Curves(name@),
            Owner::Texture(name) => Owner::Texture(name@),
            Owner::Environment(name) => Owner::Environment(name@),
            Owner::Volume(name) => Owner::Volume(name@),
        }
    }
}

impl View for Problem<String> {
    type V = Problem<Seq<char>>;

    /// The problem, with its names read out.
    open spec fn view(&self) -> Problem<Seq<char>> {
        match *self {
            Problem::EmptyName { kind } => Problem::EmptyName { kind },
            Problem::TwoGeometries { name } => Problem::TwoGeometries { name: name@ },
            Problem::NothingToRemove { kind, name } => Problem::NothingToRemove { kind, name: name@ },
            Problem::NoGeometry { name } => Problem::NoGeometry { name: name@ },
            Problem::NormalCount { name, normals, positions } => Problem::NormalCount { name: name@, normals, positions },
            Problem::UvCount { name, uvs, positions } => Problem::UvCount { name: name@, uvs, positions },
            Problem::IndexOutOfBounds { name } => Problem::IndexOutOfBounds { name: name@ },
            Problem::NoPath { owner } => Problem::NoPath { owner: owner@ },
            Problem::RelativePath { owner, path } => Problem::RelativePath { owner: owner@, path: path@ },
            Problem::MissingFile { owner, path } => Problem::MissingFile { owner: owner@, path: path@ },
            Problem::NoCurves { name } => Problem::NoCurves { name: name@ },
            Problem::PeriodicCurves { name } => Problem::PeriodicCurves { name: name@ },
            Problem::BadCurve { name, index, problem } => Problem::BadCurve { name: name@, index, problem },
            Problem::PointCount { name, vertices, curves, points } => Problem::PointCount { name: name@, vertices, curves, points },
            Problem::WidthCount { name, values, interpolation, expected } => Problem::WidthCount { name: name@, values, interpolation, expected },
            Problem::NeverGiven { kind, instance } => Problem::NeverGiven { kind, instance: instance@ },
            Problem::Dangling { kind, instance, reference } => Problem::Dangling { kind, instance: instance@, reference: reference@ },
            Problem::MissingMedium { instance, medium } => Problem::MissingMedium { instance: instance@, medium: medium@ },
            Problem::UserMeshUnderGrid { instance } => Problem::UserMeshUnderGrid { instance: instance@ },
            Problem::ShellWithoutGrid { instance } => Problem::ShellWithoutGrid { instance: instance@ },
            Problem::SingularPlacement { instance, element } => Problem::SingularPlacement { instance: instance@, element },
            Problem::ZeroDirection { light } => Problem::ZeroDirection { light: light@ },
            Problem::Coincident { camera } => Problem::Coincident { camera: camera@ },
            Problem::ParallelUp { camera } => Problem::ParallelUp { camera: camera@ },
            Problem::FieldOfView { camera, value } => Problem::FieldOfView { camera: camera@, value },
            Problem::FocusDistance { camera, value } => Problem::FocusDistance { camera: camera@, value },
            Problem::Aperture { camera, value } => Problem::Aperture { camera: camera@, value },
            Problem::SingularSky { environment } => Problem::SingularSky { environment: environment@ },
            Problem::Coefficient { medium, what, channels } => Problem::Coefficient { medium: medium@, what, channels },
            Problem::Anisotropy { medium, value } => Problem::Anisotropy { medium: medium@, value },
            Problem::NoGrid { medium } => Problem::NoGrid { medium: medium@ },
            Problem::MissingGlobalMedium { settings, medium } => Problem::MissingGlobalMedium { settings: settings@, medium: medium@ },
            Problem::BoundedGlobalMedium { settings, medium } => Problem::BoundedGlobalMedium { settings: settings@, medium: medium@ },
            Problem::ZeroResolution { settings } => Problem::ZeroResolution { settings: settings@ },
            Problem::ZeroBudget { settings } => Problem::ZeroBudget { settings: settings@ },
            Problem::TooDeep { settings, max_bounces } => Problem::TooDeep { settings: settings@, max_bounces },
            Problem::NoiseThreshold { settings, value } => Problem::NoiseThreshold { settings: settings@, value },
            Problem::NoneOf { kind } => Problem::NoneOf { kind },
            Problem::ManyOf { kind, count } => Problem::ManyOf { kind, count },
            Problem::ManyEnvironments { count } => Problem::ManyEnvironments { count },
            Problem::TooManyTextures { count, limit } => Problem::TooManyTextures { count, limit },
            Problem::GlobalMediumGone { medium } => Problem::GlobalMediumGone { medium: medium@ },
            Problem::UnknownEnvironment { environment, path } => Problem::UnknownEnvironment { environment: environment@, path: path@ },
            Problem::NoStrand { name } => Problem::NoStrand { name: name@ },
            Problem::Unwalkable { name, problem } => Problem::Unwalkable { name: name@, problem },
            Problem::IndexMaps { volume, temperature, grid, found, expected } => Problem::IndexMaps { volume: volume@, temperature: temperature@, grid: grid@, found, expected },
            Problem::MeshFile { name, words } => Problem::MeshFile { name: name@, words: words@ },
            Problem::CurvesFile { name, words } => Problem::CurvesFile { name: name@, words: words@ },
            Problem::Told { words } => Problem::Told { words: words@ },
        }
    }
}

/// How a file's owner is named.
pub open spec fn owner_text(owner: Owner<Seq<char>>) -> Seq<char> {
    match owner {
        Owner::Mesh(name) => "mesh \""@ + name + "\""@,
        Owner::Curves(name) => "curves \""@ + name + "\""@,
        Owner::Texture(name) => "a texture of material \""@ + name + "\""@,
        Owner::Environment(name) => "environment \""@ + name + "\""@,
        Owner::Volume(name) => "medium \""@ + name + "\"'s volume"@,
    }
}

/// How a coefficient is named.
pub open spec fn coefficient_text(what: Coefficient) -> Seq<char> {
    match what {
        Coefficient::Absorption => "absorption"@,
        Coefficient::Scattering => "scattering"@,
    }
}

/// How a width stream's rule is named.
pub open spec fn interpolation_text(interpolation: WidthInterpolation) -> Seq<char> {
    match interpolation {
        WidthInterpolation::Constant => "constant"@,
        WidthInterpolation::Uniform => "uniform"@,
        WidthInterpolation::Varying => "varying"@,
        WidthInterpolation::Vertex => "vertex"@,
    }
}

/// The words for a problem. `spelled` is how the offending number prints,
/// for the problems that carry one.
pub open spec fn problem_text(problem: Problem<Seq<char>>, spelled: Seq<char>) -> Seq<char> {
    match problem {
        Problem::EmptyName { kind } => "a "@
            + kind.text()
            + " op has an empty name"@,
        Problem::TwoGeometries { name } => "instance \""@
            + name
            + "\" names both a mesh and a curves batch — an instance places one"@,
        Problem::NothingToRemove { kind, name } => "Remove targets a "@
            + kind.text()
            + " named \""@
            + name
            + "\" that does not exist"@,
        Problem::NoGeometry { name } => "mesh \""@
            + name
            + "\" has no geometry"@,
        Problem::NormalCount { name, normals, positions } => "mesh \""@
            + name
            + "\" has "@
            + text::decimal(normals as nat)
            + " normals for "@
            + text::decimal(positions as nat)
            + " positions"@,
        Problem::UvCount { name, uvs, positions } => "mesh \""@
            + name
            + "\" has "@
            + text::decimal(uvs as nat)
            + " uvs for "@
            + text::decimal(positions as nat)
            + " positions"@,
        Problem::IndexOutOfBounds { name } => "mesh \""@
            + name
            + "\" has a triangle index out of bounds"@,
        Problem::NoPath { owner } => owner_text(owner)
            + " has no file path"@,
        Problem::RelativePath { owner, path } => owner_text(owner)
            + " references the relative path \""@
            + path
            + "\" — rebase against the scene directory first (crate::format::load does)"@,
        Problem::MissingFile { owner, path } => owner_text(owner)
            + " references \""@
            + path
            + "\", which does not exist"@,
        Problem::NoCurves { name } => "curves \""@
            + name
            + "\" has no curves"@,
        Problem::PeriodicCurves { name } => "curves \""@
            + name
            + "\" are periodic; the renderer sweeps a strand from its root, and a closed loop has none"@,
        Problem::BadCurve { name, index, problem } => "curves \""@
            + name
            + "\" hold curve "@
            + text::decimal(index as nat)
            + ": "@
            + problem.text(),
        Problem::PointCount { name, vertices, curves, points } => "curves \""@
            + name
            + "\" name "@
            + text::decimal(vertices as nat)
            + " vertices across "@
            + text::decimal(curves as nat)
            + " curves, but carry "@
            + text::decimal(points as nat)
            + " points"@,
        Problem::WidthCount { name, values, interpolation, expected } => "curves \""@
            + name
            + "\" carry "@
            + text::decimal(values as nat)
            + " "@
            + interpolation_text(interpolation)
            + " widths, but their topology asks for "@
            + text::decimal(expected as nat),
        Problem::NeverGiven { kind, instance } => "instance \""@
            + instance
            + "\" was never given a "@
            + kind.text(),
        Problem::Dangling { kind, instance, reference } => "instance \""@
            + instance
            + "\" references a "@
            + kind.text()
            + " \""@
            + reference
            + "\" that does not exist"@,
        Problem::MissingMedium { instance, medium } => "instance \""@
            + instance
            + "\" bounds a medium \""@
            + medium
            + "\" that does not exist"@,
        Problem::UserMeshUnderGrid { instance } => "instance \""@
            + instance
            + "\" bounds a heterogeneous medium on a user mesh — the grid defines its own extent, so the instance must place a MediumBounds mesh"@,
        Problem::ShellWithoutGrid { instance } => "instance \""@
            + instance
            + "\" places a MediumBounds mesh without a heterogeneous medium — the shell's size comes from the medium's grid, so there is nothing to derive it from"@,
        Problem::SingularPlacement { instance, element } => "instance \""@
            + instance
            + "\" has a non-invertible transform (element "@
            + text::decimal(element as nat)
            + ")"@,
        Problem::ZeroDirection { light } => "distant light \""@
            + light
            + "\" has a zero direction"@,
        Problem::Coincident { camera } => "camera \""@
            + camera
            + "\": position and look_at coincide"@,
        Problem::ParallelUp { camera } => "camera \""@
            + camera
            + "\": up is parallel to the view axis"@,
        Problem::FieldOfView { camera, .. } => "camera \""@
            + camera
            + "\": vertical fov must be inside (0, 180) degrees, got "@
            + spelled,
        Problem::FocusDistance { camera, .. } => "camera \""@
            + camera
            + "\": focus distance must be positive, got "@
            + spelled,
        Problem::Aperture { camera, .. } => "camera \""@
            + camera
            + "\": aperture radius must not be negative, got "@
            + spelled,
        Problem::SingularSky { environment } => "environment \""@
            + environment
            + "\" has a non-invertible transform"@,
        Problem::Coefficient { medium, what, .. } => "medium \""@
            + medium
            + "\": "@
            + coefficient_text(what)
            + " must be finite and non-negative, got "@
            + spelled,
        Problem::Anisotropy { medium, .. } => "medium \""@
            + medium
            + "\": anisotropy must be finite, got "@
            + spelled,
        Problem::NoGrid { medium } => "medium \""@
            + medium
            + "\": the volume's grid name is empty"@,
        Problem::MissingGlobalMedium { settings, medium } => "settings \""@
            + settings
            + "\" name a global medium \""@
            + medium
            + "\" that does not exist"@,
        Problem::BoundedGlobalMedium { settings, medium } => "settings \""@
            + settings
            + "\": the global medium \""@
            + medium
            + "\" is heterogeneous — a grid has bounds and the open space has none; place it with a MediumBounds instance"@,
        Problem::ZeroResolution { settings } => "settings \""@
            + settings
            + "\": resolution has a zero dimension"@,
        Problem::ZeroBudget { settings } => "settings \""@
            + settings
            + "\": spp and max_bounces must be at least 1"@,
        Problem::TooDeep { settings, max_bounces } => "settings \""@
            + settings
            + "\": max_bounces must be at most "@
            + text::decimal(MAX_BOUNCES_LIMIT as nat)
            + ", got "@
            + text::decimal(max_bounces as nat),
        Problem::NoiseThreshold { settings, .. } => "settings \""@
            + settings
            + "\": noise_threshold must be in (0, 1], got "@
            + spelled,
        Problem::NoneOf { kind } => "a scene needs exactly one "@
            + kind.text()
            + ", this one has none"@,
        Problem::ManyOf { kind, count } => "a scene renders exactly one "@
            + kind.text()
            + ", this one has "@
            + text::decimal(count as nat),
        Problem::ManyEnvironments { count } => "a scene renders at most one environment, this one has "@
            + text::decimal(count as nat),
        Problem::TooManyTextures { count, limit } => "the scene references "@
            + text::decimal(count as nat)
            + " textures; the bindless table holds "@
            + text::decimal(limit as nat),
        Problem::GlobalMediumGone { medium } => "the global medium \""@
            + medium
            + "\" does not exist"@,
        Problem::UnknownEnvironment { environment, path } => "environment \""@
            + environment
            + "\": \""@
            + path
            + "\" is neither an EXR nor a Radiance HDR"@,
        Problem::NoStrand { name } => "curves \""@
            + name
            + "\": carry no strand long enough to sweep"@,
        Problem::Unwalkable { name, problem } => "curves \""@
            + name
            + "\": "@
            + problem.text(),
        Problem::IndexMaps { volume, temperature, grid, .. } => "volume \""@
            + volume
            + "\": temperature grid \""@
            + temperature
            + "\" maps index space differently from density grid \""@
            + grid
            + "\" ("@
            + spelled
            + "); one simulation's fields share a transform"@,
        Problem::MeshFile { name, words } => "mesh \""@ + name + "\": "@ + words,
        Problem::CurvesFile { name, words } => "curves \""@ + name + "\": "@ + words,
        Problem::Told { words } => words,
    }
}

fn owner_message(owner: &Owner<String>) -> (r: String)
    ensures
        r@ == owner_text(owner@),
{
    match owner {
        Owner::Mesh(name) => text::joined("mesh \"", name.as_str(), "\""),
        Owner::Curves(name) => text::joined("curves \"", name.as_str(), "\""),
        Owner::Texture(name) => text::joined("a texture of material \"", name.as_str(), "\""),
        Owner::Environment(name) => text::joined("environment \"", name.as_str(), "\""),
        Owner::Volume(name) => text::joined("medium \"", name.as_str(), "\"'s volume"),
    }
}

fn coefficient_word(what: Coefficient) -> (r: &'static str)
    ensures
        r@ == coefficient_text(what),
{
    match what {
        Coefficient::Absorption => "absorption",
        Coefficient::Scattering => "scattering",
    }
}

fn interpolation_word(interpolation: WidthInterpolation) -> (r: &'static str)
    ensures
        r@ == interpolation_text(interpolation),
{
    match interpolation {
        WidthInterpolation::Constant => "constant",
        WidthInterpolation::Uniform => "uniform",
        WidthInterpolation::Varying => "varying",
        WidthInterpolation::Vertex => "vertex",
    }
}

impl Problem<String> {
    /// The words for the problem. `spelled` is how the offending number
    /// prints, for the problems that carry one.
    pub fn message(&self, spelled: &str) -> (r: String)
        ensures
            r@ == problem_text(self@, spelled@),
    {
        match self {
            Problem::EmptyName { kind } => {
                let mut text = "a ".to_owned();
                text.append(kind.word());
                text.append(" op has an empty name");
                text
            },
            Problem::TwoGeometries { name } => {
                let mut text = "instance \"".to_owned();
                text.append(name.as_str());
                text.append("\" names both a mesh and a curves batch — an instance places one");
                text
            },
            Problem::NothingToRemove { kind, name } => {
                let mut text = "Remove targets a ".to_owned();
                text.append(kind.word());
                text.append(" named \"");
                text.append(name.as_str());
                text.append("\" that does not exist");
                text
            },
            Problem::NoGeometry { name } => {
                let mut text = "mesh \"".to_owned();
                text.append(name.as_str());
                text.append("\" has no geometry");
                text
            },
            Problem::NormalCount { name, normals, positions } => {
                let mut text = "mesh \"".to_owned();
                text.append(name.as_str());
                text.append("\" has ");
                text.append(text::spell(*normals as u128).as_str());
                text.append(" normals for ");
                text.append(text::spell(*positions as u128).as_str());
                text.append(" positions");
                text
            },
            Problem::UvCount { name, uvs, positions } => {
                let mut text = "mesh \"".to_owned();
                text.append(name.as_str());
                text.append("\" has ");
                text.append(text::spell(*uvs as u128).as_str());
                text.append(" uvs for ");
                text.append(text::spell(*positions as u128).as_str());
                text.append(" positions");
                text
            },
            Problem::IndexOutOfBounds { name } => {
                let mut text = "mesh \"".to_owned();
                text.append(name.as_str());
                text.append("\" has a triangle index out of bounds");
                text
            },
            Problem::NoPath { owner } => {
                let mut text = owner_message(owner);
                text.append(" has no file path");
                text
            },
            Problem::RelativePath { owner, path } => {
                let mut text = owner_message(owner);
                text.append(" references the relative path \"");
                text.append(path.as_str());
                text.append("\" — rebase against the scene directory first (crate::format::load does)");
                text
            },
            Problem::MissingFile { owner, path } => {
                let mut text = owner_message(owner);
                text.append(" references \"");
                text.append(path.as_str());
                text.append("\", which does not exist");
                text
            },
            Problem::NoCurves { name } => {
                let mut text = "curves \"".to_owned();
                text.append(name.as_str());
                text.append("\" has no curves");
                text
            },
            Problem::PeriodicCurves { name } => {
                let mut text = "curves \"".to_owned();
                text.append(name.as_str());
                text.append("\" are periodic; the renderer sweeps a strand from its root, and a closed loop has none");
                text
            },
            Problem::BadCurve { name, index, problem } => {
                let mut text = "curves \"".to_owned();
                text.append(name.as_str());
                text.append("\" hold curve ");
                text.append(text::spell(*index as u128).as_str());
                text.append(": ");
                text.append(problem.message().as_str());
                text
            },
            Problem::PointCount { name, vertices, curves, points } => {
                let mut text = "curves \"".to_owned();
                text.append(name.as_str());
                text.append("\" name ");
                text.append(text::spell(*vertices as u128).as_str());
                text.append(" vertices across ");
                text.append(text::spell(*curves as u128).as_str());
                text.append(" curves, but carry ");
                text.append(text::spell(*points as u128).as_str());
                text.append(" points");
                text
            },
            Problem::WidthCount { name, values, interpolation, expected } => {
                let mut text = "curves \"".to_owned();
                text.append(name.as_str());
                text.append("\" carry ");
                text.append(text::spell(*values as u128).as_str());
                text.append(" ");
                text.append(interpolation_word(*interpolation));
                text.append(" widths, but their topology asks for ");
                text.append(text::spell(*expected as u128).as_str());
                text
            },
            Problem::NeverGiven { kind, instance } => {
                let mut text = "instance \"".to_owned();
                text.append(instance.as_str());
                text.append("\" was never given a ");
                text.append(kind.word());
                text
            },
            Problem::Dangling { kind, instance, reference } => {
                let mut text = "instance \"".to_owned();
                text.append(instance.as_str());
                text.append("\" references a ");
                text.append(kind.word());
                text.append(" \"");
                text.append(reference.as_str());
                text.append("\" that does not exist");
                text
            },
            Problem::MissingMedium { instance, medium } => {
                let mut text = "instance \"".to_owned();
                text.append(instance.as_str());
                text.append("\" bounds a medium \"");
                text.append(medium.as_str());
                text.append("\" that does not exist");
                text
            },
            Problem::UserMeshUnderGrid { instance } => {
                let mut text = "instance \"".to_owned();
                text.append(instance.as_str());
                text.append("\" bounds a heterogeneous medium on a user mesh — the grid defines its own extent, so the instance must place a MediumBounds mesh");
                text
            },
            Problem::ShellWithoutGrid { instance } => {
                let mut text = "instance \"".to_owned();
                text.append(instance.as_str());
                text.append("\" places a MediumBounds mesh without a heterogeneous medium — the shell's size comes from the medium's grid, so there is nothing to derive it from");
                text
            },
            Problem::SingularPlacement { instance, element } => {
                let mut text = "instance \"".to_owned();
                text.append(instance.as_str());
                text.append("\" has a non-invertible transform (element ");
                text.append(text::spell(*element as u128).as_str());
                text.append(")");
                text
            },
            Problem::ZeroDirection { light } => {
                let mut text = "distant light \"".to_owned();
                text.append(light.as_str());
                text.append("\" has a zero direction");
                text
            },
            Problem::Coincident { camera } => {
                let mut text = "camera \"".to_owned();
                text.append(camera.as_str());
                text.append("\": position and look_at coincide");
                text
            },
            Problem::ParallelUp { camera } => {
                let mut text = "camera \"".to_owned();
                text.append(camera.as_str());
                text.append("\": up is parallel to the view axis");
                text
            },
            Problem::FieldOfView { camera, .. } => {
                let mut text = "camera \"".to_owned();
                text.append(camera.as_str());
                text.append("\": vertical fov must be inside (0, 180) degrees, got ");
                text.append(spelled);
                text
            },
            Problem::FocusDistance { camera, .. } => {
                let mut text = "camera \"".to_owned();
                text.append(camera.as_str());
                text.append("\": focus distance must be positive, got ");
                text.append(spelled);
                text
            },
            Problem::Aperture { camera, .. } => {
                let mut text = "camera \"".to_owned();
                text.append(camera.as_str());
                text.append("\": aperture radius must not be negative, got ");
                text.append(spelled);
                text
            },
            Problem::SingularSky { environment } => {
                let mut text = "environment \"".to_owned();
                text.append(environment.as_str());
                text.append("\" has a non-invertible transform");
                text
            },
            Problem::Coefficient { medium, what, .. } => {
                let mut text = "medium \"".to_owned();
                text.append(medium.as_str());
                text.append("\": ");
                text.append(coefficient_word(*what));
                text.append(" must be finite and non-negative, got ");
                text.append(spelled);
                text
            },
            Problem::Anisotropy { medium, .. } => {
                let mut text = "medium \"".to_owned();
                text.append(medium.as_str());
                text.append("\": anisotropy must be finite, got ");
                text.append(spelled);
                text
            },
            Problem::NoGrid { medium } => {
                let mut text = "medium \"".to_owned();
                text.append(medium.as_str());
                text.append("\": the volume's grid name is empty");
                text
            },
            Problem::MissingGlobalMedium { settings, medium } => {
                let mut text = "settings \"".to_owned();
                text.append(settings.as_str());
                text.append("\" name a global medium \"");
                text.append(medium.as_str());
                text.append("\" that does not exist");
                text
            },
            Problem::BoundedGlobalMedium { settings, medium } => {
                let mut text = "settings \"".to_owned();
                text.append(settings.as_str());
                text.append("\": the global medium \"");
                text.append(medium.as_str());
                text.append("\" is heterogeneous — a grid has bounds and the open space has none; place it with a MediumBounds instance");
                text
            },
            Problem::ZeroResolution { settings } => {
                let mut text = "settings \"".to_owned();
                text.append(settings.as_str());
                text.append("\": resolution has a zero dimension");
                text
            },
            Problem::ZeroBudget { settings } => {
                let mut text = "settings \"".to_owned();
                text.append(settings.as_str());
                text.append("\": spp and max_bounces must be at least 1");
                text
            },
            Problem::TooDeep { settings, max_bounces } => {
                let mut text = "settings \"".to_owned();
                text.append(settings.as_str());
                text.append("\": max_bounces must be at most ");
                text.append(text::spell(MAX_BOUNCES_LIMIT as u128).as_str());
                text.append(", got ");
                text.append(text::spell(*max_bounces as u128).as_str());
                text
            },
            Problem::NoiseThreshold { settings, .. } => {
                let mut text = "settings \"".to_owned();
                text.append(settings.as_str());
                text.append("\": noise_threshold must be in (0, 1], got ");
                text.append(spelled);
                text
            },
            Problem::NoneOf { kind } => {
                let mut text = "a scene needs exactly one ".to_owned();
                text.append(kind.word());
                text.append(", this one has none");
                text
            },
            Problem::ManyOf { kind, count } => {
                let mut text = "a scene renders exactly one ".to_owned();
                text.append(kind.word());
                text.append(", this one has ");
                text.append(text::spell(*count as u128).as_str());
                text
            },
            Problem::ManyEnvironments { count } => {
                let mut text = "a scene renders at most one environment, this one has ".to_owned();
                text.append(text::spell(*count as u128).as_str());
                text
            },
            Problem::TooManyTextures { count, limit } => {
                let mut text = "the scene references ".to_owned();
                text.append(text::spell(*count as u128).as_str());
                text.append(" textures; the bindless table holds ");
                text.append(text::spell(*limit as u128).as_str());
                text
            },
            Problem::GlobalMediumGone { medium } => {
                let mut text = "the global medium \"".to_owned();
                text.append(medium.as_str());
                text.append("\" does not exist");
                text
            },
            Problem::UnknownEnvironment { environment, path } => {
                let mut text = "environment \"".to_owned();
                text.append(environment.as_str());
                text.append("\": \"");
                text.append(path.as_str());
                text.append("\" is neither an EXR nor a Radiance HDR");
                text
            },
            Problem::NoStrand { name } => {
                let mut text = "curves \"".to_owned();
                text.append(name.as_str());
                text.append("\": carry no strand long enough to sweep");
                text
            },
            Problem::Unwalkable { name, problem } => {
                let mut text = "curves \"".to_owned();
                text.append(name.as_str());
                text.append("\": ");
                text.append(problem.message().as_str());
                text
            },
            Problem::IndexMaps { volume, temperature, grid, .. } => {
                let mut text = "volume \"".to_owned();
                text.append(volume.as_str());
                text.append("\": temperature grid \"");
                text.append(temperature.as_str());
                text.append("\" maps index space differently from density grid \"");
                text.append(grid.as_str());
                text.append("\" (");
                text.append(spelled);
                text.append("); one simulation's fields share a transform");
                text
            },
            Problem::MeshFile { name, words } => {
                let mut text = "mesh \"".to_owned();
                text.append(name.as_str());
                text.append("\": ");
                text.append(words.as_str());
                text
            },
            Problem::CurvesFile { name, words } => {
                let mut text = "curves \"".to_owned();
                text.append(name.as_str());
                text.append("\": ");
                text.append(words.as_str());
                text
            },
            Problem::Told { words } => words.clone(),
        }
    }
}

} // verus!
