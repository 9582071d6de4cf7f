//! The scene description: the typed, named object model that scene files,
//! importers and live edits all speak.
//!
//! A description is plain data. It holds nine kinds of objects, each a table
//! addressed by name; references between objects are names too. An edit
//! reaches it through [`SceneDescription::apply`] alone, so every consumer of
//! an edit sees the same account of what changed. A description may hold any
//! number of objects of any kind; that a scene needs one camera is the
//! renderer's rule, not the model's.
//!
//! Colors are linear Rec.709 and lengths are meters. Every path in an applied
//! description is absolute.

use std::sync::Arc;

use vstd::prelude::*;

use crate::bits::{Num, Vec2, Vec3, Vec4};
use crate::changeset;
use crate::changeset::{ChangeSet, Dirty, DirtySets, Kind};
use crate::error::SceneError;
use crate::path::FilePath;
use crate::table::{Order, Ranked, Table};
use crate::validate;
use crate::validate::Facts;
use crate::value::{Duplicate, Same};

verus! {

/// A material parameter that is either one value everywhere or a lookup in
/// an image.
#[derive(Clone, Debug, PartialEq)]
pub enum Texturable<T> {
    /// The same value across the whole surface.
    Constant(T),
    /// Sampled from an image at the hit's texture coordinate.
    Texture(TextureRef),
}

impl<T> Texturable<T> {
    /// The texture reference, if this parameter is textured.
    pub open spec fn reference(self) -> Option<TextureRef> {
        match self {
            Texturable::Constant(_) => None,
            Texturable::Texture(reference) => Some(reference),
        }
    }

    /// The texture reference, if this parameter is textured.
    pub fn texture(&self) -> (r: Option<&TextureRef>)
        ensures
            r is Some == self.reference() is Some,
            r matches Some(reference) ==> self.reference() == Some(*reference),
    {
        match self {
            Texturable::Constant(_) => None,
            Texturable::Texture(reference) => Some(reference),
        }
    }

    /// The texture reference to be changed, if this parameter is textured; one
    /// that is not stays as it is.
    pub fn texture_mut(&mut self) -> (r: Option<&mut TextureRef>)
        ensures
            match r {
                Some(reference) => old(self).reference() == Some(*reference) && *final(self)
                    == Texturable::<T>::Texture(*final(reference)),
                None => old(self).reference() is None && *final(self) == *old(self),
            },
    {
        match self {
            Texturable::Constant(_) => None,
            Texturable::Texture(reference) => Some(reference),
        }
    }
}

impl<T: Copy> Duplicate for Texturable<T> {
    fn duplicate(&self) -> (r: Texturable<T>) {
        match self {
            Texturable::Constant(value) => Texturable::Constant(*value),
            Texturable::Texture(reference) => Texturable::Texture(reference.duplicate()),
        }
    }
}

impl<T: Same> Same for Texturable<T> {
    open spec fn same(self, other: Texturable<T>) -> bool {
        match (self, other) {
            (Texturable::Constant(left), Texturable::Constant(right)) => left.same(right),
            (Texturable::Texture(left), Texturable::Texture(right)) => left.same(right),
            _ => false,
        }
    }

    fn is_same(&self, other: &Texturable<T>) -> (r: bool) {
        match (self, other) {
            (Texturable::Constant(left), Texturable::Constant(right)) => left.is_same(right),
            (Texturable::Texture(left), Texturable::Texture(right)) => left.is_same(right),
            _ => false,
        }
    }

    proof fn same_chains(self, middle: Texturable<T>, last: Texturable<T>) {
        match (self, middle, last) {
            (Texturable::Constant(a), Texturable::Constant(b), Texturable::Constant(c)) => {
                a.same_chains(b, c);
            },
            (Texturable::Texture(a), Texturable::Texture(b), Texturable::Texture(c)) => {
                a.same_chains(b, c);
            },
            _ => {},
        }
    }
}

/// A reference to an image file feeding a material parameter.
#[derive(Clone, Debug, PartialEq)]
pub struct TextureRef {
    /// The image file, absolute once applied.
    pub path: FilePath,
    /// Color-space override. `None` derives it from the slot.
    pub color_space: Option<ColorSpace>,
    /// The source channel a scalar slot reads; `None` means red.
    pub channel: Option<Channel>,
    /// A multiplier over every sampled value; `None` means 1.
    pub scale: Option<Num>,
    /// An affine remap of the texture coordinate; `None` is the identity.
    pub uv: Option<UvTransform>,
}

impl Duplicate for TextureRef {
    fn duplicate(&self) -> (r: TextureRef) {
        TextureRef {
            path: self.path.duplicate(),
            color_space: self.color_space,
            channel: self.channel,
            scale: self.scale,
            uv: self.uv,
        }
    }
}

impl Same for TextureRef {
    open spec fn same(self, other: TextureRef) -> bool {
        &&& self.path.same(other.path)
        &&& self.color_space == other.color_space
        &&& self.channel == other.channel
        &&& self.scale.same(other.scale)
        &&& self.uv.same(other.uv)
    }

    fn is_same(&self, other: &TextureRef) -> (r: bool) {
        self.path.is_same(&other.path) && same_space(self.color_space, other.color_space)
            && same_channel(self.channel, other.channel) && self.scale.is_same(&other.scale)
            && self.uv.is_same(&other.uv)
    }

    proof fn same_chains(self, middle: TextureRef, last: TextureRef) {
        self.path.same_chains(middle.path, last.path);
        self.scale.same_chains(middle.scale, last.scale);
        self.uv.same_chains(middle.uv, last.uv);
    }
}

fn same_space(left: Option<ColorSpace>, right: Option<ColorSpace>) -> (r: bool)
    ensures
        r == (left == right),
{
    match (left, right) {
        (Some(left), Some(right)) => left == right,
        (None, None) => true,
        _ => false,
    }
}

fn same_channel(left: Option<Channel>, right: Option<Channel>) -> (r: bool)
    ensures
        r == (left == right),
{
    match (left, right) {
        (Some(left), Some(right)) => left == right,
        (None, None) => true,
        _ => false,
    }
}

/// An affine remap of a texture coordinate: scale about the origin, then
/// offset.
#[derive(Clone, Copy, Debug, PartialEq, Eq, Structural)]
pub struct UvTransform {
    /// Per-axis multiplier.
    pub scale: Vec2,
    /// Added after the scale.
    pub offset: Vec2,
}

impl Default for UvTransform {
    /// The identity.
    fn default() -> (r: UvTransform)
        ensures
            r == (UvTransform {
                scale: Vec2 { x: Num::new(0x3f80_0000), y: Num::new(0x3f80_0000) },
                offset: Vec2 { x: Num::new(0), y: Num::new(0) },
            }),
    {
        UvTransform { scale: Vec2::splat(0x3f80_0000), offset: Vec2::splat(0) }
    }
}

impl Same for UvTransform {
    open spec fn same(self, other: UvTransform) -> bool {
        self.scale.same(other.scale) && self.offset.same(other.offset)
    }

    fn is_same(&self, other: &UvTransform) -> (r: bool) {
        self.scale.is_same(&other.scale) && self.offset.is_same(&other.offset)
    }

    proof fn same_chains(self, middle: UvTransform, last: UvTransform) {
    }
}

/// One channel of a source image.
#[derive(Clone, Copy, Debug, PartialEq, Eq, Structural)]
pub enum Channel {
    /// The red component.
    R,
    /// The green component.
    G,
    /// The blue component.
    B,
    /// The alpha component.
    A,
}

/// How an image's stored values map to linear light.
#[derive(Clone, Copy, Debug, PartialEq, Eq, Structural)]
pub enum ColorSpace {
    /// sRGB-encoded values, linearized on sampling.
    Srgb,
    /// Values are already linear.
    Linear,
}

/// An object-to-world placement, in one of two spellings. Both must be
/// invertible.
#[derive(Clone, Copy, Debug, PartialEq, Eq, Structural)]
pub enum Transform {
    /// Scale, then rotation about X, Y and Z, then translation.
    Trs {
        /// Translation, meters.
        translate: Vec3,
        /// Rotation angles in degrees about the world axes.
        rotate_degrees: Vec3,
        /// Per-axis scale factors.
        scale: Vec3,
    },
    /// The top three rows of an affine matrix.
    Matrix {
        /// First row.
        x: Vec4,
        /// Second row.
        y: Vec4,
        /// Third row.
        z: Vec4,
    },
}

/// The identity placement.
pub open spec fn identity() -> Transform {
    Transform::Trs {
        translate: Vec3::new(0, 0, 0),
        rotate_degrees: Vec3::new(0, 0, 0),
        scale: Vec3::new(0x3f80_0000, 0x3f80_0000, 0x3f80_0000),
    }
}

impl Default for Transform {
    /// The identity.
    fn default() -> (r: Transform)
        ensures
            r == identity(),
    {
        Transform::Trs {
            translate: Vec3::splat(0),
            rotate_degrees: Vec3::splat(0),
            scale: Vec3::splat(0x3f80_0000),
        }
    }
}

impl Same for Transform {
    open spec fn same(self, other: Transform) -> bool {
        match (self, other) {
            (
                Transform::Trs { translate: t, rotate_degrees: r, scale: s },
                Transform::Trs { translate, rotate_degrees, scale },
            ) => t.equal(translate) && r.equal(rotate_degrees) && s.equal(scale),
            (
                Transform::Matrix { x: a, y: b, z: c },
                Transform::Matrix { x, y, z },
            ) => a.equal(x) && b.equal(y) && c.equal(z),
            _ => false,
        }
    }

    fn is_same(&self, other: &Transform) -> (r: bool) {
        match (self, other) {
            (
                Transform::Trs { translate: t, rotate_degrees: r, scale: s },
                Transform::Trs { translate, rotate_degrees, scale },
            ) => t.equals(translate) && r.equals(rotate_degrees) && s.equals(scale),
            (
                Transform::Matrix { x: a, y: b, z: c },
                Transform::Matrix { x, y, z },
            ) => a.equals(x) && b.equals(y) && c.equals(z),
            _ => false,
        }
    }

    proof fn same_chains(self, middle: Transform, last: Transform) {
    }
}

/// A named triangle mesh.
#[derive(Clone, Debug, PartialEq)]
pub struct Mesh {
    /// Where the triangles come from.
    pub source: MeshSource,
}

/// A mesh's geometry payload.
#[derive(Clone, Debug, PartialEq)]
pub enum MeshSource {
    /// Geometry spelled out.
    Inline {
        /// Vertex positions, meters, object space.
        positions: Arc<Vec<Vec3>>,
        /// Unit shading normals, one per position; absent means derived.
        normals: Option<Arc<Vec<Vec3>>>,
        /// Texture coordinates, one per position.
        uvs: Option<Arc<Vec<Vec2>>>,
        /// Counter-clockwise-outward index triples into `positions`.
        triangles: Arc<Vec<[u32; 3]>>,
    },
    /// Geometry loaded from a PLY file.
    Ply {
        /// The file.
        path: FilePath,
    },
    /// The unit cube that a heterogeneous medium stretches over its grid.
    MediumBounds,
}

impl MeshSource {
    /// An inline payload with nothing in it.
    pub open spec fn blank(self) -> bool {
        match self {
            MeshSource::Inline { positions, normals, uvs, triangles } => positions@.len() == 0
                && normals is None && uvs is None && triangles@.len() == 0,
            _ => false,
        }
    }
}

impl Default for MeshSource {
    /// An empty inline payload, the placeholder that validation rejects.
    fn default() -> (r: MeshSource)
        ensures
            r.blank(),
    {
        MeshSource::Inline {
            positions: Arc::new(Vec::new()),
            normals: None,
            uvs: None,
            triangles: Arc::new(Vec::new()),
        }
    }
}

impl Default for Mesh {
    /// A mesh with an empty payload.
    fn default() -> (r: Mesh)
        ensures
            r.source.blank(),
    {
        Mesh { source: MeshSource::default() }
    }
}

impl Duplicate for MeshSource {
    fn duplicate(&self) -> (r: MeshSource) {
        match self {
            MeshSource::Inline { positions, normals, uvs, triangles } => MeshSource::Inline {
                positions: positions.duplicate(),
                normals: normals.duplicate(),
                uvs: uvs.duplicate(),
                triangles: triangles.duplicate(),
            },
            MeshSource::Ply { path } => MeshSource::Ply { path: path.duplicate() },
            MeshSource::MediumBounds => MeshSource::MediumBounds,
        }
    }
}

impl Same for MeshSource {
    open spec fn same(self, other: MeshSource) -> bool {
        match (self, other) {
            (
                MeshSource::Inline { positions: p, normals: n, uvs: u, triangles: t },
                MeshSource::Inline { positions, normals, uvs, triangles },
            ) => p.same(positions) && n.same(normals) && u.same(uvs) && t.same(triangles),
            (MeshSource::Ply { path: p }, MeshSource::Ply { path }) => p.same(path),
            (MeshSource::MediumBounds, MeshSource::MediumBounds) => true,
            _ => false,
        }
    }

    fn is_same(&self, other: &MeshSource) -> (r: bool) {
        match (self, other) {
            (
                MeshSource::Inline { positions: p, normals: n, uvs: u, triangles: t },
                MeshSource::Inline { positions, normals, uvs, triangles },
            ) => p.is_same(positions) && n.is_same(normals) && u.is_same(uvs) && t.is_same(
                triangles,
            ),
            (MeshSource::Ply { path: p }, MeshSource::Ply { path }) => p.is_same(path),
            (MeshSource::MediumBounds, MeshSource::MediumBounds) => true,
            _ => false,
        }
    }

    proof fn same_chains(self, middle: MeshSource, last: MeshSource) {
        match (self, middle, last) {
            (
                MeshSource::Inline { positions: p, normals: n, uvs: u, triangles: t },
                MeshSource::Inline { positions: p1, normals: n1, uvs: u1, triangles: t1 },
                MeshSource::Inline { positions: p2, normals: n2, uvs: u2, triangles: t2 },
            ) => {
                p.same_chains(p1, p2);
                n.same_chains(n1, n2);
                u.same_chains(u1, u2);
                t.same_chains(t1, t2);
            },
            _ => {},
        }
    }
}

/// A named batch of curves: hair, fur, grass, fiber.
#[derive(Clone, Debug, PartialEq)]
pub struct Curves {
    /// Where the curves come from.
    pub source: CurvesSource,
}

/// A curve batch's payload.
#[derive(Clone, Debug, PartialEq)]
pub enum CurvesSource {
    /// Cells spelled out.
    Inline {
        /// Control points, curve after curve.
        points: Arc<Vec<Vec3>>,
        /// How many control points each curve takes.
        curve_vertex_counts: Arc<Vec<u32>>,
        /// The width stream, if any.
        widths: Option<Widths>,
        /// Whether segments are straight.
        curve_type: CurveType,
        /// The basis of cubic segments.
        basis: CurveBasis,
        /// How a curve meets its own ends.
        wrap: CurveWrap,
    },
    /// A groom loaded from a `.hair` file.
    Hair {
        /// The file.
        path: FilePath,
    },
}

/// A width stream: diameters, and what each of them belongs to.
#[derive(Clone, Debug, PartialEq)]
pub struct Widths {
    /// The diameters.
    pub values: Arc<Vec<Num>>,
    /// What each diameter belongs to.
    pub interpolation: WidthInterpolation,
}

/// What the values of a width stream belong to.
#[derive(Clone, Copy, Debug, PartialEq, Eq, Structural)]
pub enum WidthInterpolation {
    /// One value for the batch.
    Constant,
    /// One value per curve.
    Uniform,
    /// One value per segment end.
    Varying,
    /// One value per control point.
    Vertex,
}

/// The segments of a curve.
#[derive(Clone, Copy, Debug, PartialEq, Eq, Structural)]
pub enum CurveType {
    /// Straight segments.
    Linear,
    /// Cubic segments.
    Cubic,
}

/// The basis of cubic segments.
#[derive(Clone, Copy, Debug, PartialEq, Eq, Structural)]
pub enum CurveBasis {
    /// Bezier: segments share one point.
    Bezier,
    /// Uniform B-spline.
    BSpline,
    /// Catmull-Rom.
    CatmullRom,
}

/// How a curve meets its own ends.
#[derive(Clone, Copy, Debug, PartialEq, Eq, Structural)]
pub enum CurveWrap {
    /// It ends where its basis leaves it.
    Nonperiodic,
    /// It closes on itself.
    Periodic,
    /// It is carried out to its first and last points.
    Pinned,
}

impl CurvesSource {
    /// An inline payload with nothing in it.
    pub open spec fn blank(self) -> bool {
        match self {
            CurvesSource::Inline { points, curve_vertex_counts, widths, curve_type, basis, wrap } =>
                points@.len() == 0 && curve_vertex_counts@.len() == 0 && widths is None
                && curve_type == CurveType::Cubic && basis == CurveBasis::Bezier && wrap
                == CurveWrap::Nonperiodic,
            _ => false,
        }
    }
}

impl Default for CurvesSource {
    /// An empty inline payload, the placeholder that validation rejects.
    fn default() -> (r: CurvesSource)
        ensures
            r.blank(),
    {
        CurvesSource::Inline {
            points: Arc::new(Vec::new()),
            curve_vertex_counts: Arc::new(Vec::new()),
            widths: None,
            curve_type: CurveType::Cubic,
            basis: CurveBasis::Bezier,
            wrap: CurveWrap::Nonperiodic,
        }
    }
}

impl Default for Curves {
    /// A batch with an empty payload.
    fn default() -> (r: Curves)
        ensures
            r.source.blank(),
    {
        Curves { source: CurvesSource::default() }
    }
}

impl Duplicate for Widths {
    fn duplicate(&self) -> (r: Widths) {
        Widths { values: self.values.duplicate(), interpolation: self.interpolation }
    }
}

impl Same for Widths {
    open spec fn same(self, other: Widths) -> bool {
        self.values.same(other.values) && self.interpolation == other.interpolation
    }

    fn is_same(&self, other: &Widths) -> (r: bool) {
        self.values.is_same(&other.values) && self.interpolation == other.interpolation
    }

    proof fn same_chains(self, middle: Widths, last: Widths) {
        self.values.same_chains(middle.values, last.values);
    }
}

impl Duplicate for CurvesSource {
    fn duplicate(&self) -> (r: CurvesSource) {
        match self {
            CurvesSource::Inline { points, curve_vertex_counts, widths, curve_type, basis, wrap } =>
                CurvesSource::Inline {
                points: points.duplicate(),
                curve_vertex_counts: curve_vertex_counts.duplicate(),
                widths: widths.duplicate(),
                curve_type: *curve_type,
                basis: *basis,
                wrap: *wrap,
            },
            CurvesSource::Hair { path } => CurvesSource::Hair { path: path.duplicate() },
        }
    }
}

impl Same for CurvesSource {
    open spec fn same(self, other: CurvesSource) -> bool {
        match (self, other) {
            (
                CurvesSource::Inline {
                    points: p,
                    curve_vertex_counts: c,
                    widths: w,
                    curve_type: t,
                    basis: b,
                    wrap: r,
                },
                CurvesSource::Inline { points, curve_vertex_counts, widths, curve_type, basis, wrap },
            ) => p.same(points) && c.same(curve_vertex_counts) && w.same(widths) && t == curve_type
                && b == basis && r == wrap,
            (CurvesSource::Hair { path: p }, CurvesSource::Hair { path }) => p.same(path),
            _ => false,
        }
    }

    fn is_same(&self, other: &CurvesSource) -> (r: bool) {
        match (self, other) {
            (
                CurvesSource::Inline {
                    points: p,
                    curve_vertex_counts: c,
                    widths: w,
                    curve_type: t,
                    basis: b,
                    wrap: r,
                },
                CurvesSource::Inline { points, curve_vertex_counts, widths, curve_type, basis, wrap },
            ) => p.is_same(points) && c.is_same(curve_vertex_counts) && w.is_same(widths) && *t
                == *curve_type && *b == *basis && *r == *wrap,
            (CurvesSource::Hair { path: p }, CurvesSource::Hair { path }) => p.is_same(path),
            _ => false,
        }
    }

    proof fn same_chains(self, middle: CurvesSource, last: CurvesSource) {
        match (self, middle, last) {
            (
                CurvesSource::Inline { points: p, curve_vertex_counts: c, widths: w, .. },
                CurvesSource::Inline { points: p1, curve_vertex_counts: c1, widths: w1, .. },
                CurvesSource::Inline { points: p2, curve_vertex_counts: c2, widths: w2, .. },
            ) => {
                p.same_chains(p1, p2);
                c.same_chains(c1, c2);
                w.same_chains(w1, w2);
            },
            _ => {},
        }
    }
}

/// What an instance places: a mesh or a curve batch, by name.
#[derive(Clone, Debug, PartialEq, Eq)]
pub enum Geometry {
    /// A mesh.
    Mesh(String),
    /// A curve batch.
    Curves(String),
}

impl Geometry {
    /// The name the reference holds.
    pub open spec fn named(self) -> Seq<char> {
        match self {
            Geometry::Mesh(name) => name@,
            Geometry::Curves(name) => name@,
        }
    }

    /// The kind the reference resolves in.
    pub fn kind(&self) -> (r: Kind)
        ensures
            r == (if self is Mesh {
                Kind::Mesh
            } else {
                Kind::Curves
            }),
    {
        match self {
            Geometry::Mesh(_) => Kind::Mesh,
            Geometry::Curves(_) => Kind::Curves,
        }
    }

    /// The name the reference holds.
    pub fn name(&self) -> (r: &String)
        ensures
            r@ == self.named(),
    {
        match self {
            Geometry::Mesh(name) => name,
            Geometry::Curves(name) => name,
        }
    }
}

impl View for Geometry {
    type V = (Kind, Seq<char>);

    /// The kind and the name.
    open spec fn view(&self) -> (Kind, Seq<char>) {
        (
            if self is Mesh {
                Kind::Mesh
            } else {
                Kind::Curves
            },
            self.named(),
        )
    }
}

impl Ranked for Geometry {
    /// Meshes before curves, and each by name.
    open spec fn precedes(a: (Kind, Seq<char>), b: (Kind, Seq<char>)) -> bool {
        <(Kind, String)>::precedes(a, b)
    }

    proof fn never_precedes_itself(a: (Kind, Seq<char>)) {
        <(Kind, String)>::never_precedes_itself(a);
    }

    proof fn precedes_transitively(
        a: (Kind, Seq<char>),
        b: (Kind, Seq<char>),
        c: (Kind, Seq<char>),
    ) {
        <(Kind, String)>::precedes_transitively(a, b, c);
    }

    proof fn precedes_one_way(a: (Kind, Seq<char>), b: (Kind, Seq<char>)) {
        <(Kind, String)>::precedes_one_way(a, b);
    }

    fn order(&self, other: &Geometry) -> (r: Order) {
        match (self, other) {
            (Geometry::Mesh(left), Geometry::Mesh(right)) => left.order(right),
            (Geometry::Curves(left), Geometry::Curves(right)) => left.order(right),
            (Geometry::Mesh(_), Geometry::Curves(_)) => Order::Less,
            (Geometry::Curves(_), Geometry::Mesh(_)) => Order::Greater,
        }
    }
}

impl Duplicate for Geometry {
    fn duplicate(&self) -> (r: Geometry) {
        match self {
            Geometry::Mesh(name) => Geometry::Mesh(name.duplicate()),
            Geometry::Curves(name) => Geometry::Curves(name.duplicate()),
        }
    }
}

impl Same for Geometry {
    open spec fn same(self, other: Geometry) -> bool {
        (self is Mesh) == (other is Mesh) && self.named() == other.named()
    }

    fn is_same(&self, other: &Geometry) -> (r: bool) {
        match (self, other) {
            (Geometry::Mesh(left), Geometry::Mesh(right)) => left.is_same(right),
            (Geometry::Curves(left), Geometry::Curves(right)) => left.is_same(right),
            _ => false,
        }
    }

    proof fn same_chains(self, middle: Geometry, last: Geometry) {
    }
}

impl Duplicate for Mesh {
    fn duplicate(&self) -> (r: Mesh) {
        Mesh {
            source: self.source.duplicate(),
        }
    }
}

impl Same for Mesh {
    open spec fn same(self, other: Mesh) -> bool {
        &&& self.source.same(other.source)
    }

    fn is_same(&self, other: &Mesh) -> (r: bool) {
        self.source.is_same(&other.source)
    }

    proof fn same_chains(self, middle: Mesh, last: Mesh) {
        self.source.same_chains(middle.source, last.source);
    }
}

impl Duplicate for Curves {
    fn duplicate(&self) -> (r: Curves) {
        Curves {
            source: self.source.duplicate(),
        }
    }
}

impl Same for Curves {
    open spec fn same(self, other: Curves) -> bool {
        &&& self.source.same(other.source)
    }

    fn is_same(&self, other: &Curves) -> (r: bool) {
        self.source.is_same(&other.source)
    }

    proof fn same_chains(self, middle: Curves, last: Curves) {
        self.source.same_chains(middle.source, last.source);
    }
}

/// One thing standing in the scene: geometry placed zero or more times,
/// wearing a material.
#[derive(Clone, Debug, PartialEq)]
pub struct Instance {
    /// What this instance places. The empty name only exists so that a new
    /// instance has a value, and validation rejects it.
    pub geometry: Geometry,
    /// Name of the material on its surface.
    pub material: String,
    /// Object-to-world placements, one per copy; empty places nothing.
    pub transforms: Arc<Vec<Transform>>,
    /// Whether camera rays see it.
    pub camera_visible: bool,
    /// The medium this geometry bounds, by name.
    pub medium: Option<String>,
    /// Which solid wins where refractive interiors overlap.
    pub interior_priority: u32,
}

impl Instance {
    /// One identity placement of nothing in particular.
    pub open spec fn blank(self) -> bool {
        &&& self.geometry is Mesh
        &&& self.geometry.named().len() == 0
        &&& self.material@.len() == 0
        &&& self.transforms@ == seq![identity()]
        &&& self.camera_visible
        &&& self.medium is None
        &&& self.interior_priority == 0
    }
}

impl Default for Instance {
    /// One identity placement: an instance never told where to stand stands
    /// once at the origin.
    fn default() -> (r: Instance)
        ensures
            r.blank(),
    {
        let mut transforms: Vec<Transform> = Vec::new();
        transforms.push(Transform::default());
        let r = Instance {
            geometry: Geometry::Mesh(String::new()),
            material: String::new(),
            transforms: Arc::new(transforms),
            camera_visible: true,
            medium: None,
            interior_priority: 0,
        };
        assert(r.transforms@ =~= seq![identity()]);
        r
    }
}

impl Duplicate for Instance {
    fn duplicate(&self) -> (r: Instance) {
        Instance {
            geometry: self.geometry.duplicate(),
            material: self.material.duplicate(),
            transforms: self.transforms.duplicate(),
            camera_visible: self.camera_visible,
            medium: self.medium.duplicate(),
            interior_priority: self.interior_priority,
        }
    }
}

impl Same for Instance {
    open spec fn same(self, other: Instance) -> bool {
        &&& self.geometry.same(other.geometry)
        &&& self.material.same(other.material)
        &&& self.transforms.same(other.transforms)
        &&& self.camera_visible.same(other.camera_visible)
        &&& self.medium.same(other.medium)
        &&& self.interior_priority.same(other.interior_priority)
    }

    fn is_same(&self, other: &Instance) -> (r: bool) {
        self.geometry.is_same(&other.geometry)
            && self.material.is_same(&other.material)
            && self.transforms.is_same(&other.transforms)
            && self.camera_visible.is_same(&other.camera_visible)
            && self.medium.is_same(&other.medium)
            && self.interior_priority.is_same(&other.interior_priority)
    }

    proof fn same_chains(self, middle: Instance, last: Instance) {
        self.geometry.same_chains(middle.geometry, last.geometry);
        self.material.same_chains(middle.material, last.material);
        self.transforms.same_chains(middle.transforms, last.transforms);
        self.camera_visible.same_chains(middle.camera_visible, last.camera_visible);
        self.medium.same_chains(middle.medium, last.medium);
        self.interior_priority.same_chains(middle.interior_priority, last.interior_priority);
    }
}

/// An OpenPBR surface, in OpenPBR's own parameters and defaults.
#[derive(Clone, Debug, PartialEq)]
pub struct Material {
    /// Diffuse albedo, and the conductor's reflectance as `base_metalness` rises.
    pub base_color: Texturable<Vec3>,
    /// Diffuse roughness; 0 is Lambert.
    pub base_diffuse_roughness: Num,
    /// Conductor blend: 0 dielectric base, 1 pure metal.
    pub base_metalness: Texturable<Num>,
    /// Weight of the dielectric specular layer; 0 removes it.
    pub specular_weight: Num,
    /// Roughness of both specular lobes.
    pub specular_roughness: Texturable<Num>,
    /// Index of refraction of the specular layer and of transmission.
    pub specular_ior: Num,
    /// Weight of the transmissive lobe; 0 is opaque.
    pub transmission_weight: Num,
    /// The color light has picked up after `transmission_depth` inside.
    pub transmission_color: Vec3,
    /// Distance at which `transmission_color` is reached, in meters; 0 tints the interface.
    pub transmission_depth: Num,
    /// The part of that extinction which scatters rather than absorbs.
    pub transmission_scatter: Vec3,
    /// Anisotropy of the interior's scattering.
    pub transmission_scatter_anisotropy: Num,
    /// Weight of the subsurface lobe; 0 removes it.
    pub subsurface_weight: Texturable<Num>,
    /// The color light has picked up after scattering many times inside.
    pub subsurface_color: Texturable<Vec3>,
    /// Scattering mean free path in meters, before the scale.
    pub subsurface_radius: Texturable<Num>,
    /// Per-channel multipliers on `subsurface_radius`.
    pub subsurface_radius_scale: Texturable<Vec3>,
    /// Anisotropy of the subsurface interior's scattering.
    pub subsurface_scatter_anisotropy: Texturable<Num>,
    /// Weight of the clear coat.
    pub coat_weight: Num,
    /// Tint the coat multiplies onto the base.
    pub coat_color: Vec3,
    /// Roughness of the coat.
    pub coat_roughness: Num,
    /// Index of refraction of the coat.
    pub coat_ior: Num,
    /// How strongly the coat's internal reflections darken the base.
    pub coat_darkening: Num,
    /// Weight of the fuzz lobe.
    pub fuzz_weight: Num,
    /// Fuzz color.
    pub fuzz_color: Vec3,
    /// Fuzz fiber roughness.
    pub fuzz_roughness: Num,
    /// Emitted luminance; nonzero marks the instance as a light.
    pub emission_luminance: Num,
    /// Emission tint.
    pub emission_color: Texturable<Vec3>,
    /// Coverage: 1 opaque, 0 invisible.
    pub geometry_opacity: Texturable<Num>,
    /// Thin-walled surfaces have no interior.
    pub geometry_thin_walled: bool,
    /// Tangent-space normal map, if any.
    pub geometry_normal: Option<TextureRef>,
}

/// The surface that no parameter was given for.
pub open spec fn plain_material() -> Material {
    Material {
        base_color: Texturable::Constant(Vec3::new(0x3f4c_cccd, 0x3f4c_cccd, 0x3f4c_cccd)),
        base_diffuse_roughness: Num::new(0),
        base_metalness: Texturable::Constant(Num::new(0)),
        specular_weight: Num::new(0x3f80_0000),
        specular_roughness: Texturable::Constant(Num::new(0x3e99_999a)),
        specular_ior: Num::new(0x3fc0_0000),
        transmission_weight: Num::new(0),
        transmission_color: Vec3::new(0x3f80_0000, 0x3f80_0000, 0x3f80_0000),
        transmission_depth: Num::new(0),
        transmission_scatter: Vec3::new(0, 0, 0),
        transmission_scatter_anisotropy: Num::new(0),
        subsurface_weight: Texturable::Constant(Num::new(0)),
        subsurface_color: Texturable::Constant(Vec3::new(0x3f4c_cccd, 0x3f4c_cccd, 0x3f4c_cccd)),
        subsurface_radius: Texturable::Constant(Num::new(0x3f80_0000)),
        subsurface_radius_scale: Texturable::Constant(Vec3::new(0x3f80_0000, 0x3f00_0000, 0x3e80_0000)),
        subsurface_scatter_anisotropy: Texturable::Constant(Num::new(0)),
        coat_weight: Num::new(0),
        coat_color: Vec3::new(0x3f80_0000, 0x3f80_0000, 0x3f80_0000),
        coat_roughness: Num::new(0),
        coat_ior: Num::new(0x3fcc_cccd),
        coat_darkening: Num::new(0x3f80_0000),
        fuzz_weight: Num::new(0),
        fuzz_color: Vec3::new(0x3f80_0000, 0x3f80_0000, 0x3f80_0000),
        fuzz_roughness: Num::new(0x3f00_0000),
        emission_luminance: Num::new(0),
        emission_color: Texturable::Constant(Vec3::new(0x3f80_0000, 0x3f80_0000, 0x3f80_0000)),
        geometry_opacity: Texturable::Constant(Num::new(0x3f80_0000)),
        geometry_thin_walled: false,
        geometry_normal: None,
    }
}

impl Default for Material {
    /// OpenPBR's own defaults, field for field.
    fn default() -> (r: Material)
        ensures
            r == plain_material(),
    {
        Material {
            base_color: Texturable::Constant(Vec3::new(0x3f4c_cccd, 0x3f4c_cccd, 0x3f4c_cccd)),
            base_diffuse_roughness: Num::new(0),
            base_metalness: Texturable::Constant(Num::new(0)),
            specular_weight: Num::new(0x3f80_0000),
            specular_roughness: Texturable::Constant(Num::new(0x3e99_999a)),
            specular_ior: Num::new(0x3fc0_0000),
            transmission_weight: Num::new(0),
            transmission_color: Vec3::new(0x3f80_0000, 0x3f80_0000, 0x3f80_0000),
            transmission_depth: Num::new(0),
            transmission_scatter: Vec3::new(0, 0, 0),
            transmission_scatter_anisotropy: Num::new(0),
            subsurface_weight: Texturable::Constant(Num::new(0)),
            subsurface_color: Texturable::Constant(Vec3::new(0x3f4c_cccd, 0x3f4c_cccd, 0x3f4c_cccd)),
            subsurface_radius: Texturable::Constant(Num::new(0x3f80_0000)),
            subsurface_radius_scale: Texturable::Constant(Vec3::new(0x3f80_0000, 0x3f00_0000, 0x3e80_0000)),
            subsurface_scatter_anisotropy: Texturable::Constant(Num::new(0)),
            coat_weight: Num::new(0),
            coat_color: Vec3::new(0x3f80_0000, 0x3f80_0000, 0x3f80_0000),
            coat_roughness: Num::new(0),
            coat_ior: Num::new(0x3fcc_cccd),
            coat_darkening: Num::new(0x3f80_0000),
            fuzz_weight: Num::new(0),
            fuzz_color: Vec3::new(0x3f80_0000, 0x3f80_0000, 0x3f80_0000),
            fuzz_roughness: Num::new(0x3f00_0000),
            emission_luminance: Num::new(0),
            emission_color: Texturable::Constant(Vec3::new(0x3f80_0000, 0x3f80_0000, 0x3f80_0000)),
            geometry_opacity: Texturable::Constant(Num::new(0x3f80_0000)),
            geometry_thin_walled: false,
            geometry_normal: None,
        }
    }
}

impl Duplicate for Material {
    fn duplicate(&self) -> (r: Material) {
        Material {
            base_color: self.base_color.duplicate(),
            base_diffuse_roughness: self.base_diffuse_roughness,
            base_metalness: self.base_metalness.duplicate(),
            specular_weight: self.specular_weight,
            specular_roughness: self.specular_roughness.duplicate(),
            specular_ior: self.specular_ior,
            transmission_weight: self.transmission_weight,
            transmission_color: self.transmission_color,
            transmission_depth: self.transmission_depth,
            transmission_scatter: self.transmission_scatter,
            transmission_scatter_anisotropy: self.transmission_scatter_anisotropy,
            subsurface_weight: self.subsurface_weight.duplicate(),
            subsurface_color: self.subsurface_color.duplicate(),
            subsurface_radius: self.subsurface_radius.duplicate(),
            subsurface_radius_scale: self.subsurface_radius_scale.duplicate(),
            subsurface_scatter_anisotropy: self.subsurface_scatter_anisotropy.duplicate(),
            coat_weight: self.coat_weight,
            coat_color: self.coat_color,
            coat_roughness: self.coat_roughness,
            coat_ior: self.coat_ior,
            coat_darkening: self.coat_darkening,
            fuzz_weight: self.fuzz_weight,
            fuzz_color: self.fuzz_color,
            fuzz_roughness: self.fuzz_roughness,
            emission_luminance: self.emission_luminance,
            emission_color: self.emission_color.duplicate(),
            geometry_opacity: self.geometry_opacity.duplicate(),
            geometry_thin_walled: self.geometry_thin_walled,
            geometry_normal: self.geometry_normal.duplicate(),
        }
    }
}

impl Same for Material {
    open spec fn same(self, other: Material) -> bool {
        &&& self.base_color.same(other.base_color)
        &&& self.base_diffuse_roughness.same(other.base_diffuse_roughness)
        &&& self.base_metalness.same(other.base_metalness)
        &&& self.specular_weight.same(other.specular_weight)
        &&& self.specular_roughness.same(other.specular_roughness)
        &&& self.specular_ior.same(other.specular_ior)
        &&& self.transmission_weight.same(other.transmission_weight)
        &&& self.transmission_color.same(other.transmission_color)
        &&& self.transmission_depth.same(other.transmission_depth)
        &&& self.transmission_scatter.same(other.transmission_scatter)
        &&& self.transmission_scatter_anisotropy.same(other.transmission_scatter_anisotropy)
        &&& self.subsurface_weight.same(other.subsurface_weight)
        &&& self.subsurface_color.same(other.subsurface_color)
        &&& self.subsurface_radius.same(other.subsurface_radius)
        &&& self.subsurface_radius_scale.same(other.subsurface_radius_scale)
        &&& self.subsurface_scatter_anisotropy.same(other.subsurface_scatter_anisotropy)
        &&& self.coat_weight.same(other.coat_weight)
        &&& self.coat_color.same(other.coat_color)
        &&& self.coat_roughness.same(other.coat_roughness)
        &&& self.coat_ior.same(other.coat_ior)
        &&& self.coat_darkening.same(other.coat_darkening)
        &&& self.fuzz_weight.same(other.fuzz_weight)
        &&& self.fuzz_color.same(other.fuzz_color)
        &&& self.fuzz_roughness.same(other.fuzz_roughness)
        &&& self.emission_luminance.same(other.emission_luminance)
        &&& self.emission_color.same(other.emission_color)
        &&& self.geometry_opacity.same(other.geometry_opacity)
        &&& self.geometry_thin_walled.same(other.geometry_thin_walled)
        &&& self.geometry_normal.same(other.geometry_normal)
    }

    fn is_same(&self, other: &Material) -> (r: bool) {
        self.base_color.is_same(&other.base_color)
            && self.base_diffuse_roughness.is_same(&other.base_diffuse_roughness)
            && self.base_metalness.is_same(&other.base_metalness)
            && self.specular_weight.is_same(&other.specular_weight)
            && self.specular_roughness.is_same(&other.specular_roughness)
            && self.specular_ior.is_same(&other.specular_ior)
            && self.transmission_weight.is_same(&other.transmission_weight)
            && self.transmission_color.is_same(&other.transmission_color)
            && self.transmission_depth.is_same(&other.transmission_depth)
            && self.transmission_scatter.is_same(&other.transmission_scatter)
            && self.transmission_scatter_anisotropy.is_same(&other.transmission_scatter_anisotropy)
            && self.subsurface_weight.is_same(&other.subsurface_weight)
            && self.subsurface_color.is_same(&other.subsurface_color)
            && self.subsurface_radius.is_same(&other.subsurface_radius)
            && self.subsurface_radius_scale.is_same(&other.subsurface_radius_scale)
            && self.subsurface_scatter_anisotropy.is_same(&other.subsurface_scatter_anisotropy)
            && self.coat_weight.is_same(&other.coat_weight)
            && self.coat_color.is_same(&other.coat_color)
            && self.coat_roughness.is_same(&other.coat_roughness)
            && self.coat_ior.is_same(&other.coat_ior)
            && self.coat_darkening.is_same(&other.coat_darkening)
            && self.fuzz_weight.is_same(&other.fuzz_weight)
            && self.fuzz_color.is_same(&other.fuzz_color)
            && self.fuzz_roughness.is_same(&other.fuzz_roughness)
            && self.emission_luminance.is_same(&other.emission_luminance)
            && self.emission_color.is_same(&other.emission_color)
            && self.geometry_opacity.is_same(&other.geometry_opacity)
            && self.geometry_thin_walled.is_same(&other.geometry_thin_walled)
            && self.geometry_normal.is_same(&other.geometry_normal)
    }

    proof fn same_chains(self, middle: Material, last: Material) {
        self.base_color.same_chains(middle.base_color, last.base_color);
        self.base_diffuse_roughness.same_chains(middle.base_diffuse_roughness, last.base_diffuse_roughness);
        self.base_metalness.same_chains(middle.base_metalness, last.base_metalness);
        self.specular_weight.same_chains(middle.specular_weight, last.specular_weight);
        self.specular_roughness.same_chains(middle.specular_roughness, last.specular_roughness);
        self.specular_ior.same_chains(middle.specular_ior, last.specular_ior);
        self.transmission_weight.same_chains(middle.transmission_weight, last.transmission_weight);
        self.transmission_color.same_chains(middle.transmission_color, last.transmission_color);
        self.transmission_depth.same_chains(middle.transmission_depth, last.transmission_depth);
        self.transmission_scatter.same_chains(middle.transmission_scatter, last.transmission_scatter);
        self.transmission_scatter_anisotropy.same_chains(middle.transmission_scatter_anisotropy, last.transmission_scatter_anisotropy);
        self.subsurface_weight.same_chains(middle.subsurface_weight, last.subsurface_weight);
        self.subsurface_color.same_chains(middle.subsurface_color, last.subsurface_color);
        self.subsurface_radius.same_chains(middle.subsurface_radius, last.subsurface_radius);
        self.subsurface_radius_scale.same_chains(middle.subsurface_radius_scale, last.subsurface_radius_scale);
        self.subsurface_scatter_anisotropy.same_chains(middle.subsurface_scatter_anisotropy, last.subsurface_scatter_anisotropy);
        self.coat_weight.same_chains(middle.coat_weight, last.coat_weight);
        self.coat_color.same_chains(middle.coat_color, last.coat_color);
        self.coat_roughness.same_chains(middle.coat_roughness, last.coat_roughness);
        self.coat_ior.same_chains(middle.coat_ior, last.coat_ior);
        self.coat_darkening.same_chains(middle.coat_darkening, last.coat_darkening);
        self.fuzz_weight.same_chains(middle.fuzz_weight, last.fuzz_weight);
        self.fuzz_color.same_chains(middle.fuzz_color, last.fuzz_color);
        self.fuzz_roughness.same_chains(middle.fuzz_roughness, last.fuzz_roughness);
        self.emission_luminance.same_chains(middle.emission_luminance, last.emission_luminance);
        self.emission_color.same_chains(middle.emission_color, last.emission_color);
        self.geometry_opacity.same_chains(middle.geometry_opacity, last.geometry_opacity);
        self.geometry_thin_walled.same_chains(middle.geometry_thin_walled, last.geometry_thin_walled);
        self.geometry_normal.same_chains(middle.geometry_normal, last.geometry_normal);
    }
}

impl Material {
    /// The texture references of the eleven textured slots, in a fixed order.
    pub open spec fn slots(self) -> Seq<Option<TextureRef>> {
        seq![
            self.base_color.reference(),
            self.base_metalness.reference(),
            self.specular_roughness.reference(),
            self.emission_color.reference(),
            self.geometry_opacity.reference(),
            self.geometry_normal,
            self.subsurface_weight.reference(),
            self.subsurface_color.reference(),
            self.subsurface_radius.reference(),
            self.subsurface_radius_scale.reference(),
            self.subsurface_scatter_anisotropy.reference(),
        ]
    }

    /// Every texture reference this material holds, in slot order.
    pub open spec fn references(self) -> Seq<TextureRef> {
        present(self.slots())
    }

    /// The texture reference in slot `i`, if that slot is textured.
    pub fn slot(&self, i: usize) -> (r: Option<&TextureRef>)
        requires
            i < 11,
        ensures
            r is Some == self.slots()[i as int] is Some,
            r matches Some(reference) ==> self.slots()[i as int] == Some(*reference),
    {
        match i {
            0 => self.base_color.texture(),
            1 => self.base_metalness.texture(),
            2 => self.specular_roughness.texture(),
            3 => self.emission_color.texture(),
            4 => self.geometry_opacity.texture(),
            5 => self.geometry_normal.as_ref(),
            6 => self.subsurface_weight.texture(),
            7 => self.subsurface_color.texture(),
            8 => self.subsurface_radius.texture(),
            9 => self.subsurface_radius_scale.texture(),
            _ => self.subsurface_scatter_anisotropy.texture(),
        }
    }

    /// Every texture reference this material holds, in slot order.
    pub fn textures(&self) -> (r: Vec<&TextureRef>)
        ensures
            r@.len() == self.references().len(),
            forall|i: int| 0 <= i < r@.len() ==> *(#[trigger] r@[i]) == self.references()[i],
    {
        let mut found: Vec<&TextureRef> = Vec::new();
        let ghost slots = self.slots();
        for i in 0..11usize
            invariant
                slots == self.slots(),
                slots.len() == 11,
                found@.len() == present(slots.take(i as int)).len(),
                forall|j: int|
                    0 <= j < found@.len() ==> *(#[trigger] found@[j]) == present(
                        slots.take(i as int),
                    )[j],
        {
            assert(slots.take(i + 1).drop_last() =~= slots.take(i as int));
            if let Some(reference) = self.slot(i) {
                found.push(reference);
            }
        }
        assert(slots.take(11) =~= slots);
        found
    }
}

/// The values that are there, in order.
pub open spec fn present<T>(slots: Seq<Option<T>>) -> Seq<T>
    decreases slots.len(),
{
    if slots.len() == 0 {
        Seq::empty()
    } else {
        match slots.last() {
            Some(value) => present(slots.drop_last()).push(value),
            None => present(slots.drop_last()),
        }
    }
}

/// The density grid of a heterogeneous medium.
#[derive(Clone, Debug, PartialEq)]
pub struct VolumeSource {
    /// The prepared grid file, or the one it is prepared from.
    pub path: FilePath,
    /// The density grid's name.
    pub grid: String,
    /// The temperature grid's name, for a medium that emits.
    pub temperature_grid: Option<String>,
    /// Kelvin per unit of the field.
    pub temperature_scale: Num,
    /// Kelvin at zero.
    pub temperature_offset: Num,
    /// Multiplier on the emitted radiance.
    pub emission: Vec3,
}

impl Duplicate for VolumeSource {
    fn duplicate(&self) -> (r: VolumeSource) {
        VolumeSource {
            path: self.path.duplicate(),
            grid: self.grid.duplicate(),
            temperature_grid: self.temperature_grid.duplicate(),
            temperature_scale: self.temperature_scale,
            temperature_offset: self.temperature_offset,
            emission: self.emission,
        }
    }
}

impl Same for VolumeSource {
    open spec fn same(self, other: VolumeSource) -> bool {
        &&& self.path.same(other.path)
        &&& self.grid.same(other.grid)
        &&& self.temperature_grid.same(other.temperature_grid)
        &&& self.temperature_scale.same(other.temperature_scale)
        &&& self.temperature_offset.same(other.temperature_offset)
        &&& self.emission.same(other.emission)
    }

    fn is_same(&self, other: &VolumeSource) -> (r: bool) {
        self.path.is_same(&other.path)
            && self.grid.is_same(&other.grid)
            && self.temperature_grid.is_same(&other.temperature_grid)
            && self.temperature_scale.is_same(&other.temperature_scale)
            && self.temperature_offset.is_same(&other.temperature_offset)
            && self.emission.is_same(&other.emission)
    }

    proof fn same_chains(self, middle: VolumeSource, last: VolumeSource) {
        self.path.same_chains(middle.path, last.path);
        self.grid.same_chains(middle.grid, last.grid);
        self.temperature_grid.same_chains(middle.temperature_grid, last.temperature_grid);
        self.temperature_scale.same_chains(middle.temperature_scale, last.temperature_scale);
        self.temperature_offset.same_chains(middle.temperature_offset, last.temperature_offset);
        self.emission.same_chains(middle.emission, last.emission);
    }
}

/// A participating medium: what fills a volume.
#[derive(Clone, Debug, PartialEq)]
pub struct Medium {
    /// Absorption coefficient per meter.
    pub absorption: Vec3,
    /// Scattering coefficient per meter.
    pub scattering: Vec3,
    /// How far scattering leans forward.
    pub anisotropy: Num,
    /// The density grid; `None` is homogeneous.
    pub volume: Option<VolumeSource>,
}

/// A medium that extinguishes nothing.
pub open spec fn vacuum() -> Medium {
    Medium {
        absorption: Vec3::new(0, 0, 0),
        scattering: Vec3::new(0, 0, 0),
        anisotropy: Num::new(0),
        volume: None,
    }
}

impl Default for Medium {
    /// Vacuum.
    fn default() -> (r: Medium)
        ensures
            r == vacuum(),
    {
        Medium {
            absorption: Vec3::splat(0),
            scattering: Vec3::splat(0),
            anisotropy: Num::new(0),
            volume: None,
        }
    }
}

impl Duplicate for Medium {
    fn duplicate(&self) -> (r: Medium) {
        Medium {
            absorption: self.absorption,
            scattering: self.scattering,
            anisotropy: self.anisotropy,
            volume: self.volume.duplicate(),
        }
    }
}

impl Same for Medium {
    open spec fn same(self, other: Medium) -> bool {
        &&& self.absorption.same(other.absorption)
        &&& self.scattering.same(other.scattering)
        &&& self.anisotropy.same(other.anisotropy)
        &&& self.volume.same(other.volume)
    }

    fn is_same(&self, other: &Medium) -> (r: bool) {
        self.absorption.is_same(&other.absorption)
            && self.scattering.is_same(&other.scattering)
            && self.anisotropy.is_same(&other.anisotropy)
            && self.volume.is_same(&other.volume)
    }

    proof fn same_chains(self, middle: Medium, last: Medium) {
        self.absorption.same_chains(middle.absorption, last.absorption);
        self.scattering.same_chains(middle.scattering, last.scattering);
        self.anisotropy.same_chains(middle.anisotropy, last.anisotropy);
        self.volume.same_chains(middle.volume, last.volume);
    }
}

/// A delta light: zero area. Patched wholesale, since its variant is its
/// identity.
#[derive(Clone, Copy, Debug, PartialEq, Eq, Structural)]
pub enum Light {
    /// Parallel light from infinitely far away.
    Distant {
        /// The direction the light travels.
        direction: Vec3,
        /// Irradiance on a surface facing the light.
        irradiance: Vec3,
    },
    /// An isotropic point.
    Point {
        /// Position, meters.
        position: Vec3,
        /// Radiant intensity.
        intensity: Vec3,
    },
}

/// A black point light at the origin.
pub open spec fn black_point() -> Light {
    Light::Point { position: Vec3::new(0, 0, 0), intensity: Vec3::new(0, 0, 0) }
}

impl Default for Light {
    /// A black point light at the origin.
    fn default() -> (r: Light)
        ensures
            r == black_point(),
    {
        Light::Point { position: Vec3::splat(0), intensity: Vec3::splat(0) }
    }
}

impl Duplicate for Light {
    fn duplicate(&self) -> (r: Light) {
        *self
    }
}

impl Same for Light {
    open spec fn same(self, other: Light) -> bool {
        match (self, other) {
            (
                Light::Distant { direction: d, irradiance: i },
                Light::Distant { direction, irradiance },
            ) => d.equal(direction) && i.equal(irradiance),
            (
                Light::Point { position: p, intensity: i },
                Light::Point { position, intensity },
            ) => p.equal(position) && i.equal(intensity),
            _ => false,
        }
    }

    fn is_same(&self, other: &Light) -> (r: bool) {
        match (self, other) {
            (
                Light::Distant { direction: d, irradiance: i },
                Light::Distant { direction, irradiance },
            ) => d.equals(direction) && i.equals(irradiance),
            (
                Light::Point { position: p, intensity: i },
                Light::Point { position, intensity },
            ) => p.equals(position) && i.equals(intensity),
            _ => false,
        }
    }

    proof fn same_chains(self, middle: Light, last: Light) {
    }
}

/// A thin-lens camera, a pinhole at zero aperture.
#[derive(Clone, Copy, Debug, PartialEq)]
pub struct Camera {
    /// Eye position, meters.
    pub position: Vec3,
    /// The point the view axis passes through.
    pub look_at: Vec3,
    /// Which way is up on screen; not parallel to the view axis.
    pub up: Vec3,
    /// Vertical field of view, degrees, in (0, 180).
    pub vfov_degrees: Num,
    /// Distance to the focal plane; `None` focuses at `look_at`.
    pub focus_distance: Option<Num>,
    /// Lens radius, meters; 0 is a pinhole.
    pub aperture_radius: Num,
}

/// The camera that nothing was said of.
pub open spec fn front_camera() -> Camera {
    Camera {
        position: Vec3::new(0, 0, 0x40a0_0000),
        look_at: Vec3::new(0, 0, 0),
        up: Vec3::new(0, 0x3f80_0000, 0),
        vfov_degrees: Num::new(0x4220_0000),
        focus_distance: None,
        aperture_radius: Num::new(0),
    }
}

impl Default for Camera {
    /// Five meters off the origin, looking at it.
    fn default() -> (r: Camera)
        ensures
            r == front_camera(),
    {
        Camera {
            position: Vec3::new(0, 0, 0x40a0_0000),
            look_at: Vec3::splat(0),
            up: Vec3::new(0, 0x3f80_0000, 0),
            vfov_degrees: Num::new(0x4220_0000),
            focus_distance: None,
            aperture_radius: Num::new(0),
        }
    }
}

impl Duplicate for Camera {
    fn duplicate(&self) -> (r: Camera) {
        Camera {
            position: self.position,
            look_at: self.look_at,
            up: self.up,
            vfov_degrees: self.vfov_degrees,
            focus_distance: self.focus_distance,
            aperture_radius: self.aperture_radius,
        }
    }
}

impl Same for Camera {
    open spec fn same(self, other: Camera) -> bool {
        &&& self.position.same(other.position)
        &&& self.look_at.same(other.look_at)
        &&& self.up.same(other.up)
        &&& self.vfov_degrees.same(other.vfov_degrees)
        &&& self.focus_distance.same(other.focus_distance)
        &&& self.aperture_radius.same(other.aperture_radius)
    }

    fn is_same(&self, other: &Camera) -> (r: bool) {
        self.position.is_same(&other.position)
            && self.look_at.is_same(&other.look_at)
            && self.up.is_same(&other.up)
            && self.vfov_degrees.is_same(&other.vfov_degrees)
            && self.focus_distance.is_same(&other.focus_distance)
            && self.aperture_radius.is_same(&other.aperture_radius)
    }

    proof fn same_chains(self, middle: Camera, last: Camera) {
        self.position.same_chains(middle.position, last.position);
        self.look_at.same_chains(middle.look_at, last.look_at);
        self.up.same_chains(middle.up, last.up);
        self.vfov_degrees.same_chains(middle.vfov_degrees, last.vfov_degrees);
        self.focus_distance.same_chains(middle.focus_distance, last.focus_distance);
        self.aperture_radius.same_chains(middle.aperture_radius, last.aperture_radius);
    }
}

/// The environment light surrounding the scene.
#[derive(Clone, Debug, PartialEq)]
pub struct Environment {
    /// The radiance image; `None` is a constant white sky.
    pub path: Option<FilePath>,
    /// Multiplier over the sky's radiance.
    pub tint: Vec3,
    /// Environment-to-world placement; must be invertible.
    pub transform: Transform,
}

/// A constant white sky.
pub open spec fn white_sky() -> Environment {
    Environment {
        path: None,
        tint: Vec3::new(0x3f80_0000, 0x3f80_0000, 0x3f80_0000),
        transform: identity(),
    }
}

impl Default for Environment {
    /// No image, no tint, no turn.
    fn default() -> (r: Environment)
        ensures
            r == white_sky(),
    {
        Environment {
            path: None,
            tint: Vec3::splat(0x3f80_0000),
            transform: Transform::default(),
        }
    }
}

impl Duplicate for Environment {
    fn duplicate(&self) -> (r: Environment) {
        Environment {
            path: self.path.duplicate(),
            tint: self.tint,
            transform: self.transform,
        }
    }
}

impl Same for Environment {
    open spec fn same(self, other: Environment) -> bool {
        &&& self.path.same(other.path)
        &&& self.tint.same(other.tint)
        &&& self.transform.same(other.transform)
    }

    fn is_same(&self, other: &Environment) -> (r: bool) {
        self.path.is_same(&other.path)
            && self.tint.is_same(&other.tint)
            && self.transform.is_same(&other.transform)
    }

    proof fn same_chains(self, middle: Environment, last: Environment) {
        self.path.same_chains(middle.path, last.path);
        self.tint.same_chains(middle.tint, last.tint);
        self.transform.same_chains(middle.transform, last.transform);
    }
}

/// Render settings.
#[derive(Clone, Debug, PartialEq)]
pub struct Settings {
    /// Output width and height, pixels.
    pub resolution: [u32; 2],
    /// The sample budget, in samples per pixel.
    pub spp: u32,
    /// The convergence early-out threshold, if any.
    pub noise_threshold: Option<Num>,
    /// Maximum path length in bounces.
    pub max_bounces: u32,
    /// Denoise the published image.
    pub denoise: bool,
    /// Sampler seed.
    pub seed: u32,
    /// The medium filling open space, by name; `None` is vacuum.
    pub global_medium: Option<String>,
}

/// The longest path that settings which say nothing ask for.
pub const DEFAULT_MAX_BOUNCES: u32 = 8;

impl Settings {
    /// The settings that nothing was said of.
    pub open spec fn blank(self) -> bool {
        &&& self.resolution@ == seq![1280u32, 720u32]
        &&& self.spp == 64
        &&& self.noise_threshold is None
        &&& self.max_bounces == DEFAULT_MAX_BOUNCES
        &&& !self.denoise
        &&& self.seed == 0
        &&& self.global_medium is None
    }
}

impl Default for Settings {
    /// What a scene file that says nothing renders with.
    fn default() -> (r: Settings)
        ensures
            r.blank(),
    {
        let r = Settings {
            resolution: [1280, 720],
            spp: 64,
            noise_threshold: None,
            max_bounces: DEFAULT_MAX_BOUNCES,
            denoise: false,
            seed: 0,
            global_medium: None,
        };
        assert(r.resolution@ =~= seq![1280u32, 720u32]);
        r
    }
}

impl Duplicate for Settings {
    fn duplicate(&self) -> (r: Settings) {
        Settings {
            resolution: self.resolution,
            spp: self.spp,
            noise_threshold: self.noise_threshold,
            max_bounces: self.max_bounces,
            denoise: self.denoise,
            seed: self.seed,
            global_medium: self.global_medium.duplicate(),
        }
    }
}

impl Same for Settings {
    open spec fn same(self, other: Settings) -> bool {
        &&& self.resolution.same(other.resolution)
        &&& self.spp.same(other.spp)
        &&& self.noise_threshold.same(other.noise_threshold)
        &&& self.max_bounces.same(other.max_bounces)
        &&& self.denoise.same(other.denoise)
        &&& self.seed.same(other.seed)
        &&& self.global_medium.same(other.global_medium)
    }

    fn is_same(&self, other: &Settings) -> (r: bool) {
        self.resolution.is_same(&other.resolution)
            && self.spp.is_same(&other.spp)
            && self.noise_threshold.is_same(&other.noise_threshold)
            && self.max_bounces.is_same(&other.max_bounces)
            && self.denoise.is_same(&other.denoise)
            && self.seed.is_same(&other.seed)
            && self.global_medium.is_same(&other.global_medium)
    }

    proof fn same_chains(self, middle: Settings, last: Settings) {
        self.resolution.same_chains(middle.resolution, last.resolution);
        self.spp.same_chains(middle.spp, last.spp);
        self.noise_threshold.same_chains(middle.noise_threshold, last.noise_threshold);
        self.max_bounces.same_chains(middle.max_bounces, last.max_bounces);
        self.denoise.same_chains(middle.denoise, last.denoise);
        self.seed.same_chains(middle.seed, last.seed);
        self.global_medium.same_chains(middle.global_medium, last.global_medium);
    }
}

/// The nine object tables: the description's entire contents, split out so
/// that an edit can copy, change, validate and swap them as a whole.
#[derive(Debug)]
pub struct Objects {
    /// The meshes, by name.
    pub meshes: Table<String, Mesh>,
    /// The curve batches, by name.
    pub curves: Table<String, Curves>,
    /// The instances, by name.
    pub instances: Table<String, Instance>,
    /// The materials, by name.
    pub materials: Table<String, Material>,
    /// The media, by name.
    pub media: Table<String, Medium>,
    /// The delta lights, by name.
    pub lights: Table<String, Light>,
    /// The cameras, by name.
    pub cameras: Table<String, Camera>,
    /// The environments, by name.
    pub environments: Table<String, Environment>,
    /// The render settings, by name.
    pub settings: Table<String, Settings>,
}

/// The nine object tables, as maps from names.
pub struct Model {
    /// By name.
    pub meshes: Map<Seq<char>, Mesh>,
    /// By name.
    pub curves: Map<Seq<char>, Curves>,
    /// By name.
    pub instances: Map<Seq<char>, Instance>,
    /// By name.
    pub materials: Map<Seq<char>, Material>,
    /// By name.
    pub media: Map<Seq<char>, Medium>,
    /// By name.
    pub lights: Map<Seq<char>, Light>,
    /// By name.
    pub cameras: Map<Seq<char>, Camera>,
    /// By name.
    pub environments: Map<Seq<char>, Environment>,
    /// By name.
    pub settings: Map<Seq<char>, Settings>,
}

impl View for Objects {
    type V = Model;

    open spec fn view(&self) -> Model {
        Model {
            meshes: self.meshes@,
            curves: self.curves@,
            instances: self.instances@,
            materials: self.materials@,
            media: self.media@,
            lights: self.lights@,
            cameras: self.cameras@,
            environments: self.environments@,
            settings: self.settings@,
        }
    }
}

/// The model with nothing in it.
pub open spec fn empty_model() -> Model {
    Model {
        meshes: Map::empty(),
        curves: Map::empty(),
        instances: Map::empty(),
        materials: Map::empty(),
        media: Map::empty(),
        lights: Map::empty(),
        cameras: Map::empty(),
        environments: Map::empty(),
        settings: Map::empty(),
    }
}

impl Objects {
    /// No objects.
    pub fn new() -> (r: Objects)
        ensures
            r@ == empty_model(),
    {
        Objects {
            meshes: Table::new(),
            curves: Table::new(),
            instances: Table::new(),
            materials: Table::new(),
            media: Table::new(),
            lights: Table::new(),
            cameras: Table::new(),
            environments: Table::new(),
            settings: Table::new(),
        }
    }

    /// A copy of every table.
    pub fn duplicate(&self) -> (r: Objects)
        ensures
            r@ == self@,
    {
        Objects {
            meshes: self.meshes.duplicate(),
            curves: self.curves.duplicate(),
            instances: self.instances.duplicate(),
            materials: self.materials.duplicate(),
            media: self.media.duplicate(),
            lights: self.lights.duplicate(),
            cameras: self.cameras.duplicate(),
            environments: self.environments.duplicate(),
            settings: self.settings.duplicate(),
        }
    }
}

/// One untouched object of each kind: what the first mention of a name
/// creates.
#[derive(Debug)]
pub struct Blanks {
    /// An untouched mesh.
    pub meshes: Mesh,
    /// An untouched curve batch.
    pub curves: Curves,
    /// An untouched instance.
    pub instances: Instance,
    /// An untouched material.
    pub materials: Material,
    /// An untouched medium.
    pub media: Medium,
    /// An untouched light.
    pub lights: Light,
    /// An untouched camera.
    pub cameras: Camera,
    /// An untouched environment.
    pub environments: Environment,
    /// An untouched set of settings.
    pub settings: Settings,
}

impl Blanks {
    /// Every one of them is its kind's default.
    pub open spec fn untouched(self) -> bool {
        &&& self.meshes.source.blank()
        &&& self.curves.source.blank()
        &&& self.instances.blank()
        &&& self.materials == plain_material()
        &&& self.media == vacuum()
        &&& self.lights == black_point()
        &&& self.cameras == front_camera()
        &&& self.environments == white_sky()
        &&& self.settings.blank()
    }

    /// The defaults.
    pub fn new() -> (r: Blanks)
        ensures
            r.untouched(),
    {
        Blanks {
            meshes: Mesh::default(),
            curves: Curves::default(),
            instances: Instance::default(),
            materials: Material::default(),
            media: Medium::default(),
            lights: Light::default(),
            cameras: Camera::default(),
            environments: Environment::default(),
            settings: Settings::default(),
        }
    }
}

/// A whole scene as data, and what its edits have changed since the renderer
/// last looked. Starts empty; every change goes through
/// [`SceneDescription::apply`] or [`SceneDescription::replace`].
#[derive(Debug)]
pub struct SceneDescription {
    /// The objects.
    pub(crate) objects: Objects,
    /// What changed.
    pub(crate) dirty: Dirty,
    /// What the first mention of a name creates.
    pub(crate) blanks: Blanks,
}

impl SceneDescription {
    /// The objects, as maps from names.
    pub closed spec fn model(self) -> Model {
        self.objects@
    }

    /// What changed since the renderer last looked.
    pub closed spec fn dirt(self) -> DirtySets {
        self.dirty@
    }

    /// What the first mention of a name creates.
    pub closed spec fn templates(self) -> Blanks {
        self.blanks
    }

    /// An empty scene.
    pub fn new() -> (r: SceneDescription)
        ensures
            r.model() == empty_model(),
            r.dirt() == DirtySets::none(),
            r.templates().untouched(),
    {
        SceneDescription { objects: Objects::new(), dirty: Dirty::new(), blanks: Blanks::new() }
    }

    /// The meshes, by name.
    pub fn meshes(&self) -> (r: &Table<String, Mesh>)
        ensures
            r@ == self.model().meshes,
    {
        &self.objects.meshes
    }

    /// The curve batches, by name.
    pub fn curves(&self) -> (r: &Table<String, Curves>)
        ensures
            r@ == self.model().curves,
    {
        &self.objects.curves
    }

    /// The instances, by name.
    pub fn instances(&self) -> (r: &Table<String, Instance>)
        ensures
            r@ == self.model().instances,
    {
        &self.objects.instances
    }

    /// The materials, by name.
    pub fn materials(&self) -> (r: &Table<String, Material>)
        ensures
            r@ == self.model().materials,
    {
        &self.objects.materials
    }

    /// The media, by name.
    pub fn media(&self) -> (r: &Table<String, Medium>)
        ensures
            r@ == self.model().media,
    {
        &self.objects.media
    }

    /// The delta lights, by name.
    pub fn lights(&self) -> (r: &Table<String, Light>)
        ensures
            r@ == self.model().lights,
    {
        &self.objects.lights
    }

    /// The cameras, by name.
    pub fn cameras(&self) -> (r: &Table<String, Camera>)
        ensures
            r@ == self.model().cameras,
    {
        &self.objects.cameras
    }

    /// The environments, by name.
    pub fn environments(&self) -> (r: &Table<String, Environment>)
        ensures
            r@ == self.model().environments,
    {
        &self.objects.environments
    }

    /// The render settings, by name.
    pub fn settings(&self) -> (r: &Table<String, Settings>)
        ensures
            r@ == self.model().settings,
    {
        &self.objects.settings
    }

    /// Hand over what changed, leaving nothing: how the renderer learns what
    /// to rebuild.
    pub fn take_dirty(&mut self) -> (r: Dirty)
        ensures
            r@ == old(self).dirt(),
            final(self).dirt() == DirtySets::none(),
            final(self).model() == old(self).model(),
            final(self).templates() == old(self).templates(),
    {
        let mut taken = Dirty::new();
        std::mem::swap(&mut taken, &mut self.dirty);
        taken
    }
}

impl SceneDescription {
    /// Apply a change-set: the whole set lands or none of it does. The ops
    /// merge into a copy of the tables, the result is validated as a whole,
    /// and only a valid outcome replaces what was there. `facts` is what the
    /// world outside says of the values the set and the scene mention.
    pub fn apply(&mut self, set: &ChangeSet, facts: &Facts) -> (r: Result<(), SceneError>)
        ensures
            r is Ok == changeset::set_problem(
                old(self).model(),
                old(self).templates(),
                set.ops@,
                *facts,
            ) is None,
            r matches Err(e) ==> changeset::set_problem(
                old(self).model(),
                old(self).templates(),
                set.ops@,
                *facts,
            ) == Some(e@) && *final(self) == *old(self),
            r is Ok ==> final(self).model() == changeset::model_after(
                old(self).model(),
                old(self).templates(),
                set.ops@,
                set.ops@.len() as int,
            ),
            r is Ok ==> final(self).dirt() == old(self).dirt().folded(
                changeset::dirt_after(
                    old(self).model(),
                    old(self).templates(),
                    set.ops@,
                    set.ops@.len() as int,
                ),
            ),
            final(self).templates() == old(self).templates(),
    {
        let mut next = self.objects.duplicate();
        let mut dirty = Dirty::new();
        let ghost model = self.objects@;
        let ghost blanks = self.blanks;
        let ghost ops = set.ops@;
        let mut at: usize = 0;
        while at < set.ops.len()
            invariant
                at <= ops.len(),
                ops == set.ops@,
                *self == *old(self),
                blanks == self.blanks,
                model == self.objects@,
                next@ == changeset::model_after(model, blanks, ops, at as int),
                dirty@ == changeset::dirt_after(model, blanks, ops, at as int),
                changeset::ops_problem(model, blanks, ops, 0) == changeset::ops_problem(model, blanks, ops, at as int),
            decreases ops.len() - at,
        {
            if let Err(problem) = changeset::apply_op(&mut next, &mut dirty, &self.blanks, &set.ops[at]) {
                return Err(problem);
            }
            at = at + 1;
        }
        if let Err(problem) = validate::validate(&next, facts) {
            return Err(problem);
        }
        self.objects = next;
        self.dirty.merge(dirty);
        Ok(())
    }
}

/// One kind's names that are new, or have another value.
pub open spec fn differing<T: Same>(
    kind: Kind,
    before: Map<Seq<char>, T>,
    after: Map<Seq<char>, T>,
    key: (Kind, Seq<char>),
) -> bool {
    key.0 == kind && after.contains_key(key.1) && !(before.contains_key(key.1)
        && after[key.1].same(before[key.1]))
}

/// One kind's names that are gone.
pub open spec fn missing<T>(
    kind: Kind,
    before: Map<Seq<char>, T>,
    after: Map<Seq<char>, T>,
    key: (Kind, Seq<char>),
) -> bool {
    key.0 == kind && before.contains_key(key.1) && !after.contains_key(key.1)
}

/// The key is one of the first `n` names of the table, under `kind`.
spec fn among<T>(table: Table<String, T>, kind: Kind, n: int, key: (Kind, Seq<char>)) -> bool {
    key.0 == kind && exists|i: int| 0 <= i < n && (#[trigger] table.listed()[i]).0@ == key.1
}

/// One kind's contribution to what there is to rebuild when one model takes
/// another's place.
pub fn diff<T: Same>(
    kind: Kind,
    before: &Table<String, T>,
    after: &Table<String, T>,
    dirty: &mut Dirty,
)
    ensures
        forall|key: (Kind, Seq<char>)| #[trigger]
            final(dirty)@.changed.contains(key) == (old(dirty)@.changed.contains(key) || differing(
                kind,
                before@,
                after@,
                key,
            )),
        forall|key: (Kind, Seq<char>)| #[trigger]
            final(dirty)@.removed.contains(key) == (old(dirty)@.removed.contains(key) || missing(
                kind,
                before@,
                after@,
                key,
            )),
{
    let size: usize = after.len();
    for i in 0..size
        invariant
            size == after.listed().len(),
            dirty@.removed == old(dirty)@.removed,
            forall|key: (Kind, Seq<char>)| #[trigger]
                dirty@.changed.contains(key) == (old(dirty)@.changed.contains(key) || (among(
                    *after,
                    kind,
                    i as int,
                    key,
                ) && differing(kind, before@, after@, key))),
    {
        let ghost so_far = dirty@.changed;
        let name = after.key_at(i);
        let value = after.value_at(i);
        let unchanged = match before.get(name) {
            Some(earlier) => value.is_same(earlier),
            None => false,
        };
        if !unchanged {
            dirty.changed.insert(kind, name);
        }
        proof {
            assert forall|key: (Kind, Seq<char>)| #[trigger]
                dirty@.changed.contains(key) == (old(dirty)@.changed.contains(key) || (among(
                    *after,
                    kind,
                    i + 1,
                    key,
                ) && differing(kind, before@, after@, key))) by {
                assert(dirty@.changed.contains(key) == (so_far.contains(key) || (!unchanged && key
                    == (kind, name@))));
                if key == (kind, name@) {
                    assert(after.listed()[i as int].0@ == key.1);
                    assert(among(*after, kind, i + 1, key));
                }
            }
        }
    }
    proof {
        assert forall|key: (Kind, Seq<char>)| #[trigger]
            dirty@.changed.contains(key) == (old(dirty)@.changed.contains(key) || differing(
                kind,
                before@,
                after@,
                key,
            )) by {
            if differing(kind, before@, after@, key) {
                let i = crate::table::position::<String, T>(after.listed(), key.1);
                assert(after.listed()[i].0@ == key.1);
            }
        }
    }
    let ghost middle = dirty@;
    let size: usize = before.len();
    for i in 0..size
        invariant
            size == before.listed().len(),
            dirty@.changed == middle.changed,
            middle.removed == old(dirty)@.removed,
            forall|key: (Kind, Seq<char>)| #[trigger]
                dirty@.removed.contains(key) == (old(dirty)@.removed.contains(key) || (among(
                    *before,
                    kind,
                    i as int,
                    key,
                ) && missing(kind, before@, after@, key))),
    {
        let ghost so_far = dirty@.removed;
        let name = before.key_at(i);
        let gone = !after.contains_key(name);
        if gone {
            dirty.removed.insert(kind, name);
        }
        proof {
            assert forall|key: (Kind, Seq<char>)| #[trigger]
                dirty@.removed.contains(key) == (old(dirty)@.removed.contains(key) || (among(
                    *before,
                    kind,
                    i + 1,
                    key,
                ) && missing(kind, before@, after@, key))) by {
                assert(dirty@.removed.contains(key) == (so_far.contains(key) || (gone && key == (
                    kind,
                    name@,
                ))));
                if key == (kind, name@) {
                    assert(before.listed()[i as int].0@ == key.1);
                    assert(among(*before, kind, i + 1, key));
                }
            }
        }
    }
    proof {
        assert forall|key: (Kind, Seq<char>)| #[trigger]
            dirty@.removed.contains(key) == (old(dirty)@.removed.contains(key) || missing(
                kind,
                before@,
                after@,
                key,
            )) by {
            if missing(kind, before@, after@, key) {
                let i = crate::table::position::<String, T>(before.listed(), key.1);
                assert(before.listed()[i].0@ == key.1);
            }
        }
    }
}

impl SceneDescription {
    /// Become `new`, recording the difference: where
    /// [`SceneDescription::apply`] overlays edits, `replace` says the incoming
    /// description is the scene. Objects it lacks are removed, objects that
    /// are new or have another value are changed, and equal objects say
    /// nothing. What `new` itself had recorded is dropped.
    pub fn replace(&mut self, new: SceneDescription)
        ensures
            final(self).model() == new.model(),
            final(self).dirt() == old(self).dirt().folded(
                changeset::difference(old(self).model(), new.model()),
            ),
            final(self).templates() == old(self).templates(),
    {
        let mut dirty = Dirty::new();
        diff(Kind::Mesh, &self.objects.meshes, &new.objects.meshes, &mut dirty);
        diff(Kind::Curves, &self.objects.curves, &new.objects.curves, &mut dirty);
        diff(Kind::Instance, &self.objects.instances, &new.objects.instances, &mut dirty);
        diff(Kind::Material, &self.objects.materials, &new.objects.materials, &mut dirty);
        diff(Kind::Medium, &self.objects.media, &new.objects.media, &mut dirty);
        diff(Kind::Light, &self.objects.lights, &new.objects.lights, &mut dirty);
        diff(Kind::Camera, &self.objects.cameras, &new.objects.cameras, &mut dirty);
        diff(Kind::Environment, &self.objects.environments, &new.objects.environments, &mut dirty);
        diff(Kind::Settings, &self.objects.settings, &new.objects.settings, &mut dirty);
        proof {
            let whole = changeset::difference(self.objects@, new.objects@);
            assert forall|key: (Kind, Seq<char>)| dirty@.changed.contains(key)
                == whole.changed.contains(key) by {
                match key.0 {
                    Kind::Mesh => {},
                    Kind::Curves => {},
                    Kind::Instance => {},
                    Kind::Material => {},
                    Kind::Medium => {},
                    Kind::Light => {},
                    Kind::Camera => {},
                    Kind::Environment => {},
                    Kind::Settings => {},
                }
            }
            assert forall|key: (Kind, Seq<char>)| dirty@.removed.contains(key)
                == whole.removed.contains(key) by {
                match key.0 {
                    Kind::Mesh => {},
                    Kind::Curves => {},
                    Kind::Instance => {},
                    Kind::Material => {},
                    Kind::Medium => {},
                    Kind::Light => {},
                    Kind::Camera => {},
                    Kind::Environment => {},
                    Kind::Settings => {},
                }
            }
            assert(dirty@.changed =~= whole.changed);
            assert(dirty@.removed =~= whole.removed);
        }
        self.objects = new.objects;
        self.dirty.merge(dirty);
    }
}

} // verus!
