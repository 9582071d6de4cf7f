//! The demo scene as data: a chart of spheres, rough to the right and metal to
//! the front, on a floor under a warm lamp and a sky.

use std::sync::Arc;

use vstd::prelude::*;
use vstd::string::*;

use crate::bits::{Num, Vec3, ONE};
use crate::changeset::{
    CameraPatch, ChangeSet, EnvironmentPatch, InstancePatch, MaterialPatch, MeshPatch, Op,
    SettingsPatch,
};
use crate::description::{MeshSource, Texturable, Transform};
use crate::formula;
use crate::formula::{Answer, Formula};
use crate::geometry::copied;
use crate::mesh::Mesh;
use crate::path::FilePath;
use crate::shapes;
use crate::shapes::{ground_plane, icosphere};
use crate::text;

verus! {

// -- Building ------------------------------------------------------------------------

/// A mesh spelled out holds what a mesh holds, without its coordinates.
pub open spec fn spells(source: MeshSource, mesh: Mesh) -> bool {
    match source {
        MeshSource::Inline { positions, normals, uvs, triangles } => {
            &&& positions@ == mesh.positions@
            &&& normals matches Some(normals) && normals@ == mesh.normals@
            &&& uvs is None
            &&& triangles@ == mesh.triangles@
        },
        _ => false,
    }
}

/// A mesh, spelled out.
pub fn inline(mesh: &Mesh) -> (r: MeshSource)
    ensures
        spells(r, *mesh),
{
    MeshSource::Inline {
        positions: Arc::new(copied(&mesh.positions)),
        normals: Some(Arc::new(copied(&mesh.normals))),
        uvs: None,
        triangles: Arc::new(copied(&mesh.triangles)),
    }
}

/// What the materials of a built scene say; what is left out is not said.
#[derive(Clone, Copy, Debug, PartialEq, Eq, Structural)]
pub struct Surface {
    /// The base color.
    pub base_color: Vec3,
    /// The roughness of the base.
    pub base_diffuse_roughness: Option<Num>,
    /// How far the base is a metal.
    pub base_metalness: Option<Num>,
    /// The weight of the specular layer.
    pub specular_weight: Option<Num>,
    /// Its roughness.
    pub specular_roughness: Option<Num>,
    /// The color that is emitted.
    pub emission_color: Option<Vec3>,
    /// How much of it.
    pub emission_luminance: Option<Num>,
}

/// A value that no texture says, where there is one.
pub open spec fn plainly<T>(value: Option<T>) -> Option<Texturable<T>> {
    match value {
        Some(value) => Some(Texturable::Constant(value)),
        None => None,
    }
}

/// The patch makes a material with this surface, and says nothing else.
pub open spec fn coats(patch: MaterialPatch, name: Seq<char>, surface: Surface) -> bool {
    &&& patch.name@ == name
    &&& patch.base_color == Some(Texturable::Constant(surface.base_color))
    &&& patch.base_diffuse_roughness == surface.base_diffuse_roughness
    &&& patch.base_metalness == plainly(surface.base_metalness)
    &&& patch.specular_weight == surface.specular_weight
    &&& patch.specular_roughness == plainly(surface.specular_roughness)
    &&& patch.emission_color == plainly(surface.emission_color)
    &&& patch.emission_luminance == surface.emission_luminance
    &&& (MaterialPatch {
        base_color: None,
        base_diffuse_roughness: None,
        base_metalness: None,
        specular_weight: None,
        specular_roughness: None,
        emission_color: None,
        emission_luminance: None,
        ..patch
    }).idle()
}

/// The op makes a material.
pub open spec fn makes_material(op: Op, name: Seq<char>, surface: Surface) -> bool {
    op matches Op::Material(patch) && coats(*patch, name, surface)
}

/// Make a material.
pub fn material_op(name: &str, surface: Surface) -> (r: Op)
    ensures
        makes_material(r, name@, surface),
{
    let mut patch = MaterialPatch::new(name);
    patch.base_color = Some(Texturable::Constant(surface.base_color));
    patch.base_diffuse_roughness = surface.base_diffuse_roughness;
    patch.base_metalness = match surface.base_metalness {
        Some(value) => Some(Texturable::Constant(value)),
        None => None,
    };
    patch.specular_weight = surface.specular_weight;
    patch.specular_roughness = match surface.specular_roughness {
        Some(value) => Some(Texturable::Constant(value)),
        None => None,
    };
    patch.emission_color = match surface.emission_color {
        Some(color) => Some(Texturable::Constant(color)),
        None => None,
    };
    patch.emission_luminance = surface.emission_luminance;
    Op::Material(Box::new(patch))
}

/// The op places a mesh once, with a material.
pub open spec fn makes_instance(
    op: Op,
    name: Seq<char>,
    mesh: Seq<char>,
    material: Seq<char>,
    transform: Transform,
) -> bool {
    op matches Op::Instance(patch) && {
        &&& patch.name@ == name
        &&& patch.mesh is Some
        &&& patch.mesh->0@ == mesh
        &&& patch.material is Some
        &&& patch.material->0@ == material
        &&& patch.transforms is Some
        &&& patch.transforms->0@ == seq![transform]
        &&& (InstancePatch { mesh: None, material: None, transforms: None, ..patch }).idle()
    }
}

/// Place a mesh once, with a material.
pub fn instance_op(name: &str, mesh: &str, material: &str, transform: Transform) -> (r: Op)
    ensures
        makes_instance(r, name@, mesh@, material@, transform),
{
    let mut transforms: Vec<Transform> = Vec::new();
    transforms.push(transform);
    let mut patch = InstancePatch::new(name);
    patch.mesh = Some(mesh.to_owned());
    patch.material = Some(material.to_owned());
    patch.transforms = Some(Arc::new(transforms));
    assert(patch.transforms->0@ =~= seq![transform]);
    Op::Instance(patch)
}

/// The op makes a mesh.
pub open spec fn makes_mesh(op: Op, name: Seq<char>, mesh: Mesh) -> bool {
    op matches Op::Mesh(patch) && {
        &&& patch.name@ == name
        &&& patch.source matches Some(source) && spells(source, mesh)
    }
}

/// Make a mesh.
pub fn mesh_op(name: &str, mesh: &Mesh) -> (r: Op)
    ensures
        makes_mesh(r, name@, *mesh),
{
    let mut patch = MeshPatch::new(name);
    patch.source = Some(inline(mesh));
    Op::Mesh(patch)
}

/// The op makes a camera.
pub open spec fn makes_camera(op: Op, name: Seq<char>, position: Vec3, look_at: Vec3, vfov: Num) -> bool {
    op matches Op::Camera(patch) && {
        &&& patch.name@ == name
        &&& patch.position == Some(position)
        &&& patch.look_at == Some(look_at)
        &&& patch.vfov_degrees == Some(vfov)
        &&& (CameraPatch { position: None, look_at: None, vfov_degrees: None, ..patch }).idle()
    }
}

/// Make a camera.
pub fn camera_op(name: &str, position: Vec3, look_at: Vec3, vfov: Num) -> (r: Op)
    ensures
        makes_camera(r, name@, position, look_at, vfov),
{
    let mut patch = CameraPatch::new(name);
    patch.position = Some(position);
    patch.look_at = Some(look_at);
    patch.vfov_degrees = Some(vfov);
    Op::Camera(patch)
}

/// The op makes settings that say nothing.
pub open spec fn makes_settings(op: Op, name: Seq<char>) -> bool {
    op matches Op::Settings(patch) && patch.name@ == name && patch.idle()
}

/// A placement that is not turned.
pub open spec fn upright(translate: Vec3, scale: u32) -> Transform {
    Transform::Trs {
        translate,
        rotate_degrees: Vec3::new(0, 0, 0),
        scale: Vec3::splat(scale),
    }
}

/// A placement that is not turned.
pub fn stand(translate: Vec3, scale: u32) -> (r: Transform)
    ensures
        r == upright(translate, scale),
{
    Transform::Trs {
        translate,
        rotate_degrees: Vec3::new(0, 0, 0),
        scale: Vec3::splat(scale),
    }
}

/// The name of what stands in a row and a column.
pub open spec fn grid_name(stem: Seq<char>, row: int, column: int) -> Seq<char> {
    stem + "_r"@ + text::decimal(row as nat) + "c"@ + text::decimal(column as nat)
}

/// The name of what stands in a row and a column.
pub fn name_in_grid(stem: &str, row: usize, column: usize) -> (r: String)
    ensures
        r@ == grid_name(stem@, row as int, column as int),
{
    let mut name = stem.to_owned();
    name.append("_r");
    name.append(text::spell(row as u128).as_str());
    name.append("c");
    name.append(text::spell(column as u128).as_str());
    name
}

// -- The scene -----------------------------------------------------------------------

/// Spheres along each side of the chart.
pub const GRID: usize = 5;

/// How far a step is along the chart, of one.
pub open spec fn swept(step: int) -> Num {
    Num {
        bits: if step == 0 {
            0
        } else if step == 1 {
            0x3e80_0000
        } else if step == 2 {
            0x3f00_0000
        } else if step == 3 {
            0x3f40_0000
        } else {
            ONE
        },
    }
}

/// How far a step is along the chart, of one.
fn sweep(step: usize) -> (r: Num)
    ensures
        r == swept(step as int),
{
    match step {
        0 => Num::new(0),
        1 => Num::new(0x3e80_0000),
        2 => Num::new(0x3f00_0000),
        3 => Num::new(0x3f40_0000),
        _ => Num::new(ONE),
    }
}

/// Where a step stands: six fifths of a meter apart, around the middle.
pub open spec fn stepped(step: int) -> Num {
    Num {
        bits: if step == 0 {
            0xc019_999a
        } else if step == 1 {
            0xbf99_999a
        } else if step == 2 {
            0
        } else if step == 3 {
            0x3f99_999a
        } else {
            0x4019_999a
        },
    }
}

/// Where a step stands.
fn pace(step: usize) -> (r: Num)
    ensures
        r == stepped(step as int),
{
    match step {
        0 => Num::new(0xc019_999a),
        1 => Num::new(0xbf99_999a),
        2 => Num::new(0),
        3 => Num::new(0x3f99_999a),
        _ => Num::new(0x4019_999a),
    }
}

/// The floor's surface.
pub open spec fn floor() -> Surface {
    Surface {
        base_color: Vec3::splat(0x3f26_6666),
        base_diffuse_roughness: Some(Num::new(0x3dcc_cccd)),
        base_metalness: None,
        specular_weight: None,
        specular_roughness: Some(Num::new(0x3e19_999a)),
        emission_color: None,
        emission_luminance: None,
    }
}

/// The lamp's surface: it only emits.
pub open spec fn key() -> Surface {
    Surface {
        base_color: Vec3::splat(0),
        base_diffuse_roughness: None,
        base_metalness: None,
        specular_weight: Some(Num::new(0)),
        specular_roughness: None,
        emission_color: Some(Vec3::new(ONE, 0x3f59_999a, 0x3f19_999a)),
        emission_luminance: Some(Num::new(0x4190_0000)),
    }
}

/// The surface of a sphere: rougher by the column, more of a metal by the row.
pub open spec fn chart(row: int, column: int) -> Surface {
    Surface {
        base_color: Vec3::new(0x3f33_3333, 0x3e61_47ae, 0x3da3_d70a),
        base_diffuse_roughness: Some(Num::new(0x3ecc_cccd)),
        base_metalness: Some(swept(row)),
        specular_weight: None,
        specular_roughness: Some(swept(column)),
        emission_color: None,
        emission_luminance: None,
    }
}

/// Where a sphere of the chart stands.
pub open spec fn chart_place(row: int, column: int) -> Transform {
    upright(
        Vec3 { x: stepped(column), y: Num { bits: 0x3f00_0000 }, z: stepped(row) },
        0x3f00_0000,
    )
}

/// The op makes a sky.
pub open spec fn makes_sky(op: Op, name: Seq<char>, path: FilePath) -> bool {
    op matches Op::Environment(patch) && {
        &&& patch.name@ == name
        &&& patch.path == Some(Some(path))
        &&& (EnvironmentPatch { path: None, ..patch }).idle()
    }
}

/// A mesh is the sphere after so many rounds.
pub open spec fn is_ball<M: Fn(Formula) -> Answer>(maths: M, mesh: Mesh, rounds: nat) -> bool {
    &&& (mesh.positions@, mesh.triangles@) == shapes::ball(maths, rounds)
    &&& mesh.normals@ == mesh.positions@
}

/// A mesh is the plane that reaches one meter to every side.
pub open spec fn is_plane(mesh: Mesh) -> bool {
    let one = Num::new(ONE);
    let back = one.flipped();
    let none = Num::new(0);
    &&& mesh.positions@ == seq![
        Vec3 { x: back, y: none, z: back },
        Vec3 { x: back, y: none, z: one },
        Vec3 { x: one, y: none, z: one },
        Vec3 { x: one, y: none, z: back },
    ]
    &&& mesh.normals@ == seq![
        Vec3::new(0, ONE, 0),
        Vec3::new(0, ONE, 0),
        Vec3::new(0, ONE, 0),
        Vec3::new(0, ONE, 0),
    ]
    &&& mesh.triangles@ == seq![[0u32, 1, 2], [0u32, 2, 3]]
}

/// The op is number `i` of the demo scene's.
pub open spec fn demo_op<M: Fn(Formula) -> Answer>(maths: M, sky: FilePath, op: Op, i: int) -> bool {
    if i == 0 {
        makes_settings(op, "main"@)
    } else if i == 1 {
        makes_camera(
            op,
            "main"@,
            Vec3::new(0, 0x40b0_0000, 0x4130_0000),
            Vec3::new(0, 0, 0),
            Num::new(0x4220_0000),
        )
    } else if i == 2 {
        makes_sky(op, "sky"@, sky)
    } else if i == 3 {
        exists|mesh: Mesh| is_ball(maths, mesh, 4) && #[trigger] makes_mesh(op, "sphere"@, mesh)
    } else if i == 4 {
        exists|mesh: Mesh| is_plane(mesh) && #[trigger] makes_mesh(op, "plane"@, mesh)
    } else if i == 5 {
        makes_material(op, "floor"@, floor())
    } else if i == 6 {
        makes_instance(
            op,
            "floor"@,
            "plane"@,
            "floor"@,
            upright(Vec3::new(0, 0, 0), 0x4140_0000),
        )
    } else if i == 7 {
        makes_material(op, "key"@, key())
    } else if i == 8 {
        makes_instance(
            op,
            "key"@,
            "plane"@,
            "key"@,
            upright(Vec3::new(0xc060_0000, 0x40ac_cccd, ONE), 0x3f40_0000),
        )
    } else {
        let row = (i - 9) / 2 / 5;
        let column = (i - 9) / 2 % 5;
        let name = grid_name("chart"@, row, column);
        if (i - 9) % 2 == 0 {
            makes_material(op, name, chart(row, column))
        } else {
            makes_instance(op, name, "sphere"@, name, chart_place(row, column))
        }
    }
}

impl ChangeSet {
    /// The demo scene, as the edits that make it from nothing. One sphere is
    /// shared by the whole chart, and one plane by the floor and the lamp.
    pub fn demo<M: Fn(Formula) -> Answer>(maths: &M, sky: FilePath) -> (r: ChangeSet)
        requires
            formula::steady(*maths),
        ensures
            r.ops@.len() == 59,
            forall|i: int| 0 <= i < 59 ==> demo_op(*maths, sky, #[trigger] r.ops@[i], i),
    {
        let mut ops: Vec<Op> = Vec::new();
        ops.push(Op::Settings(SettingsPatch::new("main")));
        ops.push(
            camera_op(
                "main",
                Vec3::new(0, 0x40b0_0000, 0x4130_0000),
                Vec3::new(0, 0, 0),
                Num::new(0x4220_0000),
            ),
        );
        let mut environment = EnvironmentPatch::new("sky");
        environment.path = Some(Some(sky));
        ops.push(Op::Environment(environment));
        let sphere = icosphere(maths, 4);
        ops.push(mesh_op("sphere", &sphere));
        assert(is_ball(*maths, sphere, 4) && makes_mesh(ops@[3], "sphere"@, sphere));
        let plane = ground_plane(Num::new(ONE));
        ops.push(mesh_op("plane", &plane));
        assert(is_plane(plane) && makes_mesh(ops@[4], "plane"@, plane));
        ops.push(
            material_op(
                "floor",
                Surface {
                    base_color: Vec3::splat(0x3f26_6666),
                    base_diffuse_roughness: Some(Num::new(0x3dcc_cccd)),
                    base_metalness: None,
                    specular_weight: None,
                    specular_roughness: Some(Num::new(0x3e19_999a)),
                    emission_color: None,
                    emission_luminance: None,
                },
            ),
        );
        ops.push(
            instance_op("floor", "plane", "floor", stand(Vec3::new(0, 0, 0), 0x4140_0000)),
        );
        ops.push(
            material_op(
                "key",
                Surface {
                    base_color: Vec3::splat(0),
                    base_diffuse_roughness: None,
                    base_metalness: None,
                    specular_weight: Some(Num::new(0)),
                    specular_roughness: None,
                    emission_color: Some(Vec3::new(ONE, 0x3f59_999a, 0x3f19_999a)),
                    emission_luminance: Some(Num::new(0x4190_0000)),
                },
            ),
        );
        ops.push(
            instance_op(
                "key",
                "plane",
                "key",
                stand(Vec3::new(0xc060_0000, 0x40ac_cccd, ONE), 0x3f40_0000),
            ),
        );
        for row in 0..GRID
            invariant
                ops@.len() == 9 + 10 * row,
                forall|i: int|
                    0 <= i < ops@.len() ==> demo_op(*maths, sky, #[trigger] ops@[i], i),
        {
            for column in 0..GRID
                invariant
                    row < 5,
                    ops@.len() == 9 + 10 * row + 2 * column,
                    forall|i: int|
                        0 <= i < ops@.len() ==> demo_op(*maths, sky, #[trigger] ops@[i], i),
            {
                let name = name_in_grid("chart", row, column);
                let surface = Surface {
                    base_color: Vec3::new(0x3f33_3333, 0x3e61_47ae, 0x3da3_d70a),
                    base_diffuse_roughness: Some(Num::new(0x3ecc_cccd)),
                    base_metalness: Some(sweep(row)),
                    specular_weight: None,
                    specular_roughness: Some(sweep(column)),
                    emission_color: None,
                    emission_luminance: None,
                };
                let place = stand(
                    Vec3 { x: pace(column), y: Num::new(0x3f00_0000), z: pace(row) },
                    0x3f00_0000,
                );
                let ghost at = ops@.len() as int;
                assert((at - 9) / 2 / 5 == row && (at - 9) / 2 % 5 == column);
                assert((at + 1 - 9) / 2 / 5 == row && (at + 1 - 9) / 2 % 5 == column);
                ops.push(material_op(name.as_str(), surface));
                ops.push(instance_op(name.as_str(), "sphere", name.as_str(), place));
            }
        }
        ChangeSet { ops }
    }
}

} // verus!
