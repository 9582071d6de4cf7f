//! A scene of many lights as data: a panel of small lamps, from warm to cool,
//! over a few matte spheres on a floor under a black sky.

use vstd::prelude::*;
use vstd::string::*;

use crate::bits::{Num, Vec3, ONE};
use crate::changeset::{ChangeSet, Op, SettingsPatch};
use crate::demo;
use crate::demo::{camera_op, instance_op, material_op, mesh_op, name_in_grid, stand, Surface};
use crate::description::Transform;
use crate::formula;
use crate::formula::{ask_number, ask_vector, Answer, Formula};
use crate::mesh::Mesh;
use crate::shapes::{ground_plane, icosphere};

verus! {

/// Lamps along each side of the panel.
pub const LIGHT_GRID: usize = 16;

/// Spheres along each side of the cluster.
pub const OCCLUDER_GRID: usize = 3;

/// A matte surface of one gray.
pub open spec fn matte(gray: u32) -> Surface {
    Surface {
        base_color: Vec3::splat(gray),
        base_diffuse_roughness: None,
        base_metalness: None,
        specular_weight: Some(Num::new(0)),
        specular_roughness: None,
        emission_color: None,
        emission_luminance: None,
    }
}

/// A matte surface of one gray.
fn matte_surface(gray: u32) -> (r: Surface)
    ensures
        r == matte(gray),
{
    Surface {
        base_color: Vec3::splat(gray),
        base_diffuse_roughness: None,
        base_metalness: None,
        specular_weight: Some(Num::new(0)),
        specular_roughness: None,
        emission_color: None,
        emission_luminance: None,
    }
}

/// Where a sphere of the cluster stands along an axis: three meters apart.
pub open spec fn spaced(step: int) -> Num {
    Num {
        bits: if step == 0 {
            0xc040_0000
        } else if step == 1 {
            0
        } else {
            0x4040_0000
        },
    }
}

/// Where a sphere of the cluster stands along an axis.
fn space(step: usize) -> (r: Num)
    ensures
        r == spaced(step as int),
{
    match step {
        0 => Num::new(0xc040_0000),
        1 => Num::new(0),
        _ => Num::new(0x4040_0000),
    }
}

/// How large a sphere of the cluster is: large and small in turn.
pub open spec fn radius(row: int, column: int) -> u32 {
    if (row + column) % 2 == 0 {
        0x3f66_6666
    } else {
        0x3f19_999a
    }
}

/// Where a sphere of the cluster stands: on the floor.
pub open spec fn occluder_place(row: int, column: int) -> Transform {
    demo::upright(
        Vec3 { x: spaced(column), y: Num { bits: radius(row, column) }, z: spaced(row) },
        radius(row, column),
    )
}

/// The surface of a lamp: it only emits.
pub open spec fn lamp<M: Fn(Formula) -> Answer>(maths: M, row: int, column: int) -> Surface {
    Surface {
        base_color: Vec3::splat(0),
        base_diffuse_roughness: None,
        base_metalness: None,
        specular_weight: Some(Num::new(0)),
        specular_roughness: None,
        emission_color: Some(
            formula::vector(maths, Formula::PanelColor(row as u32, column as u32)),
        ),
        emission_luminance: Some(
            formula::number(maths, Formula::PanelLuminance(row as u32, column as u32)),
        ),
    }
}

/// Where a lamp hangs, turned to look down.
pub open spec fn lamp_place<M: Fn(Formula) -> Answer>(maths: M, row: int, column: int) -> Transform {
    Transform::Trs {
        translate: formula::vector(maths, Formula::PanelPlace(row as u32, column as u32)),
        rotate_degrees: Vec3::new(0x4334_0000, 0, 0),
        scale: Vec3::splat(0x3e38_51ec),
    }
}

/// The op is number `i` of the scene's.
pub open spec fn light_op<M: Fn(Formula) -> Answer>(maths: M, op: Op, i: int) -> bool {
    if i == 0 {
        demo::makes_settings(op, "main"@)
    } else if i == 1 {
        demo::makes_camera(
            op,
            "main"@,
            Vec3::new(0, 0x40a0_0000, 0x4150_0000),
            Vec3::new(0, 0x3f19_999a, 0),
            Num::new(0x4220_0000),
        )
    } else if i == 2 {
        exists|mesh: Mesh|
            demo::is_plane(mesh) && #[trigger] demo::makes_mesh(op, "plane"@, mesh)
    } else if i == 3 {
        exists|mesh: Mesh|
            demo::is_ball(maths, mesh, 3) && #[trigger] demo::makes_mesh(op, "sphere"@, mesh)
    } else if i == 4 {
        demo::makes_material(op, "floor"@, matte(0x3f0c_cccd))
    } else if i == 5 {
        demo::makes_instance(
            op,
            "floor"@,
            "plane"@,
            "floor"@,
            demo::upright(Vec3::new(0, 0, 0), 0x4140_0000),
        )
    } else if i < 24 {
        let row = (i - 6) / 2 / 3;
        let column = (i - 6) / 2 % 3;
        let name = demo::grid_name("occluder"@, row, column);
        if (i - 6) % 2 == 0 {
            demo::makes_material(op, name, matte(0x3f19_999a))
        } else {
            demo::makes_instance(op, name, "sphere"@, name, occluder_place(row, column))
        }
    } else {
        let row = (i - 24) / 2 / 16;
        let column = (i - 24) / 2 % 16;
        let name = demo::grid_name("light"@, row, column);
        if (i - 24) % 2 == 0 {
            demo::makes_material(op, name, lamp(maths, row, column))
        } else {
            demo::makes_instance(op, name, "plane"@, name, lamp_place(maths, row, column))
        }
    }
}

impl ChangeSet {
    /// The scene of many lights, as the edits that make it from nothing. One
    /// plane is shared by the floor and every lamp, and one sphere by the
    /// cluster. There is no environment: the lamps are the only light.
    pub fn many_lights<M: Fn(Formula) -> Answer>(maths: &M) -> (r: ChangeSet)
        requires
            formula::steady(*maths),
        ensures
            r.ops@.len() == 536,
            forall|i: int| 0 <= i < 536 ==> light_op(*maths, #[trigger] r.ops@[i], i),
    {
        let mut ops: Vec<Op> = Vec::new();
        ops.push(Op::Settings(SettingsPatch::new("main")));
        ops.push(
            camera_op(
                "main",
                Vec3::new(0, 0x40a0_0000, 0x4150_0000),
                Vec3::new(0, 0x3f19_999a, 0),
                Num::new(0x4220_0000),
            ),
        );
        let plane = ground_plane(Num::new(ONE));
        ops.push(mesh_op("plane", &plane));
        assert(demo::is_plane(plane) && demo::makes_mesh(ops@[2], "plane"@, plane));
        let sphere = icosphere(maths, 3);
        ops.push(mesh_op("sphere", &sphere));
        assert(demo::is_ball(*maths, sphere, 3) && demo::makes_mesh(ops@[3], "sphere"@, sphere));
        ops.push(material_op("floor", matte_surface(0x3f0c_cccd)));
        ops.push(
            instance_op("floor", "plane", "floor", stand(Vec3::new(0, 0, 0), 0x4140_0000)),
        );
        for row in 0..OCCLUDER_GRID
            invariant
                ops@.len() == 6 + 6 * row,
                forall|i: int| 0 <= i < ops@.len() ==> light_op(*maths, #[trigger] ops@[i], i),
        {
            for column in 0..OCCLUDER_GRID
                invariant
                    row < 3,
                    ops@.len() == 6 + 6 * row + 2 * column,
                    forall|i: int| 0 <= i < ops@.len() ==> light_op(*maths, #[trigger] ops@[i], i),
            {
                let name = name_in_grid("occluder", row, column);
                let radius: u32 = if (row + column) % 2 == 0 {
                    0x3f66_6666
                } else {
                    0x3f19_999a
                };
                let place = stand(
                    Vec3 { x: space(column), y: Num::new(radius), z: space(row) },
                    radius,
                );
                let ghost at = ops@.len() as int;
                assert((at - 6) / 2 / 3 == row && (at - 6) / 2 % 3 == column);
                assert((at + 1 - 6) / 2 / 3 == row && (at + 1 - 6) / 2 % 3 == column);
                ops.push(material_op(name.as_str(), matte_surface(0x3f19_999a)));
                ops.push(instance_op(name.as_str(), "sphere", name.as_str(), place));
            }
        }
        for row in 0..LIGHT_GRID
            invariant
                formula::steady(*maths),
                ops@.len() == 24 + 32 * row,
                forall|i: int| 0 <= i < ops@.len() ==> light_op(*maths, #[trigger] ops@[i], i),
        {
            for column in 0..LIGHT_GRID
                invariant
                    formula::steady(*maths),
                    row < 16,
                    ops@.len() == 24 + 32 * row + 2 * column,
                    forall|i: int| 0 <= i < ops@.len() ==> light_op(*maths, #[trigger] ops@[i], i),
            {
                let name = name_in_grid("light", row, column);
                let (down, along) = (row as u32, column as u32);
                let surface = Surface {
                    base_color: Vec3::splat(0),
                    base_diffuse_roughness: None,
                    base_metalness: None,
                    specular_weight: Some(Num::new(0)),
                    specular_roughness: None,
                    emission_color: Some(ask_vector(maths, Formula::PanelColor(down, along))),
                    emission_luminance: Some(
                        ask_number(maths, Formula::PanelLuminance(down, along)),
                    ),
                };
                let place = Transform::Trs {
                    translate: ask_vector(maths, Formula::PanelPlace(down, along)),
                    rotate_degrees: Vec3::new(0x4334_0000, 0, 0),
                    scale: Vec3::splat(0x3e38_51ec),
                };
                let ghost at = ops@.len() as int;
                assert((at - 24) / 2 / 16 == row && (at - 24) / 2 % 16 == column);
                assert((at + 1 - 24) / 2 / 16 == row && (at + 1 - 24) / 2 % 16 == column);
                ops.push(material_op(name.as_str(), surface));
                ops.push(instance_op(name.as_str(), "plane", name.as_str(), place));
            }
        }
        ChangeSet { ops }
    }
}

} // verus!
