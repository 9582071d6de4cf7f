//! Solids, the scenes that are built in, kernels and the closure's tables.

use cenote::bits::{self, Num};
use cenote::changeset::ChangeSet;
use cenote::description::{SceneDescription, Texturable};
use cenote::formula::{Answer, Formula, Rows};
use cenote::mesh::Mesh;
use cenote::path::FilePath;
use cenote::shaders::{
    is_shader_mutation, kernel_name, kernel_source, EventKind, FileEvent, Kernels, KERNEL_COUNT,
};
use cenote::shapes::{ground_plane, icosphere, FAR, NEAR};
use cenote::tables::{
    closure_tables, ggx_energy_blob, Energy, WrongSize, GGX_ENERGY_LEN, LTC_SHEEN_LEN,
    TABLE_DIELECTRIC_E, TABLE_GGX_E_AVG, TABLE_GLASS_E, TABLE_GLASS_INV_E_AVG, TABLE_SHEEN_A,
    TABLE_SHEEN_R,
};
use cenote::validate::Facts;
use glam::Vec3;

fn num(value: f32) -> Num {
    Num::new(value.to_bits())
}

fn float(value: Num) -> f32 {
    f32::from_bits(value.bits)
}

fn stored(value: Vec3) -> bits::Vec3 {
    bits::Vec3 { x: num(value.x), y: num(value.y), z: num(value.z) }
}

fn loaded(value: bits::Vec3) -> Vec3 {
    Vec3::new(float(value.x), float(value.y), float(value.z))
}

fn along(row: u32, column: u32) -> (f32, f32) {
    (column as f32 / 15.0, row as f32 / 15.0)
}

fn maths(formula: Formula) -> Answer {
    match formula {
        Formula::Midway(a, b) => {
            Answer::Vector(stored(loaded(a).midpoint(loaded(b)).normalize()))
        }
        Formula::PanelColor(row, column) => {
            let (u, v) = along(row, column);
            let t = 0.5 * (u + v);
            Answer::Vector(stored(Vec3::new(1.0 - 0.6 * t, 0.6 + 0.05 * t, 0.3 + 0.7 * t)))
        }
        Formula::PanelPlace(row, column) => {
            let (u, v) = along(row, column);
            Answer::Vector(stored(Vec3::new(9.0 * (u - 0.5), 6.0, 9.0 * (v - 0.5))))
        }
        Formula::PanelLuminance(row, column) => {
            let (u, v) = along(row, column);
            Answer::Number(num(6.0 + 4.0 * (u - v).abs()))
        }
        Formula::Distance(..) => Answer::Number(num(0.0)),
        Formula::Luminous(..) | Formula::Mirrors(..) | Formula::Alike(..) => Answer::Truth(false),
        Formula::Placed(..)
        | Formula::Composed(..)
        | Formula::Linear(..)
        | Formula::Inverse(..) => Answer::Affine(Rows::identity()),
        _ => Answer::Vector(stored(Vec3::ZERO)),
    }
}

#[test]
fn icosphere_counts_follow_the_subdivision_formula() {
    for n in 0..3 {
        let mesh = icosphere(&maths, n);
        assert_eq!(mesh.triangles.len(), 20 * 4_usize.pow(n));
        assert_eq!(mesh.positions.len(), 10 * 4_usize.pow(n) + 2);
    }
}

#[test]
fn icosphere_vertices_lie_on_the_unit_sphere() {
    let mesh = icosphere(&maths, 2);
    for position in &mesh.positions {
        assert!((loaded(*position).length() - 1.0).abs() < 1e-6);
    }
    assert_eq!(mesh.normals, mesh.positions);
}

#[test]
fn the_corners_are_golden() {
    let phi = 1.0_f32.midpoint(5.0_f32.sqrt());
    let corner = Vec3::new(1.0, phi, 0.0).normalize();
    assert_eq!([corner.x.to_bits(), corner.y.to_bits()], [NEAR, FAR]);
    let mesh = icosphere(&maths, 0);
    assert_eq!(loaded(mesh.positions[0]), Vec3::new(-1.0, phi, 0.0).normalize());
    assert_eq!(loaded(mesh.positions[10]), Vec3::new(-phi, 0.0, -1.0).normalize());
}

#[test]
fn meshes_carry_one_shading_normal_per_vertex() {
    for mesh in [icosphere(&maths, 0), icosphere(&maths, 3), ground_plane(num(2.0))] {
        assert_eq!(mesh.normals.len(), mesh.positions.len());
        for normal in mesh.normals {
            assert!((loaded(normal).length() - 1.0).abs() < 1e-6);
        }
    }
}

fn corners(mesh: &Mesh, triangle: [u32; 3]) -> [Vec3; 3] {
    triangle.map(|corner| loaded(mesh.positions[corner as usize]))
}

#[test]
fn winding_is_counter_clockwise_outward() {
    let mesh = icosphere(&maths, 1);
    for triangle in &mesh.triangles {
        let [a, b, c] = corners(&mesh, *triangle);
        assert!((b - a).cross(c - a).dot(a + b + c) > 0.0);
    }

    let plane = ground_plane(num(5.0));
    for triangle in &plane.triangles {
        let [a, b, c] = corners(&plane, *triangle);
        assert!((b - a).cross(c - a).y > 0.0);
    }
}

#[test]
fn indices_stay_in_bounds() {
    let mesh = icosphere(&maths, 2);
    let count = mesh.positions.len() as u32;
    assert!(mesh.triangles.iter().flatten().all(|&i| i < count));
}

fn sky() -> FilePath {
    FilePath::new("/assets/sky.exr".to_owned())
}

fn described(set: &ChangeSet) -> SceneDescription {
    let facts = Facts { files: vec![sky()], singular: Vec::new(), parallel: Vec::new() };
    let mut description = SceneDescription::new();
    description.apply(set, &facts).expect("a built-in scene is valid");
    description
}

#[test]
fn demo_applies_to_an_empty_description() {
    let mut description = described(&ChangeSet::demo(&maths, sky()));
    assert_eq!(description.meshes().len(), 2);
    assert_eq!(description.instances().len(), 27);
    assert_eq!(description.materials().len(), 27);
    assert_eq!(description.cameras().len(), 1);
    assert_eq!(description.environments().len(), 1);
    assert_eq!(description.settings().len(), 1);
    assert!(description.lights().is_empty());
    assert_eq!(description.take_dirty().changed.len(), 59);
}

#[test]
fn the_chart_sweeps_its_corners() {
    let description = described(&ChangeSet::demo(&maths, sky()));
    let corner = |name: &str| description.materials().get(&name.to_owned()).expect("charted");
    let constant = |value: f32| Texturable::Constant(num(value));
    assert_eq!(corner("chart_r0c0").specular_roughness, constant(0.0));
    assert_eq!(corner("chart_r0c4").specular_roughness, constant(1.0));
    assert_eq!(corner("chart_r0c0").base_metalness, constant(0.0));
    assert_eq!(corner("chart_r4c0").base_metalness, constant(1.0));
}

#[test]
fn many_lights_applies_to_an_empty_description() {
    let mut description = described(&ChangeSet::many_lights(&maths));
    assert_eq!(description.meshes().len(), 2);
    assert_eq!(description.instances().len(), 266);
    assert_eq!(description.materials().len(), 266);
    assert_eq!(description.cameras().len(), 1);
    assert_eq!(description.settings().len(), 1);
    assert!(description.lights().is_empty());
    assert!(description.environments().is_empty());
    assert_eq!(description.take_dirty().changed.len(), 536);
}

#[test]
fn the_panel_sweeps_warm_to_cool() {
    let description = described(&ChangeSet::many_lights(&maths));
    let emission = |name: &str| {
        let material = description.materials().get(&name.to_owned()).expect("hung");
        let Texturable::Constant(color) = material.emission_color else {
            panic!("emitter {name} should have a constant emission color");
        };
        (loaded(color), float(material.emission_luminance))
    };
    let (warm, warm_lum) = emission("light_r0c0");
    assert!(warm[0] > warm[2], "the near corner should be warm: {warm:?}");
    assert!(warm_lum > 0.0, "an emitter must emit: {warm_lum}");
    let (cool, _) = emission("light_r15c15");
    assert!(cool[2] > cool[0], "the far corner should be cool: {cool:?}");
    let occluder = description.materials().get(&"occluder_r0c0".to_owned()).expect("stands");
    assert!(float(occluder.emission_luminance).abs() < 1e-6, "occluders must not emit");
}

#[test]
fn mutation_filter_ignores_noise() {
    let event = |kind, path: &str| FileEvent {
        kind,
        paths: vec![FilePath::new(path.to_owned())],
    };
    assert!(is_shader_mutation(&event(EventKind::Modify, "a.slang")));
    assert!(!is_shader_mutation(&event(EventKind::Access, "a.slang")));
    assert!(!is_shader_mutation(&event(EventKind::Modify, "a.slang.swp")));
    assert!(is_shader_mutation(&event(EventKind::Create, "/shaders/a.slang")));
    assert!(is_shader_mutation(&event(EventKind::Remove, "a.slang")));
    assert!(!is_shader_mutation(&event(EventKind::Any, "a.slang")));
    assert!(!is_shader_mutation(&event(EventKind::Other, "a.slang")));
    assert!(!is_shader_mutation(&event(EventKind::Modify, ".slang")));
    assert!(!is_shader_mutation(&FileEvent { kind: EventKind::Modify, paths: Vec::new() }));
}

#[test]
fn kernels_are_one_set_in_one_order() {
    let compiled: Vec<Result<_, String>> =
        (0..KERNEL_COUNT as u8).map(|i| Ok(vec![i])).collect();
    let kernels = Kernels::compiled(compiled).expect("every kernel compiled");
    assert_eq!(kernels.raygen.entry, "raygen");
    assert_eq!(kernels.raygen.spirv, [0]);
    assert_eq!(kernels.tonemap.entry, "tonemap");
    assert_eq!(kernels.tonemap.spirv, [6]);
    let mut broken: Vec<_> = (0..KERNEL_COUNT as u8).map(|i| Ok(vec![i])).collect();
    broken[4] = Err("late".to_owned());
    broken[2] = Err("early".to_owned());
    assert_eq!(Kernels::compiled(broken).err(), Some("early".to_owned()));
    assert_eq!(kernel_name(3), "shade_surface");
    assert_eq!(kernel_source(3), "shade_surface.slang");
}

#[test]
fn the_closure_tables_are_one_buffer() {
    let energy = vec![1; 4 * GGX_ENERGY_LEN];
    let sheen: Vec<u8> = (0..4 * LTC_SHEEN_LEN).map(|i| (i / 4096) as u8).collect();
    let bytes = closure_tables(&energy, &sheen).expect("both have their size");
    assert_eq!(bytes.len(), 4 * (GGX_ENERGY_LEN + LTC_SHEEN_LEN));
    assert_eq!(bytes[4 * TABLE_SHEEN_A - 1], 1);
    assert_eq!(bytes[4 * TABLE_SHEEN_A], 0);
    assert_eq!(bytes[4 * TABLE_SHEEN_R], 2);
    assert_eq!(closure_tables(&sheen, &sheen), Err(WrongSize::Energy));
    assert_eq!(closure_tables(&energy, &energy), Err(WrongSize::Sheen));
}

/// A number for each entry, that no other has.
fn numbered(entry: Energy) -> Num {
    let (table, rough, view, index) = match entry {
        Energy::Reflection { rough, view } => (0, rough, view, 0),
        Energy::ReflectionAverage { rough } => (1, rough, 0, 0),
        Energy::Glass { inverted: false, rough, view, index } => (2, rough, view, index),
        Energy::GlassAverage { inverted: false, rough, index } => (3, rough, 0, index),
        Energy::Glass { inverted: true, rough, view, index } => (4, rough, view, index),
        Energy::GlassAverage { inverted: true, rough, index } => (5, rough, 0, index),
        Energy::Dielectric { rough, view, index } => (6, rough, view, index),
    };
    Num::new((((table * 32 + index) * 32 + view) * 32 + rough) as u32)
}

#[test]
fn energies_are_baked_into_their_places() {
    let blob = ggx_energy_blob(&numbered);
    assert_eq!(blob.len(), GGX_ENERGY_LEN);
    assert_eq!(blob[32 * 7 + 5], numbered(Energy::Reflection { rough: 5, view: 7 }));
    assert_eq!(blob[TABLE_GGX_E_AVG + 9], numbered(Energy::ReflectionAverage { rough: 9 }));
    assert_eq!(
        blob[TABLE_GLASS_E + (16 * 3 + 2) * 16 + 1],
        numbered(Energy::Glass { inverted: false, rough: 1, view: 2, index: 3 })
    );
    assert_eq!(
        blob[TABLE_GLASS_INV_E_AVG + 16 * 4 + 15],
        numbered(Energy::GlassAverage { inverted: true, rough: 15, index: 4 })
    );
    assert_eq!(
        blob[TABLE_DIELECTRIC_E + 16 * 16 * 16 - 1],
        numbered(Energy::Dielectric { rough: 15, view: 15, index: 15 })
    );
    // The loops that the layout follows: roughness inside views inside indices.
    let mut expected = Vec::new();
    for view in 0..32 {
        for rough in 0..32 {
            expected.push(numbered(Energy::Reflection { rough, view }));
        }
    }
    for rough in 0..32 {
        expected.push(numbered(Energy::ReflectionAverage { rough }));
    }
    for inverted in [false, true] {
        for index in 0..16 {
            for view in 0..16 {
                for rough in 0..16 {
                    expected.push(numbered(Energy::Glass { inverted, rough, view, index }));
                }
            }
        }
        for index in 0..16 {
            for rough in 0..16 {
                expected.push(numbered(Energy::GlassAverage { inverted, rough, index }));
            }
        }
    }
    for index in 0..16 {
        for view in 0..16 {
            for rough in 0..16 {
                expected.push(numbered(Energy::Dielectric { rough, view, index }));
            }
        }
    }
    assert_eq!(blob, expected);
}
