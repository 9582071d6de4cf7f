//! Materials, media, lowering and residency, with the arithmetic done in
//! floats.

use std::cell::Cell;
use std::collections::BTreeSet;
use std::sync::Arc;

use cenote::bits::{self, Num};
use cenote::buffers::Addresses;
use cenote::changeset::{
    CameraPatch, ChangeSet, Dirty, EnvironmentPatch, InstancePatch, Kind, LightPatch, MaterialPatch,
    MediumPatch, MeshPatch, Op, SettingsPatch,
};
use cenote::curves::{Knot, Span, Tube};
use cenote::dds::{BlockFormat, Prepared};
use cenote::description::{
    self, Channel, Geometry, Light, MeshSource, SceneDescription, Texturable, TextureRef, Transform,
    UvTransform, VolumeSource,
};
use cenote::error::{Problem, SceneError};
use cenote::formula::{Answer, Formula, Rows};
use cenote::geometry::{resolve_geometry, FileMesh, Payload};
use cenote::host::{
    after_hash, after_preparing, emitters_to_read, first_step, host_phase, host_round,
    textured_without_uvs, Fetched, Gleanings, HostScene, Intake, Step,
};
use cenote::lower::{
    all_dirty, environment_format, ignores_override, ignores_scatter, lower_camera, lower_material,
    lower_materials, lower_volume, only_absorbs, texture_indices, texture_key, texture_keys,
    texture_plan, EnvironmentSpec, GridHeader, GridReading, Need, Sky, SkyFormat,
};
use cenote::material::{Material, TEXTURE_NONE};
use cenote::media::{
    boundary, boundary_material, boundary_word, class_of, interior, is_boundary_inert,
    marched_medium, priority_of, record_of, scattering_of, subsurface, Medium, Placement, BOUNDARY_NULL, BOUNDARY_OPAQUE,
    BOUNDARY_REFRACTIVE, MEDIUM_NONE, STACK_EMPTY,
};
use cenote::mesh::Mesh;
use cenote::path::FilePath;
use cenote::prep::{Object, Scene};
use cenote::scene::{
    first_light_indices, medium_table, Camera, DeltaLight, InstanceTables,
    ResidentGrid, TriangleLight, LIGHT_NONE,
};
use cenote::stats::{Moment, Span as Time};
use cenote::table::Table;
use cenote::texture::{decode, Key, Usage};
use cenote::validate::Facts;
use glam::{Mat3, Mat4, Quat, Vec3, Vec4};

const LIMIT: usize = 1024;

fn num(value: f32) -> Num {
    Num::new(value.to_bits())
}

fn float(value: Num) -> f32 {
    f32::from_bits(value.bits)
}

fn stored(value: Vec3) -> bits::Vec3 {
    bits::Vec3 { x: num(value.x), y: num(value.y), z: num(value.z) }
}

fn loaded(value: bits::Vec3) -> Vec3 {
    Vec3::new(float(value.x), float(value.y), float(value.z))
}

fn vec3(x: f32, y: f32, z: f32) -> bits::Vec3 {
    stored(Vec3::new(x, y, z))
}

fn row(value: Vec4) -> bits::Vec4 {
    bits::Vec4 { x: num(value.x), y: num(value.y), z: num(value.z), w: num(value.w) }
}

fn read_row(value: bits::Vec4) -> Vec4 {
    Vec4::new(float(value.x), float(value.y), float(value.z), float(value.w))
}

fn rows(value: Mat4) -> Rows {
    let turned = value.transpose();
    Rows { x: row(turned.x_axis), y: row(turned.y_axis), z: row(turned.z_axis) }
}

fn mat4(value: Rows) -> Mat4 {
    Mat4::from_cols(read_row(value.x), read_row(value.y), read_row(value.z), Vec4::W).transpose()
}

fn working_space(color: Vec3) -> Vec3 {
    Vec3::new(
        0.613_097_4 * color.x + 0.339_523_1 * color.y + 0.047_379_5 * color.z,
        0.070_193_7 * color.x + 0.916_354 * color.y + 0.013_452_3 * color.z,
        0.020_615_6 * color.x + 0.109_569_8 * color.y + 0.869_814_6 * color.z,
    )
}

fn luminance(color: Vec3) -> f32 {
    color.dot(Vec3::new(0.272_228_7, 0.674_081_8, 0.053_689_5))
}

fn placed(transform: Transform) -> Mat4 {
    match transform {
        Transform::Trs { translate, rotate_degrees, scale } => {
            let degrees = loaded(rotate_degrees);
            let turn = Quat::from_rotation_z(degrees.z.to_radians())
                * Quat::from_rotation_y(degrees.y.to_radians())
                * Quat::from_rotation_x(degrees.x.to_radians());
            Mat4::from_scale_rotation_translation(loaded(scale), turn, loaded(translate))
        }
        Transform::Matrix { x, y, z } => mat4(Rows { x, y, z }),
    }
}

fn single_scatter_albedo(color: f32, g: f32) -> f32 {
    if color.is_nan() || color <= 0.0 {
        return 0.0;
    }
    let g = if g.is_nan() { 0.0 } else { g.clamp(-0.99, 0.99) };
    let c = color.min(1.0);
    let s = 4.09712 + 4.20863 * c - (9.59217 + 41.6808 * c + 17.7126 * c * c).sqrt();
    (1.0 - s * s) / (1.0 - g * s * s)
}

fn maths(formula: Formula) -> Answer {
    match formula {
        Formula::WorkingSpace(color) => Answer::Vector(stored(working_space(loaded(color)))),
        Formula::Emission { color, luminance, coat_color, coat_weight } => Answer::Vector(stored(
            loaded(color)
                * float(luminance)
                * Vec3::ONE.lerp(loaded(coat_color), float(coat_weight)),
        )),
        Formula::Extinction { color, depth } => {
            let depth = float(depth);
            Answer::Vector(stored(Vec3::from(loaded(color).to_array().map(|channel| {
                if channel.is_nan() {
                    0.0
                } else {
                    -channel.clamp(1e-4, 1.0).ln() / depth
                }
            }))))
        }
        Formula::Quotient { value, by } => Answer::Vector(stored(loaded(value) / float(by))),
        Formula::Repaired { extinction, scattering } => {
            let shift = (loaded(scattering) - loaded(extinction)).max_element().max(0.0);
            Answer::Vector(stored(loaded(extinction) + shift))
        }
        Formula::Sum(a, b) => Answer::Vector(stored(loaded(a) + loaded(b))),
        Formula::Ratio(a, b) => Answer::Vector(stored(loaded(a) / loaded(b))),
        Formula::Product(a, b) => Answer::Vector(stored(loaded(a) * loaded(b))),
        Formula::Counts(x, y, z) => Answer::Vector(vec3(x as f32, y as f32, z as f32)),
        Formula::Reciprocal { radius, scale } => {
            let radius = float(radius);
            Answer::Vector(stored(Vec3::from(
                loaded(scale).to_array().map(|scale| 1.0 / (radius * scale.max(0.0)).max(1e-6)),
            )))
        }
        Formula::Scattered { color, anisotropy, extinction } => {
            let g = float(anisotropy);
            let alpha = loaded(color).to_array().map(|channel| single_scatter_albedo(channel, g));
            Answer::Vector(stored(Vec3::from(alpha) * loaded(extinction)))
        }
        Formula::Unit(direction) => Answer::Vector(stored(loaded(direction).normalize())),
        Formula::Midway(a, b) => {
            Answer::Vector(stored(loaded(a).midpoint(loaded(b)).normalize()))
        }
        Formula::PanelColor(..) | Formula::PanelPlace(..) => Answer::Vector(stored(Vec3::ZERO)),
        Formula::PanelLuminance(..) => Answer::Number(num(0.0)),
        Formula::Moved(map, point) => {
            Answer::Vector(stored(mat4(map).transform_point3(loaded(point))))
        }
        Formula::Distance(a, b) => Answer::Number(num(loaded(a).distance(loaded(b)))),
        Formula::Luminous(color) => Answer::Truth(luminance(loaded(color)) > 0.0),
        Formula::Mirrors(map) => Answer::Truth(mat4(map).determinant() < 0.0),
        Formula::Alike(a, b) => {
            let close = |a: Vec4, b: Vec4| {
                let scale = a.abs().max_element().max(b.abs().max_element());
                (a - b).abs().max_element() <= 1e-5 * scale
            };
            Answer::Truth(
                close(read_row(a.x), read_row(b.x))
                    && close(read_row(a.y), read_row(b.y))
                    && close(read_row(a.z), read_row(b.z)),
            )
        }
        Formula::Placed(transform) => Answer::Affine(rows(placed(transform))),
        Formula::Composed(a, b) => Answer::Affine(rows(mat4(a) * mat4(b))),
        Formula::Linear(map) => Answer::Affine(rows(Mat4::from_mat3(Mat3::from_mat4(mat4(map))))),
        Formula::Inverse(map) => Answer::Affine(rows(mat4(map).inverse())),
    }
}

fn matte(base: Vec3, roughness: f32) -> Material {
    Material {
        base_color: stored(base),
        diffuse_roughness: num(roughness),
        metalness: num(0.0),
        specular_weight: num(1.0),
        specular_roughness: num(0.3),
        specular_ior: num(1.5),
        transmission_weight: num(0.0),
        transmission_color: vec3(1.0, 1.0, 1.0),
        transmission_depth: num(0.0),
        transmission_scatter: vec3(0.0, 0.0, 0.0),
        transmission_scatter_anisotropy: num(0.0),
        subsurface_weight: num(0.0),
        subsurface_color: vec3(0.8, 0.8, 0.8),
        subsurface_radius: num(1.0),
        subsurface_radius_scale: vec3(1.0, 0.5, 0.25),
        subsurface_scatter_anisotropy: num(0.0),
        coat_color: vec3(1.0, 1.0, 1.0),
        coat_weight: num(0.0),
        coat_roughness: num(0.0),
        coat_ior: num(1.6),
        coat_darkening: num(1.0),
        fuzz_weight: num(0.0),
        fuzz_color: vec3(1.0, 1.0, 1.0),
        fuzz_roughness: num(0.5),
        opacity: num(1.0),
        thin_walled: false,
        emission: vec3(0.0, 0.0, 0.0),
        base_color_texture: TEXTURE_NONE,
        metalness_texture: TEXTURE_NONE,
        specular_roughness_texture: TEXTURE_NONE,
        emission_texture: TEXTURE_NONE,
        opacity_texture: TEXTURE_NONE,
        normal_texture: TEXTURE_NONE,
        subsurface_weight_texture: TEXTURE_NONE,
        subsurface_color_texture: TEXTURE_NONE,
        subsurface_radius_texture: TEXTURE_NONE,
        subsurface_radius_scale_texture: TEXTURE_NONE,
        subsurface_scatter_anisotropy_texture: TEXTURE_NONE,
    }
}

fn glass(roughness: f32, ior: f32) -> Material {
    Material {
        specular_roughness: num(roughness),
        specular_ior: num(ior),
        transmission_weight: num(1.0),
        ..matte(Vec3::ONE, 0.0)
    }
}

fn bits_of(value: bits::Vec3) -> [u32; 3] {
    [value.x.bits, value.y.bits, value.z.bits]
}

#[test]
fn closed_transmissive_surfaces_bound_interiors() {
    let glass = Material { transmission_depth: num(0.0), ..glass(0.1, 1.5) };
    assert_eq!(boundary(&glass, false), BOUNDARY_REFRACTIVE);
    assert_eq!(boundary(&Material { thin_walled: true, ..glass }, false), BOUNDARY_OPAQUE);
    assert_eq!(boundary(&matte(Vec3::ONE, 0.5), false), BOUNDARY_OPAQUE);
    assert_eq!(boundary(&glass, true), BOUNDARY_NULL);
}

#[test]
fn a_volume_boundary_describes_no_surface() {
    let authored = Material {
        emission: vec3(4.0, 4.0, 4.0),
        opacity: num(0.25),
        opacity_texture: 7,
        ..matte(Vec3::ONE, 0.5)
    };
    assert_eq!(boundary_material(authored, false), authored);
    assert!(!is_boundary_inert(&authored));
    let inert = boundary_material(authored, true);
    assert_eq!(loaded(inert.emission), Vec3::ZERO);
    assert!(float(inert.opacity) >= 1.0);
    assert_eq!(inert.opacity_texture, TEXTURE_NONE);
    assert_eq!(inert.base_color, authored.base_color);
    assert!(is_boundary_inert(&inert));
}

#[test]
fn the_medium_table_interns_every_medium_by_value() {
    let clear = Material { transmission_depth: num(0.0), ..glass(0.1, 1.5) };
    let tinted = Material {
        transmission_color: vec3(0.25, 0.5, 1.0),
        transmission_depth: num(2.0),
        ..clear
    };
    let fog = Medium {
        absorption: vec3(0.2, 0.2, 0.2),
        scattering: vec3(0.3, 0.3, 0.3),
        anisotropy: num(0.0),
        volume: None,
    };
    let filled: Vec<_> = [
        tinted,
        clear,
        tinted,
        matte(Vec3::ONE, 0.5),
        Material { thin_walled: true, ..tinted },
    ]
    .iter()
    .map(|material| interior(&maths, material))
    .collect();
    let (indices, global, records) = medium_table(&filled, Some(record_of(&maths, &fog)));
    assert_eq!(indices, [0, MEDIUM_NONE, 0, MEDIUM_NONE, MEDIUM_NONE]);
    assert_eq!((global, records.len()), (1, 2));
    assert_eq!(
        bits_of(records[0].sigma_t),
        [0.25f32, 0.5, 1.0].map(|channel| (-channel.ln() / 2.0).to_bits())
    );
    assert_eq!(
        (loaded(records[1].sigma_t), loaded(records[1].sigma_s)),
        (Vec3::splat(0.5), Vec3::splat(0.3))
    );
    let deep = Material { transmission_color: vec3(0.25, 0.5, 0.75), ..tinted };
    let matching = Medium {
        absorption: interior(&maths, &deep).expect("an interior").sigma_t,
        scattering: vec3(0.0, 0.0, 0.0),
        anisotropy: num(0.0),
        volume: None,
    };
    let shared = medium_table(
        &vec![interior(&maths, &deep)],
        Some(record_of(&maths, &matching)),
    );
    assert_eq!((shared.0, shared.1, shared.2.len()), (vec![0], 0, 1));
    assert!(medium_table(&Vec::new(), None).2.is_empty());
    assert!(medium_table(&vec![interior(&maths, &clear)], None).2.is_empty());
}

#[test]
fn a_malformed_interior_is_vacuum() {
    let glass = glass(0.1, 1.5);
    for depth in [f32::NAN, -1.0, -0.0] {
        let material = Material {
            transmission_color: vec3(0.5, 0.5, 0.5),
            transmission_depth: num(depth),
            ..glass
        };
        assert!(interior(&maths, &material).is_none(), "depth {depth} is not an interior");
    }
    let extremes = interior(
        &maths,
        &Material {
            transmission_color: vec3(0.0, -3.0, 8.0),
            transmission_depth: num(1.0),
            ..glass
        },
    )
    .expect("a positive depth fills the interior");
    assert_eq!(
        bits_of(extremes.sigma_t),
        [1e-4f32, 1e-4, 1.0].map(|channel| (-channel.ln()).to_bits())
    );
    let poisoned = interior(
        &maths,
        &Material {
            transmission_color: vec3(f32::NAN, 0.5, 0.5),
            transmission_depth: num(1.0),
            ..glass
        },
    )
    .expect("a NaN channel does not unmake the interior");
    assert_eq!(
        bits_of(poisoned.sigma_t),
        [0.0f32, -0.5f32.ln(), -0.5f32.ln()].map(f32::to_bits)
    );
    assert!(loaded(extremes.sigma_s).to_array().iter().all(|channel| *channel <= 0.0));
}

#[test]
fn transmission_scatter_splits_the_extinction_subtractively() {
    let absorbing = Material {
        transmission_color: vec3(0.25, 0.5, 0.8),
        transmission_depth: num(2.0),
        ..glass(0.1, 1.5)
    };
    let base = interior(&maths, &absorbing).expect("an interior");
    let split = interior(
        &maths,
        &Material {
            transmission_scatter: vec3(0.1, 0.2, 0.0),
            transmission_scatter_anisotropy: num(0.7),
            ..absorbing
        },
    )
    .expect("an interior");
    assert_eq!(bits_of(split.sigma_t), bits_of(base.sigma_t));
    assert_eq!(
        (loaded(split.sigma_s), float(split.g)),
        (Vec3::new(0.05, 0.1, 0.0), 0.7)
    );
    let milk = interior(
        &maths,
        &Material {
            transmission_color: vec3(1.0, 1.0, 1.0),
            transmission_depth: num(1.0),
            transmission_scatter: vec3(0.4, 0.5, 0.6),
            ..glass(0.1, 1.5)
        },
    )
    .expect("an interior");
    assert_eq!(
        (loaded(milk.sigma_t), loaded(milk.sigma_s)),
        (Vec3::splat(0.6), Vec3::new(0.4, 0.5, 0.6))
    );
    let spun = interior(
        &maths,
        &Material {
            transmission_scatter: vec3(1.0, 1.0, 1.0),
            transmission_scatter_anisotropy: num(f32::NAN),
            ..absorbing
        },
    )
    .expect("an interior");
    assert_eq!(spun.g.bits, 0.0f32.to_bits());
    for scatter in [Vec3::splat(f32::NAN), Vec3::splat(-1.0), Vec3::ZERO] {
        let fallen = interior(
            &maths,
            &Material {
                transmission_scatter: stored(scatter),
                transmission_scatter_anisotropy: num(0.7),
                ..absorbing
            },
        )
        .expect("an interior");
        assert_eq!(fallen, base, "scatter {scatter} is no scatter at all");
    }
}

#[test]
fn subsurface_inverts_the_multiple_scatter_albedo() {
    let marble = Material {
        subsurface_weight: num(1.0),
        subsurface_color: vec3(0.8, 0.5, 0.2),
        subsurface_radius: num(2.0),
        subsurface_radius_scale: vec3(1.0, 0.5, 0.25),
        ..matte(Vec3::splat(0.8), 0.0)
    };
    let record = subsurface(&maths, &marble).expect("a weighted lobe fills an interior");
    assert_eq!(bits_of(record.sigma_t), [0.5f32, 1.0, 2.0].map(f32::to_bits));
    let alpha = |color: f32, g: f32| {
        let record = subsurface(
            &maths,
            &Material {
                subsurface_color: vec3(color, color, color),
                subsurface_scatter_anisotropy: num(g),
                ..marble
            },
        )
        .expect("an interior");
        float(record.sigma_s.x) / float(record.sigma_t.x)
    };
    assert!(alpha(0.0, 0.0).to_bits() == 0 && alpha(1.0, 0.0) > 0.999);
    let (low, mid, high) = (alpha(0.3, 0.0), alpha(0.6, 0.0), alpha(0.9, 0.0));
    assert!((0.0..=1.0).contains(&low) && low < mid && mid < high && high <= 1.0);
    assert!(alpha(0.6, 0.7) > alpha(0.6, 0.0) && alpha(0.6, -0.7) < alpha(0.6, 0.0));
    for (color, target) in [(0.630_271_f32, 0.96_f32), (0.849_846, 0.995)] {
        assert!((alpha(color, 0.0) - target).abs() < 1e-5);
    }
    let poisoned = subsurface(
        &maths,
        &Material { subsurface_color: vec3(f32::NAN, 0.5, 0.2), ..marble },
    )
    .expect("a NaN channel does not unmake the interior");
    assert_eq!(
        (poisoned.sigma_s.x.bits, float(poisoned.sigma_s.y) > 0.0),
        (0.0f32.to_bits(), true)
    );
    let dense = subsurface(
        &maths,
        &Material { subsurface_radius_scale: vec3(0.0, 0.5, 0.25), ..marble },
    )
    .expect("an interior");
    assert!(
        dense.sigma_t.x.bits == 1e6f32.to_bits()
            && loaded(dense.sigma_t).to_array().iter().all(|sigma| sigma.is_finite())
    );
}

#[test]
fn a_gated_subsurface_is_no_interior() {
    let marble = Material { subsurface_weight: num(1.0), ..matte(Vec3::splat(0.8), 0.0) };
    for (name, material) in [
        ("zero weight", matte(Vec3::splat(0.8), 0.0)),
        ("negative weight", Material { subsurface_weight: num(-1.0), ..marble }),
        ("NaN weight", Material { subsurface_weight: num(f32::NAN), ..marble }),
        ("zero radius", Material { subsurface_radius: num(0.0), ..marble }),
        ("negative radius", Material { subsurface_radius: num(-1.0), ..marble }),
        ("NaN radius", Material { subsurface_radius: num(f32::NAN), ..marble }),
        ("thin-walled", Material { thin_walled: true, ..marble }),
    ] {
        assert!(subsurface(&maths, &material).is_none(), "{name} is not an interior");
    }
}

#[test]
fn light_indices_point_at_each_instance_first_record() {
    let triangle = |instance, primitive| TriangleLight {
        first: vec3(0.0, 0.0, 0.0),
        second: vec3(1.0, 0.0, 0.0),
        third: vec3(0.0, 1.0, 0.0),
        emission: vec3(1.0, 1.0, 1.0),
        instance,
        primitive,
        winding: num(1.0),
    };
    let grouped = vec![triangle(0, 0), triangle(0, 1), triangle(2, 0)];
    assert_eq!(first_light_indices(3, &grouped), vec![0, LIGHT_NONE, 2]);
    let mixed = vec![triangle(2, 0), triangle(0, 0), triangle(2, 1), triangle(0, 1)];
    assert_eq!(first_light_indices(3, &mixed), vec![1, LIGHT_NONE, 0]);
    assert_eq!(first_light_indices(3, &Vec::new()), vec![LIGHT_NONE; 3]);
    assert!(first_light_indices(0, &Vec::new()).is_empty());
}

#[test]
fn a_walk_is_measured_only_where_no_texture_says_how_far_it_steps() {
    let skin = Material { subsurface_weight: num(1.0), ..matte(Vec3::ONE, 0.5) };
    let walked = marched_medium(&maths, &skin).expect("a constant free path");
    assert_eq!(Some(walked), subsurface(&maths, &skin));
    assert_eq!(loaded(walked.sigma_t), Vec3::new(1.0, 2.0, 4.0));
    let colored = Material { subsurface_color_texture: 3, ..skin };
    assert!(marched_medium(&maths, &colored).is_some());
    let mapped = Material { subsurface_radius_texture: 3, ..skin };
    assert_eq!(marched_medium(&maths, &mapped), None);
    let scaled = Material { subsurface_radius_scale_texture: 3, ..skin };
    assert_eq!(marched_medium(&maths, &scaled), None);
    assert_eq!(marched_medium(&maths, &matte(Vec3::ONE, 0.5)), None);
}

#[test]
fn default_transform_is_identity() {
    assert_eq!(placed(Transform::default()), Mat4::IDENTITY);
    assert_eq!(maths(Formula::Placed(Transform::default())), Answer::Affine(Rows::identity()));
}

#[test]
fn a_texture_reference_is_changed_in_place() {
    let mut plain: Texturable<Num> = Texturable::Constant(num(0.5));
    assert!(plain.texture_mut().is_none());
    assert!(matches!(plain, Texturable::Constant(value) if value == num(0.5)));
    let mut mapped: Texturable<Num> = Texturable::Texture(reference("/old.png"));
    mapped.texture_mut().expect("a texture").path = FilePath::new("/new.png".to_owned());
    assert_eq!(mapped.texture().expect("a texture").path.text, "/new.png");
}

#[test]
fn boundary_words_read_back() {
    let glassy = Placement {
        geometry: Geometry::Mesh("ball".to_owned()),
        transform: Rows::identity(),
        material: Material {
            transmission_depth: num(1.0),
            transmission_scatter: vec3(0.1, 0.1, 0.1),
            ..glass(0.1, 1.5)
        },
        camera_visible: true,
        medium: None,
        priority: 5,
    };
    let word = boundary_word(&maths, &glassy);
    assert_eq!(class_of(word), BOUNDARY_REFRACTIVE);
    assert!(scattering_of(word));
    assert_eq!(priority_of(word), 5);
    let far = Placement { priority: 1000, ..glassy.clone() };
    assert_eq!(priority_of(boundary_word(&maths, &far)), 63);
    let plain = Placement { material: matte(Vec3::ONE, 0.5), ..glassy };
    let word = boundary_word(&maths, &plain);
    assert_eq!(class_of(word), BOUNDARY_OPAQUE);
    assert!(!scattering_of(word));
    assert_eq!(priority_of(word), 0);
}

// -- Lowering ------------------------------------------------------------------------

fn facts() -> Facts {
    Facts {
        files: ["/wood.png", "/sky.exr", "/quad.ply", "/cloud.nvdb", "/notes.toml"]
            .map(|text| FilePath::new(text.to_owned()))
            .into(),
        singular: Vec::new(),
        parallel: Vec::new(),
    }
}

fn apply(description: &mut SceneDescription, ops: Vec<Op>) {
    description.apply(&ChangeSet { ops }, &facts()).expect("valid data");
}

fn inline_mesh(positions: &[[f32; 3]], triangles: &[[u32; 3]]) -> MeshSource {
    MeshSource::Inline {
        positions: Arc::new(positions.iter().map(|p| stored(Vec3::from(*p))).collect()),
        normals: None,
        uvs: None,
        triangles: Arc::new(triangles.to_vec()),
    }
}

fn mesh_patch(name: &str, source: MeshSource) -> Op {
    Op::Mesh(MeshPatch { source: Some(source), ..MeshPatch::new(name) })
}

fn triangle_ops() -> Vec<Op> {
    vec![
        Op::Settings(SettingsPatch::new("main")),
        Op::Camera(CameraPatch::new("main")),
        mesh_patch(
            "tri",
            inline_mesh(&[[0.0; 3], [1.0, 0.0, 0.0], [0.0, 1.0, 0.0]], &[[0, 1, 2]]),
        ),
        Op::Material(Box::new(MaterialPatch::new("gray"))),
        Op::Instance(InstancePatch {
            mesh: Some("tri".to_owned()),
            material: Some("gray".to_owned()),
            ..InstancePatch::new("thing")
        }),
    ]
}

fn triangle_description() -> SceneDescription {
    let mut description = SceneDescription::new();
    apply(&mut description, triangle_ops());
    description
}

fn smooth(positions: &Vec<bits::Vec3>, triangles: &Vec<[u32; 3]>) -> Vec<bits::Vec3> {
    let points: Vec<Vec3> = positions.iter().map(|p| loaded(*p)).collect();
    let mut sums = vec![Vec3::ZERO; points.len()];
    for &[a, b, c] in triangles {
        let (a, b, c) = (a as usize, b as usize, c as usize);
        let face = (points[b] - points[a]).cross(points[c] - points[a]);
        sums[a] += face;
        sums[b] += face;
        sums[c] += face;
    }
    sums.into_iter().map(|sum| stored(sum.try_normalize().unwrap_or(Vec3::Y))).collect()
}

fn build(
    description: &SceneDescription,
    dirty: &Dirty,
    payloads: &Table<Geometry, Payload>,
) -> Result<Table<Geometry, Mesh>, SceneError> {
    resolve_geometry(
        description,
        dirty,
        payloads,
        &|a: bits::Vec3, b: bits::Vec3| stored(2.0 * loaded(a) - loaded(b)),
        &|a: Num, b: Num| num(2.0 * float(a) - float(b)),
        &|span: Span, _at: u32| Knot { point: span.first, radius: num(0.0) },
        &|_span: Span, _near: u32, _far: u32| false,
        &|strand: &[Knot], _noise: u32| Tube {
            positions: vec![vec3(0.0, 0.0, 0.0); 3 * strand.len()],
            normals: vec![vec3(0.0, 1.0, 0.0); 3 * strand.len()],
            uvs: vec![bits::Vec2::splat(0); 3 * strand.len()],
        },
        &smooth,
    )
}

/// What reading came to: everything that is asked for, and nothing else.
struct Files {
    payloads: Table<Geometry, Payload>,
    textures: Option<String>,
    grids: Table<String, GridReading>,
    rereads: Table<Geometry, Result<Mesh, SceneError>>,
    sky: Option<String>,
}

fn no_files() -> Files {
    Files {
        payloads: Table::new(),
        textures: None,
        grids: Table::new(),
        rereads: Table::new(),
        sky: None,
    }
}

fn texture(hash: u64) -> Prepared {
    Prepared {
        format: BlockFormat::Bc7Srgb,
        width: 4,
        height: 4,
        hash,
        data: vec![0; 16],
    }
}

fn intake(
    description: &SceneDescription,
    dirty: &Dirty,
    resident: &Table<Key, u64>,
    files: Files,
) -> Intake {
    let mut fetched = Table::new();
    if let Ok(plan) = texture_plan(description.materials(), dirty, resident, LIMIT) {
        for i in 0..plan.len() {
            let key = plan.key_at(i).clone();
            let need = *plan.value_at(i);
            let one = match first_step(need) {
                Step::Keep => Fetched::Kept,
                _ => match &files.textures {
                    Some(words) => Fetched::Failed(words.clone()),
                    None => after_preparing(need, texture(7)),
                },
            };
            fetched.insert(key, one);
        }
    }
    Intake {
        built: build(description, dirty, &files.payloads),
        fetched,
        grids: files.grids,
        rereads: files.rereads,
        sky: files.sky,
    }
}

fn host_from(description: &SceneDescription, files: Files) -> Result<HostScene, SceneError> {
    let dirty = all_dirty(description);
    let resident = Table::new();
    let intake = intake(description, &dirty, &resident, files);
    host_phase(&maths, description, &dirty, true, &resident, None, LIMIT, intake)
}

fn host(description: &SceneDescription) -> Result<HostScene, SceneError> {
    host_from(description, no_files())
}

fn host_error(description: &SceneDescription, files: Files) -> String {
    match host_from(description, files) {
        Err(error) => error.message(""),
        Ok(_) => panic!("the host phase accepted a description it must reject"),
    }
}

#[test]
fn the_singleton_rules_hold() {
    let mut description = triangle_description();
    let error = host_error(&SceneDescription::new(), no_files());
    assert!(error.contains("camera"), "{error}");

    apply(
        &mut description,
        vec![Op::Camera(CameraPatch {
            position: Some(vec3(5.0, 5.0, 5.0)),
            ..CameraPatch::new("second")
        })],
    );
    let error = host_error(&description, no_files());
    assert!(error.contains("exactly one camera"), "{error}");

    let mut description = triangle_description();
    apply(&mut description, vec![Op::Settings(SettingsPatch::new("other"))]);
    let error = host_error(&description, no_files());
    assert!(error.contains("exactly one settings"), "{error}");

    let mut description = triangle_description();
    apply(
        &mut description,
        vec![
            Op::Environment(EnvironmentPatch::new("one")),
            Op::Environment(EnvironmentPatch::new("two")),
        ],
    );
    let error = host_error(&description, no_files());
    assert_eq!(error, "a scene renders at most one environment, this one has 2");
}

#[test]
fn a_scene_without_instances_lowers_empty() {
    let mut description = SceneDescription::new();
    apply(
        &mut description,
        vec![Op::Settings(SettingsPatch::new("main")), Op::Camera(CameraPatch::new("main"))],
    );
    let host = host(&description).expect("an empty scene lowers");
    assert!(host.instances.is_empty());
    assert_eq!(host.light_count(), 0);
}

fn trs(translate: [f32; 3], scale: f32) -> Transform {
    Transform::Trs {
        translate: stored(Vec3::from(translate)),
        rotate_degrees: vec3(0.0, 0.0, 0.0),
        scale: vec3(scale, scale, scale),
    }
}

fn emissive_gray(luminance: f32) -> Op {
    Op::Material(Box::new(MaterialPatch {
        emission_luminance: Some(num(luminance)),
        ..MaterialPatch::new("gray")
    }))
}

#[test]
fn transforms_arrays_flatten_into_per_element_specs_and_lights() {
    let mut description = triangle_description();
    apply(
        &mut description,
        vec![
            emissive_gray(5.0),
            Op::Instance(InstancePatch {
                transforms: Some(Arc::new(vec![
                    trs([1.0, 0.0, 0.0], 1.0),
                    trs([-1.0, 0.0, 0.0], 1.0),
                ])),
                ..InstancePatch::new("thing")
            }),
        ],
    );
    let host = host(&description).expect("an instanced emitter lowers");
    assert_eq!(host.instances.len(), 2);
    assert_eq!(host.triangle_lights.len(), 2);
    assert_eq!(host.triangle_lights[0].instance, 0);
    assert_eq!(host.triangle_lights[1].instance, 1);
    assert!((float(host.triangle_lights[0].first.x) - 1.0).abs() < 1e-6);
    assert!((float(host.triangle_lights[1].first.x) + 1.0).abs() < 1e-6);
}

#[test]
fn an_empty_transforms_array_lowers_to_nothing() {
    let mut description = triangle_description();
    apply(
        &mut description,
        vec![Op::Instance(InstancePatch {
            transforms: Some(Arc::new(vec![])),
            ..InstancePatch::new("thing")
        })],
    );
    let host = host(&description).expect("a placement-less instance lowers");
    assert!(host.instances.is_empty());
    assert_eq!(host.light_count(), 0);
}

#[test]
fn any_emissive_mesh_is_a_light() {
    let mut description = triangle_description();
    apply(&mut description, vec![emissive_gray(5.0)]);
    let host = host(&description).expect("a triangle emitter renders");
    assert_eq!(host.triangle_lights.len(), 1);
    assert_eq!(host.triangle_lights[0].primitive, 0);
    assert!(luminance(loaded(host.triangle_lights[0].emission)) > 0.0);
    assert_eq!(host.light_count(), 1);
}

fn reference(text: &str) -> TextureRef {
    TextureRef {
        path: FilePath::new(text.to_owned()),
        color_space: None,
        channel: None,
        scale: None,
        uv: None,
    }
}

fn textured_gray(text: &str) -> Op {
    Op::Material(Box::new(MaterialPatch {
        base_color: Some(Texturable::Texture(reference(text))),
        ..MaterialPatch::new("gray")
    }))
}

#[test]
fn an_undecodable_texture_is_rejected_at_prep() {
    let mut description = triangle_description();
    apply(&mut description, vec![textured_gray("/notes.toml")]);
    let words = decode(&FilePath::new("/notes.toml".to_owned()), b"[package]")
        .err()
        .expect("no image")
        .message();
    let error =
        host_error(&description, Files { textures: Some(words), ..no_files() });
    assert!(error.contains("texture"), "{error}");
    assert!(error.contains("decode"), "{error}");
}

#[test]
fn a_ply_mesh_resolves_and_can_emit() {
    let mut description = triangle_description();
    apply(
        &mut description,
        vec![
            mesh_patch("tri", MeshSource::Ply { path: FilePath::new("/quad.ply".to_owned()) }),
            emissive_gray(3.0),
        ],
    );
    let key = Geometry::Mesh("tri".to_owned());
    let read = FileMesh {
        positions: vec![
            vec3(0.0, 0.0, 0.0),
            vec3(1.0, 0.0, 0.0),
            vec3(1.0, 1.0, 0.0),
            vec3(0.0, 1.0, 0.0),
        ],
        normals: None,
        uvs: Some(vec![
            bits::Vec2 { x: num(0.0), y: num(1.0) },
            bits::Vec2 { x: num(1.0), y: num(1.0) },
            bits::Vec2 { x: num(1.0), y: num(0.0) },
            bits::Vec2 { x: num(0.0), y: num(0.0) },
        ]),
        triangles: vec![[0, 1, 2], [0, 2, 3]],
    };
    let mut files = no_files();
    files.payloads.insert(key.clone(), Payload::Triangles(read));
    let host = host_from(&description, files).expect("a PLY mesh preps");
    let mesh = host.geometry.get(&key).expect("built");
    assert_eq!(mesh.positions.len(), 4);
    assert_eq!(mesh.triangles.len(), 2);
    assert!(mesh.normals.iter().all(|n| loaded(*n).abs_diff_eq(Vec3::Z, 1e-6)));
    assert_eq!(mesh.uvs[2], bits::Vec2 { x: num(1.0), y: num(0.0) });
    assert_eq!(host.triangle_lights.len(), 2);

    let mut files = no_files();
    files.payloads.insert(key, Payload::Failed("not a PLY file".to_owned()));
    let error = host_error(&description, files);
    assert!(error.contains("mesh \"tri\""), "{error}");
    assert!(error.contains("PLY"), "{error}");
}

#[test]
fn an_unreadable_environment_is_rejected_at_prep() {
    let mut description = triangle_description();
    let path = FilePath::new("/notes.toml".to_owned());
    apply(
        &mut description,
        vec![Op::Environment(EnvironmentPatch {
            path: Some(Some(path.clone())),
            ..EnvironmentPatch::new("sky")
        })],
    );
    let words = environment_format(&"sky".to_owned(), &path, &b"[package]".to_vec())
        .expect_err("no radiance image")
        .message("");
    let error = host_error(&description, Files { sky: Some(words), ..no_files() });
    assert!(error.contains("neither an EXR nor a Radiance HDR"), "{error}");
}

#[test]
fn environment_formats_are_told_by_their_bytes() {
    let name = "sky".to_owned();
    let path = FilePath::new("/sky.png".to_owned());
    let exr = vec![0x76, 0x2f, 0x31, 0x01, 0x02];
    assert_eq!(environment_format(&name, &path, &exr).unwrap(), SkyFormat::Exr);
    let hdr = b"#?RADIANCE\n".to_vec();
    assert_eq!(environment_format(&name, &path, &hdr).unwrap(), SkyFormat::Hdr);
    for bytes in [&b""[..], b"#", b"\x76\x2f\x31", b"PNG"] {
        assert!(environment_format(&name, &path, &bytes.to_vec()).is_err());
    }
}

#[test]
fn delta_lights_lower_into_the_light_list() {
    let mut description = triangle_description();
    apply(
        &mut description,
        vec![
            Op::Light(LightPatch {
                light: Some(Light::Distant {
                    direction: vec3(0.0, -2.0, 0.0),
                    irradiance: vec3(3.0, 3.0, 3.0),
                }),
                ..LightPatch::new("sun")
            }),
            Op::Light(LightPatch::new("placeholder")),
        ],
    );
    let host = host(&description).expect("delta lights render");
    let [DeltaLight::Distant { direction, .. }] = host.delta_lights.as_slice() else {
        panic!("expected exactly the one distant light to survive lowering");
    };
    assert!((loaded(*direction) - Vec3::NEG_Y).length() < 1e-6);
}

#[test]
fn the_camera_lens_lowers_with_focus_at_look_at() {
    let source = description::Camera {
        position: vec3(0.0, 0.0, 5.0),
        look_at: vec3(0.0, 0.0, 1.0),
        aperture_radius: num(0.25),
        ..description::Camera::default()
    };
    let camera = lower_camera(&maths, &source);
    let lens = camera.lens.expect("a positive aperture is a lens");
    assert!((float(lens.aperture_radius) - 0.25).abs() < 1e-6);
    assert!((float(lens.focus_distance) - 4.0).abs() < 1e-6);

    let explicit = lower_camera(
        &maths,
        &description::Camera { focus_distance: Some(num(2.5)), ..source },
    );
    assert!((float(explicit.lens.expect("lens").focus_distance) - 2.5).abs() < 1e-6);

    let pinhole = lower_camera(
        &maths,
        &description::Camera {
            aperture_radius: num(0.0),
            focus_distance: Some(num(2.5)),
            ..source
        },
    );
    assert!(pinhole.lens.is_none());
}

#[test]
fn texture_keys_fork_on_scalar_channels_only() {
    let with_channel = |channel| TextureRef { channel, ..reference("/orm.png") };
    let scalar = |channel| texture_key(&with_channel(channel), Usage::Scalar);
    assert_ne!(scalar(Some(Channel::G)), scalar(Some(Channel::B)));
    assert_eq!(scalar(None), scalar(Some(Channel::R)));
    for usage in [Usage::Color, Usage::Normal] {
        assert_eq!(
            texture_key(&with_channel(Some(Channel::A)), usage),
            texture_key(&with_channel(None), usage),
        );
    }
}

#[test]
fn texture_keys_fork_on_sample_time_params() {
    let with = |scale: Option<f32>, uv| TextureRef {
        scale: scale.map(num),
        uv,
        ..reference("/wood.png")
    };
    let color = |scale, uv| texture_key(&with(scale, uv), Usage::Color);
    let two = bits::Vec2 { x: num(2.0), y: num(2.0) };
    let remap = UvTransform { scale: two, offset: bits::Vec2::splat(0) };
    assert_ne!(color(None, None), color(Some(3.0), None));
    assert_ne!(color(None, None), color(None, Some(remap)));
    assert_eq!(color(None, None), color(Some(1.0), None));
    assert_eq!(color(None, None), color(None, Some(UvTransform::default())));
    assert_eq!(
        texture_key(&with(Some(3.0), None), Usage::Normal),
        texture_key(&with(None, None), Usage::Normal),
    );
}

fn indices_of(keys: &[Key]) -> Table<Key, u32> {
    let mut indices = Table::new();
    for (index, key) in keys.iter().enumerate() {
        indices.insert(key.clone(), index as u32);
    }
    indices
}

#[test]
fn textured_slots_lower_to_indices_and_closure_params_carry() {
    let source = description::Material {
        base_color: Texturable::Texture(reference("/wood.png")),
        geometry_normal: Some(reference("/weave.png")),
        coat_weight: num(0.5),
        transmission_weight: num(0.25),
        specular_ior: num(1.8),
        geometry_thin_walled: true,
        geometry_opacity: Texturable::Constant(num(0.5)),
        ..description::Material::default()
    };
    let keys = texture_keys(&source);
    assert_eq!(keys.len(), 2);
    let indices = indices_of(&keys);
    let lowered = lower_material(&maths, &source, &indices);
    assert_eq!(lowered.base_color_texture, *indices.get(&keys[0]).unwrap());
    assert_eq!(lowered.normal_texture, *indices.get(&keys[1]).unwrap());
    assert_eq!(lowered.emission_texture, TEXTURE_NONE);
    assert_eq!(lowered.opacity_texture, TEXTURE_NONE);
    assert_eq!(loaded(lowered.base_color), working_space(Vec3::splat(0.8)));
    assert_eq!(float(lowered.coat_weight), 0.5);
    assert_eq!(float(lowered.transmission_weight), 0.25);
    assert_eq!(float(lowered.specular_ior), 1.8);
    assert!(lowered.thin_walled);
    assert_eq!(float(lowered.opacity), 0.5);
}

#[test]
fn every_subsurface_slot_textures_without_gating_its_interior() {
    let source = description::Material {
        subsurface_weight: Texturable::Texture(reference("/mask.png")),
        subsurface_color: Texturable::Texture(reference("/albedo.png")),
        subsurface_radius: Texturable::Texture(reference("/depth.png")),
        subsurface_radius_scale: Texturable::Texture(reference("/shape.png")),
        subsurface_scatter_anisotropy: Texturable::Texture(reference("/aniso.png")),
        ..description::Material::default()
    };
    let keys = texture_keys(&source);
    assert_eq!(keys.len(), 5);
    let lowered = lower_material(&maths, &source, &indices_of(&keys));
    let slots = [
        lowered.subsurface_weight_texture,
        lowered.subsurface_color_texture,
        lowered.subsurface_radius_texture,
        lowered.subsurface_radius_scale_texture,
        lowered.subsurface_scatter_anisotropy_texture,
    ];
    for slot in slots {
        assert_ne!(slot, TEXTURE_NONE);
    }
    let resolved: BTreeSet<u32> = slots.into_iter().collect();
    assert_eq!(resolved.len(), 5);
    assert!(subsurface(&maths, &lowered).is_some());
}

#[test]
fn a_vector_slot_preps_apart_from_a_color_one() {
    let reference = reference("/skin.png");
    assert_ne!(
        texture_key(&reference, Usage::Vector),
        texture_key(&reference, Usage::Color),
    );
}

#[test]
fn emission_lowers_through_its_coat() {
    let source = description::Material {
        emission_luminance: num(10.0),
        coat_weight: num(1.0),
        coat_color: vec3(0.5, 1.0, 1.0),
        ..description::Material::default()
    };
    let lowered = lower_material(&maths, &source, &Table::new());
    let expected =
        working_space(Vec3::ONE) * 10.0 * working_space(Vec3::new(0.5, 1.0, 1.0));
    assert!((loaded(lowered.emission) - expected).length() < 1e-5);
}

#[test]
fn weights_are_held_in_their_ranges() {
    let source = description::Material {
        base_metalness: Texturable::Constant(num(2.0)),
        specular_weight: num(-1.0),
        specular_ior: num(0.0),
        coat_ior: num(0.5),
        coat_roughness: num(-3.0),
        transmission_color: vec3(2.0, 2.0, 2.0),
        subsurface_radius: Texturable::Constant(num(-1.0)),
        ..description::Material::default()
    };
    let lowered = lower_material(&maths, &source, &Table::new());
    assert_eq!(float(lowered.metalness), 1.0);
    assert_eq!(float(lowered.specular_weight), 0.0);
    assert_eq!(float(lowered.specular_ior), 1e-4);
    assert_eq!(float(lowered.coat_ior), 1.0);
    assert_eq!(float(lowered.coat_roughness), 0.0);
    assert_eq!(loaded(lowered.transmission_color), Vec3::ONE);
    assert_eq!(float(lowered.subsurface_radius), 0.0);
}

#[test]
fn what_a_material_says_in_vain_is_told() {
    let mapped = description::Material {
        geometry_normal: Some(TextureRef {
            color_space: Some(description::ColorSpace::Srgb),
            ..reference("/weave.png")
        }),
        ..description::Material::default()
    };
    assert!(ignores_override(&mapped));
    assert!(!ignores_override(&description::Material::default()));
    let milk = description::Material {
        transmission_weight: num(1.0),
        transmission_scatter: vec3(0.5, 0.5, 0.5),
        ..description::Material::default()
    };
    assert!(ignores_scatter(&maths, &lower_material(&maths, &milk, &Table::new())));
    let deep = description::Material { transmission_depth: num(1.0), ..milk };
    assert!(!ignores_scatter(&maths, &lower_material(&maths, &deep, &Table::new())));
}

#[test]
fn missing_normals_derive_from_the_face() {
    let source = inline_mesh(
        &[[0.0; 3], [1.0, 0.0, 0.0], [0.0, 1.0, 0.0], [5.0, 5.0, 5.0]],
        &[[0, 1, 2]],
    );
    let mesh = cenote::geometry::resolve_mesh(
        &"tri".to_owned(),
        &description::Mesh { source },
        &Payload::Nothing,
        &smooth,
    )
    .expect("inline geometry resolves");
    for normal in &mesh.normals[..3] {
        assert!((loaded(*normal) - Vec3::Z).length() < 1e-6);
    }
    assert_eq!(loaded(mesh.normals[3]), Vec3::Y);
    assert_eq!(mesh.uvs, vec![bits::Vec2::splat(0); 4]);
}

#[test]
fn a_shell_is_the_unit_cube_wound_outward() {
    let mesh = cenote::geometry::resolve_mesh(
        &"shell".to_owned(),
        &description::Mesh { source: MeshSource::MediumBounds },
        &Payload::Nothing,
        &smooth,
    )
    .expect("a shell resolves");
    assert_eq!(mesh.positions.len(), 8);
    assert_eq!(mesh.triangles.len(), 12);
    assert_eq!(loaded(mesh.positions[5]), Vec3::new(1.0, 0.0, 1.0));
    let center = Vec3::splat(0.5);
    for [a, b, c] in mesh.triangles {
        let [a, b, c] = [a, b, c].map(|i| loaded(mesh.positions[i as usize]));
        assert!((b - a).cross(c - a).dot(a - center) > 0.0);
    }
}

#[test]
fn a_missing_environment_means_a_black_sky() {
    let host = host(&triangle_description()).expect("no environment is legal");
    let environment = host.environment.expect("fresh builds load one");
    assert_eq!(environment.image, Some(Sky::Constant(vec3(0.0, 0.0, 0.0))));
    assert!(environment.source.is_none());
}

fn pathless_sky_host(tint: [f32; 3], transform: Transform) -> HostScene {
    let mut description = triangle_description();
    apply(
        &mut description,
        vec![Op::Environment(EnvironmentPatch {
            tint: Some(stored(Vec3::from(tint))),
            transform: Some(transform),
            ..EnvironmentPatch::new("sky")
        })],
    );
    host(&description).expect("a pathless sky is legal")
}

#[test]
fn a_pathless_environment_is_a_tinted_white_sky() {
    let host = pathless_sky_host(
        [0.5, 0.25, 0.125],
        Transform::Trs {
            translate: vec3(7.0, 8.0, 9.0),
            rotate_degrees: vec3(0.0, 90.0, 0.0),
            scale: vec3(1.0, 1.0, 1.0),
        },
    );
    let environment = host.environment.expect("fresh builds load one");
    assert_eq!(environment.image, Some(Sky::Constant(vec3(1.0, 1.0, 1.0))));
    assert!(environment.source.is_none());
    let want = working_space(Vec3::new(0.5, 0.25, 0.125));
    assert!(loaded(environment.tint).abs_diff_eq(want, 1e-6));
    let to_world = mat4(environment.to_world);
    assert_eq!(to_world.w_axis, Vec4::W);
    let turned = to_world.transform_vector3(Vec3::X);
    assert!(turned.abs_diff_eq(-Vec3::Z, 1e-6), "{turned}");
    let back = mat4(environment.from_world).transform_vector3(turned);
    assert!(back.abs_diff_eq(Vec3::X, 1e-6), "{back}");
}

fn skied_description() -> SceneDescription {
    let mut description = triangle_description();
    apply(
        &mut description,
        vec![Op::Environment(EnvironmentPatch {
            path: Some(Some(FilePath::new("/sky.exr".to_owned()))),
            tint: Some(vec3(0.5, 0.5, 0.5)),
            ..EnvironmentPatch::new("sky")
        })],
    );
    description
}

#[test]
fn an_unchanged_environment_source_keeps_the_resident_image() {
    let description = skied_description();
    let sky = FilePath::new("/sky.exr".to_owned());
    let with_resident = |resident: Option<&FilePath>| -> EnvironmentSpec {
        let dirty = all_dirty(&description);
        let none = Table::new();
        let intake = intake(&description, &dirty, &none, no_files());
        host_phase(&maths, &description, &dirty, false, &none, resident, LIMIT, intake)
            .expect("host phase")
            .environment
            .expect("environment dirt lowers a spec")
    };
    let kept = with_resident(Some(&sky));
    assert!(kept.image.is_none(), "same source must keep the image");
    assert_eq!(kept.source, Some(sky));
    assert!(loaded(kept.tint).abs_diff_eq(working_space(Vec3::splat(0.5)), 1e-6));
    let loaded = with_resident(Some(&FilePath::new("/somewhere/else.exr".to_owned())));
    assert_eq!(loaded.image, Some(Sky::Image), "a changed source must load the new image");
}

fn volume_source() -> VolumeSource {
    VolumeSource {
        path: FilePath::new("/cloud.nvdb".to_owned()),
        grid: "density".to_owned(),
        temperature_grid: Some("temperature".to_owned()),
        temperature_scale: num(1.0),
        temperature_offset: num(0.0),
        emission: vec3(1.0, 1.0, 1.0),
    }
}

fn header(temperature: f32) -> GridHeader {
    GridHeader {
        nvdb: FilePath::new("/cloud.nvdb".to_owned()),
        asset_to_index: rows(Mat4::from_scale(Vec3::splat(2.0))),
        index_to_asset: rows(Mat4::from_scale(Vec3::splat(0.5))),
        low: vec3(-1.0, -2.0, -4.0),
        high: vec3(3.0, 2.0, 4.0),
        majorant_res: [2, 4, 8],
        temperature: Some(rows(Mat4::from_scale(Vec3::splat(temperature)))),
    }
}

#[test]
fn a_temperature_grid_on_its_own_lattice_is_refused() {
    let matched = lower_volume(&maths, &volume_source(), &header(2.0), vec3(1.0, 1.0, 1.0))
        .expect("one transform, both fields");
    assert_eq!(matched.temperature.as_deref(), Some("temperature"));
    assert_eq!(loaded(matched.majorant_scale), Vec3::new(0.5, 1.0, 1.0));
    assert_eq!(loaded(matched.majorant_bias), Vec3::new(0.5, 2.0, 4.0));
    let corner = mat4(matched.bounds_to_asset).transform_point3(Vec3::ONE);
    assert_eq!(corner, Vec3::new(1.5, 1.0, 2.0));
    let dark = lower_volume(&maths, &volume_source(), &header(2.0), vec3(0.0, 0.0, 0.0))
        .expect("one transform, both fields");
    assert!(dark.temperature.is_none(), "what is multiplied by nothing is left out");

    let error = lower_volume(&maths, &volume_source(), &header(8.0), vec3(0.0, 0.0, 0.0))
        .expect_err("two lattices under one affine")
        .message("2 vs 8");
    assert!(error.contains("maps index space differently"), "{error}");
}

fn cloud_ops() -> Vec<Op> {
    vec![
        Op::Medium(MediumPatch {
            scattering: Some(vec3(1.0, 1.0, 1.0)),
            volume: Some(Some(VolumeSource { temperature_grid: None, ..volume_source() })),
            ..MediumPatch::new("cloud")
        }),
        mesh_patch("shell", MeshSource::MediumBounds),
        Op::Instance(InstancePatch {
            mesh: Some("shell".to_owned()),
            material: Some("gray".to_owned()),
            medium: Some(Some("cloud".to_owned())),
            ..InstancePatch::new("cloud")
        }),
    ]
}

fn cloud_files() -> Files {
    let mut files = no_files();
    files.grids.insert("cloud".to_owned(), GridReading::Header(header(2.0)));
    files
}

#[test]
fn a_shell_is_stretched_over_its_grid() {
    let mut description = triangle_description();
    apply(&mut description, cloud_ops());
    apply(&mut description, vec![emissive_gray(5.0)]);
    let host = host_from(&description, cloud_files()).expect("a cloud lowers");
    let cloud = &host.instances[0];
    assert_eq!(cloud.geometry, Geometry::Mesh("shell".to_owned()));
    let corner = mat4(cloud.transform).transform_point3(Vec3::ONE);
    assert_eq!(corner, Vec3::new(1.5, 1.0, 2.0));
    assert_eq!(loaded(cloud.material.emission), Vec3::ZERO);
    assert!(is_boundary_inert(&cloud.material));
    assert!(host.triangle_lights.iter().all(|light| light.instance == 1));

    let mut files = no_files();
    files.grids.insert("cloud".to_owned(), GridReading::Failed("no such grid".to_owned()));
    assert_eq!(host_error(&description, files), "no such grid");
}

#[test]
fn the_open_space_is_filled_by_name() {
    let mut description = triangle_description();
    apply(
        &mut description,
        vec![
            Op::Medium(MediumPatch {
                absorption: Some(vec3(1.0, 1.0, 1.0)),
                ..MediumPatch::new("soot")
            }),
            Op::Settings(SettingsPatch {
                global_medium: Some(Some("soot".to_owned())),
                ..SettingsPatch::new("main")
            }),
        ],
    );
    let host = host(&description).expect("a filled scene lowers");
    let filling = host.global_medium.expect("named");
    assert!(only_absorbs(&filling));

    let mut media = Table::new();
    media.insert("fog".to_owned(), filling);
    let gone = cenote::lower::global_medium(Some(&"soot".to_owned()), &media)
        .expect_err("nothing of that name");
    assert_eq!(gone.message(""), "the global medium \"soot\" does not exist");
}

#[test]
fn more_textures_than_can_be_bound_are_refused() {
    let mut description = triangle_description();
    apply(&mut description, vec![textured_gray("/wood.png")]);
    let dirty = all_dirty(&description);
    let error = texture_plan(description.materials(), &dirty, &Table::new(), 0)
        .err()
        .expect("one is more than none");
    assert_eq!(
        error.message(""),
        "the scene references 1 textures; the bindless table holds 0"
    );
    assert_eq!(error, Problem::TooManyTextures { count: 1, limit: 0 });
}

#[test]
fn textures_are_fetched_only_where_they_may_have_changed() {
    let mut description = triangle_description();
    apply(&mut description, vec![textured_gray("/wood.png")]);
    let key = texture_key(&reference("/wood.png"), Usage::Color);
    let all = all_dirty(&description);
    let plan = |resident: &Table<Key, u64>, dirty: &Dirty| {
        let plan = texture_plan(description.materials(), dirty, resident, LIMIT).unwrap();
        *plan.get(&key).expect("planned")
    };
    let mut resident = Table::new();
    assert_eq!(plan(&resident, &all), Need::Prepare);
    resident.insert(key.clone(), 7);
    assert_eq!(plan(&resident, &all), Need::Check(7));
    assert_eq!(plan(&resident, &Dirty::new()), Need::Keep);

    assert_eq!(first_step(Need::Keep), Step::Keep);
    assert_eq!(first_step(Need::Prepare), Step::Prepare);
    assert_eq!(first_step(Need::Check(7)), Step::Hash);
    assert_eq!(after_hash(Need::Check(7), 7), Step::Keep);
    assert_eq!(after_hash(Need::Check(7), 8), Step::Prepare);
    assert!(matches!(after_preparing(Need::Check(7), texture(7)), Fetched::Kept));
    assert!(matches!(after_preparing(Need::Check(7), texture(8)), Fetched::Fresh(_)));
    assert!(matches!(after_preparing(Need::Prepare, texture(7)), Fetched::Fresh(_)));
}

#[test]
fn indices_follow_the_order_of_the_keys() {
    let mut textures = Table::new();
    let late = texture_key(&reference("/z.png"), Usage::Color);
    let early = texture_key(&reference("/a.png"), Usage::Color);
    textures.insert(late.clone(), ());
    textures.insert(early.clone(), ());
    let indices = texture_indices(&textures);
    assert_eq!(indices.get(&early), Some(&0));
    assert_eq!(indices.get(&late), Some(&1));
}

#[test]
fn textures_without_coordinates_are_told_once() {
    let mut description = triangle_description();
    apply(&mut description, vec![textured_gray("/wood.png")]);
    assert_eq!(textured_without_uvs(&description, &all_dirty(&description)), ["thing"]);
    assert!(textured_without_uvs(&description, &Dirty::new()).is_empty());
    let plain = triangle_description();
    assert!(textured_without_uvs(&plain, &all_dirty(&plain)).is_empty());
}

#[test]
fn an_emitter_that_was_not_built_is_read_once_more() {
    let mut description = triangle_description();
    apply(
        &mut description,
        vec![
            mesh_patch("tri", MeshSource::Ply { path: FilePath::new("/quad.ply".to_owned()) }),
            emissive_gray(3.0),
        ],
    );
    let materials = lower_materials(&maths, description.materials(), &Table::new());
    let built = Table::new();
    let wanted = emitters_to_read(&maths, &description, &materials, &built);
    assert_eq!(wanted, [Geometry::Mesh("tri".to_owned())]);

    let mut dirty = Dirty::new();
    dirty.changed.insert(Kind::Material, &"gray".to_owned());
    let resident = Table::new();
    let mut files = no_files();
    files.rereads.insert(
        wanted[0].clone(),
        Err(Problem::Told { words: "the file went".to_owned() }),
    );
    let refused = host_phase(
        &maths,
        &description,
        &dirty,
        false,
        &resident,
        None,
        LIMIT,
        intake(&description, &dirty, &resident, files),
    );
    assert_eq!(refused.err().expect("refused").message(""), "the file went");
}

// -- Residency -----------------------------------------------------------------------

fn prep(description: &mut SceneDescription, files: Files) -> Result<Scene, SceneError> {
    let dirty = all_dirty(description);
    let intake = intake(description, &dirty, &Table::new(), files);
    Scene::prep(&maths, description, LIMIT, intake)
}

fn update(
    scene: &mut Scene,
    description: &SceneDescription,
    dirty: &Dirty,
    files: Files,
) -> Result<cenote::prep::Uploads, SceneError> {
    let intake = intake(description, dirty, &scene.texture_hashes(), files);
    scene.update(&maths, description, dirty, LIMIT, intake)
}

/// Everything that is resident, in words.
fn portrait(scene: &Scene) -> String {
    let mut words = String::new();
    for i in 0..scene.geometry().len() {
        words += &format!("{:?} {:?}\n", scene.geometry().key_at(i), scene.geometry().value_at(i));
    }
    for i in 0..scene.textures().len() {
        words += &format!("{:?} {:?}\n", scene.textures().key_at(i), scene.textures().value_at(i));
    }
    words
        + &format!(
            "{:?}\n{:?}\n{:?}\n{:?}\n{:?}\n{:?}\n{:?}\n{:?}\n",
            scene.texture_params(),
            scene.tlas(),
            scene.placements(),
            scene.triangle_lights(),
            scene.delta_lights(),
            scene.global_medium(),
            scene.camera(),
            scene.environment(),
        )
}

fn edit_walk() -> Vec<(&'static str, Vec<Op>)> {
    vec![
        (
            "material",
            vec![Op::Material(Box::new(MaterialPatch {
                base_color: Some(Texturable::Constant(vec3(0.1, 0.6, 0.2))),
                ..MaterialPatch::new("gray")
            }))],
        ),
        ("emission", vec![emissive_gray(30.0)]),
        (
            "transform",
            vec![Op::Instance(InstancePatch {
                transforms: Some(Arc::new(vec![trs([0.0, 1.5, 0.0], 0.75)])),
                ..InstancePatch::new("thing")
            })],
        ),
        (
            "topology",
            vec![mesh_patch(
                "tri",
                inline_mesh(
                    &[[0.0; 3], [2.0, 0.0, 0.0], [0.0, 2.0, 0.0], [2.0, 2.0, 0.0]],
                    &[[0, 1, 2], [1, 3, 2]],
                ),
            )],
        ),
        (
            "another",
            vec![
                mesh_patch(
                    "extra",
                    inline_mesh(&[[0.0; 3], [1.0, 0.0, 0.0], [0.0, 1.0, 0.0]], &[[0, 1, 2]]),
                ),
                Op::Instance(InstancePatch {
                    mesh: Some("extra".to_owned()),
                    material: Some("gray".to_owned()),
                    ..InstancePatch::new("extra")
                }),
            ],
        ),
        (
            "removal",
            vec![
                Op::Remove(Kind::Instance, "extra".to_owned()),
                Op::Remove(Kind::Mesh, "extra".to_owned()),
            ],
        ),
        (
            "environment",
            vec![Op::Environment(EnvironmentPatch {
                path: Some(Some(FilePath::new("/sky.exr".to_owned()))),
                ..EnvironmentPatch::new("sky")
            })],
        ),
        (
            "environment tint",
            vec![Op::Environment(EnvironmentPatch {
                tint: Some(vec3(0.9, 0.6, 0.3)),
                ..EnvironmentPatch::new("sky")
            })],
        ),
        (
            "environment placement",
            vec![Op::Environment(EnvironmentPatch {
                transform: Some(Transform::Trs {
                    translate: vec3(0.0, 0.0, 0.0),
                    rotate_degrees: vec3(0.0, 120.0, 0.0),
                    scale: vec3(1.0, 1.0, 1.0),
                }),
                ..EnvironmentPatch::new("sky")
            })],
        ),
        (
            "camera",
            vec![Op::Camera(CameraPatch {
                position: Some(vec3(2.0, 4.0, 9.0)),
                ..CameraPatch::new("main")
            })],
        ),
        (
            "delta light",
            vec![Op::Light(LightPatch {
                light: Some(Light::Distant {
                    direction: vec3(0.2, -1.0, 0.1),
                    irradiance: vec3(1.5, 1.4, 1.2),
                }),
                ..LightPatch::new("sun")
            })],
        ),
        (
            "camera visibility",
            vec![Op::Instance(InstancePatch {
                camera_visible: Some(false),
                ..InstancePatch::new("thing")
            })],
        ),
        (
            "closure and opacity",
            vec![Op::Material(Box::new(MaterialPatch {
                coat_weight: Some(num(1.0)),
                coat_roughness: Some(num(0.2)),
                geometry_opacity: Some(Texturable::Constant(num(0.5))),
                ..MaterialPatch::new("gray")
            }))],
        ),
        ("texture", vec![textured_gray("/wood.png")]),
        (
            "texture removal",
            vec![Op::Material(Box::new(MaterialPatch {
                base_color: Some(Texturable::Constant(vec3(0.4, 0.35, 0.3))),
                ..MaterialPatch::new("gray")
            }))],
        ),
    ]
}

#[test]
fn incremental_updates_match_a_fresh_build() {
    let mut history = triangle_ops();
    let mut description = triangle_description();
    let mut scene = prep(&mut description, no_files()).expect("prep");
    assert!(description.take_dirty().is_empty());
    for (label, ops) in edit_walk() {
        apply(&mut description, ops.clone());
        let dirty = description.take_dirty();
        if let Err(error) = update(&mut scene, &description, &dirty, no_files()) {
            panic!("{label}: {}", error.message(""));
        }
        history.extend(ops);
        let mut replayed = SceneDescription::new();
        apply(&mut replayed, history.clone());
        let fresh = prep(&mut replayed, no_files()).expect("fresh prep");
        assert_eq!(portrait(&scene), portrait(&fresh), "{label}");
    }
}

#[test]
fn an_invisible_emitter_lights_without_appearing() {
    for visible in [true, false] {
        let mut description = triangle_description();
        apply(
            &mut description,
            vec![
                emissive_gray(10.0),
                Op::Instance(InstancePatch {
                    camera_visible: Some(visible),
                    ..InstancePatch::new("thing")
                }),
            ],
        );
        let scene = prep(&mut description, no_files()).expect("prep");
        assert_eq!(scene.tlas()[0].mask & 0x01 != 0, visible);
        assert_eq!(scene.tlas()[0].mask & 0xfe, 0xfe);
        assert_eq!(scene.triangle_lights().len(), 1);
    }
}

#[test]
fn an_empty_scene_preps_and_renders_black() {
    let mut description = SceneDescription::new();
    apply(
        &mut description,
        vec![Op::Settings(SettingsPatch::new("main")), Op::Camera(CameraPatch::new("main"))],
    );
    let scene = prep(&mut description, no_files()).expect("an empty scene preps");
    assert!(scene.tlas().is_empty());
    assert_eq!(scene.environment().0, Sky::Constant(vec3(0.0, 0.0, 0.0)));
    assert_eq!(scene.texture_params().len(), 1);
    assert!(!scene.has_media() && !scene.has_interiors() && !scene.has_subsurface());
}

#[test]
fn deleting_the_last_instance_updates_cleanly() {
    let mut description = triangle_description();
    apply(&mut description, vec![emissive_gray(10.0)]);
    let mut scene = prep(&mut description, no_files()).expect("prep");
    assert_eq!(scene.triangle_lights().len(), 1);

    apply(
        &mut description,
        vec![
            Op::Remove(Kind::Instance, "thing".to_owned()),
            Op::Remove(Kind::Mesh, "tri".to_owned()),
            Op::Remove(Kind::Material, "gray".to_owned()),
        ],
    );
    let dirty = description.take_dirty();
    let uploads = update(&mut scene, &description, &dirty, no_files())
        .ok()
        .expect("updating to an empty scene");
    assert_eq!(uploads.retired, [Geometry::Mesh("tri".to_owned())]);
    assert!(uploads.geometry.is_empty() && uploads.stack && !uploads.sky);
    assert!(scene.tlas().is_empty() && scene.triangle_lights().is_empty());
    assert!(scene.geometry().is_empty());
}

#[test]
fn a_rejected_update_keeps_the_previous_scene() {
    let mut description = skied_description();
    let mut scene = prep(&mut description, no_files()).expect("prep");
    let before = portrait(&scene);
    apply(
        &mut description,
        vec![Op::Camera(CameraPatch {
            position: Some(vec3(9.0, 9.0, 9.0)),
            ..CameraPatch::new("second")
        })],
    );
    let dirty = description.take_dirty();
    let error = update(&mut scene, &description, &dirty, no_files())
        .err()
        .expect("two cameras are one too many");
    assert_eq!(error, Problem::ManyOf { kind: Kind::Camera, count: 2 });
    assert_eq!(portrait(&scene), before);
}

#[test]
fn a_timed_build_spends_its_time_in_phases() {
    let mut description = triangle_description();
    let dirty = all_dirty(&description);
    let intake = intake(&description, &dirty, &Table::new(), no_files());
    let moments = Cell::new([10u128, 15, 18, 30, 31].as_slice());
    let clock = || {
        let (first, rest) = moments.get().split_first().expect("five looks at the clock");
        moments.set(rest);
        Moment { nanos: *first }
    };
    let (scene, phases) = Scene::prep_timed(
        &maths,
        &mut description,
        LIMIT,
        intake,
        Time { nanos: 100 },
        &clock,
    )
    .ok()
    .expect("a timed build");
    assert_eq!(scene.placements().len(), 1);
    assert_eq!(
        [phases.before, phases.lower, phases.upload, phases.tlas, phases.tables]
            .map(|span| span.nanos),
        [100, 5, 3, 12, 1]
    );
    assert!(moments.get().is_empty());
}

#[test]
fn a_grid_that_stretches_takes_its_shell_along() {
    let mut description = triangle_description();
    apply(&mut description, cloud_ops());
    let mut scene = prep(&mut description, cloud_files()).expect("prep");
    let before = scene.tlas().clone();
    let wider = || {
        let mut files = no_files();
        let stretched = GridHeader { high: vec3(7.0, 2.0, 4.0), ..header(2.0) };
        files.grids.insert("cloud".to_owned(), GridReading::Header(stretched));
        files
    };
    apply(
        &mut description,
        vec![Op::Medium(MediumPatch {
            volume: Some(Some(VolumeSource {
                grid: "smoke".to_owned(),
                temperature_grid: None,
                ..volume_source()
            })),
            ..MediumPatch::new("cloud")
        })],
    );
    let dirty = description.take_dirty();
    assert!(dirty.changed.contains(Kind::Medium, &"cloud".to_owned()));
    let uploads = update(&mut scene, &description, &dirty, wider()).ok().expect("update");
    assert!(uploads.stack && uploads.geometry.is_empty() && uploads.retired.is_empty());
    assert_ne!(*scene.tlas(), before);
    let fresh = prep(&mut description, wider()).expect("fresh");
    assert_eq!(portrait(&scene), portrait(&fresh));
}

#[test]
fn edits_refused_applied_and_taken_over_land_where_a_fresh_build_does() {
    let mut description = triangle_description();
    let mut scene = prep(&mut description, no_files()).expect("prep");
    apply(&mut description, vec![emissive_gray(3.0)]);
    let refused = ChangeSet { ops: vec![Op::Remove(Kind::Material, "gray".to_owned())] };
    assert!(description.apply(&refused, &facts()).is_err());
    apply(
        &mut description,
        vec![
            Op::Remove(Kind::Mesh, "tri".to_owned()),
            mesh_patch(
                "tri",
                inline_mesh(&[[0.0; 3], [2.0, 0.0, 0.0], [0.0, 2.0, 0.0]], &[[0, 1, 2]]),
            ),
        ],
    );
    let dirty = description.take_dirty();
    update(&mut scene, &description, &dirty, no_files()).ok().expect("update");
    let fresh = prep(&mut description, no_files()).expect("fresh");
    assert_eq!(portrait(&scene), portrait(&fresh));

    let mut other = triangle_description();
    apply(&mut other, cloud_ops());
    description.replace(other);
    apply(
        &mut description,
        vec![Op::Camera(CameraPatch {
            position: Some(vec3(1.0, 2.0, 3.0)),
            ..CameraPatch::new("main")
        })],
    );
    let dirty = description.take_dirty();
    update(&mut scene, &description, &dirty, cloud_files()).ok().expect("update");
    let fresh = prep(&mut description, cloud_files()).expect("fresh");
    assert_eq!(portrait(&scene), portrait(&fresh));
    assert!(description.take_dirty().is_empty());
}

#[test]
fn a_silent_edit_of_what_every_round_lowers_lands_all_the_same() {
    let mut description = triangle_description();
    let lamp = |x: f32| {
        vec![Op::Light(LightPatch {
            light: Some(Light::Point {
                position: vec3(x, 1.0, 2.0),
                intensity: vec3(1.0, 1.0, 1.0),
            }),
            ..LightPatch::new("lamp")
        })]
    };
    apply(&mut description, lamp(0.0));
    let mut scene = prep(&mut description, no_files()).expect("prep");
    apply(&mut description, lamp(-0.0));
    let dirty = description.take_dirty();
    assert!(dirty.is_empty(), "the two zeros are one value");
    update(&mut scene, &description, &dirty, no_files()).ok().expect("update");
    let fresh = prep(&mut description, no_files()).expect("fresh");
    assert_eq!(portrait(&scene), portrait(&fresh));
}

#[test]
fn what_a_refused_update_was_told_waits_for_the_next() {
    let mut description = triangle_description();
    let mut scene = prep(&mut description, no_files()).expect("prep");
    apply(
        &mut description,
        vec![emissive_gray(3.0), Op::Camera(CameraPatch::new("second"))],
    );
    let mut held = description.take_dirty();
    assert!(update(&mut scene, &description, &held, no_files()).is_err());
    apply(&mut description, vec![Op::Remove(Kind::Camera, "second".to_owned())]);
    held.merge(description.take_dirty());
    update(&mut scene, &description, &held, no_files()).ok().expect("update");
    let fresh = prep(&mut description, no_files()).expect("fresh");
    assert_eq!(portrait(&scene), portrait(&fresh));
    assert_eq!(scene.triangle_lights().len(), 1);
}

#[test]
fn a_round_builds_its_own_geometry() {
    let description = triangle_description();
    let dirty = all_dirty(&description);
    let round = |payloads: &Table<Geometry, Payload>, description: &SceneDescription| {
        host_round(
            &maths,
            description,
            &all_dirty(description),
            true,
            &Table::new(),
            None,
            LIMIT,
            payloads,
            &|a: bits::Vec3, _b: bits::Vec3| a,
            &|a: Num, _b: Num| a,
            &|span: Span, _at: u32| Knot { point: span.first, radius: num(0.0) },
            &|_span: Span, _near: u32, _far: u32| false,
            &|strand: &[Knot], _noise: u32| Tube {
                positions: vec![vec3(0.0, 0.0, 0.0); 3 * strand.len()],
                normals: vec![vec3(0.0, 1.0, 0.0); 3 * strand.len()],
                uvs: vec![bits::Vec2::splat(0); 3 * strand.len()],
            },
            &smooth,
            Gleanings {
                fetched: Table::new(),
                grids: Table::new(),
                rereads: Table::new(),
                sky: None,
            },
        )
    };
    let host = round(&Table::new(), &description).ok().expect("a triangle");
    let built = build(&description, &dirty, &Table::new()).expect("a triangle");
    assert_eq!(host.geometry.len(), 1);
    assert_eq!(host.geometry.key_at(0), built.key_at(0));
    assert_eq!(host.geometry.value_at(0), built.value_at(0));
    assert_eq!(host.instances.len(), 1);

    let mut description = triangle_description();
    apply(
        &mut description,
        vec![mesh_patch("tri", MeshSource::Ply { path: FilePath::new("/quad.ply".to_owned()) })],
    );
    let mut payloads = Table::new();
    payloads.insert(Geometry::Mesh("tri".to_owned()), Payload::Failed("it is torn".to_owned()));
    let error = round(&payloads, &description).err().expect("nothing to place");
    assert_eq!(Some(error), build(&description, &dirty, &payloads).err());
}

#[test]
fn an_edited_medium_moves_the_tables_and_not_the_shell() {
    let mut description = triangle_description();
    apply(&mut description, cloud_ops());
    let mut scene = prep(&mut description, cloud_files()).expect("prep");
    assert!(scene.has_volumes() && scene.has_heterogeneous() && !scene.has_emissive());
    assert!(scene.has_media() && !scene.has_global_medium() && !scene.has_priority());
    let before = scene.tlas().clone();
    apply(
        &mut description,
        vec![Op::Medium(MediumPatch {
            scattering: Some(vec3(2.0, 2.0, 2.0)),
            ..MediumPatch::new("cloud")
        })],
    );
    let dirty = description.take_dirty();
    let uploads = update(&mut scene, &description, &dirty, cloud_files()).ok().expect("update");
    assert!(!uploads.stack);
    assert_eq!(*scene.tlas(), before);
    let medium = scene.placements()[0].medium.as_ref().expect("bounded");
    assert!(float(medium.scattering.x) > 1.5);
}

#[test]
fn what_fills_the_open_space_is_found_through_the_tables() {
    let mut description = triangle_description();
    apply(&mut description, cloud_ops());
    apply(
        &mut description,
        vec![
            Op::Medium(MediumPatch {
                scattering: Some(vec3(0.25, 0.25, 0.25)),
                ..MediumPatch::new("haze")
            }),
            Op::Settings(SettingsPatch {
                global_medium: Some(Some("haze".to_owned())),
                ..SettingsPatch::new("main")
            }),
        ],
    );
    let scene = prep(&mut description, cloud_files()).expect("prep");
    let mut grids = Table::new();
    for key in cenote::scene::grids_needed(scene.placements()) {
        grids.insert(key, ResidentGrid { grid: 64, majorant: 128, field_max: num(1.0) });
    }
    let nowhere = Addresses {
        geometry: 0,
        materials: 0,
        lights: 0,
        texture_params: 0,
        env_marginal: 0,
        env_conditional: 0,
        env_pdfs: 0,
        media: 0,
        blackbody: 0,
    };
    let (tables, table) =
        scene.tables(&maths, &grids, &|_: &InstanceTables| nowhere, (1, 1), num(1.0));
    assert_eq!(table.global_medium, 1, "the cloud comes first");
    assert_eq!(table.global_medium, tables.global_medium);
    let haze = scene.global_medium().expect("haze");
    assert_eq!(tables.media[1].sigma_s, haze.scattering);
}

#[test]
fn the_tables_of_a_scene_agree() {
    let mut description = triangle_description();
    apply(&mut description, cloud_ops());
    apply(&mut description, vec![emissive_gray(2.0)]);
    let scene = prep(&mut description, cloud_files()).expect("prep");
    let mut grids = Table::new();
    for key in cenote::scene::grids_needed(scene.placements()) {
        grids.insert(
            key,
            ResidentGrid { grid: 64, majorant: 128, field_max: num(1.0) },
        );
    }
    let addresses = Addresses {
        geometry: 10,
        materials: 20,
        lights: 30,
        texture_params: 40,
        env_marginal: 50,
        env_conditional: 60,
        env_pdfs: 70,
        media: 80,
        blackbody: 90,
    };
    let uploaded = Cell::new(0);
    let (tables, table) = scene.tables(
        &maths,
        &grids,
        &|tables: &InstanceTables| {
            uploaded.set(tables.geometry.len());
            addresses
        },
        (8, 4),
        num(0.5),
    );
    assert_eq!(uploaded.get(), 2, "the tables go up before their addresses are told");
    assert_eq!(tables.geometry.len(), 2);
    assert_eq!(tables.materials.len(), 2);
    assert_eq!(class_of(tables.geometry[0].boundary), BOUNDARY_NULL);
    assert_eq!(tables.geometry[0].medium, 0);
    assert_eq!(tables.media[0].grid, 64);
    assert_eq!(tables.geometry[0].light, LIGHT_NONE);
    assert_eq!(tables.geometry[1].light, 0);
    assert_eq!(tables.global_medium, MEDIUM_NONE);
    assert_eq!(table.addresses, addresses);
    assert_eq!(table.light_count, scene.triangle_lights().len() as u32);
    assert_eq!((table.env_width, table.env_height), (8, 4));
    assert_eq!((table.env_tint, table.global_medium), (scene.environment().2, MEDIUM_NONE));
    assert_eq!(table.camera_media, [STACK_EMPTY; 4]);
}

#[test]
fn a_scene_made_by_hand_places_its_objects() {
    let mesh = Mesh {
        positions: vec![vec3(0.0, 0.0, 0.0), vec3(1.0, 0.0, 0.0), vec3(0.0, 1.0, 0.0)],
        normals: vec![vec3(0.0, 0.0, 1.0); 3],
        uvs: vec![bits::Vec2::splat(0); 3],
        triangles: vec![[0, 1, 2]],
    };
    let object = |emission: f32, medium| Object {
        mesh: mesh.clone(),
        transform: Rows::identity(),
        material: Material { emission: vec3(emission, 0.0, 0.0), ..matte(Vec3::ONE, 0.5) },
        medium,
        interior_priority: 3,
    };
    let fog = Medium {
        absorption: vec3(0.2, 0.2, 0.2),
        scattering: vec3(0.3, 0.3, 0.3),
        anisotropy: num(0.0),
        volume: None,
    };
    let camera = Camera {
        position: vec3(0.0, 0.0, 5.0),
        look_at: vec3(0.0, 0.0, 0.0),
        up: vec3(0.0, 1.0, 0.0),
        vfov_degrees: num(40.0),
        lens: None,
    };
    let objects = vec![object(1.0, None), object(1.0, Some(fog.clone())), object(0.0, None)];
    let mut scene = Scene::new_in_medium(&maths, &objects, camera, Some(&fog));
    assert_eq!(scene.placements().len(), 3);
    assert_eq!(scene.placements()[2].geometry, Geometry::Mesh("object2".to_owned()));
    assert_eq!(scene.placements()[2].priority, 3);
    assert_eq!(scene.geometry().len(), 3);
    assert_eq!(scene.triangle_lights().len(), 1, "a boundary does not emit");
    assert!(scene.has_global_medium() && scene.has_volumes());
    assert_eq!(scene.environment().0, Sky::Image);
    scene.camera_mut().vfov_degrees = num(50.0);
    assert_eq!(float(scene.camera().vfov_degrees), 50.0);
    let open = Scene::new(&maths, &objects, camera);
    assert!(!open.has_global_medium());
}
