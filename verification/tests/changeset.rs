use std::sync::Arc;

use cenote::bits::{Num, Vec3};
use cenote::changeset::{
    apply_op, CameraPatch, ChangeSet, CurvesPatch, Dirty, EnvironmentPatch, InstancePatch, Kind, LightPatch,
    MaterialPatch, MediumPatch, MeshPatch, Op, SettingsPatch,
};
use cenote::description::{
    Blanks, CurveBasis, CurveType, CurveWrap, CurvesSource, Geometry, Light, Material, Medium, MeshSource,
    Objects, SceneDescription, Texturable, TextureRef, Transform, VolumeSource, WidthInterpolation, Widths,
};
use cenote::error::{MAX_BOUNCES_LIMIT, Problem, SceneError};
use cenote::path::FilePath;
use cenote::validate::{Facts, Sight};

fn num(value: f32) -> Num {
    Num::new(value.to_bits())
}

fn vec3(v: [f32; 3]) -> Vec3 {
    Vec3 { x: num(v[0]), y: num(v[1]), z: num(v[2]) }
}

fn path(text: &str) -> FilePath {
    FilePath::new(text.to_string())
}

fn name(text: &str) -> String {
    text.to_string()
}

/// A file that the facts below say is there.
fn existing_file() -> FilePath {
    path("/scenes/assets/Cargo.toml")
}

fn squashed() -> Transform {
    Transform::Trs {
        translate: vec3([0.0; 3]),
        rotate_degrees: vec3([0.0; 3]),
        scale: vec3([1.0, 0.0, 1.0]),
    }
}

/// What is true of the values these tests mention: one file is there, the
/// squashed placement does not invert, and looking straight up is looking
/// along the default up.
fn facts() -> Facts {
    Facts {
        files: vec![existing_file()],
        singular: vec![squashed()],
        parallel: vec![Sight {
            position: vec3([0.0; 3]),
            look_at: vec3([0.0, 1.0, 0.0]),
            up: vec3([0.0, 1.0, 0.0]),
        }],
    }
}

fn spelled(error: &SceneError) -> String {
    let number = match error {
        Problem::FieldOfView { value, .. }
        | Problem::FocusDistance { value, .. }
        | Problem::Aperture { value, .. }
        | Problem::Anisotropy { value, .. }
        | Problem::NoiseThreshold { value, .. } => format!("{}", f32::from_bits(value.bits)),
        Problem::Coefficient { channels, .. } => {
            format!("{:?}", [channels.x, channels.y, channels.z].map(|c| f32::from_bits(c.bits)))
        }
        _ => String::new(),
    };
    error.message(&number)
}

fn apply(description: &mut SceneDescription, ops: Vec<Op>) -> Result<(), String> {
    description.apply(&ChangeSet { ops }, &facts()).map_err(|error| spelled(&error))
}

fn triangle() -> MeshSource {
    MeshSource::Inline {
        positions: Arc::new(vec![
            vec3([0.0; 3]),
            vec3([1.0, 0.0, 0.0]),
            vec3([0.0, 1.0, 0.0]),
        ]),
        normals: None,
        uvs: None,
        triangles: Arc::new(vec![[0, 1, 2]]),
    }
}

/// A minimal valid set: one triangle, one material, one instance.
fn triangle_scene() -> Vec<Op> {
    vec![
        Op::Instance(InstancePatch {
            mesh: Some(name("tri")),
            material: Some(name("gray")),
            ..InstancePatch::new("thing")
        }),
        Op::Material(Box::new(MaterialPatch::new("gray"))),
        Op::Mesh(MeshPatch { source: Some(triangle()), ..MeshPatch::new("tri") }),
    ]
}

#[test]
fn forward_references_within_a_set_resolve() {
    let mut description = SceneDescription::new();
    apply(&mut description, triangle_scene()).expect("valid set");
    assert_eq!(description.instances().len(), 1);
    assert_eq!(description.meshes().len(), 1);
}

#[test]
fn later_ops_win_field_by_field() {
    let mut description = SceneDescription::new();
    apply(
        &mut description,
        vec![
            Op::Material(Box::new(MaterialPatch {
                coat_weight: Some(num(0.25)),
                specular_ior: Some(num(1.8)),
                ..MaterialPatch::new("m")
            })),
            Op::Material(Box::new(MaterialPatch {
                coat_weight: Some(num(1.0)),
                ..MaterialPatch::new("m")
            })),
        ],
    )
    .expect("valid set");
    let material = description.materials().get(&name("m")).expect("created");
    assert_eq!(material.coat_weight, num(1.0));
    assert_eq!(material.specular_ior, num(1.8));
    assert_eq!(material.coat_ior, num(1.6));
}

#[test]
fn a_set_that_overwrites_itself_lands_the_same_again() {
    let ops = || {
        vec![
            Op::Medium(MediumPatch { anisotropy: Some(num(0.5)), ..MediumPatch::new("fog") }),
            Op::Camera(CameraPatch::new("main")),
            Op::Medium(MediumPatch {
                absorption: Some(vec3([1.0, 2.0, 3.0])),
                anisotropy: Some(num(0.25)),
                ..MediumPatch::new("fog")
            }),
            Op::Remove(Kind::Camera, name("main")),
            Op::Camera(CameraPatch { vfov_degrees: Some(num(30.0)), ..CameraPatch::new("main") }),
        ]
    };
    let mut description = SceneDescription::new();
    apply(&mut description, ops()).expect("a valid set");
    let landed = |description: &SceneDescription| {
        let fog = description.media().get(&name("fog")).expect("a medium");
        let camera = description.cameras().get(&name("main")).expect("a camera");
        (fog.absorption, fog.anisotropy, camera.vfov_degrees, description.cameras().len())
    };
    let first = landed(&description);
    assert_eq!(first, (vec3([1.0, 2.0, 3.0]), num(0.25), num(30.0), 1));
    description.take_dirty();
    apply(&mut description, ops()).expect("a valid set");
    assert_eq!(landed(&description), first);
    let dirty = description.take_dirty();
    assert!(dirty.changed.contains(Kind::Medium, &name("fog")));
    assert!(dirty.removed.contains(Kind::Camera, &name("main")));
}

#[test]
fn reapplying_a_set_dirties_nothing() {
    let mut description = SceneDescription::new();
    apply(&mut description, triangle_scene()).expect("valid set");
    assert!(!description.take_dirty().is_empty());
    apply(&mut description, triangle_scene()).expect("valid set");
    assert!(description.take_dirty().is_empty());
}

#[test]
fn a_value_that_is_no_number_is_never_in_place() {
    let ops = || {
        vec![Op::Material(Box::new(MaterialPatch {
            coat_weight: Some(num(f32::NAN)),
            ..MaterialPatch::new("m")
        }))]
    };
    let mut description = SceneDescription::new();
    apply(&mut description, ops()).expect("valid set");
    description.take_dirty();
    apply(&mut description, ops()).expect("valid set");
    assert!(description.take_dirty().changed.contains(Kind::Material, &name("m")));
}

#[test]
fn the_two_zeros_are_one_value() {
    let ops = |zero: f32| {
        vec![Op::Material(Box::new(MaterialPatch {
            coat_weight: Some(num(zero)),
            ..MaterialPatch::new("m")
        }))]
    };
    let mut description = SceneDescription::new();
    apply(&mut description, ops(0.0)).expect("valid set");
    description.take_dirty();
    apply(&mut description, ops(-0.0)).expect("valid set");
    assert!(description.take_dirty().is_empty());
}

#[test]
fn creation_dirties_even_at_defaults() {
    let mut description = SceneDescription::new();
    let set = || vec![Op::Settings(SettingsPatch::new("main"))];
    apply(&mut description, set()).expect("valid set");
    let dirty = description.take_dirty();
    assert!(dirty.changed.contains(Kind::Settings, &name("main")));
    apply(&mut description, set()).expect("valid set");
    assert!(description.take_dirty().is_empty());
}

#[test]
fn a_rejected_set_changes_nothing() {
    let mut description = SceneDescription::new();
    let mut ops = triangle_scene();
    ops.push(Op::Instance(InstancePatch {
        mesh: Some(name("no-such-mesh")),
        material: Some(name("gray")),
        ..InstancePatch::new("broken")
    }));
    let error = apply(&mut description, ops).unwrap_err();
    assert!(error.contains("no-such-mesh"), "{error}");
    assert!(description.meshes().is_empty());
    assert!(description.instances().is_empty());
    assert!(description.take_dirty().is_empty());
}

#[test]
fn remove_deletes_and_supersedes_earlier_dirt() {
    let mut description = SceneDescription::new();
    apply(&mut description, triangle_scene()).expect("valid set");
    apply(
        &mut description,
        vec![
            Op::Remove(Kind::Instance, name("thing")),
            Op::Remove(Kind::Mesh, name("tri")),
        ],
    )
    .expect("valid removal");
    assert!(description.instances().is_empty());
    assert!(description.meshes().is_empty());
    let dirty = description.take_dirty();
    assert!(!dirty.changed.contains(Kind::Mesh, &name("tri")));
    assert!(dirty.removed.contains(Kind::Mesh, &name("tri")));
    assert!(dirty.changed.contains(Kind::Material, &name("gray")));
}

#[test]
fn remove_of_a_missing_object_is_an_error() {
    let mut description = SceneDescription::new();
    let error =
        apply(&mut description, vec![Op::Remove(Kind::Camera, name("ghost"))]).unwrap_err();
    assert!(error.contains("ghost"), "{error}");
    assert_eq!(error, "Remove targets a camera named \"ghost\" that does not exist");
}

#[test]
fn a_refused_op_leaves_objects_and_record_alone() {
    let blanks = Blanks::new();
    let mut objects = Objects::new();
    let mut dirty = Dirty::new();
    for op in triangle_scene() {
        apply_op(&mut objects, &mut dirty, &blanks, &op).expect("each op goes through");
    }
    let before = (format!("{objects:?}"), format!("{dirty:?}"));
    let refused = [
        Op::Remove(Kind::Mesh, name("nothing")),
        Op::Remove(Kind::Light, name("tri")),
        Op::Camera(CameraPatch::new("")),
        Op::Remove(Kind::Mesh, name("")),
        Op::Instance(InstancePatch {
            mesh: Some(name("tri")),
            curves: Some(name("fur")),
            ..InstancePatch::new("thing")
        }),
    ];
    for op in refused {
        assert!(apply_op(&mut objects, &mut dirty, &blanks, &op).is_err());
        assert_eq!((format!("{objects:?}"), format!("{dirty:?}")), before);
    }
}

#[test]
fn remove_that_strands_a_reference_is_an_error() {
    let mut description = SceneDescription::new();
    apply(&mut description, triangle_scene()).expect("valid set");
    let error =
        apply(&mut description, vec![Op::Remove(Kind::Material, name("gray"))]).unwrap_err();
    assert!(error.contains("\"gray\""), "{error}");
    assert_eq!(description.materials().len(), 1);
}

#[test]
fn remove_then_recreate_is_legal_and_dirties_both_ways() {
    let mut description = SceneDescription::new();
    apply(&mut description, triangle_scene()).expect("valid set");
    description.take_dirty();
    let mut ops = triangle_scene();
    ops.insert(0, Op::Remove(Kind::Mesh, name("tri")));
    apply(&mut description, ops).expect("remove then recreate");
    let dirty = description.take_dirty();
    assert!(dirty.removed.contains(Kind::Mesh, &name("tri")));
    assert!(dirty.changed.contains(Kind::Mesh, &name("tri")));
}

#[test]
fn an_instance_created_bare_is_rejected() {
    let mut description = SceneDescription::new();
    let error =
        apply(&mut description, vec![Op::Instance(InstancePatch::new("bare"))]).unwrap_err();
    assert!(error.contains("never given a mesh"), "{error}");
}

#[test]
fn empty_names_are_rejected() {
    let mut description = SceneDescription::new();
    let error =
        apply(&mut description, vec![Op::Material(Box::new(MaterialPatch::new("")))]).unwrap_err();
    assert!(error.contains("empty name"), "{error}");
    assert_eq!(error, "a material op has an empty name");
}

fn with_mesh(source: MeshSource) -> Vec<Op> {
    let mut ops = triangle_scene();
    ops[2] = Op::Mesh(MeshPatch { source: Some(source), ..MeshPatch::new("tri") });
    ops
}

#[test]
fn inconsistent_inline_geometry_is_rejected() {
    let mut description = SceneDescription::new();
    let MeshSource::Inline { positions, triangles, .. } = triangle() else {
        unreachable!("the fixture is inline")
    };
    let error = apply(
        &mut description,
        with_mesh(MeshSource::Inline {
            positions,
            normals: Some(Arc::new(vec![vec3([0.0, 0.0, 1.0])])),
            uvs: None,
            triangles,
        }),
    )
    .unwrap_err();
    assert!(error.contains("1 normals"), "{error}");
    assert_eq!(error, "mesh \"tri\" has 1 normals for 3 positions");
}

#[test]
fn texture_coordinates_must_match_the_positions() {
    let mut description = SceneDescription::new();
    let MeshSource::Inline { positions, triangles, .. } = triangle() else {
        unreachable!("the fixture is inline")
    };
    let error = apply(
        &mut description,
        with_mesh(MeshSource::Inline {
            positions,
            normals: None,
            uvs: Some(Arc::new(vec![])),
            triangles,
        }),
    )
    .unwrap_err();
    assert_eq!(error, "mesh \"tri\" has 0 uvs for 3 positions");
}

#[test]
fn a_mesh_without_geometry_is_rejected() {
    let mut description = SceneDescription::new();
    let error = apply(&mut description, vec![Op::Mesh(MeshPatch::new("m"))]).unwrap_err();
    assert_eq!(error, "mesh \"m\" has no geometry");
}

#[test]
fn out_of_bounds_indices_are_rejected() {
    let mut description = SceneDescription::new();
    let MeshSource::Inline { positions, .. } = triangle() else {
        unreachable!("the fixture is inline")
    };
    let error = apply(
        &mut description,
        with_mesh(MeshSource::Inline {
            positions,
            normals: None,
            uvs: None,
            triangles: Arc::new(vec![[0, 1, 3]]),
        }),
    )
    .unwrap_err();
    assert!(error.contains("out of bounds"), "{error}");
}

#[test]
fn environment_transforms_must_invert_and_paths_clear() {
    let mut description = SceneDescription::new();
    let error = apply(
        &mut description,
        vec![Op::Environment(EnvironmentPatch {
            transform: Some(squashed()),
            ..EnvironmentPatch::new("sky")
        })],
    )
    .unwrap_err();
    assert!(error.contains("non-invertible"), "{error}");

    apply(
        &mut description,
        vec![Op::Environment(EnvironmentPatch {
            path: Some(Some(existing_file())),
            ..EnvironmentPatch::new("sky")
        })],
    )
    .expect("a set image applies");
    let sky = description.environments().get(&name("sky")).expect("there");
    assert_eq!(sky.path, Some(existing_file()));
    apply(
        &mut description,
        vec![Op::Environment(EnvironmentPatch {
            path: Some(None),
            ..EnvironmentPatch::new("sky")
        })],
    )
    .expect("the clear applies");
    assert_eq!(description.environments().get(&name("sky")).expect("there").path, None);
}

#[test]
fn referenced_files_must_exist_and_be_absolute() {
    let mut description = SceneDescription::new();
    let sky = |text: &str| {
        vec![Op::Environment(EnvironmentPatch {
            path: Some(Some(path(text))),
            ..EnvironmentPatch::new("sky")
        })]
    };
    let error = apply(&mut description, sky("sky.exr")).unwrap_err();
    assert!(error.contains("relative"), "{error}");

    let error = apply(&mut description, sky("/no/such/sky.exr")).unwrap_err();
    assert!(error.contains("does not exist"), "{error}");

    let error = apply(&mut description, sky("")).unwrap_err();
    assert_eq!(error, "environment \"sky\" has no file path");

    apply(
        &mut description,
        vec![Op::Mesh(MeshPatch {
            source: Some(MeshSource::Ply { path: existing_file() }),
            ..MeshPatch::new("ply-mesh")
        })],
    )
    .expect("existing absolute path");
}

#[test]
fn degenerate_cameras_are_rejected() {
    let mut description = SceneDescription::new();
    let camera = |look_at: [f32; 3]| {
        vec![Op::Camera(CameraPatch {
            position: Some(vec3([0.0; 3])),
            look_at: Some(vec3(look_at)),
            ..CameraPatch::new("main")
        })]
    };
    let error = apply(&mut description, camera([0.0; 3])).unwrap_err();
    assert!(error.contains("coincide"), "{error}");

    let error = apply(&mut description, camera([0.0, 1.0, 0.0])).unwrap_err();
    assert!(error.contains("parallel"), "{error}");
}

#[test]
fn lenses_must_be_ones_that_can_be() {
    let mut description = SceneDescription::new();
    for bad in [0.0, -1.0, 180.0, f32::NAN, f32::INFINITY] {
        let error = apply(
            &mut description,
            vec![Op::Camera(CameraPatch {
                vfov_degrees: Some(num(bad)),
                ..CameraPatch::new("main")
            })],
        )
        .unwrap_err();
        assert!(error.contains("inside (0, 180)"), "{error}");
    }
    let error = apply(
        &mut description,
        vec![Op::Camera(CameraPatch {
            focus_distance: Some(Some(num(0.0))),
            ..CameraPatch::new("main")
        })],
    )
    .unwrap_err();
    assert_eq!(error, "camera \"main\": focus distance must be positive, got 0");
    let error = apply(
        &mut description,
        vec![Op::Camera(CameraPatch {
            aperture_radius: Some(num(-0.5)),
            ..CameraPatch::new("main")
        })],
    )
    .unwrap_err();
    assert_eq!(error, "camera \"main\": aperture radius must not be negative, got -0.5");
    apply(
        &mut description,
        vec![Op::Camera(CameraPatch {
            vfov_degrees: Some(num(179.0)),
            aperture_radius: Some(num(-0.0)),
            focus_distance: Some(Some(num(f32::INFINITY))),
            ..CameraPatch::new("main")
        })],
    )
    .expect("a long lens is a lens");
}

#[test]
fn distant_lights_need_a_direction() {
    let mut description = SceneDescription::new();
    let light = |direction: [f32; 3]| {
        vec![Op::Light(LightPatch {
            light: Some(Light::Distant {
                direction: vec3(direction),
                irradiance: vec3([1.0; 3]),
            }),
            ..LightPatch::new("sun")
        })]
    };
    let error = apply(&mut description, light([0.0, -0.0, 0.0])).unwrap_err();
    assert_eq!(error, "distant light \"sun\" has a zero direction");
    apply(&mut description, light([0.0, -1.0, 0.0])).expect("a direction");
}

#[test]
fn a_global_medium_must_resolve_and_be_physical() {
    let settings = |medium: &str| {
        Op::Settings(SettingsPatch {
            global_medium: Some(Some(medium.to_owned())),
            ..SettingsPatch::new("main")
        })
    };
    let mut description = SceneDescription::new();
    let error = apply(&mut description, vec![settings("fog")]).unwrap_err();
    assert!(error.contains("does not exist"), "{error}");

    apply(
        &mut description,
        vec![
            settings("fog"),
            Op::Medium(MediumPatch {
                scattering: Some(vec3([0.1; 3])),
                ..MediumPatch::new("fog")
            }),
        ],
    )
    .expect("valid");
    assert_eq!(
        *description.media().get(&name("fog")).expect("there"),
        Medium { scattering: vec3([0.1; 3]), ..Medium::default() }
    );

    let error = apply(&mut description, vec![Op::Remove(Kind::Medium, name("fog"))]).unwrap_err();
    assert!(error.contains("does not exist"), "{error}");

    let error = apply(
        &mut description,
        vec![Op::Medium(MediumPatch {
            absorption: Some(vec3([0.1, -0.2, 0.1])),
            ..MediumPatch::new("fog")
        })],
    )
    .unwrap_err();
    assert!(error.contains("non-negative"), "{error}");
    assert_eq!(
        error,
        "medium \"fog\": absorption must be finite and non-negative, got [0.1, -0.2, 0.1]"
    );

    apply(
        &mut description,
        vec![
            Op::Settings(SettingsPatch {
                global_medium: Some(None),
                ..SettingsPatch::new("main")
            }),
            Op::Remove(Kind::Medium, name("fog")),
        ],
    )
    .expect("valid");
    assert!(description.media().is_empty());
}

fn volume() -> VolumeSource {
    VolumeSource {
        path: existing_file(),
        grid: name("density"),
        temperature_grid: None,
        temperature_scale: num(1.0),
        temperature_offset: num(0.0),
        emission: vec3([0.0; 3]),
    }
}

#[test]
fn a_grid_pairs_with_its_shell_and_nothing_else() {
    let ops = |mesh: MeshSource, volume: Option<VolumeSource>| {
        vec![
            Op::Mesh(MeshPatch { source: Some(mesh), ..MeshPatch::new("shell") }),
            Op::Material(Box::new(MaterialPatch::new("gray"))),
            Op::Medium(MediumPatch { volume: Some(volume), ..MediumPatch::new("smoke") }),
            Op::Instance(InstancePatch {
                mesh: Some(name("shell")),
                material: Some(name("gray")),
                medium: Some(Some(name("smoke"))),
                ..InstancePatch::new("cloud")
            }),
        ]
    };
    let mut description = SceneDescription::new();
    let error = apply(&mut description, ops(triangle(), Some(volume()))).unwrap_err();
    assert!(error.contains("on a user mesh"), "{error}");
    let error = apply(&mut description, ops(MeshSource::MediumBounds, None)).unwrap_err();
    assert!(error.contains("without a heterogeneous medium"), "{error}");
    let nameless = VolumeSource { grid: String::new(), ..volume() };
    let error =
        apply(&mut description, ops(MeshSource::MediumBounds, Some(nameless))).unwrap_err();
    assert_eq!(error, "medium \"smoke\": the volume's grid name is empty");
    apply(&mut description, ops(MeshSource::MediumBounds, Some(volume()))).expect("a pair");
    let error = apply(
        &mut description,
        vec![Op::Settings(SettingsPatch {
            global_medium: Some(Some(name("smoke"))),
            ..SettingsPatch::new("main")
        })],
    )
    .unwrap_err();
    assert!(error.contains("is heterogeneous"), "{error}");
}

#[test]
fn a_bounded_volume_holds_its_medium() {
    let mut description = SceneDescription::new();
    let instance = |medium: Option<&str>| {
        Op::Instance(InstancePatch {
            mesh: Some(name("tri")),
            material: Some(name("gray")),
            medium: Some(medium.map(str::to_owned)),
            ..InstancePatch::new("fog-box")
        })
    };
    let geometry = || {
        [
            Op::Material(Box::new(MaterialPatch::new("gray"))),
            Op::Mesh(MeshPatch { source: Some(triangle()), ..MeshPatch::new("tri") }),
        ]
    };
    let error = apply(
        &mut description,
        [instance(Some("haze"))].into_iter().chain(geometry()).collect(),
    )
    .unwrap_err();
    assert!(error.contains("bounds a medium"), "{error}");

    apply(
        &mut description,
        [
            instance(Some("haze")),
            Op::Medium(MediumPatch {
                scattering: Some(vec3([0.2; 3])),
                ..MediumPatch::new("haze")
            }),
        ]
        .into_iter()
        .chain(geometry())
        .collect(),
    )
    .expect("valid");
    assert_eq!(
        description.instances().get(&name("fog-box")).expect("there").medium.as_deref(),
        Some("haze")
    );

    let error = apply(&mut description, vec![Op::Remove(Kind::Medium, name("haze"))]).unwrap_err();
    assert!(error.contains("does not exist"), "{error}");

    apply(&mut description, vec![instance(None), Op::Remove(Kind::Medium, name("haze"))])
        .expect("valid");
    assert!(description.instances().get(&name("fog-box")).expect("there").medium.is_none());
}

#[test]
fn zero_settings_are_rejected() {
    let mut description = SceneDescription::new();
    let error = apply(
        &mut description,
        vec![Op::Settings(SettingsPatch { spp: Some(0), ..SettingsPatch::new("main") })],
    )
    .unwrap_err();
    assert!(error.contains("at least 1"), "{error}");
    let error = apply(
        &mut description,
        vec![Op::Settings(SettingsPatch {
            resolution: Some([640, 0]),
            ..SettingsPatch::new("main")
        })],
    )
    .unwrap_err();
    assert_eq!(error, "settings \"main\": resolution has a zero dimension");
}

#[test]
fn a_path_depth_past_the_packed_byte_is_rejected() {
    let mut description = SceneDescription::new();
    let depth = |max_bounces: u32| {
        vec![Op::Settings(SettingsPatch {
            max_bounces: Some(max_bounces),
            ..SettingsPatch::new("main")
        })]
    };
    let error = apply(&mut description, depth(512)).unwrap_err();
    assert!(error.contains("at most 255"), "{error}");
    assert_eq!(error, "settings \"main\": max_bounces must be at most 255, got 512");
    apply(&mut description, depth(MAX_BOUNCES_LIMIT)).expect("the cap itself renders");
}

#[test]
fn a_noise_threshold_outside_the_unit_interval_is_rejected() {
    let threshold = |value: f32| {
        vec![Op::Settings(SettingsPatch {
            noise_threshold: Some(Some(num(value))),
            ..SettingsPatch::new("main")
        })]
    };
    for bad in [0.0, -0.01, 1.5, f32::NAN] {
        let mut description = SceneDescription::new();
        let error = apply(&mut description, threshold(bad)).unwrap_err();
        assert!(error.contains("in (0, 1]"), "{bad}: {error}");
    }
    let mut description = SceneDescription::new();
    apply(&mut description, threshold(1.0)).expect("1 is a fraction");
    assert_eq!(
        description.settings().get(&name("main")).expect("there").noise_threshold,
        Some(num(1.0))
    );
    apply(
        &mut description,
        vec![Op::Settings(SettingsPatch {
            noise_threshold: Some(None),
            ..SettingsPatch::new("main")
        })],
    )
    .expect("no threshold is valid");
    assert_eq!(description.settings().get(&name("main")).expect("there").noise_threshold, None);
}

fn with_transforms(transforms: Vec<Transform>) -> Vec<Op> {
    let mut ops = triangle_scene();
    ops[0] = Op::Instance(InstancePatch {
        mesh: Some(name("tri")),
        material: Some(name("gray")),
        transforms: Some(Arc::new(transforms)),
        ..InstancePatch::new("thing")
    });
    ops
}

#[test]
fn singular_transforms_are_rejected() {
    let mut description = SceneDescription::new();
    let error = apply(&mut description, with_transforms(vec![Transform::default(), squashed()]))
        .unwrap_err();
    assert!(error.contains("non-invertible"), "{error}");
    assert!(error.contains("element 1"), "{error}");
}

#[test]
fn transforms_replace_wholesale_and_empty_is_legal() {
    let mut description = SceneDescription::new();
    apply(
        &mut description,
        with_transforms(vec![
            Transform::default(),
            Transform::Trs {
                translate: vec3([2.0, 0.0, 0.0]),
                rotate_degrees: vec3([0.0; 3]),
                scale: vec3([1.0; 3]),
            },
        ]),
    )
    .expect("two placements are valid");
    assert_eq!(description.instances().get(&name("thing")).expect("there").transforms.len(), 2);

    apply(
        &mut description,
        vec![Op::Instance(InstancePatch {
            transforms: Some(Arc::new(vec![])),
            ..InstancePatch::new("thing")
        })],
    )
    .expect("the empty array is legal");
    assert!(description.instances().get(&name("thing")).expect("there").transforms.is_empty());
    let error =
        apply(&mut description, vec![Op::Remove(Kind::Material, name("gray"))]).unwrap_err();
    assert!(error.contains("\"gray\""), "{error}");
}

fn texture(text: &str) -> TextureRef {
    TextureRef { path: path(text), color_space: None, channel: None, scale: None, uv: None }
}

#[test]
fn rebase_touches_only_relative_paths() {
    let mut set = ChangeSet {
        ops: vec![
            Op::Mesh(MeshPatch {
                source: Some(MeshSource::Ply { path: path("geo/mesh.ply") }),
                ..MeshPatch::new("m")
            }),
            Op::Environment(EnvironmentPatch {
                path: Some(Some(path("/already/absolute.exr"))),
                ..EnvironmentPatch::new("sky")
            }),
            Op::Material(Box::new(MaterialPatch {
                base_color: Some(Texturable::Texture(texture("wood.png"))),
                ..MaterialPatch::new("wood")
            })),
        ],
    };
    set.rebase_paths(&path("/scenes"));
    let Op::Mesh(mesh) = &set.ops[0] else { unreachable!() };
    assert_eq!(mesh.source, Some(MeshSource::Ply { path: path("/scenes/geo/mesh.ply") }));
    let Op::Environment(environment) = &set.ops[1] else { unreachable!() };
    assert_eq!(environment.path, Some(Some(path("/already/absolute.exr"))));
    let Op::Material(material) = &set.ops[2] else { unreachable!() };
    assert_eq!(
        material.base_color.as_ref().and_then(Texturable::texture),
        Some(&texture("/scenes/wood.png"))
    );
}

#[test]
fn relativize_strips_exactly_the_base() {
    let mut set = ChangeSet {
        ops: vec![
            Op::Mesh(MeshPatch {
                source: Some(MeshSource::Ply { path: path("/scenes/geo/mesh.ply") }),
                ..MeshPatch::new("m")
            }),
            Op::Environment(EnvironmentPatch {
                path: Some(Some(path("/elsewhere/sky.exr"))),
                ..EnvironmentPatch::new("sky")
            }),
        ],
    };
    set.relativize_paths(&path("/scenes"));
    let Op::Mesh(mesh) = &set.ops[0] else { unreachable!() };
    assert_eq!(mesh.source, Some(MeshSource::Ply { path: path("geo/mesh.ply") }));
    let Op::Environment(environment) = &set.ops[1] else { unreachable!() };
    assert_eq!(environment.path, Some(Some(path("/elsewhere/sky.exr"))));

    set.rebase_paths(&path("/scenes"));
    let Op::Mesh(mesh) = &set.ops[0] else { unreachable!() };
    assert_eq!(mesh.source, Some(MeshSource::Ply { path: path("/scenes/geo/mesh.ply") }));
}

#[test]
fn a_longer_name_is_not_under_a_shorter_one() {
    let mut set = ChangeSet {
        ops: vec![Op::Environment(EnvironmentPatch {
            path: Some(Some(path("/scenes-old/sky.exr"))),
            ..EnvironmentPatch::new("sky")
        })],
    };
    set.relativize_paths(&path("/scenes"));
    let Op::Environment(environment) = &set.ops[0] else { unreachable!() };
    assert_eq!(environment.path, Some(Some(path("/scenes-old/sky.exr"))));
}

#[test]
fn dirty_merge_keeps_retire_then_rebuild() {
    let mut older = Dirty::new();
    older.changed.insert(Kind::Mesh, &name("a"));
    older.removed.insert(Kind::Mesh, &name("b"));
    let mut newer = Dirty::new();
    newer.removed.insert(Kind::Mesh, &name("a"));
    newer.changed.insert(Kind::Mesh, &name("b"));
    older.merge(newer);
    assert!(!older.changed.contains(Kind::Mesh, &name("a")));
    assert!(older.removed.contains(Kind::Mesh, &name("a")));
    assert!(older.changed.contains(Kind::Mesh, &name("b")));
    assert!(older.removed.contains(Kind::Mesh, &name("b")));
}

fn cells(counts: &[u32], points: u32, widths: Option<Widths>) -> CurvesSource {
    CurvesSource::Inline {
        points: Arc::new((0..points).map(|index| vec3([0.0, index as f32, 0.0])).collect()),
        curve_vertex_counts: Arc::new(counts.to_vec()),
        widths,
        curve_type: CurveType::Cubic,
        basis: CurveBasis::Bezier,
        wrap: CurveWrap::Nonperiodic,
    }
}

fn groom_scene() -> Vec<Op> {
    vec![
        Op::Curves(CurvesPatch {
            source: Some(cells(&[4], 4, None)),
            ..CurvesPatch::new("groom")
        }),
        Op::Material(Box::new(MaterialPatch::new("gray"))),
        Op::Instance(InstancePatch {
            curves: Some(name("groom")),
            material: Some(name("gray")),
            ..InstancePatch::new("hair")
        }),
    ]
}

#[test]
fn an_instance_places_curves_the_way_it_places_a_mesh() {
    let mut description = SceneDescription::new();
    apply(&mut description, groom_scene()).expect("valid set");
    assert_eq!(
        description.instances().get(&name("hair")).expect("there").geometry,
        Geometry::Curves(name("groom"))
    );
    let dirty = description.take_dirty();
    assert!(dirty.changed.contains(Kind::Curves, &name("groom")));

    apply(
        &mut description,
        vec![
            Op::Mesh(MeshPatch { source: Some(triangle()), ..MeshPatch::new("tri") }),
            Op::Instance(InstancePatch { mesh: Some(name("tri")), ..InstancePatch::new("hair") }),
        ],
    )
    .expect("valid set");
    assert_eq!(
        description.instances().get(&name("hair")).expect("there").geometry,
        Geometry::Mesh(name("tri"))
    );
}

#[test]
fn an_instance_naming_both_kinds_is_refused() {
    let mut description = SceneDescription::new();
    let mut ops = groom_scene();
    ops.push(Op::Instance(InstancePatch {
        mesh: Some(name("tri")),
        curves: Some(name("groom")),
        ..InstancePatch::new("hair")
    }));
    let error = apply(&mut description, ops).unwrap_err();
    assert!(error.contains("places one"), "{error}");
}

#[test]
fn a_curves_reference_that_names_a_mesh_does_not_resolve() {
    let mut description = SceneDescription::new();
    let mut ops = triangle_scene();
    ops.push(Op::Instance(InstancePatch {
        curves: Some(name("tri")),
        material: Some(name("gray")),
        ..InstancePatch::new("confused")
    }));
    let error = apply(&mut description, ops).unwrap_err();
    assert!(error.contains("curves \"tri\""), "{error}");
}

#[test]
fn removing_curves_retires_them() {
    let mut description = SceneDescription::new();
    apply(&mut description, groom_scene()).expect("valid set");
    description.take_dirty();
    apply(&mut description, vec![Op::Remove(Kind::Curves, name("groom"))])
        .expect_err("the instance still names it");
    apply(
        &mut description,
        vec![
            Op::Remove(Kind::Instance, name("hair")),
            Op::Remove(Kind::Curves, name("groom")),
        ],
    )
    .expect("valid set");
    assert!(description.curves().is_empty());
    let dirty = description.take_dirty();
    assert!(dirty.removed.contains(Kind::Curves, &name("groom")));
}

#[test]
fn curve_topology_is_validated_against_the_usd_rules() {
    let refuse = |source: CurvesSource, expected: &str| {
        let mut description = SceneDescription::new();
        let error = apply(
            &mut description,
            vec![Op::Curves(CurvesPatch { source: Some(source), ..CurvesPatch::new("groom") })],
        )
        .unwrap_err();
        assert!(error.contains(expected), "{error}");
    };
    refuse(cells(&[4, 4], 7, None), "carry 7 points");
    refuse(cells(&[6], 6, None), "cannot have 6 vertices");
    let CurvesSource::Inline { points, curve_vertex_counts, curve_type, basis, .. } =
        cells(&[4], 4, None)
    else {
        unreachable!("the fixture is inline")
    };
    refuse(
        CurvesSource::Inline {
            points,
            curve_vertex_counts,
            widths: None,
            curve_type,
            basis,
            wrap: CurveWrap::Periodic,
        },
        "periodic",
    );
    for (interpolation, wrong) in [
        (WidthInterpolation::Constant, 2),
        (WidthInterpolation::Uniform, 2),
        (WidthInterpolation::Varying, 3),
        (WidthInterpolation::Vertex, 3),
    ] {
        refuse(
            cells(
                &[4],
                4,
                Some(Widths { values: Arc::new(vec![num(0.1); wrong]), interpolation }),
            ),
            "asks for",
        );
    }
    let mut description = SceneDescription::new();
    for (interpolation, right) in [
        (WidthInterpolation::Constant, 1),
        (WidthInterpolation::Uniform, 1),
        (WidthInterpolation::Varying, 2),
        (WidthInterpolation::Vertex, 4),
    ] {
        apply(
            &mut description,
            vec![Op::Curves(CurvesPatch {
                source: Some(cells(
                    &[4],
                    4,
                    Some(Widths { values: Arc::new(vec![num(0.1); right]), interpolation }),
                )),
                ..CurvesPatch::new("groom")
            })],
        )
        .unwrap_or_else(|error| panic!("{interpolation:?}: {error}"));
    }
    refuse(cells(&[], 0, None), "has no curves");
}

#[test]
fn a_hair_reference_is_a_path_like_any_other() {
    let mut description = SceneDescription::new();
    let error = apply(
        &mut description,
        vec![Op::Curves(CurvesPatch {
            source: Some(CurvesSource::Hair { path: path("/no/such/groom.hair") }),
            ..CurvesPatch::new("groom")
        })],
    )
    .unwrap_err();
    assert!(error.contains("groom.hair"), "{error}");

    let mut set = ChangeSet {
        ops: vec![Op::Curves(CurvesPatch {
            source: Some(CurvesSource::Hair { path: path("groom.hair") }),
            ..CurvesPatch::new("groom")
        })],
    };
    set.rebase_paths(&path("/scenes"));
    assert!(matches!(
        &set.ops[0],
        Op::Curves(CurvesPatch { source: Some(CurvesSource::Hair { path: found }), .. })
            if *found == path("/scenes/groom.hair")
    ));
}

#[test]
fn replace_dirties_exactly_the_difference() {
    let mut description = SceneDescription::new();
    apply(
        &mut description,
        vec![
            Op::Settings(SettingsPatch::new("main")),
            Op::Material(Box::new(MaterialPatch::new("keep"))),
            Op::Material(Box::new(MaterialPatch::new("gone"))),
        ],
    )
    .expect("valid");
    description.take_dirty();

    let file = || {
        let mut incoming = SceneDescription::new();
        apply(
            &mut incoming,
            vec![
                Op::Settings(SettingsPatch::new("main")),
                Op::Material(Box::new(MaterialPatch {
                    coat_weight: Some(num(1.0)),
                    ..MaterialPatch::new("keep")
                })),
            ],
        )
        .expect("valid");
        incoming
    };
    description.replace(file());
    let dirty = description.take_dirty();
    assert_eq!(dirty.changed.len(), 1);
    assert!(dirty.changed.contains(Kind::Material, &name("keep")));
    assert_eq!(dirty.removed.len(), 1);
    assert!(dirty.removed.contains(Kind::Material, &name("gone")));
    assert!(!description.materials().contains_key(&name("gone")));

    description.replace(file());
    assert!(description.take_dirty().is_empty());
}

#[test]
fn textures_walks_every_textured_slot() {
    let mut material = Material {
        base_color: Texturable::Texture(texture("color.png")),
        geometry_normal: Some(texture("normal.png")),
        ..Material::default()
    };
    assert_eq!(material.textures().len(), 2);
    material.geometry_opacity = Texturable::Texture(texture("mask.png"));
    assert_eq!(material.textures().len(), 3);
    assert_eq!(material.textures()[1].path, path("mask.png"));
    assert_eq!(Material::default().textures().len(), 0);
}

#[test]
fn ops_name_their_target() {
    let op = Op::Camera(CameraPatch::new("main"));
    assert_eq!(op.target(), (Kind::Camera, &name("main")));
    let op = Op::Remove(Kind::Light, name("sun"));
    assert_eq!(op.target(), (Kind::Light, &name("sun")));
}

#[test]
fn objects_are_listed_in_name_order() {
    let mut description = SceneDescription::new();
    let material = |text: &str| Op::Material(Box::new(MaterialPatch::new(text)));
    apply(&mut description, vec![material("b"), material("a"), material("é"), material("ab")])
        .expect("valid");
    let table = description.materials();
    let names: Vec<&str> = (0..table.len()).map(|i| table.key_at(i).as_str()).collect();
    assert_eq!(names, ["a", "ab", "b", "é"]);
}
