//! Buffers as the device reads them, and surfaces without a gap.

use std::collections::BTreeSet;

use cenote::bits::{Num, Vec2, Vec3};
use cenote::buffers::{media_buffer, mesh_buffers, params_buffer, scene_table, Addresses};
use cenote::formula::{Answer, Formula, Rows};
use cenote::media::{MediumRecord, GRID_NONE, MEDIUM_NONE, STACK_EMPTY};
use cenote::shapes::{ground_plane, icosphere};
use cenote::texture::Params;

fn num(value: f32) -> Num {
    Num::new(value.to_bits())
}

fn bytes(words: &[u32]) -> Vec<u8> {
    words.iter().flat_map(|word| word.to_ne_bytes()).collect()
}

fn words(values: &[f32]) -> Vec<u32> {
    values.iter().map(|value| value.to_bits()).collect()
}

#[test]
fn a_mesh_uploads_its_parts_in_order() {
    let plane = ground_plane(num(2.0));
    let buffers = mesh_buffers(&plane);
    assert_eq!(
        buffers.vertices,
        bytes(&words(&[-2.0, 0.0, -2.0, -2.0, 0.0, 2.0, 2.0, 0.0, 2.0, 2.0, 0.0, -2.0]))
    );
    assert_eq!(buffers.normals, bytes(&words(&[0.0, 1.0, 0.0].repeat(4))));
    assert_eq!(buffers.uvs, bytes(&words(&[0.0, 0.0, 0.0, 1.0, 1.0, 1.0, 1.0, 0.0])));
    assert_eq!(buffers.indices, bytes(&[0, 1, 2, 0, 2, 3]));
    assert_eq!((buffers.vertex_count, buffers.triangle_count), (4, 2));
}

#[test]
fn parameters_fill_their_records() {
    let moved = Params::new(
        Some((
            Vec2 { x: num(2.0), y: num(3.0) },
            Vec2 { x: num(0.25), y: num(0.5) },
        )),
        Some(num(4.0)),
    );
    let buffer = params_buffer(&vec![Params::new(None, None), moved]);
    assert_eq!(buffer.len(), 64);
    assert_eq!(
        buffer,
        bytes(&words(&[
            1.0, 1.0, 0.0, 0.0, 1.0, 0.0, 0.0, 0.0, 2.0, 3.0, 0.25, 0.5, 4.0, 0.0, 0.0, 0.0
        ]))
    );
}

#[test]
fn media_fill_their_records_and_a_buffer_is_never_empty() {
    assert_eq!(media_buffer(&Vec::new()), vec![0; 144]);
    let fog = MediumRecord::homogeneous(
        Vec3 { x: num(1.0), y: num(2.0), z: num(3.0) },
        num(0.5),
        Vec3 { x: num(0.1), y: num(0.2), z: num(0.3) },
    );
    let buffer = media_buffer(&vec![fog, fog]);
    assert_eq!(buffer.len(), 288);
    assert_eq!(buffer[..16], bytes(&words(&[1.0, 2.0, 3.0, 0.5])));
    assert_eq!(buffer[16..28], bytes(&words(&[0.1, 0.2, 0.3])));
    assert_eq!(buffer[28..32], bytes(&[GRID_NONE]));
    assert_eq!(buffer[32..112], [0; 80]);
    assert_eq!(buffer[124..128], bytes(&[GRID_NONE]));
    assert_eq!(buffer[..144], buffer[144..]);
}

#[test]
fn the_camera_starts_inside_nothing() {
    let addresses = Addresses {
        geometry: 1,
        materials: 2,
        lights: 3,
        texture_params: 4,
        env_marginal: 5,
        env_conditional: 6,
        env_pdfs: 7,
        media: 8,
        blackbody: 9,
    };
    let table = scene_table(
        addresses,
        (64, 32),
        (Rows::identity(), Rows::nothing()),
        Vec3 { x: num(1.0), y: num(1.0), z: num(1.0) },
        num(0.25),
        7,
        MEDIUM_NONE,
    );
    assert_eq!(table.addresses, addresses);
    assert_eq!((table.env_width, table.env_height), (64, 32));
    assert_eq!((table.env_to_world, table.env_from_world), (Rows::identity(), Rows::nothing()));
    assert_eq!((table.light_count, table.global_medium), (7, MEDIUM_NONE));
    assert_eq!(table.camera_media, [STACK_EMPTY; 4]);
}

/// Faces name vertices by their numbers, so that every point may be the same.
fn flat(formula: Formula) -> Answer {
    match formula {
        Formula::Midway(a, _) => Answer::Vector(a),
        Formula::Distance(..) | Formula::PanelLuminance(..) => Answer::Number(num(0.0)),
        Formula::Luminous(..) | Formula::Mirrors(..) | Formula::Alike(..) => Answer::Truth(false),
        Formula::Placed(..)
        | Formula::Composed(..)
        | Formula::Linear(..)
        | Formula::Inverse(..) => Answer::Affine(Rows::identity()),
        _ => Answer::Vector(Vec3::new(0, 0, 0)),
    }
}

#[test]
fn every_side_of_a_ball_is_run_along_once_in_each_direction() {
    for rounds in 0..4 {
        let ball = icosphere(&flat, rounds);
        let sides: BTreeSet<(u32, u32)> = ball
            .triangles
            .iter()
            .flat_map(|&[a, b, c]| [(a, b), (b, c), (c, a)])
            .collect();
        assert_eq!(sides.len(), 3 * ball.triangles.len());
        assert!(sides.iter().all(|&(a, b)| a != b && sides.contains(&(b, a))));
        assert_eq!(ball.positions.len() + ball.triangles.len(), sides.len() / 2 + 2);
    }
}
