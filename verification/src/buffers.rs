//! What the device's buffers hold, word by word, and the table that leads to
//! them.

use vstd::prelude::*;

use crate::bits::{Num, Vec2, Vec3, Vec4};
use crate::formula::Rows;
use crate::media::{MediumRecord, MEDIUM_SLOTS, STACK_EMPTY};
use crate::mesh::Mesh;
use crate::texture::Params;

verus! {

/// Byte `n` of a word, counted from the lowest.
pub open spec fn byte(word: u32, n: int) -> u8 {
    if n == 0 {
        (word % 256) as u8
    } else if n == 1 {
        (word / 256 % 256) as u8
    } else if n == 2 {
        (word / 65536 % 256) as u8
    } else {
        (word / 16777216) as u8
    }
}

/// The bytes of words, one after the other, each from its lowest byte up or from
/// its highest down.
pub open spec fn spelled(words: Seq<u32>, upward: bool) -> Seq<u8> {
    Seq::new(
        4 * words.len(),
        |i: int|
            byte(
                words[i / 4],
                if upward {
                    i % 4
                } else {
                    3 - i % 4
                },
            ),
    )
}

/// These are the bytes of the words, in the one order or the other.
pub open spec fn laid_out(words: Seq<u32>, bytes: Seq<u8>) -> bool {
    bytes == spelled(words, true) || bytes == spelled(words, false)
}

/// The bytes of words, as they lie in memory.
///
/// Calls `bytemuck::cast_slice`, which reads the same memory as bytes, and copies
/// what it gives. All words have their bytes in one order; which one is the
/// machine's.
#[verifier::external_body]
pub(crate) fn bytes_of(words: &[u32]) -> (r: Vec<u8>)
    ensures
        laid_out(words@, r@),
{
    bytemuck::cast_slice::<u32, u8>(words).to_vec()
}

/// Part `k` of three numbers, by its bits.
pub open spec fn part3(value: Vec3, k: int) -> u32 {
    if k == 0 {
        value.x.bits
    } else if k == 1 {
        value.y.bits
    } else {
        value.z.bits
    }
}

/// Part `k` of two numbers, by its bits.
pub open spec fn part2(value: Vec2, k: int) -> u32 {
    if k == 0 {
        value.x.bits
    } else {
        value.y.bits
    }
}

/// Threes of numbers, one after the other.
pub open spec fn flat3(list: Seq<Vec3>) -> Seq<u32> {
    Seq::new(3 * list.len(), |i: int| part3(list[i / 3], i % 3))
}

/// Pairs of numbers, one after the other.
pub open spec fn flat2(list: Seq<Vec2>) -> Seq<u32> {
    Seq::new(2 * list.len(), |i: int| part2(list[i / 2], i % 2))
}

/// Triples of indices, one after the other.
pub open spec fn flat_indices(list: Seq<[u32; 3]>) -> Seq<u32> {
    Seq::new(3 * list.len(), |i: int| list[i / 3]@[i % 3])
}

fn vectors(list: &Vec<Vec3>) -> (r: Vec<u32>)
    ensures
        r@ == flat3(list@),
{
    let mut words: Vec<u32> = Vec::new();
    for i in 0..list.len()
        invariant
            words@ == flat3(list@.take(i as int)),
    {
        words.push(list[i].x.bits);
        words.push(list[i].y.bits);
        words.push(list[i].z.bits);
        assert(words@ =~= flat3(list@.take(i + 1)));
    }
    assert(list@.take(list@.len() as int) =~= list@);
    words
}

fn coordinates(list: &Vec<Vec2>) -> (r: Vec<u32>)
    ensures
        r@ == flat2(list@),
{
    let mut words: Vec<u32> = Vec::new();
    for i in 0..list.len()
        invariant
            words@ == flat2(list@.take(i as int)),
    {
        words.push(list[i].x.bits);
        words.push(list[i].y.bits);
        assert(words@ =~= flat2(list@.take(i + 1)));
    }
    assert(list@.take(list@.len() as int) =~= list@);
    words
}

fn corners(list: &Vec<[u32; 3]>) -> (r: Vec<u32>)
    ensures
        r@ == flat_indices(list@),
{
    let mut words: Vec<u32> = Vec::new();
    for i in 0..list.len()
        invariant
            words@ == flat_indices(list@.take(i as int)),
    {
        let corners = list[i];
        words.push(corners[0]);
        words.push(corners[1]);
        words.push(corners[2]);
        assert(words@ =~= flat_indices(list@.take(i + 1)));
    }
    assert(list@.take(list@.len() as int) =~= list@);
    words
}

/// What a mesh uploads.
#[derive(Clone, Debug, PartialEq, Eq)]
pub struct MeshBuffers {
    /// The positions.
    pub vertices: Vec<u8>,
    /// The shading normals.
    pub normals: Vec<u8>,
    /// The texture coordinates.
    pub uvs: Vec<u8>,
    /// The corners of the triangles.
    pub indices: Vec<u8>,
    /// How many vertices there are.
    pub vertex_count: u32,
    /// How many triangles there are.
    pub triangle_count: u32,
}

/// The buffers of a mesh, which has a normal and a texture coordinate for each
/// vertex.
pub fn mesh_buffers(mesh: &Mesh) -> (r: MeshBuffers)
    requires
        mesh.normals@.len() == mesh.positions@.len(),
        mesh.uvs@.len() == mesh.positions@.len(),
    ensures
        laid_out(flat3(mesh.positions@), r.vertices@),
        laid_out(flat3(mesh.normals@), r.normals@),
        laid_out(flat2(mesh.uvs@), r.uvs@),
        laid_out(flat_indices(mesh.triangles@), r.indices@),
        r.vertex_count == mesh.positions@.len() as u32,
        r.triangle_count == mesh.triangles@.len() as u32,
{
    MeshBuffers {
        vertices: bytes_of(vectors(&mesh.positions).as_slice()),
        normals: bytes_of(vectors(&mesh.normals).as_slice()),
        uvs: bytes_of(coordinates(&mesh.uvs).as_slice()),
        indices: bytes_of(corners(&mesh.triangles).as_slice()),
        vertex_count: mesh.positions.len() as u32,
        triangle_count: mesh.triangles.len() as u32,
    }
}

// -- Tables -------------------------------------------------------------------------

/// How many words a texture's parameters take.
pub const PARAMS_WORDS: usize = 8;

/// How many words a medium takes.
pub const MEDIUM_WORDS: usize = 36;

/// A texture's parameters, and nothing up to a whole record.
pub open spec fn params_words(params: Params) -> Seq<u32> {
    seq![
        params.uv_scale.x.bits,
        params.uv_scale.y.bits,
        params.uv_offset.x.bits,
        params.uv_offset.y.bits,
        params.scale.bits,
        0,
        0,
        0,
    ]
}

/// Four numbers, by their bits.
pub open spec fn words4(value: Vec4) -> Seq<u32> {
    seq![value.x.bits, value.y.bits, value.z.bits, value.w.bits]
}

/// Three numbers and a word, by their bits.
pub open spec fn words3(value: Vec3, last: u32) -> Seq<u32> {
    seq![value.x.bits, value.y.bits, value.z.bits, last]
}

/// A medium, and nothing up to a whole record.
pub open spec fn medium_words(record: MediumRecord) -> Seq<u32> {
    words3(record.sigma_t, record.g.bits) + words3(record.sigma_s, record.grid) + words4(
        record.world_to_index.x,
    ) + words4(record.world_to_index.y) + words4(record.world_to_index.z) + words3(
        record.majorant_scale,
        record.majorant,
    ) + words3(record.majorant_bias, record.majorant_res) + words3(
        record.emission,
        record.temperature_grid,
    ) + seq![record.kelvin_scale.bits, record.kelvin_offset.bits, 0, 0]
}

/// Four words of a medium, from word `4 * n` on.
pub proof fn medium_words_listed(record: MediumRecord)
    ensures
        medium_words(record).len() == MEDIUM_WORDS,
        medium_words(record).subrange(0, 4) == words3(record.sigma_t, record.g.bits),
        medium_words(record).subrange(4, 8) == words3(record.sigma_s, record.grid),
        medium_words(record).subrange(8, 12) == words4(record.world_to_index.x),
        medium_words(record).subrange(12, 16) == words4(record.world_to_index.y),
        medium_words(record).subrange(16, 20) == words4(record.world_to_index.z),
        medium_words(record).subrange(20, 24) == words3(record.majorant_scale, record.majorant),
        medium_words(record).subrange(24, 28) == words3(record.majorant_bias, record.majorant_res),
        medium_words(record).subrange(28, 32) == words3(record.emission, record.temperature_grid),
        medium_words(record).subrange(32, 36) == seq![
            record.kelvin_scale.bits,
            record.kelvin_offset.bits,
            0,
            0,
        ],
{
    let words = medium_words(record);
    assert(words.subrange(0, 4) =~= words3(record.sigma_t, record.g.bits));
    assert(words.subrange(4, 8) =~= words3(record.sigma_s, record.grid));
    assert(words.subrange(8, 12) =~= words4(record.world_to_index.x));
    assert(words.subrange(12, 16) =~= words4(record.world_to_index.y));
    assert(words.subrange(16, 20) =~= words4(record.world_to_index.z));
    assert(words.subrange(20, 24) =~= words3(record.majorant_scale, record.majorant));
    assert(words.subrange(24, 28) =~= words3(record.majorant_bias, record.majorant_res));
    assert(words.subrange(28, 32) =~= words3(record.emission, record.temperature_grid));
    assert(words.subrange(32, 36) =~= seq![
        record.kelvin_scale.bits,
        record.kelvin_offset.bits,
        0,
        0,
    ]);
}

/// Three numbers and a word are told by their words.
proof fn threes_read_back(a: Vec3, b: Vec3, x: u32, y: u32)
    requires
        words3(a, x) == words3(b, y),
    ensures
        a == b,
        x == y,
{
    assert(words3(a, x)[0] == words3(b, y)[0]);
    assert(words3(a, x)[1] == words3(b, y)[1]);
    assert(words3(a, x)[2] == words3(b, y)[2]);
    assert(words3(a, x)[3] == words3(b, y)[3]);
}

/// Four numbers are told by their words.
proof fn fours_read_back(a: Vec4, b: Vec4)
    requires
        words4(a) == words4(b),
    ensures
        a == b,
{
    assert(words4(a)[0] == words4(b)[0]);
    assert(words4(a)[1] == words4(b)[1]);
    assert(words4(a)[2] == words4(b)[2]);
    assert(words4(a)[3] == words4(b)[3]);
}

/// Media with the same words are one medium: nothing of a record is left out of
/// its words.
pub proof fn words_tell_media_apart(a: MediumRecord, b: MediumRecord)
    requires
        medium_words(a) == medium_words(b),
    ensures
        a == b,
{
    medium_words_listed(a);
    medium_words_listed(b);
    threes_read_back(a.sigma_t, b.sigma_t, a.g.bits, b.g.bits);
    threes_read_back(a.sigma_s, b.sigma_s, a.grid, b.grid);
    fours_read_back(a.world_to_index.x, b.world_to_index.x);
    fours_read_back(a.world_to_index.y, b.world_to_index.y);
    fours_read_back(a.world_to_index.z, b.world_to_index.z);
    threes_read_back(a.majorant_scale, b.majorant_scale, a.majorant, b.majorant);
    threes_read_back(a.majorant_bias, b.majorant_bias, a.majorant_res, b.majorant_res);
    threes_read_back(a.emission, b.emission, a.temperature_grid, b.temperature_grid);
    let (u, v) = (medium_words(a).subrange(32, 36), medium_words(b).subrange(32, 36));
    assert(u[0] == v[0] && u[1] == v[1]);
}

/// The parameters of the first `n` textures, one after the other.
pub open spec fn all_params(list: Seq<Params>, n: int) -> Seq<u32>
    decreases n,
{
    if n <= 0 {
        Seq::empty()
    } else {
        all_params(list, n - 1) + params_words(list[n - 1])
    }
}

/// The first `n` media, one after the other.
pub open spec fn all_media(list: Seq<MediumRecord>, n: int) -> Seq<u32>
    decreases n,
{
    if n <= 0 {
        Seq::empty()
    } else {
        all_media(list, n - 1) + medium_words(list[n - 1])
    }
}

/// Every record takes as many words as every other, so that a kernel finds it by
/// its number.
pub proof fn records_have_one_size(params: Seq<Params>, media: Seq<MediumRecord>, n: int)
    requires
        0 <= n,
    ensures
        all_params(params, n).len() == PARAMS_WORDS * n,
        all_media(media, n).len() == MEDIUM_WORDS * n,
    decreases n,
{
    if n > 0 {
        records_have_one_size(params, media, n - 1);
        medium_words_listed(media[n - 1]);
    }
}

/// The buffer of textures' parameters.
pub fn params_buffer(list: &Vec<Params>) -> (r: Vec<u8>)
    ensures
        laid_out(all_params(list@, list@.len() as int), r@),
{
    let mut words: Vec<u32> = Vec::new();
    for i in 0..list.len()
        invariant
            words@ == all_params(list@, i as int),
    {
        let params = list[i];
        let ghost before = words@;
        words.push(params.uv_scale.x.bits);
        words.push(params.uv_scale.y.bits);
        words.push(params.uv_offset.x.bits);
        words.push(params.uv_offset.y.bits);
        words.push(params.scale.bits);
        words.push(0);
        words.push(0);
        words.push(0);
        assert(words@ =~= before + params_words(params));
    }
    bytes_of(words.as_slice())
}

fn push3(words: &mut Vec<u32>, value: Vec3, last: u32)
    ensures
        final(words)@ == old(words)@ + words3(value, last),
{
    words.push(value.x.bits);
    words.push(value.y.bits);
    words.push(value.z.bits);
    words.push(last);
    assert(words@ =~= old(words)@ + words3(value, last));
}

fn push4(words: &mut Vec<u32>, value: Vec4)
    ensures
        final(words)@ == old(words)@ + words4(value),
{
    words.push(value.x.bits);
    words.push(value.y.bits);
    words.push(value.z.bits);
    words.push(value.w.bits);
    assert(words@ =~= old(words)@ + words4(value));
}

fn push_medium(words: &mut Vec<u32>, record: &MediumRecord)
    ensures
        final(words)@ == old(words)@ + medium_words(*record),
{
    push3(words, record.sigma_t, record.g.bits);
    push3(words, record.sigma_s, record.grid);
    push4(words, record.world_to_index.x);
    push4(words, record.world_to_index.y);
    push4(words, record.world_to_index.z);
    push3(words, record.majorant_scale, record.majorant);
    push3(words, record.majorant_bias, record.majorant_res);
    push3(words, record.emission, record.temperature_grid);
    words.push(record.kelvin_scale.bits);
    words.push(record.kelvin_offset.bits);
    words.push(0);
    words.push(0);
    assert(words@ =~= old(words)@ + medium_words(*record));
}

/// The buffer of the media. A buffer is never empty: where there is no medium,
/// it holds one record of zeros that nothing refers to.
pub fn media_buffer(list: &Vec<MediumRecord>) -> (r: Vec<u8>)
    ensures
        laid_out(
            if list@.len() == 0 {
                Seq::new(MEDIUM_WORDS as nat, |i: int| 0u32)
            } else {
                all_media(list@, list@.len() as int)
            },
            r@,
        ),
{
    let mut words: Vec<u32> = Vec::new();
    for i in 0..list.len()
        invariant
            words@ == all_media(list@, i as int),
    {
        push_medium(&mut words, &list[i]);
    }
    if list.len() == 0 {
        for i in 0..MEDIUM_WORDS
            invariant
                words@ == Seq::new(i as nat, |k: int| 0u32),
        {
            words.push(0);
            assert(words@ =~= Seq::new((i + 1) as nat, |k: int| 0u32));
        }
    }
    bytes_of(words.as_slice())
}

// -- The table of the scene ---------------------------------------------------------

/// Where the device holds the buffers of a scene.
#[derive(Clone, Copy, Debug, PartialEq, Eq, Structural)]
pub struct Addresses {
    /// The geometry records.
    pub geometry: u64,
    /// The surfaces.
    pub materials: u64,
    /// The lights.
    pub lights: u64,
    /// The textures' parameters.
    pub texture_params: u64,
    /// The sky's distribution over rows.
    pub env_marginal: u64,
    /// The sky's distribution within rows.
    pub env_conditional: u64,
    /// The sky's densities.
    pub env_pdfs: u64,
    /// The media.
    pub media: u64,
    /// The radiance of black bodies.
    pub blackbody: u64,
}

/// What leads a kernel to everything in a scene.
#[derive(Clone, Copy, Debug, PartialEq, Eq)]
pub struct SceneTable {
    /// Where the buffers are.
    pub addresses: Addresses,
    /// The sky's placement.
    pub env_to_world: Rows,
    /// The map that undoes it.
    pub env_from_world: Rows,
    /// The factor on the sky's radiance.
    pub env_tint: Vec3,
    /// How likely the sky is to be sampled rather than a light.
    pub env_select_prob: Num,
    /// Texels across the sky.
    pub env_width: u32,
    /// Texels down.
    pub env_height: u32,
    /// How many lights there are.
    pub light_count: u32,
    /// What fills the open space, or nothing.
    pub global_medium: u32,
    /// What the camera is inside of, which a kernel finds out.
    pub camera_media: [u32; MEDIUM_SLOTS],
}

/// The table of a scene: the camera starts inside nothing.
pub fn scene_table(
    addresses: Addresses,
    env_size: (u32, u32),
    env_placement: (Rows, Rows),
    env_tint: Vec3,
    env_select_prob: Num,
    light_count: u32,
    global_medium: u32,
) -> (r: SceneTable)
    ensures
        r.addresses == addresses,
        r.env_to_world == env_placement.0,
        r.env_from_world == env_placement.1,
        r.env_tint == env_tint,
        r.env_select_prob == env_select_prob,
        (r.env_width, r.env_height) == env_size,
        r.light_count == light_count,
        r.global_medium == global_medium,
        r.camera_media@ == seq![STACK_EMPTY, STACK_EMPTY, STACK_EMPTY, STACK_EMPTY],
{
    let camera_media = [STACK_EMPTY, STACK_EMPTY, STACK_EMPTY, STACK_EMPTY];
    assert(camera_media@ =~= seq![STACK_EMPTY, STACK_EMPTY, STACK_EMPTY, STACK_EMPTY]);
    SceneTable {
        addresses,
        env_to_world: env_placement.0,
        env_from_world: env_placement.1,
        env_tint,
        env_select_prob,
        env_width: env_size.0,
        env_height: env_size.1,
        light_count,
        global_medium,
        camera_media,
    }
}

} // verus!
