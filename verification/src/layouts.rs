//! Where every value stands in what is uploaded and in what is cached.

use vstd::prelude::*;

use crate::bits::{Vec2, Vec3};
use crate::buffers;
use crate::dds;
use crate::dds::{BlockFormat, Texture};
use crate::media::MediumRecord;
use crate::texture::Params;

verus! {

/// A word's four bytes are the word in base 256, and stand together, from the lowest up
/// or from the highest down, for all words alike.
pub proof fn bytes_spell_their_words(words: Seq<u32>, bytes: Seq<u8>, i: int)
    requires
        buffers::laid_out(words, bytes),
        0 <= i < words.len(),
    ensures
        bytes.len() == 4 * words.len(),
        ({
            let (a, b, c, d) = (
                bytes[4 * i] as int,
                bytes[4 * i + 1] as int,
                bytes[4 * i + 2] as int,
                bytes[4 * i + 3] as int,
            );
            words[i] == a + 256 * b + 65536 * c + 16777216 * d || words[i] == d + 256 * c + 65536
                * b + 16777216 * a
        }),
{
    assert((4 * i) / 4 == i && (4 * i + 1) / 4 == i && (4 * i + 2) / 4 == i && (4 * i + 3) / 4
        == i);
    assert((4 * i) % 4 == 0 && (4 * i + 1) % 4 == 1 && (4 * i + 2) % 4 == 2 && (4 * i + 3) % 4
        == 3);
    bytes_make_up_the_word(words[i]);
}

/// A word is its bytes, each in its place.
proof fn bytes_make_up_the_word(word: u32)
    ensures
        word == buffers::byte(word, 0) + 256 * buffers::byte(word, 1) + 65536 * buffers::byte(
            word,
            2,
        ) + 16777216 * buffers::byte(word, 3),
{
}

/// The words of positions or normals: the three components of each, one vertex behind
/// the other; and so with coordinates and the corners of triangles.
pub proof fn vertices_stand_in_order(
    list: Seq<Vec3>,
    uvs: Seq<Vec2>,
    triangles: Seq<[u32; 3]>,
    i: int,
)
    requires
        0 <= i,
    ensures
        i < list.len() ==> {
            &&& buffers::flat3(list)[3 * i] == list[i].x.bits
            &&& buffers::flat3(list)[3 * i + 1] == list[i].y.bits
            &&& buffers::flat3(list)[3 * i + 2] == list[i].z.bits
        },
        i < uvs.len() ==> {
            &&& buffers::flat2(uvs)[2 * i] == uvs[i].x.bits
            &&& buffers::flat2(uvs)[2 * i + 1] == uvs[i].y.bits
        },
        i < triangles.len() ==> {
            &&& buffers::flat_indices(triangles)[3 * i] == triangles[i][0]
            &&& buffers::flat_indices(triangles)[3 * i + 1] == triangles[i][1]
            &&& buffers::flat_indices(triangles)[3 * i + 2] == triangles[i][2]
        },
        buffers::flat3(list).len() == 3 * list.len(),
        buffers::flat2(uvs).len() == 2 * uvs.len(),
        buffers::flat_indices(triangles).len() == 3 * triangles.len(),
{
    assert((3 * i) / 3 == i && (3 * i + 1) / 3 == i && (3 * i + 2) / 3 == i);
    assert((3 * i) % 3 == 0 && (3 * i + 1) % 3 == 1 && (3 * i + 2) % 3 == 2);
    assert((2 * i) / 2 == i && (2 * i + 1) / 2 == i);
    assert((2 * i) % 2 == 0 && (2 * i + 1) % 2 == 1);
}

/// Texture `i`'s parameters stand at eight words for each before it: the factor on the
/// coordinates, what is put on top, and the factor on the value.
pub proof fn parameters_stand_in_order(list: Seq<Params>, n: int, i: int)
    requires
        0 <= i < n,
    ensures
        ({
            let words = buffers::all_params(list, n);
            &&& words.len() == 8 * n
            &&& words[8 * i] == list[i].uv_scale.x.bits
            &&& words[8 * i + 1] == list[i].uv_scale.y.bits
            &&& words[8 * i + 2] == list[i].uv_offset.x.bits
            &&& words[8 * i + 3] == list[i].uv_offset.y.bits
            &&& words[8 * i + 4] == list[i].scale.bits
        }),
    decreases n,
{
    buffers::records_have_one_size(list, Seq::empty(), n);
    buffers::records_have_one_size(list, Seq::empty(), n - 1);
    if i < n - 1 {
        parameters_stand_in_order(list, n - 1, i);
        let front = buffers::all_params(list, n - 1);
        let words = buffers::all_params(list, n);
        assert(words[8 * i] == front[8 * i]);
        assert(words[8 * i + 1] == front[8 * i + 1]);
        assert(words[8 * i + 2] == front[8 * i + 2]);
        assert(words[8 * i + 3] == front[8 * i + 3]);
        assert(words[8 * i + 4] == front[8 * i + 4]);
    }
}

/// The words of a medium, each where a kernel looks for it: extinction and anisotropy,
/// scattering and grid, the three rows of the map to the lattice, the majorants'
/// factor and place, what is put on top and their counts, the emission and the
/// temperature grid, and what makes kelvin of a temperature.
pub proof fn media_stand_where_kernels_look(record: MediumRecord)
    ensures
        ({
            let words = buffers::medium_words(record);
            &&& words.len() == 36
            &&& (words[0], words[1], words[2], words[3]) == (
                record.sigma_t.x.bits,
                record.sigma_t.y.bits,
                record.sigma_t.z.bits,
                record.g.bits,
            )
            &&& (words[4], words[5], words[6], words[7]) == (
                record.sigma_s.x.bits,
                record.sigma_s.y.bits,
                record.sigma_s.z.bits,
                record.grid,
            )
            &&& (words[8], words[9], words[10], words[11]) == (
                record.world_to_index.x.x.bits,
                record.world_to_index.x.y.bits,
                record.world_to_index.x.z.bits,
                record.world_to_index.x.w.bits,
            )
            &&& (words[12], words[13], words[14], words[15]) == (
                record.world_to_index.y.x.bits,
                record.world_to_index.y.y.bits,
                record.world_to_index.y.z.bits,
                record.world_to_index.y.w.bits,
            )
            &&& (words[16], words[17], words[18], words[19]) == (
                record.world_to_index.z.x.bits,
                record.world_to_index.z.y.bits,
                record.world_to_index.z.z.bits,
                record.world_to_index.z.w.bits,
            )
            &&& (words[20], words[21], words[22], words[23]) == (
                record.majorant_scale.x.bits,
                record.majorant_scale.y.bits,
                record.majorant_scale.z.bits,
                record.majorant,
            )
            &&& (words[24], words[25], words[26], words[27]) == (
                record.majorant_bias.x.bits,
                record.majorant_bias.y.bits,
                record.majorant_bias.z.bits,
                record.majorant_res,
            )
            &&& (words[28], words[29], words[30], words[31]) == (
                record.emission.x.bits,
                record.emission.y.bits,
                record.emission.z.bits,
                record.temperature_grid,
            )
            &&& (words[32], words[33], words[34], words[35]) == (
                record.kelvin_scale.bits,
                record.kelvin_offset.bits,
                0u32,
                0u32,
            )
        }),
{
}

/// Medium `i` stands at thirty-six words for each before it.
pub proof fn media_stand_in_order(list: Seq<MediumRecord>, n: int, i: int)
    requires
        0 <= i < n,
    ensures
        buffers::all_media(list, n).len() == 36 * n,
        buffers::all_media(list, n).subrange(36 * i, 36 * i + 36) == buffers::medium_words(list[i]),
    decreases n,
{
    buffers::records_have_one_size(Seq::empty(), list, n);
    buffers::records_have_one_size(Seq::empty(), list, n - 1);
    buffers::medium_words_listed(list[n - 1]);
    let words = buffers::all_media(list, n);
    if i < n - 1 {
        media_stand_in_order(list, n - 1, i);
        assert(words.subrange(36 * i, 36 * i + 36) =~= buffers::all_media(list, n - 1).subrange(
            36 * i,
            36 * i + 36,
        ));
    } else {
        assert(words.subrange(36 * i, 36 * i + 36) =~= buffers::medium_words(list[i]));
    }
}

/// A cache file, word by word as the format has it: the letters `DDS `, the sizes, the
/// extents with the height first, the mark and both halves of the hash, the letters
/// `DX10`, the format's number, and behind the header the blocks.
pub proof fn caches_are_laid_out_as_the_format_says(texture: Texture, hash: u64)
    ensures
        ({
            let file = dds::composed(texture, hash);
            &&& file.len() == 148 + texture.data.len()
            &&& dds::word(file, 0) == 0x2053_4444
            &&& dds::word(file, 1) == 124
            &&& dds::word(file, 2) == 0x0008_1007
            &&& dds::word(file, 3) == texture.height
            &&& dds::word(file, 4) == texture.width
            &&& dds::word(file, 5) == texture.data.len() as u32
            &&& dds::word(file, 8) == 0x434e_5431
            &&& dds::word(file, 9) + 0x1_0000_0000 * dds::word(file, 10) == hash
            &&& dds::word(file, 19) == 32
            &&& dds::word(file, 20) == 4
            &&& dds::word(file, 21) == 0x3031_5844
            &&& dds::word(file, 27) == 0x1000
            &&& dds::word(file, 32) == match texture.format {
                BlockFormat::Bc4Unorm => 80u32,
                BlockFormat::Bc5Unorm => 83u32,
                BlockFormat::Bc6hUfloat => 95u32,
                BlockFormat::Bc7Unorm => 98u32,
                BlockFormat::Bc7Srgb => 99u32,
            }
            &&& dds::word(file, 33) == 3
            &&& dds::word(file, 35) == 1
            &&& file.skip(148) == texture.data
        }),
{
    let words = dds::header(texture, hash);
    let file = dds::composed(texture, hash);
    dds::flat_holds_every_word(words);
    assert(words.len() == 37);
    assert forall|i: int| 0 <= i < 37 implies #[trigger] dds::word(file, i) == words[i] by {
        vstd::bytes::lemma_auto_spec_u32_to_from_le_bytes();
        assert(file.subrange(4 * i, 4 * i + 4) =~= dds::flat(words).subrange(4 * i, 4 * i + 4));
    }
    assert(file.skip(148) =~= texture.data);
    let (low, high) = (dds::low(hash), dds::high(hash));
    assert((hash & 0xffff_ffff) as u32 as u64 + 0x1_0000_0000u64 * ((hash >> 32) as u32 as u64)
        == hash) by (bit_vector);
}

/// How many bytes a texture's blocks take: sixteen for every four by four texels begun,
/// or eight where they hold one component.
pub proof fn blocks_take_their_bytes(width: int, height: int, format: BlockFormat)
    requires
        width > 0,
        height > 0,
    ensures
        ({
            let across = if width % 4 == 0 {
                width / 4
            } else {
                width / 4 + 1
            };
            let down = if height % 4 == 0 {
                height / 4
            } else {
                height / 4 + 1
            };
            dds::data_size(width, height, format) == across * down * (if format is Bc4Unorm {
                8int
            } else {
                16
            })
        }),
{
}

} // verus!
