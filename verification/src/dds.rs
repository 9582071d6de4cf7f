//! The texture cache format: just enough DDS to hold one prepared texture.
//!
//! A file is a header of 37 little-endian words and then the blocks. The
//! header's reserved words carry a mark and the hash of what was prepared, so
//! a file that was prepared from something else reads as no cache at all.

use vstd::bytes::{u32_from_le_bytes, u32_to_le_bytes};
use vstd::prelude::*;

verus! {

/// The letters `DDS `.
pub const MAGIC: u32 = 0x2053_4444;

/// The letters `CNT1`, which mark a cache of ours.
pub const CACHE_MARK: u32 = 0x434e_5431;

/// The header holds caps, height, width, pixel format and linear size.
pub const FLAGS: u32 = 0x0008_1007;

/// The letters `DX10`.
pub const FOURCC_DX10: u32 = 0x3031_5844;

/// The bytes of the header.
pub const HEADER: usize = 148;

/// How a texture's blocks of four by four texels are compressed.
#[derive(Clone, Copy, Debug, PartialEq, Eq, Structural)]
pub enum BlockFormat {
    /// BC4: one component.
    Bc4Unorm,
    /// BC5: two components.
    Bc5Unorm,
    /// BC6H: three unsigned half-precision components.
    Bc6hUfloat,
    /// BC7: color, stored linear.
    Bc7Unorm,
    /// BC7: color, stored sRGB-encoded and decoded by the sampler.
    Bc7Srgb,
}

impl BlockFormat {
    /// The format's number in the DX10 extension.
    #[verifier::allow_in_spec]
    pub fn dxgi(self) -> (r: u32)
        returns
            (match self {
                BlockFormat::Bc4Unorm => 80u32,
                BlockFormat::Bc5Unorm => 83u32,
                BlockFormat::Bc6hUfloat => 95u32,
                BlockFormat::Bc7Unorm => 98u32,
                BlockFormat::Bc7Srgb => 99u32,
            }),
    {
        match self {
            BlockFormat::Bc4Unorm => 80,
            BlockFormat::Bc5Unorm => 83,
            BlockFormat::Bc6hUfloat => 95,
            BlockFormat::Bc7Unorm => 98,
            BlockFormat::Bc7Srgb => 99,
        }
    }

    /// The format with this number, if there is one.
    pub fn from_dxgi(number: u32) -> (r: Option<BlockFormat>)
        ensures
            r matches Some(format) ==> format.dxgi() == number,
            r is None ==> forall|format: BlockFormat| format.dxgi() != number,
    {
        match number {
            80 => Some(BlockFormat::Bc4Unorm),
            83 => Some(BlockFormat::Bc5Unorm),
            95 => Some(BlockFormat::Bc6hUfloat),
            98 => Some(BlockFormat::Bc7Unorm),
            99 => Some(BlockFormat::Bc7Srgb),
            _ => None,
        }
    }
}

/// Bytes per block of four by four texels.
#[verifier::allow_in_spec]
pub fn block_size(format: BlockFormat) -> (r: u64)
    returns
        (if format == BlockFormat::Bc4Unorm {
            8u64
        } else {
            16u64
        }),
{
    match format {
        BlockFormat::Bc4Unorm => 8,
        _ => 16,
    }
}

/// The blocks that an extent spans: whole ones, the last of them perhaps
/// part empty.
pub open spec fn blocks_across(texels: int) -> int {
    (texels + 3) / 4
}

/// The bytes that an image of these dimensions takes.
pub open spec fn data_size(width: int, height: int, format: BlockFormat) -> int {
    blocks_across(width) * blocks_across(height) * block_size(format)
}

/// One texture, prepared for upload: blocks over padded rows, with the
/// dimensions those of the image itself.
#[derive(Debug, PartialEq, Eq)]
pub struct Prepared {
    /// Texels across.
    pub width: u32,
    /// Texels down.
    pub height: u32,
    /// How the blocks are compressed.
    pub format: BlockFormat,
    /// The blocks, row by row.
    pub data: Vec<u8>,
    /// What was prepared, and how.
    pub hash: u64,
}

/// What a prepared texture is.
#[verifier::ext_equal]
pub struct Texture {
    pub width: u32,
    pub height: u32,
    pub format: BlockFormat,
    pub data: Seq<u8>,
    pub hash: u64,
}

impl View for Prepared {
    type V = Texture;

    open spec fn view(&self) -> Texture {
        Texture {
            width: self.width,
            height: self.height,
            format: self.format,
            data: self.data@,
            hash: self.hash,
        }
    }
}

impl Texture {
    /// There are texels, and as many bytes as they take.
    pub open spec fn complete(self) -> bool {
        &&& self.width > 0
        &&& self.height > 0
        &&& self.data.len() == data_size(self.width as int, self.height as int, self.format)
    }
}

/// The lower half of a hash.
pub open spec fn low(hash: u64) -> u32 {
    (hash & 0xffff_ffff) as u32
}

/// The upper half of a hash.
pub open spec fn high(hash: u64) -> u32 {
    (hash >> 32) as u32
}

/// The header's words.
pub open spec fn header(texture: Texture, hash: u64) -> Seq<u32> {
    seq![
        MAGIC,
        124u32,
        FLAGS,
        texture.height,
        texture.width,
        texture.data.len() as u32,
        0u32,
        0u32,
        CACHE_MARK,
        low(hash),
        high(hash),
        0u32,
        0u32,
        0u32,
        0u32,
        0u32,
        0u32,
        0u32,
        0u32,
        32u32,
        4u32,
        FOURCC_DX10,
        0u32,
        0u32,
        0u32,
        0u32,
        0u32,
        0x1000u32,
        0u32,
        0u32,
        0u32,
        0u32,
        texture.format.dxgi(),
        3u32,
        0u32,
        1u32,
        0u32,
    ]
}

/// Words as little-endian bytes, one after the other.
pub open spec fn flat(words: Seq<u32>) -> Seq<u8>
    decreases words.len(),
{
    if words.len() == 0 {
        Seq::empty()
    } else {
        flat(words.drop_last()) + vstd::bytes::spec_u32_to_le_bytes(words.last())
    }
}

/// Every word takes four bytes, and stands where they are read.
pub proof fn flat_holds_every_word(words: Seq<u32>)
    ensures
        flat(words).len() == 4 * words.len(),
        forall|i: int|
            0 <= i < words.len() ==> flat(words).subrange(4 * i, 4 * i + 4)
                == vstd::bytes::spec_u32_to_le_bytes(#[trigger] words[i]),
    decreases words.len(),
{
    vstd::bytes::lemma_auto_spec_u32_to_from_le_bytes();
    if words.len() > 0 {
        let front = words.drop_last();
        flat_holds_every_word(front);
        assert forall|i: int| 0 <= i < words.len() implies flat(words).subrange(4 * i, 4 * i + 4)
            == vstd::bytes::spec_u32_to_le_bytes(#[trigger] words[i]) by {
            if i < front.len() {
                assert(front[i] == words[i]);
                assert(flat(words).subrange(4 * i, 4 * i + 4) =~= flat(front).subrange(
                    4 * i,
                    4 * i + 4,
                ));
            } else {
                assert(flat(words).subrange(4 * i, 4 * i + 4)
                    =~= vstd::bytes::spec_u32_to_le_bytes(words.last()));
            }
        }
    }
}

/// The file that holds a texture: the header, then the blocks.
pub open spec fn composed(texture: Texture, hash: u64) -> Seq<u8> {
    flat(header(texture, hash)) + texture.data
}

/// The word at a place in a file.
pub open spec fn word(bytes: Seq<u8>, i: int) -> u32 {
    vstd::bytes::spec_u32_from_le_bytes(bytes.subrange(4 * i, 4 * i + 4))
}

/// The header is one of ours for this hash, its format is known, and the
/// blocks that follow are as many as its dimensions ask for.
pub open spec fn accepted(bytes: Seq<u8>, hash: u64, format: BlockFormat) -> bool {
    &&& bytes.len() >= HEADER
    &&& word(bytes, 0) == MAGIC
    &&& word(bytes, 1) == 124
    &&& word(bytes, 8) == CACHE_MARK
    &&& word(bytes, 9) == low(hash)
    &&& word(bytes, 10) == high(hash)
    &&& word(bytes, 21) == FOURCC_DX10
    &&& word(bytes, 32) == format.dxgi()
    &&& word(bytes, 3) > 0
    &&& word(bytes, 4) > 0
    &&& bytes.len() - HEADER == data_size(word(bytes, 4) as int, word(bytes, 3) as int, format)
}

/// The texture that an accepted file holds.
pub open spec fn held(bytes: Seq<u8>, hash: u64, format: BlockFormat) -> Texture {
    Texture {
        width: word(bytes, 4),
        height: word(bytes, 3),
        format,
        data: bytes.skip(HEADER as int),
        hash,
    }
}

/// Two halves make one hash.
proof fn halves_make_the_whole(hash: u64, lower: u32, upper: u32)
    ensures
        ((lower as u64 | (upper as u64) << 32) == hash) == (lower == low(hash) && upper == high(
            hash,
        )),
{
    assert(((lower as u64 | (upper as u64) << 32) == hash) == (lower == (hash & 0xffff_ffff) as u32
        && upper == (hash >> 32) as u32)) by (bit_vector);
}

/// Put one word behind the others.
fn push_word(out: &mut Vec<u8>, value: u32)
    ensures
        final(out)@ == old(out)@ + vstd::bytes::spec_u32_to_le_bytes(value),
{
    let mut bytes = u32_to_le_bytes(value);
    out.append(&mut bytes);
}

/// The file that holds `prepared`.
pub fn compose(prepared: &Prepared, hash: u64) -> (r: Vec<u8>)
    ensures
        r@ == composed(prepared@, hash),
{
    let words: [u32; 37] = [
        MAGIC,
        124,
        FLAGS,
        prepared.height,
        prepared.width,
        prepared.data.len() as u32,
        0,
        0,
        CACHE_MARK,
        (hash & 0xffff_ffff) as u32,
        (hash >> 32) as u32,
        0,
        0,
        0,
        0,
        0,
        0,
        0,
        0,
        32,
        4,
        FOURCC_DX10,
        0,
        0,
        0,
        0,
        0,
        0x1000,
        0,
        0,
        0,
        0,
        prepared.format.dxgi(),
        3,
        0,
        1,
        0,
    ];
    assert(words@ =~= header(prepared@, hash));
    let mut out: Vec<u8> = Vec::new();
    assert(words@.take(0) =~= Seq::<u32>::empty());
    for i in 0..37
        invariant
            words@ == header(prepared@, hash),
            out@ == flat(words@.take(i as int)),
    {
        push_word(&mut out, words[i]);
        assert(words@.take(i + 1).drop_last() =~= words@.take(i as int));
    }
    assert(words@.take(37) =~= words@);
    for i in 0..prepared.data.len()
        invariant
            out@ == flat(header(prepared@, hash)) + prepared.data@.take(i as int),
    {
        out.push(prepared.data[i]);
        assert(out@ =~= flat(header(prepared@, hash)) + prepared.data@.take(i + 1));
    }
    assert(prepared.data@.take(prepared.data@.len() as int) =~= prepared.data@);
    out
}

/// The word at a place in a file.
fn word_at(bytes: &[u8], i: usize) -> (r: u32)
    requires
        i < 37,
        bytes@.len() >= HEADER,
    ensures
        r == word(bytes@, i as int),
{
    u32_from_le_bytes(vstd::slice::slice_subrange(bytes, 4 * i, 4 * i + 4))
}

/// The texture that a file holds, where [`compose`] wrote it for this hash
/// and it is whole; anything else is a miss.
pub fn parse(bytes: &[u8], hash: u64) -> (r: Option<Prepared>)
    ensures
        r matches Some(prepared) ==> accepted(bytes@, hash, prepared.format) && prepared@ == held(
            bytes@,
            hash,
            prepared.format,
        ),
        r is None ==> forall|format: BlockFormat| !accepted(bytes@, hash, format),
{
    if bytes.len() < HEADER {
        return None;
    }
    if word_at(bytes, 0) != MAGIC || word_at(bytes, 1) != 124 || word_at(bytes, 8) != CACHE_MARK {
        return None;
    }
    let lower: u32 = word_at(bytes, 9);
    let upper: u32 = word_at(bytes, 10);
    proof {
        halves_make_the_whole(hash, lower, upper);
    }
    if (lower as u64 | (upper as u64) << 32) != hash {
        return None;
    }
    if word_at(bytes, 21) != FOURCC_DX10 {
        return None;
    }
    let height: u32 = word_at(bytes, 3);
    let width: u32 = word_at(bytes, 4);
    let format = match BlockFormat::from_dxgi(word_at(bytes, 32)) {
        Some(format) => format,
        None => {
            return None;
        },
    };
    let across: u64 = (width as u64 + 3) / 4;
    let down: u64 = (height as u64 + 3) / 4;
    proof {
        assert(across * down <= 0x4000_0000 * 0x4000_0000) by (nonlinear_arith)
            requires
                across <= 0x4000_0000,
                down <= 0x4000_0000,
        ;
        assert forall|other: BlockFormat| other.dxgi() == format.dxgi() implies other == format by {}
    }
    let blocks: u64 = across * down;
    let bytes_each: u64 = block_size(format);
    assert(blocks * bytes_each <= 0x1_0000_0000_0000_0000) by (nonlinear_arith)
        requires
            blocks <= 0x4000_0000 * 0x4000_0000,
            bytes_each <= 16,
    ;
    let size: u128 = blocks as u128 * bytes_each as u128;
    if width == 0 || height == 0 || (bytes.len() - HEADER) as u128 != size {
        return None;
    }
    let mut data: Vec<u8> = Vec::new();
    for i in HEADER..bytes.len()
        invariant
            bytes@.len() >= HEADER,
            data@ == bytes@.subrange(HEADER as int, i as int),
    {
        data.push(bytes[i]);
        assert(data@ =~= bytes@.subrange(HEADER as int, i + 1));
    }
    assert(data@ =~= bytes@.skip(HEADER as int));
    Some(Prepared { width, height, format, data, hash })
}

/// A cache gives back what was written to it: the file of a complete texture,
/// read for the hash that it was written with, holds that texture.
pub proof fn reading_gives_back_what_was_written(texture: Texture, hash: u64)
    requires
        texture.complete(),
    ensures
        accepted(composed(texture, hash), hash, texture.format),
        held(composed(texture, hash), hash, texture.format) == (Texture { hash, ..texture }),
{
    let words = header(texture, hash);
    let bytes = composed(texture, hash);
    flat_holds_every_word(words);
    vstd::bytes::lemma_auto_spec_u32_to_from_le_bytes();
    assert forall|i: int| 0 <= i < 37 implies word(bytes, i) == #[trigger] words[i] by {
        assert(bytes.subrange(4 * i, 4 * i + 4) =~= flat(words).subrange(4 * i, 4 * i + 4));
    }
    assert(word(bytes, 0) == words[0]);
    assert(word(bytes, 1) == words[1]);
    assert(word(bytes, 3) == words[3]);
    assert(word(bytes, 4) == words[4]);
    assert(word(bytes, 8) == words[8]);
    assert(word(bytes, 9) == words[9]);
    assert(word(bytes, 10) == words[10]);
    assert(word(bytes, 21) == words[21]);
    assert(word(bytes, 32) == words[32]);
    assert(bytes.skip(HEADER as int) =~= texture.data);
}

/// A file written for one hash is a miss for any other.
pub proof fn another_hash_is_a_miss(texture: Texture, hash: u64, other: u64, format: BlockFormat)
    requires
        hash != other,
    ensures
        !accepted(composed(texture, hash), other, format),
{
    let words = header(texture, hash);
    let bytes = composed(texture, hash);
    flat_holds_every_word(words);
    vstd::bytes::lemma_auto_spec_u32_to_from_le_bytes();
    assert(bytes.subrange(36, 40) =~= flat(words).subrange(36, 40));
    assert(bytes.subrange(40, 44) =~= flat(words).subrange(40, 44));
    assert(word(bytes, 9) == words[9]);
    assert(word(bytes, 10) == words[10]);
    halves_make_the_whole(hash, low(hash), high(hash));
    halves_make_the_whole(other, low(hash), high(hash));
}

/// What is accepted at all is complete.
pub proof fn accepted_textures_are_complete(bytes: Seq<u8>, hash: u64, format: BlockFormat)
    requires
        accepted(bytes, hash, format),
    ensures
        held(bytes, hash, format).complete(),
{
}

} // verus!
