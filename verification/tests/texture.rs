//! Texture preparation: decoding, the extent limit, compression, the cache.

use std::collections::BTreeMap;

use cenote::bits::{Num, Vec2, Vec4};
use cenote::dds::{self, BlockFormat, Prepared};
use cenote::description::Channel;
use cenote::path::FilePath;
use cenote::table::{Order, Ranked};
use cenote::texels::{half_bits, mip_cap_bytes, mip_cap_floats, pad_to_blocks, MAX_DIM};
use cenote::texture::{
    cache_hash, cache_path, decode, encode_source, finish_hash, fnv1a, prepare, source_of, Key,
    Params, Source, Stamp, Stamps, TextureError, TextureProblem, Usage, FNV_OFFSET,
};

fn num(value: f32) -> Num {
    Num::new(value.to_bits())
}

fn float(value: Num) -> f32 {
    f32::from_bits(value.bits)
}

fn path(text: &str) -> FilePath {
    FilePath::new(text.to_owned())
}

fn srgb_to_linear(value: f32) -> f32 {
    if value <= 0.040_45 {
        value / 12.92
    } else {
        ((value + 0.055) / 1.055).powf(2.4)
    }
}

fn linear_to_srgb(value: f32) -> f32 {
    if value <= 0.003_130_8 {
        value * 12.92
    } else {
        1.055 * value.powf(1.0 / 2.4) - 0.055
    }
}

fn quantize(value: f32) -> u8 {
    (value.clamp(0.0, 1.0) * 255.0).round() as u8
}

fn light(byte: u8, srgb: bool) -> Num {
    let value = f32::from(byte) / 255.0;
    num(if srgb { srgb_to_linear(value) } else { value })
}

fn average(_normals: bool, a: Vec4, b: Vec4, c: Vec4, d: Vec4) -> Vec4 {
    let mean = |a: Num, b: Num, c: Num, d: Num| {
        num((float(a) + float(b) + float(c) + float(d)) * 0.25)
    };
    Vec4 {
        x: mean(a.x, b.x, c.x, d.x),
        y: mean(a.y, b.y, c.y, d.y),
        z: mean(a.z, b.z, c.z, d.z),
        w: mean(a.w, b.w, c.w, d.w),
    }
}

fn store(value: Num, srgb: bool) -> u8 {
    let value = float(value);
    quantize(if srgb { linear_to_srgb(value) } else { value })
}

/// Files that last as long as a test.
struct Files {
    held: BTreeMap<String, Vec<u8>>,
}

impl Files {
    fn new() -> Self {
        Files { held: BTreeMap::new() }
    }

    fn write(&mut self, at: &str, bytes: Vec<u8>) {
        self.held.insert(at.to_owned(), bytes);
    }

    fn has(&self, at: &FilePath) -> bool {
        self.held.contains_key(&at.text)
    }

    fn prepare(
        &mut self,
        at: &str,
        usage: Usage,
        srgb: Option<bool>,
        channel: Channel,
    ) -> Result<Prepared, TextureError> {
        let source = path(at);
        let bytes = match self.held.get(at) {
            Some(bytes) => bytes.clone(),
            None => {
                return Err(TextureProblem::Unreadable {
                    path: at.to_owned(),
                    reason: "no such file".to_owned(),
                });
            }
        };
        let cache = cache_path(&source, usage, srgb, channel);
        let cached = self.held.get(&cache.text).cloned();
        let outcome =
            prepare(&source, &bytes, cached, usage, srgb, channel, &light, &average, &store)?;
        if let Some(fresh) = outcome.fresh {
            self.write(&cache.text, fresh);
        }
        Ok(outcome.prepared)
    }
}

fn png(width: u32, height: u32, rgba: &[u8]) -> Vec<u8> {
    let mut bytes = Vec::new();
    image::write_buffer_with_format(
        &mut std::io::Cursor::new(&mut bytes),
        rgba,
        width,
        height,
        image::ColorType::Rgba8,
        image::ImageFormat::Png,
    )
    .expect("in-memory PNG encode");
    bytes
}

fn exr(width: u32, height: u32, rgba: &[f32]) -> Vec<u8> {
    let mut bytes = Vec::new();
    image::write_buffer_with_format(
        &mut std::io::Cursor::new(&mut bytes),
        bytemuck::cast_slice(rgba),
        width,
        height,
        image::ColorType::Rgba32F,
        image::ImageFormat::OpenExr,
    )
    .expect("in-memory EXR encode");
    bytes
}

/// Decode one BC4 block into its 16 texel values.
fn decode_bc4(block: &[u8]) -> [u8; 16] {
    let (e0, e1) = (block[0], block[1]);
    let palette: [u8; 8] = if e0 > e1 {
        std::array::from_fn(|i| match i {
            0 => e0,
            1 => e1,
            _ => ((u16::from(e0) * (8 - i as u16) + u16::from(e1) * (i as u16 - 1)) / 7) as u8,
        })
    } else {
        std::array::from_fn(|i| match i {
            0 => e0,
            1 => e1,
            6 => 0,
            7 => 255,
            _ => ((u16::from(e0) * (6 - i as u16) + u16::from(e1) * (i as u16 - 1)) / 5) as u8,
        })
    };
    let mut indices = u64::from_le_bytes(block.try_into().expect("8-byte block")) >> 16;
    std::array::from_fn(|_| {
        let value = palette[(indices & 0x7) as usize];
        indices >>= 3;
        value
    })
}

#[test]
fn half_conversion_hits_reference_values() {
    for (value, bits) in [
        (0.0, 0x0000),
        (1.0, 0x3c00),
        (0.5, 0x3800),
        (2.0, 0x4000),
        (65504.0, 0x7bff),
        (1e9, 0x7bff),            // saturates, never inf
        (-3.0, 0x0000),           // unsigned: negatives clamp
        (5.960_464_5e-8, 0x0001), // smallest half subnormal
        (0.333_251_95, 0x3555),   // 1/3 rounded to nearest even
    ] {
        assert_eq!(half_bits(num(value)), bits, "half({value})");
    }
}

#[test]
fn half_conversion_of_what_is_no_ordinary_number() {
    assert_eq!(half_bits(num(f32::NAN)), 0);
    assert_eq!(half_bits(num(f32::INFINITY)), 0x7bff);
    assert_eq!(half_bits(num(f32::NEG_INFINITY)), 0);
    assert_eq!(half_bits(num(-0.0)), 0);
    assert_eq!(half_bits(num(f32::MIN_POSITIVE)), 0);
    // A tie between two normals goes to the even one.
    assert_eq!(half_bits(num(1.0 + 1.0 / 2048.0)), 0x3c00);
    assert_eq!(half_bits(num(1.0 + 3.0 / 2048.0)), 0x3c02);
    // A tie between two subnormals goes up.
    assert_eq!(half_bits(num(1.5 / 16_777_216.0)), 2);
}

/// TGA is the one source format with no magic bytes: decode must fall
/// back to the extension hint, and must read the format's BGR order.
#[test]
fn tga_decodes_via_the_extension_hint() {
    // Uncompressed 24-bit truecolor, 1x1, one pure-red texel (BGR).
    let mut tga = vec![0u8; 18];
    tga[2] = 2; // image type: uncompressed truecolor
    tga[12] = 1; // width
    tga[14] = 1; // height
    tga[16] = 24; // bits per pixel
    tga.extend_from_slice(&[0, 0, 255]);

    let Source::Bytes {
        rgba,
        width,
        height,
    } = decode(&path("texel.tga"), &tga).expect("TGA decodes")
    else {
        panic!("byte source expected");
    };
    assert_eq!((width, height), (1, 1));
    assert_eq!(rgba, [255, 0, 0, 255]);

    // Without the extension there is nothing to hint with: the sniff
    // error must survive untouched.
    assert!(decode(&path("texel"), &tga).is_err());
    assert!(decode(&path("TEXEL.Tga"), &tga).is_ok(), "capitals name the same format");
    assert!(decode(&path("texel.tgax"), &tga).is_err());
}

#[test]
fn mip_cap_halves_to_the_cap_and_averages() {
    let width = MAX_DIM * 2;
    let rgba = vec![num(0.5f32); (width * 2 * 4) as usize];
    let (halved, w, h) = mip_cap_floats(rgba, width, 2, false, &average);
    assert_eq!((w, h), (MAX_DIM, 1));
    assert!(halved.iter().all(|&v| (float(v) - 0.5).abs() < 1e-6));

    // A checker of 0 and 1 wider than the cap averages to exactly 0.5.
    let checker: Vec<Num> = (0..width).flat_map(|x| [num((x % 2) as f32); 4]).collect();
    let (avg, w, h) = mip_cap_floats(checker, width, 1, false, &average);
    assert_eq!((w, h), (MAX_DIM, 1));
    assert!(
        avg.iter().all(|&v| (float(v) - 0.5).abs() < 1e-6),
        "halving should average texel pairs"
    );
}

#[test]
fn bytes_within_the_cap_keep_their_values() {
    let rgba: Vec<u8> = (0..3 * 2 * 4).collect();
    let (kept, w, h) =
        mip_cap_bytes(rgba.clone(), 3, 2, true, false, &light, &average, &store);
    assert_eq!((w, h), (3, 2));
    assert_eq!(kept, rgba);

    let wide = vec![100u8; (MAX_DIM as usize + 2) * 4];
    let (capped, w, h) =
        mip_cap_bytes(wide, MAX_DIM + 2, 1, true, false, &light, &average, &store);
    assert_eq!((w, h), (MAX_DIM / 2 + 1, 1));
    assert!(capped.iter().all(|&v| v == 100), "a flat image stays flat");
}

#[test]
fn padding_replicates_edges_to_block_multiples() {
    // A 3x2 single-channel image pads to 4x4.
    let data = [1u8, 2, 3, 4, 5, 6];
    let (padded, pw, ph) = pad_to_blocks(&data, 3, 2, 1);
    assert_eq!((pw, ph), (4, 4));
    assert_eq!(padded, [1, 2, 3, 3, 4, 5, 6, 6, 4, 5, 6, 6, 4, 5, 6, 6]);
}

#[test]
fn padding_leaves_whole_blocks_alone() {
    let data: Vec<u16> = (0..4 * 8 * 2).collect();
    let (padded, pw, ph) = pad_to_blocks(&data, 4, 8, 2);
    assert_eq!((pw, ph), (4, 8));
    assert_eq!(padded, data);
    let (none, pw, ph) = pad_to_blocks::<u8>(&[], 0, 0, 4);
    assert_eq!((none.len(), pw, ph), (0, 0, 0));
    // Two components per texel travel together.
    let (padded, pw, ph) = pad_to_blocks(&[1u8, 2], 1, 1, 2);
    assert_eq!((pw, ph), (4, 4));
    assert_eq!(padded, [1u8, 2].repeat(16));
}

/// The scalar path end to end, decoded by the reference BC4 decoder:
/// a flat block must come back exact, a two-value block within BC4's
/// 3-bit palette quantization.
#[test]
fn scalar_textures_encode_to_faithful_bc4() {
    let mut files = Files::new();
    let mut rgba = vec![0u8; 4 * 4 * 4];
    for (index, texel) in rgba.chunks_exact_mut(4).enumerate() {
        let value = if index < 8 { 64 } else { 192 };
        texel.copy_from_slice(&[value, 0, 0, 255]);
    }
    files.write("bc4/mask.png", png(4, 4, &rgba));
    let prepared =
        files.prepare("bc4/mask.png", Usage::Scalar, None, Channel::R).expect("prepare");
    assert_eq!(prepared.format, BlockFormat::Bc4Unorm);
    assert_eq!(prepared.data.len(), 8);
    let decoded = decode_bc4(&prepared.data);
    for (index, value) in decoded.iter().enumerate() {
        let expected = if index < 8 { 64i32 } else { 192 };
        assert!(
            (i32::from(*value) - expected).abs() <= 2,
            "texel {index}: {value} vs {expected}"
        );
    }
}

/// Each channel of one packed image bakes its own BC4: four distinct
/// caches, each holding that channel's flat value exactly. Red spells the
/// plain cache name.
#[test]
fn scalar_channels_bake_and_cache_separately() {
    let mut files = Files::new();
    let texel = [10u8, 120, 200, 250];
    let rgba: Vec<u8> = texel.iter().copied().cycle().take(4 * 4 * 4).collect();
    files.write("channels/orm.png", png(4, 4, &rgba));
    for (channel, expected) in [
        (Channel::R, 10u8),
        (Channel::G, 120),
        (Channel::B, 200),
        (Channel::A, 250),
    ] {
        let prepared =
            files.prepare("channels/orm.png", Usage::Scalar, None, channel).expect("prepare");
        assert_eq!(prepared.format, BlockFormat::Bc4Unorm);
        let decoded = decode_bc4(&prepared.data);
        assert!(
            decoded.iter().all(|&value| value == expected),
            "channel {channel:?}: {decoded:?} vs flat {expected}"
        );
        assert!(files.has(&cache_path(&path("channels/orm.png"), Usage::Scalar, None, channel)));
    }
    assert_eq!(
        cache_path(&path("channels/orm.png"), Usage::Scalar, None, Channel::R),
        path("channels/orm.png.scalar.dds"),
        "red must keep the plain cache name"
    );
}

/// The cache lifecycle: a first prep writes the DDS, a second returns
/// the identical bytes from it, corruption re-encodes over it, and a
/// source edit invalidates it by hash.
#[test]
fn the_dds_cache_hits_and_invalidates_by_content() {
    let mut files = Files::new();
    let at = "cache/wood.png";
    files.write(at, png(8, 8, &vec![180u8; 8 * 8 * 4]));

    let first = files.prepare(at, Usage::Color, None, Channel::R).expect("prepare");
    let cache = cache_path(&path(at), Usage::Color, None, Channel::R);
    assert!(files.has(&cache), "prep should write {}", cache.text);
    assert_eq!(first.format, BlockFormat::Bc7Srgb);

    let second = files.prepare(at, Usage::Color, None, Channel::R).expect("prepare again");
    assert_eq!(first.data, second.data);
    assert_eq!((first.width, first.height), (second.width, second.height));

    // Corrupt the cache: parse fails, prep re-encodes and rewrites.
    files.write(&cache.text, b"not a dds".to_vec());
    let repaired = files.prepare(at, Usage::Color, None, Channel::R).expect("repair");
    assert_eq!(first.data, repaired.data);
    assert!(dds::parse(
        &files.held[&cache.text],
        cache_hash(&files.held[at], Usage::Color, None, Channel::R)
    )
    .is_some());

    // Edit the source: the stale hash reads as a miss.
    files.write(at, png(8, 8, &vec![20u8; 8 * 8 * 4]));
    let edited = files.prepare(at, Usage::Color, None, Channel::R).expect("re-encode");
    assert_ne!(first.data, edited.data);

    // Distinct usages cache separately.
    let scalar = files.prepare(at, Usage::Scalar, None, Channel::R).expect("scalar");
    assert_ne!(scalar.format, edited.format);
    assert!(files.has(&cache_path(&path(at), Usage::Scalar, None, Channel::R)));
}

/// A cache that counts is the answer even where the source would not decode.
#[test]
fn a_valid_cache_is_taken_without_decoding() {
    let bytes = b"no image at all";
    let hash = cache_hash(bytes, Usage::Normal, None, Channel::R);
    let planted = Prepared {
        width: 5,
        height: 3,
        format: BlockFormat::Bc5Unorm,
        data: (0..2 * 16).collect(),
        hash,
    };
    let file = dds::compose(&planted, hash);
    let outcome = prepare(
        &path("n.png"),
        bytes,
        Some(file),
        Usage::Normal,
        None,
        Channel::R,
        &light,
        &average,
        &store,
    )
    .expect("cached");
    assert!(outcome.fresh.is_none());
    assert_eq!(outcome.prepared, planted);
}

/// Color-space handling: default 8-bit color is an sRGB view over the
/// exact source bytes; an explicit linear override switches the view;
/// a float source becomes BC6H regardless.
#[test]
fn color_spaces_resolve_by_slot_and_source() {
    let mut files = Files::new();
    files.write("c.png", png(4, 4, &[255u8; 4 * 4 * 4]));
    assert_eq!(
        files.prepare("c.png", Usage::Color, None, Channel::R).expect("srgb").format,
        BlockFormat::Bc7Srgb
    );
    assert_eq!(
        files.prepare("c.png", Usage::Color, Some(false), Channel::R).expect("linear").format,
        BlockFormat::Bc7Unorm
    );

    files.write("c.exr", exr(4, 4, &[1.5f32; 4 * 4 * 4]));
    assert_eq!(
        files.prepare("c.exr", Usage::Color, None, Channel::R).expect("hdr").format,
        BlockFormat::Bc6hUfloat
    );

    // Radiance HDR is a float source too: quantizing it to BC7 would
    // clip its range and apply an sRGB view RGBE never had.
    let mut rgbe = b"#?RADIANCE\nFORMAT=32-bit_rle_rgbe\n\n-Y 1 +X 2\n".to_vec();
    rgbe.extend_from_slice(&[128, 64, 32, 129, 128, 64, 32, 129]);
    files.write("c.hdr", rgbe);
    assert_eq!(
        files.prepare("c.hdr", Usage::Color, None, Channel::R).expect("radiance").format,
        BlockFormat::Bc6hUfloat
    );
}

#[test]
fn a_vector_is_linear_unless_said_otherwise() {
    let mut files = Files::new();
    files.write("v.png", png(4, 4, &[9u8; 4 * 4 * 4]));
    assert_eq!(
        files.prepare("v.png", Usage::Vector, None, Channel::R).expect("linear").format,
        BlockFormat::Bc7Unorm
    );
    assert_eq!(
        files.prepare("v.png", Usage::Vector, Some(true), Channel::R).expect("srgb").format,
        BlockFormat::Bc7Srgb
    );
}

/// The stat-revalidated fast path must agree with the full read: same
/// hash as preparing stamps, stable across the memoized second look,
/// and moved by a content edit (which moves size or mtime).
#[test]
fn the_expected_hash_matches_prepare_without_rereading() {
    let mut files = Files::new();
    let mut stamps = Stamps::new();
    let at = path("stamp/s.png");
    files.write(&at.text, png(2, 2, &[10u8; 2 * 2 * 4]));
    let size = files.held[&at.text].len() as u64;
    assert_eq!(stamps.recall(&at, size, 7, Usage::Color, None, Channel::R), None);
    let first = stamps.expected_hash(
        &at,
        size,
        7,
        &files.held[&at.text],
        Usage::Color,
        None,
        Channel::R,
    );
    let prepared =
        files.prepare(&at.text, Usage::Color, None, Channel::R).expect("prep");
    assert_eq!(first, prepared.hash);
    assert_eq!(Some(first), stamps.recall(&at, size, 7, Usage::Color, None, Channel::R));
    assert_ne!(Some(first), stamps.recall(&at, size, 7, Usage::Scalar, None, Channel::G));

    files.write(&at.text, png(4, 4, &[20u8; 4 * 4 * 4]));
    let size = files.held[&at.text].len() as u64;
    assert_eq!(stamps.recall(&at, size, 8, Usage::Color, None, Channel::R), None);
    let edited = stamps.expected_hash(
        &at,
        size,
        8,
        &files.held[&at.text],
        Usage::Color,
        None,
        Channel::R,
    );
    assert_ne!(first, edited);
    assert_eq!(
        edited,
        files.prepare(&at.text, Usage::Color, None, Channel::R).expect("prep").hash
    );
    // Another spelling of the path is the same file.
    assert_eq!(
        Some(edited),
        stamps.recall(&path("stamp//./s.png"), size, 8, Usage::Color, None, Channel::R)
    );
}

#[test]
fn unreadable_and_undecodable_sources_are_scene_errors() {
    let mut files = Files::new();
    let missing = files.prepare("errors/nope.png", Usage::Color, None, Channel::R);
    assert!(matches!(missing, Err(TextureProblem::Unreadable { .. })));

    files.write("errors/garbage.png", b"not an image".to_vec());
    let undecodable = files.prepare("errors/garbage.png", Usage::Color, None, Channel::R);
    assert!(matches!(undecodable, Err(TextureProblem::Undecodable { .. })));
}

#[test]
fn a_broken_exr_is_called_one() {
    let error = decode(&path("x.png"), &[0x76, 0x2f, 0x31, 0x01, 0xff]).expect_err("broken");
    let message = error.message();
    assert!(
        message.starts_with("texture \"x.png\": doesn't decode as an EXR: "),
        "{message}"
    );
}

#[test]
fn an_image_without_texels_is_refused() {
    let empty = Source::Bytes { rgba: Vec::new(), width: 0, height: 3 };
    let error = encode_source(
        &path("z.png"),
        empty,
        Usage::Color,
        None,
        Channel::R,
        1,
        &light,
        &average,
        &store,
    )
    .expect_err("zero-sized");
    assert_eq!(error.message(), "texture \"z.png\": zero-sized image");
    let unreadable: TextureError = TextureProblem::Unreadable {
        path: "a".to_owned(),
        reason: "gone".to_owned(),
    };
    assert_eq!(unreadable.message(), "texture \"a\": can't read: gone");
    let undecodable: TextureError = TextureProblem::Undecodable {
        path: "a".to_owned(),
        reason: "noise".to_owned(),
    };
    assert_eq!(undecodable.message(), "texture \"a\": doesn't decode: noise");
}

/// A float image keeps its range, a byte image its bytes.
#[test]
fn images_keep_what_they_hold() {
    let floats = image::load_from_memory(&exr(1, 2, &[1.5, 0.25, 3.0, 1.0, 8.0, 0.5, 0.0, 1.0]))
        .expect("exr");
    let Source::Float { rgba, width, height } = source_of(&floats) else {
        panic!("float source expected");
    };
    assert_eq!((width, height), (1, 2));
    let values: Vec<f32> = rgba.into_iter().map(float).collect();
    assert_eq!(values, [1.5, 0.25, 3.0, 1.0, 8.0, 0.5, 0.0, 1.0]);
    let bytes = image::load_from_memory(&png(2, 1, &[1, 2, 3, 4, 5, 6, 7, 8])).expect("png");
    let Source::Bytes { rgba, width, height } = source_of(&bytes) else {
        panic!("byte source expected");
    };
    assert_eq!((width, height), (2, 1));
    assert_eq!(rgba, [1, 2, 3, 4, 5, 6, 7, 8]);
}

#[test]
fn a_normal_map_takes_two_components() {
    let mut files = Files::new();
    let rgba: Vec<u8> = [60u8, 190, 255, 255].iter().copied().cycle().take(4 * 4 * 4).collect();
    files.write("n.png", png(4, 4, &rgba));
    let prepared = files.prepare("n.png", Usage::Normal, None, Channel::R).expect("normal");
    assert_eq!(prepared.format, BlockFormat::Bc5Unorm);
    assert_eq!(prepared.data.len(), 16);
    assert!(decode_bc4(&prepared.data[..8]).iter().all(|&v| v == 60));
    assert!(decode_bc4(&prepared.data[8..]).iter().all(|&v| v == 190));
}

#[test]
fn an_srgb_mask_is_linearized() {
    let mut files = Files::new();
    files.write("m.png", png(4, 4, &[188u8; 4 * 4 * 4]));
    let prepared = files.prepare("m.png", Usage::Scalar, Some(true), Channel::R).expect("mask");
    let expected = quantize(srgb_to_linear(188.0 / 255.0));
    assert!(decode_bc4(&prepared.data).iter().all(|&v| v == expected));
}

#[test]
fn caches_are_named_after_their_source() {
    let at = path("a/wood.png");
    let named = |usage, srgb, channel| cache_path(&at, usage, srgb, channel).text;
    assert_eq!(named(Usage::Color, None, Channel::R), "a/wood.png.color.dds");
    assert_eq!(named(Usage::Scalar, None, Channel::G), "a/wood.png.scalar.g.dds");
    assert_eq!(named(Usage::Color, Some(true), Channel::R), "a/wood.png.color.srgb.dds");
    assert_eq!(named(Usage::Vector, Some(false), Channel::B), "a/wood.png.vector.b.linear.dds");
    assert_eq!(
        cache_path(&path("/"), Usage::Normal, None, Channel::A).text,
        "/.normal.a.dds"
    );
    assert_eq!(cache_path(&path("./x"), Usage::Color, None, Channel::R).text, "./x.color.dds");
}

#[test]
fn hashing_follows_fnv_1a() {
    assert_eq!(fnv1a(FNV_OFFSET, b""), 0xcbf2_9ce4_8422_2325);
    assert_eq!(fnv1a(FNV_OFFSET, b"a"), 0xaf63_dc4c_8601_ec8c);
    assert_eq!(fnv1a(FNV_OFFSET, b"foobar"), 0x8594_4171_f739_67e8);
    assert_eq!(fnv1a(fnv1a(FNV_OFFSET, b"foo"), b"bar"), 0x8594_4171_f739_67e8);
    let mut spelled = b"#?pixels".to_vec();
    spelled.extend_from_slice(b"scalar.aradiance-float\x01\x02\x00\x10\x00\x00");
    assert_eq!(
        cache_hash(b"#?pixels", Usage::Scalar, Some(true), Channel::A),
        fnv1a(FNV_OFFSET, &spelled)
    );
    assert_eq!(
        finish_hash(Stamp::of(b"x"), Usage::Color, None, Channel::R),
        fnv1a(FNV_OFFSET, b"xcolor\x01\x00\x00\x10\x00\x00")
    );
}

#[test]
fn cache_files_have_the_documented_layout() {
    let prepared = Prepared {
        width: 8,
        height: 4,
        format: BlockFormat::Bc4Unorm,
        data: (0..16).collect(),
        hash: 0x0123_4567_89ab_cdef,
    };
    let file = dds::compose(&prepared, prepared.hash);
    assert_eq!(file.len(), 148 + 16);
    let word = |i: usize| u32::from_le_bytes(file[4 * i..4 * i + 4].try_into().expect("word"));
    assert_eq!(&file[..4], b"DDS ");
    assert_eq!(word(2), 0x1 | 0x2 | 0x4 | 0x1000 | 0x0008_0000);
    assert_eq!((word(3), word(4), word(5)), (4, 8, 16));
    assert_eq!(&file[32..36], b"1TNC");
    assert_eq!((word(9), word(10)), (0x89ab_cdef, 0x0123_4567));
    assert_eq!(&file[84..88], b"DX10");
    assert_eq!((word(19), word(20), word(27)), (32, 4, 0x1000));
    assert_eq!((word(32), word(33), word(34), word(35), word(36)), (80, 3, 0, 1, 0));
    assert_eq!(dds::parse(&file, prepared.hash), Some(prepared));
    assert_eq!(dds::parse(&file, 7), None);
    assert_eq!(dds::parse(&file[..163], 0x0123_4567_89ab_cdef), None);
    for at in [0usize, 4, 32, 84, 128] {
        let mut broken = file.clone();
        broken[at] ^= 0x40;
        assert_eq!(dds::parse(&broken, 0x0123_4567_89ab_cdef), None, "byte {at}");
    }
    for (format, number) in [
        (BlockFormat::Bc4Unorm, 80),
        (BlockFormat::Bc5Unorm, 83),
        (BlockFormat::Bc6hUfloat, 95),
        (BlockFormat::Bc7Unorm, 98),
        (BlockFormat::Bc7Srgb, 99),
    ] {
        assert_eq!(format.dxgi(), number);
        assert_eq!(BlockFormat::from_dxgi(number), Some(format));
    }
    assert_eq!(BlockFormat::from_dxgi(1), None);
}

#[test]
fn keys_order_by_path_and_parameters() {
    let key = |at: &str, usage: Usage, srgb: Option<bool>, channel: Channel, scale: Option<f32>| Key {
        path: path(at),
        usage,
        srgb,
        channel,
        params: Params::new(None, scale.map(num)),
    };
    let base = key("a/b", Usage::Color, None, Channel::R, None);
    assert_eq!(base.order(&key("a//b/", Usage::Color, None, Channel::R, None)), Order::Equal);
    assert_eq!(base.order(&key("a/c", Usage::Color, None, Channel::R, None)), Order::Less);
    assert_eq!(base.order(&key("a", Usage::Normal, None, Channel::R, None)), Order::Greater);
    assert_eq!(base.order(&key("a/b", Usage::Scalar, None, Channel::R, None)), Order::Less);
    assert_eq!(base.order(&key("a/b", Usage::Color, Some(false), Channel::R, None)), Order::Less);
    assert_eq!(base.order(&key("a/b", Usage::Color, None, Channel::G, None)), Order::Less);
    assert_eq!(base.order(&key("a/b", Usage::Color, None, Channel::R, Some(0.5))), Order::Greater);
    let plain = Params::new(None, None);
    assert_eq!(plain.unpack(), (Vec2::splat(0x3f80_0000), Vec2::splat(0), num(1.0)));
}
