//! The outside world's codecs: image decoders and block compressors.

// The compressors' kernels are part C++, and need its runtime linked in.
use link_cplusplus as _;
use vstd::prelude::*;

use crate::bits::Num;

verus! {

/// A decoded image.
#[verifier::external_type_specification]
#[verifier::external_body]
pub struct ExDynamicImage(image::DynamicImage);

/// A format of image files.
#[verifier::external_type_specification]
#[verifier::external_body]
pub struct ExImageFormat(image::ImageFormat);

/// What decoding the bytes, which say themselves what format they are in, can
/// come to: an image, or why there is none.
pub uninterp spec fn sniffs_as(
    bytes: Seq<u8>,
    outcome: Result<image::DynamicImage, Seq<char>>,
) -> bool;

/// What decoding the bytes in a format can come to: an image, or why there is
/// none.
pub uninterp spec fn loads_as(
    bytes: Seq<u8>,
    format: image::ImageFormat,
    outcome: Result<image::DynamicImage, Seq<char>>,
) -> bool;

/// What came back, with an error by its text.
pub open spec fn outcome(result: Result<image::DynamicImage, String>) -> Result<
    image::DynamicImage,
    Seq<char>,
> {
    match result {
        Ok(image) => Ok(image),
        Err(words) => Err(words@),
    }
}

/// The format that files with this extension have.
pub uninterp spec fn format_for(extension: Seq<char>) -> Option<image::ImageFormat>;

/// A character's number, a capital of the twenty-six by its small letter's.
pub open spec fn uncapped(c: char) -> int {
    if 'A' <= c && c <= 'Z' {
        c as u32 + 32
    } else {
        c as u32 as int
    }
}

/// The text is the word, in capitals or not.
pub open spec fn spells(text: Seq<char>, word: Seq<char>) -> bool {
    text.len() == word.len() && forall|i: int|
        0 <= i < word.len() ==> uncapped(#[trigger] text[i]) == word[i] as u32
}

/// There is a format that files with this extension have.
pub open spec fn known_extension(extension: Seq<char>) -> bool {
    ||| spells(extension, "avif"@)
    ||| spells(extension, "jpg"@)
    ||| spells(extension, "jpeg"@)
    ||| spells(extension, "jfif"@)
    ||| spells(extension, "png"@)
    ||| spells(extension, "apng"@)
    ||| spells(extension, "gif"@)
    ||| spells(extension, "webp"@)
    ||| spells(extension, "tif"@)
    ||| spells(extension, "tiff"@)
    ||| spells(extension, "tga"@)
    ||| spells(extension, "dds"@)
    ||| spells(extension, "bmp"@)
    ||| spells(extension, "ico"@)
    ||| spells(extension, "hdr"@)
    ||| spells(extension, "exr"@)
    ||| spells(extension, "pbm"@)
    ||| spells(extension, "pam"@)
    ||| spells(extension, "ppm"@)
    ||| spells(extension, "pgm"@)
    ||| spells(extension, "pnm"@)
    ||| spells(extension, "ff"@)
    ||| spells(extension, "qoi"@)
}

/// Whether an image holds floating-point values.
pub uninterp spec fn floating(image: image::DynamicImage) -> bool;

/// An image's texels across and down.
pub uninterp spec fn extent(image: image::DynamicImage) -> (u32, u32);

/// An image's texels as bytes: red, green, blue and alpha of each.
pub uninterp spec fn bytes_of(image: image::DynamicImage) -> Seq<u8>;

/// An image's texels as numbers: red, green, blue and alpha of each.
pub uninterp spec fn floats_of(image: image::DynamicImage) -> Seq<Num>;

/// Decode an image whose format its bytes tell.
///
/// Calls `image::load_from_memory`. What comes back is what its decoders make of
/// the bytes, or the text of their error. Which image that is stays unsaid: some
/// decoders have kernels that differ from one processor to the next. That they
/// come back at all, whatever the bytes, is taken from the decoders.
#[verifier::external_body]
pub(crate) fn sniff(bytes: &[u8]) -> (r: Result<image::DynamicImage, String>)
    ensures
        sniffs_as(bytes@, outcome(r)),
{
    image::load_from_memory(bytes).map_err(|error| error.to_string())
}

/// The format that files with this extension have, if there is one.
///
/// Calls `image::ImageFormat::from_extension`, which looks the extension up,
/// in capitals or not, in a fixed list.
#[verifier::external_body]
pub(crate) fn format_of(extension: &str) -> (r: Option<image::ImageFormat>)
    ensures
        r == format_for(extension@),
        r is Some == known_extension(extension@),
{
    image::ImageFormat::from_extension(extension)
}

/// Decode an image in a format.
///
/// Calls `image::load_from_memory_with_format`. What comes back is what the
/// format's decoder makes of the bytes, or the text of its error; which image
/// that is stays unsaid here too, and that the decoder comes back at all is
/// taken from it.
#[verifier::external_body]
pub(crate) fn load(bytes: &[u8], format: image::ImageFormat) -> (r: Result<
    image::DynamicImage,
    String,
>)
    ensures
        loads_as(bytes@, format, outcome(r)),
{
    image::load_from_memory_with_format(bytes, format).map_err(|error| error.to_string())
}

/// Whether an image holds floating-point values: whether the variant of
/// `image::DynamicImage` is one of the two with 32-bit components.
#[verifier::external_body]
pub(crate) fn is_floating(image: &image::DynamicImage) -> (r: bool)
    ensures
        r == floating(*image),
{
    matches!(image, image::DynamicImage::ImageRgb32F(_) | image::DynamicImage::ImageRgba32F(_))
}

/// An image's texels as bytes, and its extent.
///
/// Calls `image::DynamicImage::to_rgba8`, and takes the buffer and its
/// dimensions out of what that gives. The buffer holds four bytes for each
/// texel; it may be longer.
#[verifier::external_body]
pub(crate) fn to_bytes(image: &image::DynamicImage) -> (r: (Vec<u8>, u32, u32))
    ensures
        r.0@ == bytes_of(*image),
        (r.1, r.2) == extent(*image),
        r.0@.len() >= r.1 * r.2 * 4,
{
    let rgba = image.to_rgba8();
    let (width, height) = rgba.dimensions();
    (rgba.into_raw(), width, height)
}

/// An image's texels as numbers, and its extent.
///
/// Calls `image::DynamicImage::to_rgba32f`, and takes the buffer and its
/// dimensions out of what that gives, each number by its bits. The buffer
/// holds four numbers for each texel; it may be longer.
#[verifier::external_body]
pub(crate) fn to_floats(image: &image::DynamicImage) -> (r: (Vec<Num>, u32, u32))
    ensures
        r.0@ == floats_of(*image),
        (r.1, r.2) == extent(*image),
        r.0@.len() >= r.1 * r.2 * 4,
{
    let rgba = image.to_rgba32f();
    let (width, height) = rgba.dimensions();
    (rgba.into_raw().into_iter().map(|value| Num { bits: value.to_bits() }).collect(), width, height)
}

/// An extent that the compressors take: whole blocks, and few enough texels
/// that their sizes in bytes can be counted.
pub open spec fn blocky(width: u32, height: u32) -> bool {
    &&& 0 < width
    &&& 0 < height
    &&& width % 4 == 0
    &&& height % 4 == 0
    &&& width * height * 8 <= i32::MAX
}

/// The BC7 compressor makes these blocks of the texels.
pub uninterp spec fn bc7_makes(texels: Seq<u8>, width: u32, height: u32, blocks: Seq<u8>) -> bool;

/// The BC6H compressor makes these blocks of the texels.
pub uninterp spec fn bc6h_makes(texels: Seq<u16>, width: u32, height: u32, blocks: Seq<u8>) -> bool;

/// The BC5 compressor makes these blocks of the texels.
pub uninterp spec fn bc5_makes(texels: Seq<u8>, width: u32, height: u32, blocks: Seq<u8>) -> bool;

/// The BC4 compressor makes these blocks of the texels.
pub uninterp spec fn bc4_makes(texels: Seq<u8>, width: u32, height: u32, blocks: Seq<u8>) -> bool;

/// Compress color texels of four bytes each.
///
/// Calls `intel_tex_2::bc7::compress_blocks` with its settings for opaque
/// textures. There are sixteen bytes for every block of four by four texels;
/// which bytes is left to the compressor, whose kernels differ from one
/// processor to the next.
#[verifier::external_body]
pub(crate) fn compress_bc7(texels: &[u8], width: u32, height: u32) -> (r: Vec<u8>)
    requires
        blocky(width, height),
        texels@.len() == width * height * 4,
    ensures
        r@.len() == (width / 4) * (height / 4) * 16,
        bc7_makes(texels@, width, height, r@),
{
    let surface = intel_tex_2::RgbaSurface { data: texels, width, height, stride: width * 4 };
    intel_tex_2::bc7::compress_blocks(&intel_tex_2::bc7::opaque_basic_settings(), &surface)
}

/// Compress color texels of four half-precision values each.
///
/// Calls `intel_tex_2::bc6h::compress_blocks` with its basic settings, on the
/// values' bytes as `bytemuck::cast_slice` lays them out. There are sixteen
/// bytes for every block of four by four texels; which bytes is left to the
/// compressor, whose kernels differ from one processor to the next.
#[verifier::external_body]
pub(crate) fn compress_bc6h(texels: &[u16], width: u32, height: u32) -> (r: Vec<u8>)
    requires
        blocky(width, height),
        texels@.len() == width * height * 4,
    ensures
        r@.len() == (width / 4) * (height / 4) * 16,
        bc6h_makes(texels@, width, height, r@),
{
    let data = bytemuck::cast_slice(texels);
    let surface = intel_tex_2::RgbaSurface { data, width, height, stride: width * 8 };
    intel_tex_2::bc6h::compress_blocks(&intel_tex_2::bc6h::basic_settings(), &surface)
}

/// Compress texels of two bytes each.
///
/// Calls `intel_tex_2::bc5::compress_blocks`. There are sixteen bytes for
/// every block of four by four texels; which bytes is left to the compressor,
/// whose kernels differ from one processor to the next.
#[verifier::external_body]
pub(crate) fn compress_bc5(texels: &[u8], width: u32, height: u32) -> (r: Vec<u8>)
    requires
        blocky(width, height),
        texels@.len() == width * height * 2,
    ensures
        r@.len() == (width / 4) * (height / 4) * 16,
        bc5_makes(texels@, width, height, r@),
{
    let surface = intel_tex_2::RgSurface { data: texels, width, height, stride: width * 2 };
    intel_tex_2::bc5::compress_blocks(&surface)
}

/// Compress texels of one byte each.
///
/// Calls `intel_tex_2::bc4::compress_blocks`. There are eight bytes for every
/// block of four by four texels; which bytes is left to the compressor, whose
/// kernels differ from one processor to the next.
#[verifier::external_body]
pub(crate) fn compress_bc4(texels: &[u8], width: u32, height: u32) -> (r: Vec<u8>)
    requires
        blocky(width, height),
        texels@.len() == width * height,
    ensures
        r@.len() == (width / 4) * (height / 4) * 8,
        bc4_makes(texels@, width, height, r@),
{
    let surface = intel_tex_2::RSurface { data: texels, width, height, stride: width };
    intel_tex_2::bc4::compress_blocks(&surface)
}

} // verus!
