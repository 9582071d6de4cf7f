//! What an image is read as, and what is left of its values on the way to a texture.

use vstd::prelude::*;

use crate::bits::{Num, Vec4};
use crate::codec;
use crate::dds::{BlockFormat, Texture};
use crate::description::Channel;
use crate::texels;
use crate::texels::Image;
use crate::texture;
use crate::texture::{Source, Usage};

verus! {

/// An image is carried on to whole blocks by its last column and its last row: inside, it
/// is what it was, and outside, every texel is the nearest one inside.
pub proof fn blocks_are_filled_from_the_edge<T>(
    data: Seq<T>,
    width: int,
    height: int,
    channels: int,
    across: int,
    down: int,
    column: int,
    row: int,
    part: int,
)
    requires
        1 <= width <= across < width + 4,
        1 <= height <= down < height + 4,
        across % 4 == 0,
        down % 4 == 0,
        data.len() == width * height * channels,
        0 <= column < across,
        0 <= row < down,
        0 <= part < channels,
    ensures
        texels::block_multiple(width) == across,
        texels::block_multiple(height) == down,
        texels::padded(data, width, height, channels).len() == across * down * channels,
        ({
            let nearest = if column < width {
                column
            } else {
                width - 1
            };
            let level = if row < height {
                row
            } else {
                height - 1
            };
            texels::padded(data, width, height, channels)[(row * across + column) * channels + part]
                == data[(level * width + nearest) * channels + part]
        }),
{
    let i = (row * across + column) * channels + part;
    texels::places_read_back(row, column, part, across, channels);
    assert(0 <= i < across * down * channels) by (nonlinear_arith)
        requires
            i == (row * across + column) * channels + part,
            0 <= column < across,
            0 <= row < down,
            0 <= part < channels,
    ;
}

/// The bytes of a texel of an image.
pub open spec fn bytes_at(image: Image<u8>, i: int) -> (u8, u8, u8, u8) {
    (image.values[4 * i], image.values[4 * i + 1], image.values[4 * i + 2], image.values[4 * i + 3])
}

/// A mask that is encoded for a display is decoded before it is compressed: each byte is
/// what is stored, as it is, of the light that the byte of the chosen component means.
pub proof fn encoded_masks_are_made_linear<
    L: Fn(u8, bool) -> Num,
    A: Fn(bool, Vec4, Vec4, Vec4, Vec4) -> Vec4,
    S: Fn(Num, bool) -> u8,
>(
    light: L,
    average: A,
    store: S,
    source: Source,
    channel: Channel,
    result: Texture,
)
    requires
        source.wf(),
        source is Bytes,
        source->Bytes_width % 4 == 0 && 0 < source->Bytes_width <= 4096,
        source->Bytes_height % 4 == 0 && 0 < source->Bytes_height <= 4096,
        texture::encodes(
            light,
            average,
            store,
            source,
            Usage::Scalar,
            Some(true),
            channel,
            result,
        ),
    ensures
        result.format == BlockFormat::Bc4Unorm,
        result.width == source->Bytes_width && result.height == source->Bytes_height,
        exists|linear: Seq<u8>|
            {
                &&& #[trigger] codec::bc4_makes(linear, result.width, result.height, result.data)
                &&& linear.len() == result.width * result.height
                &&& forall|i: int|
                    0 <= i < linear.len() ==> made_linear(
                        light,
                        store,
                        component(source->Bytes_rgba@, channel, i),
                        #[trigger] linear[i],
                    )
            },
{
    let width = result.width as int;
    let height = result.height as int;
    let image = Image {
        values: source->Bytes_rgba@,
        width: source->Bytes_width as int,
        height: source->Bytes_height as int,
    };
    assert(image.fits());
    let (mask, linear) = choose|mask: Seq<u8>, linear: Seq<u8>|
        #![trigger texture::picks(light, average, store, source, true, channel, width, height, mask), texture::linearizes(light, store, true, mask, linear)]
        texture::picks(light, average, store, source, true, channel, width, height, mask)
            && texture::linearizes(light, store, true, mask, linear) && codec::bc4_makes(
            texels::padded(linear, width, height, 1),
            texels::block_multiple(width) as u32,
            texels::block_multiple(height) as u32,
            result.data,
        );
    let small = choose|small: Seq<u8>|
        #[trigger] texels::caps_bytes(
            light,
            average,
            store,
            true,
            false,
            image,
            Image { values: small, width, height },
        ) && mask == texture::picked(small, channel.index() as int);
    assert(Image { values: small, width, height } == image);
    let values = choose|values: Seq<Num>|
        #[trigger] texels::lit(light, true, mask, values) && texels::kept(
            store,
            false,
            values,
            linear,
        );
    assert(codec::bc4_makes(linear, result.width, result.height, result.data));
    assert forall|i: int| 0 <= i < linear.len() implies made_linear(
        light,
        store,
        component(source->Bytes_rgba@, channel, i),
        #[trigger] linear[i],
    ) by {
        assert(call_ensures(light, (mask[i], true), values[i]));
        assert(call_ensures(store, (values[i], false), linear[i]));
    }
}

/// The component of a texel that a channel names.
pub open spec fn component<T>(rgba: Seq<T>, channel: Channel, i: int) -> T {
    match channel {
        Channel::R => rgba[4 * i],
        Channel::G => rgba[4 * i + 1],
        Channel::B => rgba[4 * i + 2],
        Channel::A => rgba[4 * i + 3],
    }
}

/// A byte is what is stored, as it is, of the light that an encoded byte means.
pub open spec fn made_linear<L: Fn(u8, bool) -> Num, S: Fn(Num, bool) -> u8>(
    light: L,
    store: S,
    encoded: u8,
    linear: u8,
) -> bool {
    exists|value: Num| #[trigger]
        call_ensures(light, (encoded, true), value) && call_ensures(store, (value, false), linear)
}

/// A mask or a normal map of floating-point values stores them as they are: a mask the
/// component that the reference names, a normal map the first two.
pub proof fn floating_masks_are_stored_as_they_are<
    L: Fn(u8, bool) -> Num,
    A: Fn(bool, Vec4, Vec4, Vec4, Vec4) -> Vec4,
    S: Fn(Num, bool) -> u8,
>(
    light: L,
    average: A,
    store: S,
    source: Source,
    usage: Usage,
    srgb: Option<bool>,
    channel: Channel,
    result: Texture,
)
    requires
        source.wf(),
        source is Float,
        usage is Scalar || usage is Normal,
        source->Float_width % 4 == 0 && 0 < source->Float_width <= 4096,
        source->Float_height % 4 == 0 && 0 < source->Float_height <= 4096,
        texture::encodes(light, average, store, source, usage, srgb, channel, result),
    ensures
        result.width == source->Float_width && result.height == source->Float_height,
        usage is Scalar ==> result.format == BlockFormat::Bc4Unorm,
        usage is Scalar && srgb != Some(true) ==> exists|mask: Seq<u8>|
            {
                &&& #[trigger] codec::bc4_makes(mask, result.width, result.height, result.data)
                &&& mask.len() == result.width * result.height
                &&& forall|i: int|
                    0 <= i < mask.len() ==> call_ensures(
                        store,
                        (component(source->Float_rgba@, channel, i), false),
                        #[trigger] mask[i],
                    )
            },
        usage is Normal ==> result.format == BlockFormat::Bc5Unorm,
        usage is Normal ==> exists|pairs: Seq<u8>|
            {
                &&& #[trigger] codec::bc5_makes(pairs, result.width, result.height, result.data)
                &&& pairs.len() == result.width * result.height * 2
                &&& forall|i: int|
                    0 <= i < result.width * result.height ==> {
                        &&& call_ensures(
                            store,
                            (source->Float_rgba@[4 * i], false),
                            #[trigger] pairs[2 * i],
                        )
                        &&& call_ensures(
                            store,
                            (source->Float_rgba@[4 * i + 1], false),
                            pairs[2 * i + 1],
                        )
                    }
            },
{
    let rgba = source->Float_rgba@;
    let width = result.width as int;
    let height = result.height as int;
    let image = Image {
        values: rgba,
        width: source->Float_width as int,
        height: source->Float_height as int,
    };
    assert(image.fits());
    if usage is Scalar {
        let encoded = srgb == Some(true);
        let (mask, linear) = choose|mask: Seq<u8>, linear: Seq<u8>|
            #![trigger texture::picks(light, average, store, source, encoded, channel, width, height, mask), texture::linearizes(light, store, encoded, mask, linear)]
            texture::picks(light, average, store, source, encoded, channel, width, height, mask)
                && texture::linearizes(light, store, encoded, mask, linear) && codec::bc4_makes(
                texels::padded(linear, width, height, 1),
                texels::block_multiple(width) as u32,
                texels::block_multiple(height) as u32,
                result.data,
            );
        let small = choose|small: Seq<Num>|
            #[trigger] texels::caps(average, false, image, Image { values: small, width, height })
                && texels::kept(
                store,
                false,
                texture::picked(small, channel.index() as int),
                mask,
            );
        assert(Image { values: small, width, height } == image);
        let parts = texture::picked(small, channel.index() as int);
        assert(parts.len() == width * height);
        if !encoded {
            assert(codec::bc4_makes(mask, result.width, result.height, result.data));
            assert forall|i: int| 0 <= i < mask.len() implies call_ensures(
                store,
                (component(rgba, channel, i), false),
                #[trigger] mask[i],
            ) by {
                assert(parts[i] == component(rgba, channel, i));
            }
        }
    } else {
        let bytes = choose|bytes: Seq<u8>|
            #[trigger] texture::directs(light, average, store, source, width, height, bytes)
                && codec::bc5_makes(
                texels::padded(texture::first_two(bytes), width, height, 2),
                texels::block_multiple(width) as u32,
                texels::block_multiple(height) as u32,
                result.data,
            );
        let small = choose|small: Seq<Num>|
            #[trigger] texels::caps(average, true, image, Image { values: small, width, height })
                && texels::kept(store, false, small, bytes);
        assert(Image { values: small, width, height } == image);
        let pairs = texture::first_two(bytes);
        assert(texels::padded(pairs, width, height, 2) == pairs);
        assert(codec::bc5_makes(pairs, result.width, result.height, result.data));
        assert forall|i: int| 0 <= i < width * height implies call_ensures(
            store,
            (rgba[4 * i], false),
            #[trigger] pairs[2 * i],
        ) && call_ensures(store, (rgba[4 * i + 1], false), pairs[2 * i + 1]) by {
            assert((2 * i) / 2 * 4 == 4 * i && (2 * i) % 2 == 0);
            assert((2 * i + 1) / 2 * 4 == 4 * i && (2 * i + 1) % 2 == 1);
            assert(bytes[4 * i] == pairs[2 * i]);
            assert(bytes[4 * i + 1] == pairs[2 * i + 1]);
        }
    }
}

/// A source has the extent of the image that was decoded, and its values one for one. It
/// is of floating-point values exactly where the file is an EXR file or the image is
/// of such values.
pub proof fn images_are_read_value_for_value(
    bytes: Seq<u8>,
    image: image::DynamicImage,
    source: Source,
)
    requires
        texture::holds_decoded(source, bytes, image),
    ensures
        source is Float == (codec::floating(image) || (bytes.len() >= 4 && bytes.take(4)
            == seq![0x76u8, 0x2f, 0x31, 0x01])),
        source matches Source::Bytes { rgba, width, height } ==> {
            &&& (width, height) == codec::extent(image)
            &&& rgba@ == codec::bytes_of(image).take(width * height * 4)
        },
        source matches Source::Float { rgba, width, height } ==> {
            &&& (width, height) == codec::extent(image)
            &&& rgba@ == codec::floats_of(image).take(width * height * 4)
        },
{
    let magic = seq![0x76u8, 0x2f, 0x31, 0x01];
    if bytes.len() >= 4 {
        if texture::exr(bytes) {
            assert(bytes.take(4) == magic);
        } else {
            assert(bytes.take(4)[0] == bytes[0] && bytes.take(4)[1] == bytes[1]);
            assert(bytes.take(4)[2] == bytes[2] && bytes.take(4)[3] == bytes[3]);
            assert(bytes.take(4) != magic) by {
                if bytes.take(4) == magic {
                    assert(magic[0] == 0x76 && magic[1] == 0x2f && magic[2] == 0x31 && magic[3]
                        == 0x01);
                }
            }
        }
    }
}

/// A file is read again by its extension only where its contents did not decode by
/// themselves, and never where they say that it is an EXR file. Where it is not read
/// again, what its contents gave stands.
pub proof fn contents_go_before_names(
    path: Seq<crate::path::Part<Seq<char>>>,
    bytes: Seq<u8>,
    outcome: Result<image::DynamicImage, Seq<char>>,
)
    requires
        texture::decodes_as(path, bytes, outcome),
    ensures
        codec::sniffs_as(bytes, outcome) || {
            &&& !texture::exr(bytes)
            &&& texture::extension(path) matches Some(extension) && codec::known_extension(
                extension,
            ) && codec::loads_as(bytes, codec::format_for(extension)->0, outcome)
            &&& exists|words: Seq<char>| #[trigger]
                codec::sniffs_as(bytes, Err::<image::DynamicImage, Seq<char>>(words))
        },
        texture::exr(bytes) || texture::extension(path) is None ==> codec::sniffs_as(
            bytes,
            outcome,
        ),
{
}

/// A color image of bytes that has to be halved is decoded, averaged as light and encoded
/// again: one of a single color, whose bytes come back from the light that they mean,
/// stays of that color.
pub proof fn plain_bytes_stay_plain<
    L: Fn(u8, bool) -> Num,
    A: Fn(bool, Vec4, Vec4, Vec4, Vec4) -> Vec4,
    S: Fn(Num, bool) -> u8,
>(
    light: L,
    average: A,
    store: S,
    srgb: bool,
    normals: bool,
    image: Image<u8>,
    small: Image<u8>,
    color: (u8, u8, u8, u8),
    means: Vec4,
)
    requires
        image.whole(),
        texels::caps_bytes(light, average, store, srgb, normals, image, small),
        forall|i: int|
            0 <= i < image.width * image.height ==> #[trigger] bytes_at(image, i) == color,
        forall|v: Num| call_ensures(light, (color.0, srgb), v) ==> v == means.x,
        forall|v: Num| call_ensures(light, (color.1, srgb), v) ==> v == means.y,
        forall|v: Num| call_ensures(light, (color.2, srgb), v) ==> v == means.z,
        forall|v: Num| call_ensures(light, (color.3, srgb), v) ==> v == means.w,
        forall|mean: Vec4|
            call_ensures(average, (normals, means, means, means, means), mean) ==> mean == means,
        forall|b: u8| call_ensures(store, (means.x, srgb), b) ==> b == color.0,
        forall|b: u8| call_ensures(store, (means.y, srgb), b) ==> b == color.1,
        forall|b: u8| call_ensures(store, (means.z, srgb), b) ==> b == color.2,
        forall|b: u8| call_ensures(store, (means.w, srgb), b) ==> b == color.3,
    ensures
        small.whole(),
        small.width <= 4096 && small.height <= 4096,
        forall|x: int, y: int|
            0 <= x < small.width && 0 <= y < small.height ==> #[trigger] bytes_in(small, x, y)
                == color,
{
    if image.fits() {
        assert forall|x: int, y: int|
            0 <= x < small.width && 0 <= y < small.height implies #[trigger] bytes_in(small, x, y)
            == color by {
            assert(0 <= y * small.width + x < small.width * small.height) by (nonlinear_arith)
                requires
                    0 <= x < small.width,
                    0 <= y < small.height,
            ;
            assert(bytes_at(image, y * small.width + x) == color);
        }
    } else {
        let (before, after) = choose|before: Seq<Num>, after: Seq<Num>|
            #![trigger texels::lit(light, srgb, image.values, before), texels::kept(store, srgb, after, small.values)]
            texels::lit(light, srgb, image.values, before) && texels::caps(
                average,
                normals,
                Image { values: before, width: image.width, height: image.height },
                Image { values: after, width: small.width, height: small.height },
            ) && texels::kept(store, srgb, after, small.values);
        let bright = Image { values: before, width: image.width, height: image.height };
        let dim = Image { values: after, width: small.width, height: small.height };
        assert forall|x: int, y: int|
            0 <= x < bright.width && 0 <= y < bright.height implies #[trigger]
            crate::pictures::texel_of(bright, x, y) == means by {
            let i = y * bright.width + x;
            assert(0 <= i < bright.width * bright.height) by (nonlinear_arith)
                requires
                    i == y * bright.width + x,
                    0 <= x < bright.width,
                    0 <= y < bright.height,
            ;
            assert(bytes_at(image, i) == color);
            assert(call_ensures(light, (image.values[4 * i], srgb), before[4 * i]));
            assert(call_ensures(light, (image.values[4 * i + 1], srgb), before[4 * i + 1]));
            assert(call_ensures(light, (image.values[4 * i + 2], srgb), before[4 * i + 2]));
            assert(call_ensures(light, (image.values[4 * i + 3], srgb), before[4 * i + 3]));
        }
        crate::pictures::plain_images_stay_plain(average, normals, bright, dim, means);
        assert forall|x: int, y: int|
            0 <= x < small.width && 0 <= y < small.height implies #[trigger] bytes_in(small, x, y)
            == color by {
            let i = y * small.width + x;
            assert(0 <= i < small.width * small.height) by (nonlinear_arith)
                requires
                    i == y * small.width + x,
                    0 <= x < small.width,
                    0 <= y < small.height,
            ;
            assert(crate::pictures::texel_of(dim, x, y) == means);
            assert(call_ensures(store, (after[4 * i], srgb), small.values[4 * i]));
            assert(call_ensures(store, (after[4 * i + 1], srgb), small.values[4 * i + 1]));
            assert(call_ensures(store, (after[4 * i + 2], srgb), small.values[4 * i + 2]));
            assert(call_ensures(store, (after[4 * i + 3], srgb), small.values[4 * i + 3]));
        }
    }
}

/// The bytes of the texel of an image in a column and a row.
pub open spec fn bytes_in(image: Image<u8>, column: int, row: int) -> (u8, u8, u8, u8) {
    bytes_at(image, row * image.width + column)
}

} // verus!
