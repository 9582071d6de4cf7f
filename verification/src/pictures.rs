//! What becomes of a picture: what halving makes of every texel, and what the
//! compressors are handed for each use.

use vstd::arithmetic::power2::pow2;
use vstd::prelude::*;

use crate::bits::{Num, Vec4, INFINITE};
use crate::codec;
use crate::dds::{BlockFormat, Texture};
use crate::description::Channel;
use crate::texels;
use crate::texels::{Image, MAX_DIM};
use crate::texture;
use crate::texture::{Source, Usage};

verus! {

/// The texel of an image in a column and a row.
pub open spec fn texel_of(image: Image<Num>, column: int, row: int) -> Vec4 {
    let at = (row * image.width + column) * 4;
    Vec4 {
        x: image.values[at],
        y: image.values[at + 1],
        z: image.values[at + 2],
        w: image.values[at + 3],
    }
}

/// Halving covers the whole image: the texel in a column and a row is the average of
/// the four in twice the column and row and in the next ones, in reading order.
/// Along an extent of a single texel that one stands for both. So every texel of
/// an image of even extents goes into exactly one, and the last row is made of
/// the last two.
pub proof fn halving_covers_the_image<A: Fn(bool, Vec4, Vec4, Vec4, Vec4) -> Vec4>(
    average: A,
    normals: bool,
    image: Image<Num>,
    half: Image<Num>,
    column: int,
    row: int,
)
    requires
        image.width >= 1,
        image.height >= 1,
        texels::halves(
            average,
            normals,
            image.values,
            image.width,
            image.height,
            half.values,
        ),
        half.width == (if image.width == 1 { 1 } else { image.width / 2 }),
        half.height == (if image.height == 1 { 1 } else { image.height / 2 }),
        0 <= column < half.width,
        0 <= row < half.height,
    ensures
        half.values.len() == half.width * half.height * 4,
        ({
            let right = if image.width == 1 { 0 } else { 2 * column + 1 };
            let below = if image.height == 1 { 0 } else { 2 * row + 1 };
            call_ensures(
                average,
                (
                    normals,
                    texel_of(image, 2 * column, 2 * row),
                    texel_of(image, right, 2 * row),
                    texel_of(image, 2 * column, below),
                    texel_of(image, right, below),
                ),
                texel_of(half, column, row),
            )
        }),
{
    let i = row * half.width + column;
    assert(0 <= i < half.width * half.height) by (nonlinear_arith)
        requires
            i == row * half.width + column,
            0 <= column < half.width,
            0 <= row < half.height,
    ;
    vstd::arithmetic::div_mod::lemma_fundamental_div_mod_converse(i, half.width, row, column);
    assert(texels::averages(
        average,
        normals,
        image.values,
        image.width,
        image.height,
        half.values,
        i,
    ));
    let x = 2 * column;
    let y = 2 * row;
    let right = if image.width == 1 { 0 } else { 2 * column + 1 };
    let below = if image.height == 1 { 0 } else { 2 * row + 1 };
    assert(texels::texel_near(image.values, image.width, image.height, x, y) == texel_of(image, x, y));
    assert(texels::texel_near(image.values, image.width, image.height, x + 1, y) == texel_of(
        image,
        right,
        y,
    ));
    assert(texels::texel_near(image.values, image.width, image.height, x, y + 1) == texel_of(
        image,
        x,
        below,
    ));
    assert(texels::texel_near(image.values, image.width, image.height, x + 1, y + 1) == texel_of(
        image,
        right,
        below,
    ));
    assert(texels::texel(half.values, i) == texel_of(half, column, row));
}

/// An image of one color, which averages to itself, is of that color after any
/// number of halvings.
pub proof fn plain_images_stay_plain<A: Fn(bool, Vec4, Vec4, Vec4, Vec4) -> Vec4>(
    average: A,
    normals: bool,
    image: Image<Num>,
    small: Image<Num>,
    color: Vec4,
)
    requires
        image.whole(),
        texels::caps(average, normals, image, small),
        forall|x: int, y: int|
            0 <= x < image.width && 0 <= y < image.height ==> #[trigger] texel_of(image, x, y)
                == color,
        forall|mean: Vec4|
            call_ensures(average, (normals, color, color, color, color), mean) ==> mean == color,
    ensures
        small.whole(),
        1 <= small.width <= MAX_DIM,
        1 <= small.height <= MAX_DIM,
        image.width <= MAX_DIM && image.height <= MAX_DIM ==> small == image,
        small.width <= image.width && small.height <= image.height,
        forall|x: int, y: int|
            0 <= x < small.width && 0 <= y < small.height ==> #[trigger] texel_of(small, x, y)
                == color,
    decreases image.width + image.height,
{
    if !image.fits() {
        let halved = choose|halved: Seq<Num>|
            #[trigger] texels::halves(
                average,
                normals,
                image.values,
                image.width,
                image.height,
                halved,
            ) && texels::caps(
                average,
                normals,
                Image {
                    values: halved,
                    width: texels::half_extent(image.width),
                    height: texels::half_extent(image.height),
                },
                small,
            );
        let half = Image {
            values: halved,
            width: texels::half_extent(image.width),
            height: texels::half_extent(image.height),
        };
        assert forall|x: int, y: int| 0 <= x < half.width && 0 <= y < half.height implies #[trigger]
            texel_of(half, x, y) == color by {
            halving_covers_the_image(average, normals, image, half, x, y);
        }
        plain_images_stay_plain(average, normals, half, small, color);
    }
}

/// An image is halved until it fits, and not once more: one that has to be halved
/// keeps more than half of the largest extent there may be, or half of it to the
/// texel. Both extents are halved together.
pub proof fn images_are_not_halved_too_often<A: Fn(bool, Vec4, Vec4, Vec4, Vec4) -> Vec4>(
    average: A,
    normals: bool,
    image: Image<Num>,
    small: Image<Num>,
)
    requires
        image.whole(),
        texels::caps(average, normals, image, small),
    ensures
        small.width <= 4096 && small.height <= 4096,
        image.width <= 4096 && image.height <= 4096 ==> small == image,
        image.width > 4096 || image.height > 4096 ==> small.width >= 2048 || small.height >= 2048,
        image.width == image.height ==> small.width == small.height,
    decreases image.width + image.height,
{
    if !image.fits() {
        let halved = choose|halved: Seq<Num>|
            #[trigger] texels::halves(
                average,
                normals,
                image.values,
                image.width,
                image.height,
                halved,
            ) && texels::caps(
                average,
                normals,
                Image {
                    values: halved,
                    width: texels::half_extent(image.width),
                    height: texels::half_extent(image.height),
                },
                small,
            );
        let half = Image {
            values: halved,
            width: texels::half_extent(image.width),
            height: texels::half_extent(image.height),
        };
        images_are_not_halved_too_often(average, normals, half, small);
    }
}

/// What a use asks of the bytes of an image that fits and fills whole blocks: the
/// texture has the image's extent, and the compressor gets the image's own bytes.
/// A color gets all four components of every texel, in the format of the color
/// space that the reference says or that is usual; a mask one component of every
/// texel, the one that the reference names; a normal map the first two.
pub proof fn compressors_get_the_image<
    L: Fn(u8, bool) -> Num,
    A: Fn(bool, Vec4, Vec4, Vec4, Vec4) -> Vec4,
    S: Fn(Num, bool) -> u8,
>(
    light: L,
    average: A,
    store: S,
    source: Source,
    usage: Usage,
    srgb: Option<bool>,
    channel: Channel,
    result: Texture,
)
    requires
        source.wf(),
        source is Bytes,
        source->Bytes_width % 4 == 0 && 0 < source->Bytes_width <= 4096,
        source->Bytes_height % 4 == 0 && 0 < source->Bytes_height <= 4096,
        texture::encodes(light, average, store, source, usage, srgb, channel, result),
    ensures
        ({
            let rgba = source->Bytes_rgba@;
            let width = source->Bytes_width;
            let height = source->Bytes_height;
            &&& result.width == width && result.height == height
            &&& usage is Color ==> {
                &&& srgb is None || srgb == Some(true) ==> result.format == BlockFormat::Bc7Srgb
                &&& srgb == Some(false) ==> result.format == BlockFormat::Bc7Unorm
                &&& codec::bc7_makes(rgba, width, height, result.data)
            }
            &&& usage is Vector ==> {
                &&& srgb == Some(true) ==> result.format == BlockFormat::Bc7Srgb
                &&& srgb is None || srgb == Some(false) ==> result.format == BlockFormat::Bc7Unorm
                &&& codec::bc7_makes(rgba, width, height, result.data)
            }
            &&& usage is Scalar && srgb != Some(true) ==> {
                &&& result.format == BlockFormat::Bc4Unorm
                &&& exists|mask: Seq<u8>|
                    {
                        &&& #[trigger] codec::bc4_makes(mask, width, height, result.data)
                        &&& mask.len() == width * height
                        &&& forall|i: int|
                            0 <= i < mask.len() ==> #[trigger] mask[i] == match channel {
                                Channel::R => rgba[4 * i],
                                Channel::G => rgba[4 * i + 1],
                                Channel::B => rgba[4 * i + 2],
                                Channel::A => rgba[4 * i + 3],
                            }
                    }
            }
            &&& usage is Normal ==> {
                &&& result.format == BlockFormat::Bc5Unorm
                &&& exists|pairs: Seq<u8>|
                    {
                        &&& #[trigger] codec::bc5_makes(pairs, width, height, result.data)
                        &&& pairs.len() == width * height * 2
                        &&& forall|i: int|
                            0 <= i < width * height ==> #[trigger] pairs[2 * i] == rgba[4 * i]
                                && pairs[2 * i + 1] == rgba[4 * i + 1]
                    }
            }
        }),
{
    let rgba = source->Bytes_rgba@;
    let width = source->Bytes_width as int;
    let height = source->Bytes_height as int;
    let image = Image { values: rgba, width, height };
    assert(image.fits());
    let across = result.width as int;
    let down = result.height as int;
    match usage {
        Usage::Color | Usage::Vector => {
            let encoded = result.format is Bc7Srgb;
            let small = choose|small: Seq<u8>|
                #[trigger] texels::caps_bytes(
                    light,
                    average,
                    store,
                    encoded,
                    false,
                    image,
                    Image { values: small, width: across, height: down },
                ) && codec::bc7_makes(
                    texels::padded(small, across, down, 4),
                    texels::block_multiple(across) as u32,
                    texels::block_multiple(down) as u32,
                    result.data,
                );
            assert(Image { values: small, width: across, height: down } == image);
            assert(texels::padded(small, across, down, 4) == rgba);
        },
        Usage::Scalar => {
            let encoded = srgb == Some(true);
            let (mask, linear) = choose|mask: Seq<u8>, linear: Seq<u8>|
                #![trigger texture::picks(light, average, store, source, encoded, channel, across, down, mask), texture::linearizes(light, store, encoded, mask, linear)]
                texture::picks(
                    light,
                    average,
                    store,
                    source,
                    encoded,
                    channel,
                    across,
                    down,
                    mask,
                ) && texture::linearizes(light, store, encoded, mask, linear) && codec::bc4_makes(
                    texels::padded(linear, across, down, 1),
                    texels::block_multiple(across) as u32,
                    texels::block_multiple(down) as u32,
                    result.data,
                );
            let small = choose|small: Seq<u8>|
                #[trigger] texels::caps_bytes(
                    light,
                    average,
                    store,
                    encoded,
                    false,
                    image,
                    Image { values: small, width: across, height: down },
                ) && mask == texture::picked(small, channel.index() as int);
            assert(Image { values: small, width: across, height: down } == image);
            assert(mask.len() == width * height);
            if !encoded {
                assert(texels::padded(linear, across, down, 1) == mask);
                assert(codec::bc4_makes(mask, width as u32, height as u32, result.data));
            }
        },
        Usage::Normal => {
            let bytes = choose|bytes: Seq<u8>|
                #[trigger] texture::directs(light, average, store, source, across, down, bytes)
                    && codec::bc5_makes(
                    texels::padded(texture::first_two(bytes), across, down, 2),
                    texels::block_multiple(across) as u32,
                    texels::block_multiple(down) as u32,
                    result.data,
                );
            assert(Image { values: bytes, width: across, height: down } == image);
            let pairs = texture::first_two(bytes);
            assert(texels::padded(pairs, across, down, 2) == pairs);
            assert(codec::bc5_makes(pairs, width as u32, height as u32, result.data));
            assert(pairs.len() == width * height * 2);
            assert forall|i: int| 0 <= i < width * height implies #[trigger] pairs[2 * i] == rgba[4
                * i] && pairs[2 * i + 1] == rgba[4 * i + 1] by {
                assert((2 * i) / 2 * 4 == 4 * i && (2 * i) % 2 == 0);
                assert((2 * i + 1) / 2 * 4 == 4 * i && (2 * i + 1) % 2 == 1);
            }
        },
    }
}

/// What a use asks of floating-point values that fit and fill whole blocks: a color
/// is compressed at half precision, value for value and whatever color space the
/// reference says.
pub proof fn floats_are_compressed_as_halves<
    L: Fn(u8, bool) -> Num,
    A: Fn(bool, Vec4, Vec4, Vec4, Vec4) -> Vec4,
    S: Fn(Num, bool) -> u8,
>(
    light: L,
    average: A,
    store: S,
    source: Source,
    usage: Usage,
    srgb: Option<bool>,
    channel: Channel,
    result: Texture,
)
    requires
        source.wf(),
        source is Float,
        usage is Color || usage is Vector,
        source->Float_width % 4 == 0 && 0 < source->Float_width <= 4096,
        source->Float_height % 4 == 0 && 0 < source->Float_height <= 4096,
        texture::encodes(light, average, store, source, usage, srgb, channel, result),
    ensures
        result.format == BlockFormat::Bc6hUfloat,
        result.width == source->Float_width && result.height == source->Float_height,
        exists|halves: Seq<u16>|
            {
                &&& #[trigger] codec::bc6h_makes(
                    halves,
                    source->Float_width,
                    source->Float_height,
                    result.data,
                )
                &&& halves.len() == source->Float_rgba@.len()
                &&& forall|i: int|
                    0 <= i < halves.len() ==> #[trigger] halves[i] as int == texels::half(
                        source->Float_rgba@[i],
                    )
            },
{
    let rgba = source->Float_rgba@;
    let image = Image {
        values: rgba,
        width: source->Float_width as int,
        height: source->Float_height as int,
    };
    let across = result.width as int;
    let down = result.height as int;
    let small = choose|small: Seq<Num>|
        #[trigger] texels::caps(
            average,
            false,
            image,
            Image { values: small, width: across, height: down },
        ) && codec::bc6h_makes(
            texels::padded(texture::halved(small), across, down, 4),
            texels::block_multiple(across) as u32,
            texels::block_multiple(down) as u32,
            result.data,
        );
    assert(image.fits());
    assert(Image { values: small, width: across, height: down } == image);
    let halves = texture::halved(small);
    assert(texels::padded(halves, across, down, 4) == halves);
    assert(codec::bc6h_makes(
        halves,
        source->Float_width,
        source->Float_height,
        result.data,
    ));
    assert forall|i: int| 0 <= i < halves.len() implies #[trigger] halves[i] as int
        == texels::half(rgba[i]) by {
        halves_have_sixteen_bits(rgba[i]);
    }
}

/// A half has fifteen bits, and no sign.
proof fn halves_have_sixteen_bits(x: Num)
    ensures
        0 <= texels::half(x) <= 0x7bff,
{
    vstd::arithmetic::power2::lemma2_to64();
    let held: int = if x.bits > INFINITE {
        0
    } else if x.bits > texels::LARGEST_HALF {
        texels::LARGEST_HALF as int
    } else {
        x.bits as int
    };
    let exponent = held / 0x80_0000;
    if 100 <= exponent < 113 {
        let unit = pow2((126 - exponent) as nat) as int;
        if 126 - exponent > 14 {
            vstd::arithmetic::power2::lemma_pow2_strictly_increases(14, (126 - exponent) as nat);
        }
        let mantissa = 0x80_0000 + held % 0x80_0000;
        assert(0 <= mantissa / unit <= 0x400) by (nonlinear_arith)
            requires
                0 <= mantissa < 0x100_0000,
                unit >= 0x4000,
        ;
    }
}

/// Half precision keeps what it can hold: a number whose last thirteen bits are
/// clear, from the smallest ordinary half to the largest, is the half with its
/// other bits; what lies between two goes to the nearer one, and from the middle to
/// the even one; what is above the largest becomes that, and what is below zero or
/// no number nothing.
pub proof fn halves_are_the_nearest(x: Num)
    ensures
        x.bits > 0x7f80_0000 ==> texels::half(x) == 0,
        0x477f_e000 <= x.bits <= 0x7f80_0000 ==> texels::half(x) == 0x7bff,
        0x3880_0000 <= x.bits <= 0x477f_e000 ==> -0x1000 <= texels::half(x) * 0x2000 - (x.bits
            - 0x3800_0000) <= 0x1000,
        0x3880_0000 <= x.bits <= 0x477f_e000 && x.bits % 0x2000 == 0 ==> texels::half(x) * 0x2000
            == x.bits - 0x3800_0000,
        0x3880_0000 <= x.bits <= 0x477f_e000 && x.bits % 0x2000 == 0x1000 ==> texels::half(x) % 2
            == 0,
        x.bits < 0x3200_0000 ==> texels::half(x) == 0,
{
}

/// Below the smallest ordinary half, halves count in one unit: the count is the
/// nearest to what the number is worth, and of two that are as near the greater.
pub proof fn small_halves_count_units(x: Num, exponent: int)
    requires
        100 <= exponent < 113,
        exponent * 0x80_0000 <= x.bits < (exponent + 1) * 0x80_0000,
    ensures
        ({
            let worth = 0x80_0000 + x.bits - exponent * 0x80_0000;
            let unit = pow2((126 - exponent) as nat) as int;
            -unit < 2 * (texels::half(x) * unit - worth) <= unit
        }),
{
    let unit = pow2((126 - exponent) as nat) as int;
    vstd::arithmetic::power2::lemma_pow2_pos((126 - exponent) as nat);
    vstd::arithmetic::div_mod::lemma_fundamental_div_mod_converse(
        x.bits as int,
        0x80_0000,
        exponent,
        x.bits - exponent * 0x80_0000,
    );
    let worth = 0x80_0000 + x.bits - exponent * 0x80_0000;
    assert(x.bits as int % 0x80_0000 == x.bits - exponent * 0x80_0000);
    assert(texels::half(x) == texels::nearest_up(worth, unit));
    vstd::arithmetic::div_mod::lemma_fundamental_div_mod(worth, unit);
    let q = worth / unit;
    assert((q + 1) * unit == q * unit + unit) by (nonlinear_arith);
    assert(unit * q == q * unit) by (nonlinear_arith);
}

} // verus!
