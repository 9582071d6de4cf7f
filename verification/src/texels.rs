//! Texels: the values of an image, row by row, and what becomes of them
//! before they are compressed.

use vstd::arithmetic::power2::pow2;
use vstd::prelude::*;

use crate::bits::{Num, Vec4, INFINITE};

verus! {

/// An image larger than this on either axis is halved until it fits.
pub const MAX_DIM: u32 = 4096;

// -- Numbers -------------------------------------------------------------------

/// The quotient to the nearest integer, a tie to the even one.
pub open spec fn nearest_even(n: int, d: int) -> int {
    if 2 * (n % d) > d || (2 * (n % d) == d && (n / d) % 2 == 1) {
        n / d + 1
    } else {
        n / d
    }
}

/// The quotient to the nearest integer, a tie upward.
pub open spec fn nearest_up(n: int, d: int) -> int {
    if 2 * (n % d) >= d {
        n / d + 1
    } else {
        n / d
    }
}

/// The encoding of 65504, the largest number that half precision holds.
pub const LARGEST_HALF: u32 = 0x477f_e000;

/// What half precision has for a number: nothing below zero, nothing above
/// the largest, and in between the nearest. A single-precision exponent of
/// 113 is the smallest that half precision has; below it, halves count in
/// units of `2^-24`.
pub open spec fn half(x: Num) -> int {
    let held: int = if x.bits > INFINITE {
        0
    } else if x.bits > LARGEST_HALF {
        LARGEST_HALF as int
    } else {
        x.bits as int
    };
    let exponent = held / 0x80_0000;
    if exponent >= 113 {
        nearest_even(held - 112 * 0x80_0000, 0x2000)
    } else if exponent >= 100 {
        nearest_up(0x80_0000 + held % 0x80_0000, pow2((126 - exponent) as nat) as int)
    } else {
        0
    }
}

/// The half-precision encoding of a number, for a format without a sign.
pub fn half_bits(x: Num) -> (r: u16)
    ensures
        r == half(x),
{
    let held: u32 = if x.bits > INFINITE {
        0
    } else if x.bits > LARGEST_HALF {
        LARGEST_HALF
    } else {
        x.bits
    };
    let exponent: u32 = held / 0x80_0000;
    if exponent >= 113 {
        let whole: u32 = held - 112 * 0x80_0000;
        let kept: u32 = whole / 0x2000;
        let rest: u32 = whole % 0x2000;
        if rest > 0x1000 || (rest == 0x1000 && kept % 2 == 1) {
            (kept + 1) as u16
        } else {
            kept as u16
        }
    } else if exponent >= 100 {
        let mantissa: u32 = 0x80_0000 + held % 0x80_0000;
        let shift: u32 = 126 - exponent;
        let mut unit: u32 = 1;
        proof {
            vstd::arithmetic::power2::lemma2_to64();
        }
        for i in 0..shift
            invariant
                14 <= shift <= 26,
                unit == pow2(i as nat),
                pow2(26) == 0x400_0000,
        {
            proof {
                vstd::arithmetic::power2::lemma_pow2_unfold((i + 1) as nat);
                if i < 26 {
                    vstd::arithmetic::power2::lemma_pow2_strictly_increases(i as nat, 26);
                }
            }
            unit = unit * 2;
        }
        proof {
            if shift > 14 {
                vstd::arithmetic::power2::lemma_pow2_strictly_increases(14, shift as nat);
            }
            assert(mantissa / unit <= 0x400) by (nonlinear_arith)
                requires
                    mantissa < 0x100_0000,
                    unit >= 0x4000,
            ;
        }
        let kept: u32 = mantissa / unit;
        if mantissa % unit >= unit / 2 {
            proof {
                vstd::arithmetic::power2::lemma_pow2_unfold(shift as nat);
            }
            (kept + 1) as u16
        } else {
            proof {
                vstd::arithmetic::power2::lemma_pow2_unfold(shift as nat);
            }
            kept as u16
        }
    } else {
        0
    }
}

// -- Whole blocks ----------------------------------------------------------------

/// The next multiple of four.
pub open spec fn block_multiple(n: int) -> int {
    (n + 3) / 4 * 4
}

/// The smaller of two.
pub open spec fn lesser(a: int, b: int) -> int {
    if a < b {
        a
    } else {
        b
    }
}

/// Where the value at `i` of a padded image comes from: the component of the
/// same column and row, or of the last ones.
pub open spec fn edge_source(i: int, width: int, height: int, channels: int) -> int {
    let across = block_multiple(width);
    let column = lesser(i / channels % across, width - 1);
    let row = lesser(i / channels / across, height - 1);
    (row * width + column) * channels + i % channels
}

/// An image whose rows and columns are carried on, by the last of each, to
/// whole blocks.
pub open spec fn padded<T>(data: Seq<T>, width: int, height: int, channels: int) -> Seq<T> {
    if width % 4 == 0 && height % 4 == 0 {
        data
    } else {
        Seq::new(
            (block_multiple(width) * block_multiple(height) * channels) as nat,
            |i: int| data[edge_source(i, width, height, channels)],
        )
    }
}

/// Column, row and component of a place, read back from it.
pub proof fn places_read_back(row: int, column: int, part: int, across: int, channels: int)
    requires
        0 <= row,
        0 <= column < across,
        0 <= part < channels,
    ensures
        ((row * across + column) * channels + part) / channels == row * across + column,
        ((row * across + column) * channels + part) % channels == part,
        (row * across + column) / across == row,
        (row * across + column) % across == column,
{
    let texel = row * across + column;
    vstd::arithmetic::div_mod::lemma_fundamental_div_mod_converse(
        texel * channels + part,
        channels,
        texel,
        part,
    );
    vstd::arithmetic::div_mod::lemma_fundamental_div_mod_converse(texel, across, row, column);
}

/// A place inside an image of some texels lies inside its values.
proof fn places_lie_inside(row: int, column: int, part: int, width: int, height: int, channels: int)
    requires
        0 <= row < height,
        0 <= column < width,
        0 <= part < channels,
    ensures
        0 <= row * width + column < width * height,
        0 <= (row * width + column) * channels + part < width * height * channels,
{
    assert(0 <= row * width + column < width * height) by (nonlinear_arith)
        requires
            0 <= row < height,
            0 <= column < width,
    ;
    let texel = row * width + column;
    let texels = width * height;
    assert(0 <= texel * channels + part < texels * channels) by (nonlinear_arith)
        requires
            0 <= texel < texels,
            0 <= part < channels,
    ;
}

/// Padding keeps every texel at its column and row, and carries the last
/// column and the last row on behind them.
pub proof fn padding_replicates_edges<T>(
    data: Seq<T>,
    width: int,
    height: int,
    channels: int,
    row: int,
    column: int,
    part: int,
)
    requires
        width > 0,
        height > 0,
        0 <= row < block_multiple(height),
        0 <= column < block_multiple(width),
        0 <= part < channels,
    ensures
        padded(data, width, height, channels)[(row * block_multiple(width) + column) * channels
            + part] == data[(lesser(row, height - 1) * width + lesser(column, width - 1)) * channels
            + part],
{
    let across = block_multiple(width);
    places_read_back(row, column, part, across, channels);
    places_lie_inside(row, column, part, across, block_multiple(height), channels);
}

/// Carry an image's rows and columns on to whole blocks.
pub fn pad_to_blocks<T: Copy>(data: &[T], width: u32, height: u32, channels: usize) -> (r: (
    Vec<T>,
    u32,
    u32,
))
    requires
        width <= u32::MAX - 3,
        height <= u32::MAX - 3,
        width % 4 == 0 && height % 4 == 0 || (0 < width && 0 < height && 0 < channels && data@.len()
            >= width * height * channels && block_multiple(width as int) * block_multiple(
            height as int,
        ) * channels <= usize::MAX),
    ensures
        r.0@ == padded(data@, width as int, height as int, channels as int),
        r.1 == block_multiple(width as int),
        r.2 == block_multiple(height as int),
{
    let across: u32 = (width + 3) / 4 * 4;
    let down: u32 = (height + 3) / 4 * 4;
    let mut out: Vec<T> = Vec::new();
    if across == width && down == height {
        for i in 0..data.len()
            invariant
                out@ == data@.take(i as int),
        {
            out.push(data[i]);
            assert(out@ =~= data@.take(i + 1));
        }
        assert(out@ =~= data@);
        return (out, width, height);
    }
    let ghost whole = padded(data@, width as int, height as int, channels as int);
    assert(out@ =~= whole.take(0));
    assert(0 * across * channels == 0) by (nonlinear_arith);
    for y in 0..down
        invariant
            across == block_multiple(width as int),
            down == block_multiple(height as int),
            0 < width <= across,
            0 < height <= down,
            0 < channels,
            !(width % 4 == 0 && height % 4 == 0),
            data@.len() >= width * height * channels,
            whole == padded(data@, width as int, height as int, channels as int),
            whole.len() == across * down * channels,
            out@.len() == y * across * channels,
            out@ == whole.take(y * across * channels),
    {
        let row: u32 = if y < height {
            y
        } else {
            height - 1
        };
        assert((y * across + 0) * channels == y * across * channels);
        for x in 0..across
            invariant
                across == block_multiple(width as int),
                down == block_multiple(height as int),
                0 < width <= across,
                0 < height <= down,
                0 < channels,
                y < down,
                row == lesser(y as int, height - 1),
                !(width % 4 == 0 && height % 4 == 0),
                data@.len() >= width * height * channels,
                whole == padded(data@, width as int, height as int, channels as int),
                whole.len() == across * down * channels,
                out@.len() == (y * across + x) * channels,
                out@ == whole.take((y * across + x) * channels),
        {
            let column: u32 = if x < width {
                x
            } else {
                width - 1
            };
            proof {
                places_lie_inside(
                    row as int,
                    column as int,
                    0,
                    width as int,
                    height as int,
                    channels as int,
                );
                assert(row * width >= 0) by (nonlinear_arith);
                assert(row * width <= row * width + column);
                assert((row * width + column) * channels >= row * width + column)
                    by (nonlinear_arith)
                    requires
                        channels >= 1,
                        row * width + column >= 0,
                ;
            }
            let length: usize = data.len();
            let start: usize = (row as usize * width as usize + column as usize) * channels;
            for part in 0..channels
                invariant
                    across == block_multiple(width as int),
                    down == block_multiple(height as int),
                    0 < width <= across,
                    0 < height <= down,
                    y < down,
                    x < across,
                    row == lesser(y as int, height - 1),
                    column == lesser(x as int, width - 1),
                    start == (row * width + column) * channels,
                    !(width % 4 == 0 && height % 4 == 0),
                    data@.len() == length >= width * height * channels,
                    whole == padded(data@, width as int, height as int, channels as int),
                    whole.len() == across * down * channels,
                    out@.len() == (y * across + x) * channels + part,
                    out@ == whole.take((y * across + x) * channels + part),
            {
                let ghost i = (y * across + x) * channels + part;
                proof {
                    places_lie_inside(
                        row as int,
                        column as int,
                        part as int,
                        width as int,
                        height as int,
                        channels as int,
                    );
                    places_lie_inside(
                        y as int,
                        x as int,
                        part as int,
                        across as int,
                        down as int,
                        channels as int,
                    );
                    places_read_back(
                        y as int,
                        x as int,
                        part as int,
                        across as int,
                        channels as int,
                    );
                    assert(edge_source(i, width as int, height as int, channels as int) == start
                        + part);
                    assert(whole[i] == data@[start + part]);
                }
                out.push(data[start + part]);
                assert(out@ =~= whole.take(i + 1));
            }
            assert((y * across + x + 1) * channels == (y * across + x) * channels + channels)
                by (nonlinear_arith);
        }
        assert((y * across + across) * channels == (y + 1) * across * channels)
            by (nonlinear_arith);
        proof {
            let done = (y + 1) * across * channels;
            assert(done <= down * across * channels) by (nonlinear_arith)
                requires
                    done == (y + 1) * across * channels,
                    y + 1 <= down,
            ;
        }
    }
    assert(down * across * channels == across * down * channels) by (nonlinear_arith);
    assert(whole.take(whole.len() as int) =~= whole);
    (out, across, down)
}

// -- Halving ---------------------------------------------------------------------

/// Half an extent, but no less than one texel.
pub open spec fn half_extent(n: int) -> int {
    if n / 2 < 1 {
        1
    } else {
        n / 2
    }
}

/// The four values of a texel.
pub open spec fn texel(rgba: Seq<Num>, i: int) -> Vec4 {
    Vec4 { x: rgba[4 * i], y: rgba[4 * i + 1], z: rgba[4 * i + 2], w: rgba[4 * i + 3] }
}

/// The texel at a column and a row, or at the last ones.
pub open spec fn texel_near(rgba: Seq<Num>, width: int, height: int, x: int, y: int) -> Vec4 {
    texel(rgba, lesser(y, height - 1) * width + lesser(x, width - 1))
}

/// `halved` holds at `i` what `average` makes of four texels of `rgba`: those
/// of twice the column and row, and of the ones behind.
pub open spec fn averages<A: Fn(bool, Vec4, Vec4, Vec4, Vec4) -> Vec4>(
    average: A,
    normals: bool,
    rgba: Seq<Num>,
    width: int,
    height: int,
    halved: Seq<Num>,
    i: int,
) -> bool {
    let x = 2 * (i % half_extent(width));
    let y = 2 * (i / half_extent(width));
    call_ensures(
        average,
        (
            normals,
            texel_near(rgba, width, height, x, y),
            texel_near(rgba, width, height, x + 1, y),
            texel_near(rgba, width, height, x, y + 1),
            texel_near(rgba, width, height, x + 1, y + 1),
        ),
        texel(halved, i),
    )
}

/// `halved` is `rgba` at half the extent.
pub open spec fn halves<A: Fn(bool, Vec4, Vec4, Vec4, Vec4) -> Vec4>(
    average: A,
    normals: bool,
    rgba: Seq<Num>,
    width: int,
    height: int,
    halved: Seq<Num>,
) -> bool {
    &&& halved.len() == half_extent(width) * half_extent(height) * 4
    &&& forall|i: int|
        0 <= i < half_extent(width) * half_extent(height) ==> #[trigger] averages(
            average,
            normals,
            rgba,
            width,
            height,
            halved,
            i,
        )
}

/// An image as its values and its extent.
pub struct Image<T> {
    pub values: Seq<T>,
    pub width: int,
    pub height: int,
}

impl<T> Image<T> {
    /// There is a texel, and four values for each.
    pub open spec fn whole(self) -> bool {
        &&& self.width >= 1
        &&& self.height >= 1
        &&& self.values.len() == self.width * self.height * 4
    }

    /// The image is no larger than a texture may be.
    pub open spec fn fits(self) -> bool {
        self.width <= MAX_DIM && self.height <= MAX_DIM
    }
}

/// `small` is what `image` is after as many halvings as it takes to fit.
pub open spec fn caps<A: Fn(bool, Vec4, Vec4, Vec4, Vec4) -> Vec4>(
    average: A,
    normals: bool,
    image: Image<Num>,
    small: Image<Num>,
) -> bool
    decreases image.width + image.height,
    when image.width >= 1 && image.height >= 1
{
    if image.fits() {
        small == image
    } else {
        exists|halved: Seq<Num>|
            #[trigger] halves(
                average,
                normals,
                image.values,
                image.width,
                image.height,
                halved,
            ) && caps(
                average,
                normals,
                Image {
                    values: halved,
                    width: half_extent(image.width),
                    height: half_extent(image.height),
                },
                small,
            )
    }
}

/// The texel at a place in `rgba`.
fn texel_at(rgba: &Vec<Num>, i: usize) -> (r: Vec4)
    requires
        4 * i + 4 <= rgba@.len(),
    ensures
        r == texel(rgba@, i as int),
{
    let length: usize = rgba.len();
    let at: usize = i * 4;
    Vec4 { x: rgba[at], y: rgba[at + 1], z: rgba[at + 2], w: rgba[at + 3] }
}

/// The image at half its extent.
fn halve<A: Fn(bool, Vec4, Vec4, Vec4, Vec4) -> Vec4>(
    average: &A,
    normals: bool,
    rgba: &Vec<Num>,
    width: u32,
    height: u32,
) -> (r: Vec<Num>)
    requires
        width >= 1,
        height >= 1,
        rgba@.len() == width * height * 4,
        forall|a: Vec4, b: Vec4, c: Vec4, d: Vec4| call_requires(*average, (normals, a, b, c, d)),
    ensures
        halves(*average, normals, rgba@, width as int, height as int, r@),
{
    let across: usize = if width / 2 < 1 {
        1
    } else {
        (width / 2) as usize
    };
    let down: usize = if height / 2 < 1 {
        1
    } else {
        (height / 2) as usize
    };
    let length: usize = rgba.len();
    proof {
        assert(across * down * 4 <= width * height * 4) by (nonlinear_arith)
            requires
                0 <= across <= width,
                0 <= down <= height,
        ;
        assert(across * down <= across * down * 4) by (nonlinear_arith)
            requires
                0 <= across,
                0 <= down,
        ;
    }
    let count: usize = across * down;
    let mut out: Vec<Num> = Vec::new();
    for i in 0..count
        invariant
            count == across * down,
            across == half_extent(width as int),
            down == half_extent(height as int),
            width >= 1,
            height >= 1,
            rgba@.len() == width * height * 4 == length,
            forall|a: Vec4, b: Vec4, c: Vec4, d: Vec4|
                call_requires(*average, (normals, a, b, c, d)),
            out@.len() == i * 4,
            forall|j: int|
                0 <= j < i ==> #[trigger] averages(
                    *average,
                    normals,
                    rgba@,
                    width as int,
                    height as int,
                    out@,
                    j,
                ),
    {
        let x: usize = i % across;
        let y: usize = i / across;
        proof {
            vstd::arithmetic::div_mod::lemma_fundamental_div_mod(i as int, across as int);
            assert(y < down) by (nonlinear_arith)
                requires
                    i < across * down,
                    i == across * y + x,
                    0 <= x,
                    across >= 1,
            ;
        }
        let left: usize = lower(2 * x, width);
        let right: usize = lower(2 * x + 1, width);
        let above: usize = lower(2 * y, height);
        let below: usize = lower(2 * y + 1, height);
        proof {
            places_lie_inside(above as int, left as int, 3, width as int, height as int, 4);
            places_lie_inside(above as int, right as int, 3, width as int, height as int, 4);
            places_lie_inside(below as int, left as int, 3, width as int, height as int, 4);
            places_lie_inside(below as int, right as int, 3, width as int, height as int, 4);
            assert(above * width >= 0 && below * width >= 0) by (nonlinear_arith);
        }
        let first = texel_at(rgba, above * (width as usize) + left);
        let second = texel_at(rgba, above * (width as usize) + right);
        let third = texel_at(rgba, below * (width as usize) + left);
        let fourth = texel_at(rgba, below * (width as usize) + right);
        let mean = average(normals, first, second, third, fourth);
        let ghost before = out@;
        out.push(mean.x);
        out.push(mean.y);
        out.push(mean.z);
        out.push(mean.w);
        proof {
            assert(texel(out@, i as int) == mean);
            assert forall|j: int| 0 <= j < i + 1 implies #[trigger] averages(
                *average,
                normals,
                rgba@,
                width as int,
                height as int,
                out@,
                j,
            ) by {
                if j < i {
                    assert(averages(
                        *average,
                        normals,
                        rgba@,
                        width as int,
                        height as int,
                        before,
                        j,
                    ));
                    assert(texel(out@, j) == texel(before, j));
                }
            }
        }
    }
    out
}

/// `n`, or the last place of an extent.
fn lower(n: usize, extent: u32) -> (r: usize)
    requires
        extent >= 1,
    ensures
        r == lesser(n as int, extent - 1),
{
    let last: usize = (extent - 1) as usize;
    if n < last {
        n
    } else {
        last
    }
}

/// Halve an image until it fits. What four texels come to, of directions or
/// of plain values, is what `average` says.
pub fn mip_cap_floats<A: Fn(bool, Vec4, Vec4, Vec4, Vec4) -> Vec4>(
    rgba: Vec<Num>,
    width: u32,
    height: u32,
    normals: bool,
    average: &A,
) -> (r: (Vec<Num>, u32, u32))
    requires
        width >= 1,
        height >= 1,
        rgba@.len() == width * height * 4,
        forall|a: Vec4, b: Vec4, c: Vec4, d: Vec4| call_requires(*average, (normals, a, b, c, d)),
    ensures
        caps(
            *average,
            normals,
            Image { values: rgba@, width: width as int, height: height as int },
            Image { values: r.0@, width: r.1 as int, height: r.2 as int },
        ),
        (Image { values: r.0@, width: r.1 as int, height: r.2 as int }).whole(),
        (Image { values: r.0@, width: r.1 as int, height: r.2 as int }).fits(),
{
    let ghost first = Image { values: rgba@, width: width as int, height: height as int };
    let mut rgba = rgba;
    let mut width: u32 = width;
    let mut height: u32 = height;
    while width > MAX_DIM || height > MAX_DIM
        invariant
            width >= 1,
            height >= 1,
            rgba@.len() == width * height * 4,
            forall|a: Vec4, b: Vec4, c: Vec4, d: Vec4|
                call_requires(*average, (normals, a, b, c, d)),
            forall|small: Image<Num>|
                #[trigger] caps(
                    *average,
                    normals,
                    Image { values: rgba@, width: width as int, height: height as int },
                    small,
                ) ==> caps(*average, normals, first, small),
        decreases width + height,
    {
        let halved = halve(average, normals, &rgba, width, height);
        let ghost image = Image { values: rgba@, width: width as int, height: height as int };
        let ghost next = Image {
            values: halved@,
            width: half_extent(width as int),
            height: half_extent(height as int),
        };
        proof {
            assert forall|small: Image<Num>| #[trigger]
                caps(*average, normals, next, small) implies caps(
                *average,
                normals,
                first,
                small,
            ) by {
                assert(halves(
                    *average,
                    normals,
                    image.values,
                    image.width,
                    image.height,
                    halved@,
                ));
                assert(caps(*average, normals, image, small));
            }
        }
        rgba = halved;
        width = if width / 2 < 1 {
            1
        } else {
            width / 2
        };
        height = if height / 2 < 1 {
            1
        } else {
            height / 2
        };
    }
    proof {
        let last = Image { values: rgba@, width: width as int, height: height as int };
        assert(last.fits());
        assert(caps(*average, normals, last, last));
    }
    (rgba, width, height)
}

/// `floats` are the values that `light` gives the bytes.
pub open spec fn lit<L: Fn(u8, bool) -> Num>(
    light: L,
    srgb: bool,
    bytes: Seq<u8>,
    floats: Seq<Num>,
) -> bool {
    &&& floats.len() == bytes.len()
    &&& forall|i: int|
        0 <= i < bytes.len() ==> call_ensures(light, (bytes[i], srgb), #[trigger] floats[i])
}

/// `bytes` are what `store` keeps of the values.
pub open spec fn kept<S: Fn(Num, bool) -> u8>(
    store: S,
    srgb: bool,
    floats: Seq<Num>,
    bytes: Seq<u8>,
) -> bool {
    &&& bytes.len() == floats.len()
    &&& forall|i: int|
        0 <= i < floats.len() ==> call_ensures(store, (floats[i], srgb), #[trigger] bytes[i])
}

/// The values that `light` gives the bytes.
pub fn light_all<L: Fn(u8, bool) -> Num>(light: &L, srgb: bool, bytes: &Vec<u8>) -> (r: Vec<Num>)
    requires
        forall|byte: u8| call_requires(*light, (byte, srgb)),
    ensures
        lit(*light, srgb, bytes@, r@),
{
    let mut out: Vec<Num> = Vec::new();
    for i in 0..bytes.len()
        invariant
            forall|byte: u8| call_requires(*light, (byte, srgb)),
            out@.len() == i,
            forall|j: int| 0 <= j < i ==> call_ensures(*light, (bytes@[j], srgb), #[trigger] out@[j]),
    {
        out.push(light(bytes[i], srgb));
    }
    out
}

/// What `store` keeps of the values.
pub fn keep_all<S: Fn(Num, bool) -> u8>(store: &S, srgb: bool, floats: &Vec<Num>) -> (r: Vec<u8>)
    requires
        forall|value: Num| call_requires(*store, (value, srgb)),
    ensures
        kept(*store, srgb, floats@, r@),
{
    let mut out: Vec<u8> = Vec::new();
    for i in 0..floats.len()
        invariant
            forall|value: Num| call_requires(*store, (value, srgb)),
            out@.len() == i,
            forall|j: int|
                0 <= j < i ==> call_ensures(*store, (floats@[j], srgb), #[trigger] out@[j]),
    {
        out.push(store(floats[i], srgb));
    }
    out
}

/// `small` is what an image of bytes is once it fits: itself, where it does;
/// else what is kept of its values after the halvings.
pub open spec fn caps_bytes<
    L: Fn(u8, bool) -> Num,
    A: Fn(bool, Vec4, Vec4, Vec4, Vec4) -> Vec4,
    S: Fn(Num, bool) -> u8,
>(
    light: L,
    average: A,
    store: S,
    srgb: bool,
    normals: bool,
    image: Image<u8>,
    small: Image<u8>,
) -> bool {
    if image.fits() {
        small == image
    } else {
        exists|before: Seq<Num>, after: Seq<Num>|
            #![trigger lit(light, srgb, image.values, before), kept(store, srgb, after, small.values)]
            lit(light, srgb, image.values, before) && caps(
                average,
                normals,
                Image { values: before, width: image.width, height: image.height },
                Image { values: after, width: small.width, height: small.height },
            ) && kept(store, srgb, after, small.values)
    }
}

/// Halve an image of bytes until it fits. One that fits keeps its bytes.
pub fn mip_cap_bytes<
    L: Fn(u8, bool) -> Num,
    A: Fn(bool, Vec4, Vec4, Vec4, Vec4) -> Vec4,
    S: Fn(Num, bool) -> u8,
>(
    rgba: Vec<u8>,
    width: u32,
    height: u32,
    srgb: bool,
    normals: bool,
    light: &L,
    average: &A,
    store: &S,
) -> (r: (Vec<u8>, u32, u32))
    requires
        width >= 1,
        height >= 1,
        rgba@.len() == width * height * 4,
        forall|byte: u8| call_requires(*light, (byte, srgb)),
        forall|a: Vec4, b: Vec4, c: Vec4, d: Vec4| call_requires(*average, (normals, a, b, c, d)),
        forall|value: Num| call_requires(*store, (value, srgb)),
    ensures
        caps_bytes(
            *light,
            *average,
            *store,
            srgb,
            normals,
            Image { values: rgba@, width: width as int, height: height as int },
            Image { values: r.0@, width: r.1 as int, height: r.2 as int },
        ),
        (Image { values: r.0@, width: r.1 as int, height: r.2 as int }).whole(),
        (Image { values: r.0@, width: r.1 as int, height: r.2 as int }).fits(),
{
    if width <= MAX_DIM && height <= MAX_DIM {
        return (rgba, width, height);
    }
    let floats = light_all(light, srgb, &rgba);
    let ghost before = floats@;
    let (floats, across, down) = mip_cap_floats(floats, width, height, normals, average);
    let bytes = keep_all(store, srgb, &floats);
    proof {
        let image = Image { values: rgba@, width: width as int, height: height as int };
        let small = Image { values: bytes@, width: across as int, height: down as int };
        let after = floats@;
        assert(!image.fits());
        assert(lit(*light, srgb, image.values, before));
        assert(kept(*store, srgb, after, small.values));
        assert(caps_bytes(*light, *average, *store, srgb, normals, image, small));
    }
    (bytes, across, down)
}

} // verus!
