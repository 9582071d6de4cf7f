//! Texture preparation: from an image file's bytes to compressed blocks.
//!
//! An image is decoded, held to the largest extent a texture may have, and
//! compressed in the format that its use asks for. The result is cached in a
//! file beside the source, which counts only for the very content and
//! parameters that it was made from: both go into a hash that the file
//! carries.
//!
//! The transfer curves, the averaging and the rounding of numbers are handed
//! in by the caller; which texels are averaged, where each value goes and how
//! the result is framed is settled here.

use vstd::bytes::u32_to_le_bytes;
use vstd::prelude::*;
use vstd::string::*;
use vstd::utf8::encode_utf8;

use crate::bits::{Num, Vec2, Vec4, ONE};
use crate::codec;
use crate::dds;
use crate::dds::{BlockFormat, Prepared, Texture};
use crate::description::Channel;
use crate::path;
use crate::path::{FilePath, Part};
use crate::table::{Order, Ranked, Table};
use crate::text;
use crate::texels;
use crate::texels::{Image, MAX_DIM};
use crate::value::Duplicate;

verus! {

/// Part of every cache's hash: another number makes every cache a miss.
pub const PIPELINE_VERSION: u8 = 1;

/// Where an FNV-1a hash starts.
pub const FNV_OFFSET: u64 = 0xcbf2_9ce4_8422_2325;

/// What an FNV-1a hash is multiplied by at each byte.
pub const FNV_PRIME: u64 = 0x0000_0100_0000_01b3;

/// What a texture feeds, which decides how it is compressed and how its
/// values are read where the reference does not say.
#[derive(Clone, Copy, Debug, PartialEq, Eq, Structural)]
pub enum Usage {
    /// Color: BC7, sRGB unless the reference says otherwise; BC6H where the
    /// source holds floating-point values.
    Color,
    /// One component as a mask: BC4, linear.
    Scalar,
    /// Three components that are data and no color: compressed as a color is,
    /// but linear unless the reference says otherwise.
    Vector,
    /// A tangent-space normal map: BC5, linear.
    Normal,
}

impl Usage {
    /// The usage in a cache's name and hash.
    pub open spec fn text(self) -> Seq<char> {
        match self {
            Usage::Color => "color"@,
            Usage::Scalar => "scalar"@,
            Usage::Vector => "vector"@,
            Usage::Normal => "normal"@,
        }
    }

    /// The usage in a cache's name and hash.
    pub fn tag(self) -> (r: &'static str)
        ensures
            r@ == self.text(),
    {
        match self {
            Usage::Color => "color",
            Usage::Scalar => "scalar",
            Usage::Vector => "vector",
            Usage::Normal => "normal",
        }
    }

    /// Where the usage stands among the others.
    #[verifier::allow_in_spec]
    pub fn rank(self) -> (r: u32)
        returns
            (match self {
                Usage::Color => 0u32,
                Usage::Scalar => 1u32,
                Usage::Vector => 2u32,
                Usage::Normal => 3u32,
            }),
    {
        match self {
            Usage::Color => 0,
            Usage::Scalar => 1,
            Usage::Vector => 2,
            Usage::Normal => 3,
        }
    }
}

impl Channel {
    /// Where the component stands in a texel.
    #[verifier::allow_in_spec]
    pub fn index(self) -> (r: usize)
        returns
            (match self {
                Channel::R => 0usize,
                Channel::G => 1usize,
                Channel::B => 2usize,
                Channel::A => 3usize,
            }),
    {
        match self {
            Channel::R => 0,
            Channel::G => 1,
            Channel::B => 2,
            Channel::A => 3,
        }
    }

    /// The component in a cache's name and hash. Red says nothing.
    pub open spec fn text(self) -> Seq<char> {
        match self {
            Channel::R => ""@,
            Channel::G => ".g"@,
            Channel::B => ".b"@,
            Channel::A => ".a"@,
        }
    }

    /// The component in a cache's name and hash.
    pub fn tag(self) -> (r: &'static str)
        ensures
            r@ == self.text(),
    {
        match self {
            Channel::R => "",
            Channel::G => ".g",
            Channel::B => ".b",
            Channel::A => ".a",
        }
    }
}

/// What a sample is put through: an affine map of its coordinates and a
/// factor on its value.
#[derive(Clone, Copy, Debug, PartialEq, Eq, Structural)]
pub struct Params {
    /// The factor on the coordinates.
    pub uv_scale: Vec2,
    /// What is put on top of them.
    pub uv_offset: Vec2,
    /// The factor on the value.
    pub scale: Num,
}

impl Params {
    /// The parameters of a reference; where it says nothing, nothing changes.
    #[verifier::allow_in_spec]
    pub fn new(uv: Option<(Vec2, Vec2)>, scale: Option<Num>) -> (r: Params)
        returns
            (Params {
                uv_scale: match uv {
                    Some(uv) => uv.0,
                    None => Vec2::splat(ONE),
                },
                uv_offset: match uv {
                    Some(uv) => uv.1,
                    None => Vec2::splat(0),
                },
                scale: match scale {
                    Some(scale) => scale,
                    None => Num::new(ONE),
                },
            }),
    {
        Params {
            uv_scale: match uv {
                Some(uv) => uv.0,
                None => Vec2::splat(ONE),
            },
            uv_offset: match uv {
                Some(uv) => uv.1,
                None => Vec2::splat(0),
            },
            scale: match scale {
                Some(scale) => scale,
                None => Num::new(ONE),
            },
        }
    }

    /// The parameters as a sample takes them: the factor on the coordinates,
    /// what is put on top, and the factor on the value.
    pub fn unpack(self) -> (r: (Vec2, Vec2, Num))
        ensures
            r == (self.uv_scale, self.uv_offset, self.scale),
    {
        (self.uv_scale, self.uv_offset, self.scale)
    }
}

/// The number of a color-space override.
#[verifier::allow_in_spec]
pub fn space_code(srgb: Option<bool>) -> (r: u8)
    returns
        (match srgb {
            None => 0u8,
            Some(encoded) => if encoded {
                2u8
            } else {
                1u8
            },
        }),
{
    match srgb {
        None => 0,
        Some(false) => 1,
        Some(true) => 2,
    }
}

/// Whether values are sRGB-encoded: as the reference says, or as is usual.
#[verifier::allow_in_spec]
pub fn encoded_or(srgb: Option<bool>, usual: bool) -> (r: bool)
    returns
        (match srgb {
            Some(encoded) => encoded,
            None => usual,
        }),
{
    match srgb {
        Some(encoded) => encoded,
        None => usual,
    }
}

/// What makes two references one texture: the image, and everything that it
/// is prepared and sampled with.
#[derive(Clone, Debug, PartialEq, Eq)]
pub struct Key {
    /// The image file.
    pub path: FilePath,
    /// What the texture feeds.
    pub usage: Usage,
    /// The color-space override.
    pub srgb: Option<bool>,
    /// The component that a mask takes.
    pub channel: Channel,
    /// What a sample is put through.
    pub params: Params,
}

/// What a key stands for.
pub struct Identity {
    pub path: Seq<Part<Seq<char>>>,
    pub usage: Usage,
    pub srgb: Option<bool>,
    pub channel: Channel,
    pub params: Params,
}

impl View for Key {
    type V = Identity;

    open spec fn view(&self) -> Identity {
        Identity {
            path: self.path@,
            usage: self.usage,
            srgb: self.srgb,
            channel: self.channel,
            params: self.params,
        }
    }
}

impl Identity {
    /// What orders two keys of one path, word by word.
    pub open spec fn words(self) -> Seq<u32> {
        seq![
            self.usage.rank(),
            space_code(self.srgb) as u32,
            self.channel.index() as u32,
            self.params.uv_scale.x.bits,
            self.params.uv_scale.y.bits,
            self.params.uv_offset.x.bits,
            self.params.uv_offset.y.bits,
            self.params.scale.bits,
        ]
    }
}

/// From word `at` on, the first difference between the two puts `a` first.
pub open spec fn words_precede(a: Seq<u32>, b: Seq<u32>, at: int) -> bool
    decreases a.len() - at,
{
    if at >= b.len() || at >= a.len() {
        false
    } else if a[at] != b[at] {
        a[at] < b[at]
    } else {
        words_precede(a, b, at + 1)
    }
}

proof fn words_precede_not_itself(a: Seq<u32>, at: int)
    ensures
        !words_precede(a, a, at),
    decreases a.len() - at,
{
    if at < a.len() {
        words_precede_not_itself(a, at + 1);
    }
}

proof fn words_precede_transitively(a: Seq<u32>, b: Seq<u32>, c: Seq<u32>, at: int)
    requires
        a.len() == b.len() == c.len(),
        words_precede(a, b, at),
        words_precede(b, c, at),
    ensures
        words_precede(a, c, at),
    decreases a.len() - at,
{
    if at < a.len() && a[at] == b[at] && b[at] == c[at] {
        words_precede_transitively(a, b, c, at + 1);
    }
}

proof fn words_precede_one_way(a: Seq<u32>, b: Seq<u32>, at: int)
    requires
        a.len() == b.len(),
        0 <= at <= a.len(),
        forall|i: int| 0 <= i < at ==> a[i] == b[i],
        a != b,
    ensures
        words_precede(a, b, at) || words_precede(b, a, at),
    decreases a.len() - at,
{
    if at < a.len() {
        if a[at] == b[at] {
            words_precede_one_way(a, b, at + 1);
        }
    } else {
        assert(a =~= b);
    }
}

/// Keys with the same path and the same words are the same.
proof fn words_tell_keys_apart(a: Identity, b: Identity)
    requires
        a.path == b.path,
        a.words() == b.words(),
    ensures
        a == b,
{
    let left = a.words();
    let right = b.words();
    assert(left[0] == right[0] && left[1] == right[1] && left[2] == right[2] && left[3] == right[3]
        && left[4] == right[4] && left[5] == right[5] && left[6] == right[6] && left[7]
        == right[7]);
}

impl Ranked for Key {
    /// By path, and for one path by the words.
    open spec fn precedes(a: Identity, b: Identity) -> bool {
        FilePath::precedes(a.path, b.path) || (a.path == b.path && words_precede(
            a.words(),
            b.words(),
            0,
        ))
    }

    proof fn never_precedes_itself(a: Identity) {
        FilePath::never_precedes_itself(a.path);
        words_precede_not_itself(a.words(), 0);
    }

    proof fn precedes_transitively(a: Identity, b: Identity, c: Identity) {
        if a.path == b.path && b.path == c.path {
            FilePath::never_precedes_itself(a.path);
            words_precede_transitively(a.words(), b.words(), c.words(), 0);
        } else if a.path != b.path && b.path != c.path {
            FilePath::precedes_transitively(a.path, b.path, c.path);
        }
    }

    proof fn precedes_one_way(a: Identity, b: Identity) {
        if a.path != b.path {
            FilePath::precedes_one_way(a.path, b.path);
        } else {
            if a.words() == b.words() {
                words_tell_keys_apart(a, b);
            }
            words_precede_one_way(a.words(), b.words(), 0);
        }
    }

    fn order(&self, other: &Key) -> (r: Order) {
        match self.path.order(&other.path) {
            Order::Less => {
                return Order::Less;
            },
            Order::Greater => {
                return Order::Greater;
            },
            Order::Equal => {},
        }
        let left = self.words();
        let right = other.words();
        for at in 0..8
            invariant
                left@ == self@.words(),
                right@ == other@.words(),
                self@.path == other@.path,
                forall|i: int| 0 <= i < at ==> left@[i] == right@[i],
                words_precede(left@, right@, 0) == words_precede(left@, right@, at as int),
                words_precede(right@, left@, 0) == words_precede(right@, left@, at as int),
        {
            if left[at] < right[at] {
                return Order::Less;
            }
            if right[at] < left[at] {
                return Order::Greater;
            }
        }
        proof {
            assert(left@ =~= right@);
            words_tell_keys_apart(self@, other@);
        }
        Order::Equal
    }
}

impl Key {
    /// What orders two keys of one path.
    fn words(&self) -> (r: [u32; 8])
        ensures
            r@ == self@.words(),
    {
        let r: [u32; 8] = [
            self.usage.rank(),
            space_code(self.srgb) as u32,
            self.channel.index() as u32,
            self.params.uv_scale.x.bits,
            self.params.uv_scale.y.bits,
            self.params.uv_offset.x.bits,
            self.params.uv_offset.y.bits,
            self.params.scale.bits,
        ];
        assert(r@ =~= self@.words());
        r
    }
}

impl Duplicate for Key {
    fn duplicate(&self) -> (r: Key) {
        Key {
            path: self.path.duplicate(),
            usage: self.usage,
            srgb: self.srgb,
            channel: self.channel,
            params: self.params,
        }
    }
}

// -- What a cache is made from ------------------------------------------------

/// The FNV-1a hash of bytes, going on from `state`.
pub open spec fn fnv(state: u64, bytes: Seq<u8>) -> u64
    decreases bytes.len(),
{
    if bytes.len() == 0 {
        state
    } else {
        (fnv(state, bytes.drop_last()) ^ (bytes.last() as u64)).wrapping_mul(FNV_PRIME)
    }
}

/// A hash goes on where another stopped.
pub proof fn hashing_continues(state: u64, head: Seq<u8>, tail: Seq<u8>)
    ensures
        fnv(state, head + tail) == fnv(fnv(state, head), tail),
    decreases tail.len(),
{
    if tail.len() == 0 {
        assert(head + tail =~= head);
    } else {
        assert((head + tail).drop_last() =~= head + tail.drop_last());
        hashing_continues(state, head, tail.drop_last());
    }
}

/// The FNV-1a hash of `bytes`, going on from `state`.
pub fn fnv1a(state: u64, bytes: &[u8]) -> (r: u64)
    ensures
        r == fnv(state, bytes@),
{
    let mut hash: u64 = state;
    assert(bytes@.take(0) =~= Seq::<u8>::empty());
    for i in 0..bytes.len()
        invariant
            hash == fnv(state, bytes@.take(i as int)),
    {
        hash = (hash ^ (bytes[i] as u64)).wrapping_mul(FNV_PRIME);
        assert(bytes@.take(i + 1).drop_last() =~= bytes@.take(i as int));
    }
    assert(bytes@.take(bytes@.len() as int) =~= bytes@);
    hash
}

/// The source starts as a Radiance picture does.
pub open spec fn radiance(bytes: Seq<u8>) -> bool {
    bytes.len() >= 2 && bytes[0] == 0x23 && bytes[1] == 0x3f
}

/// What a source file's content comes to.
#[derive(Clone, Copy, Debug, PartialEq, Eq, Structural)]
pub struct Stamp {
    /// The hash of its bytes.
    pub fnv: u64,
    /// Whether it is a Radiance picture.
    pub radiance: bool,
}

/// What content comes to.
pub open spec fn stamped(bytes: Seq<u8>) -> Stamp {
    Stamp { fnv: fnv(FNV_OFFSET, bytes), radiance: radiance(bytes) }
}

impl Stamp {
    /// What a source file's content comes to.
    pub fn of(bytes: &[u8]) -> (r: Stamp)
        ensures
            r == stamped(bytes@),
    {
        Stamp {
            fnv: fnv1a(FNV_OFFSET, bytes),
            radiance: bytes.len() >= 2 && bytes[0] == 0x23 && bytes[1] == 0x3f,
        }
    }
}

/// The bytes that stand behind the content in what a cache is made from: how
/// the texture is used, and the rules it is prepared by.
pub open spec fn parameters(
    float: bool,
    usage: Usage,
    srgb: Option<bool>,
    channel: Channel,
) -> Seq<u8> {
    encode_utf8(usage.text()) + encode_utf8(channel.text()) + (if float {
        encode_utf8("radiance-float"@)
    } else {
        Seq::empty()
    }) + seq![PIPELINE_VERSION, space_code(srgb)] + vstd::bytes::spec_u32_to_le_bytes(MAX_DIM)
}

/// Everything that the prepared result depends on.
pub open spec fn ingredients(
    bytes: Seq<u8>,
    usage: Usage,
    srgb: Option<bool>,
    channel: Channel,
) -> Seq<u8> {
    bytes + parameters(radiance(bytes), usage, srgb, channel)
}

/// The hash that a cache is valid for, from what the content came to.
pub fn finish_hash(stamp: Stamp, usage: Usage, srgb: Option<bool>, channel: Channel) -> (r: u64)
    ensures
        r == fnv(stamp.fnv, parameters(stamp.radiance, usage, srgb, channel)),
{
    let rules: [u8; 2] = [PIPELINE_VERSION, space_code(srgb)];
    let limit = u32_to_le_bytes(MAX_DIM);
    let mut hash: u64 = fnv1a(stamp.fnv, usage.tag().as_bytes());
    hash = fnv1a(hash, channel.tag().as_bytes());
    proof {
        let first = encode_utf8(usage.text());
        let second = first + encode_utf8(channel.text());
        let float = if stamp.radiance {
            encode_utf8("radiance-float"@)
        } else {
            Seq::empty()
        };
        let both = seq![PIPELINE_VERSION, space_code(srgb)];
        assert(rules@ =~= both);
        hashing_continues(stamp.fnv, first, encode_utf8(channel.text()));
        hashing_continues(stamp.fnv, second, float);
        hashing_continues(stamp.fnv, second + float, both);
        hashing_continues(stamp.fnv, second + float + both, limit@);
    }
    if stamp.radiance {
        hash = fnv1a(hash, "radiance-float".as_bytes());
    }
    hash = fnv1a(hash, &rules);
    fnv1a(hash, limit.as_slice())
}

/// The hash that a cache is valid for: of the content, and of everything that
/// changes what is prepared from it.
pub fn cache_hash(bytes: &[u8], usage: Usage, srgb: Option<bool>, channel: Channel) -> (r: u64)
    ensures
        r == fnv(FNV_OFFSET, ingredients(bytes@, usage, srgb, channel)),
{
    proof {
        hashing_continues(
            FNV_OFFSET,
            bytes@,
            parameters(radiance(bytes@), usage, srgb, channel),
        );
    }
    finish_hash(Stamp::of(bytes), usage, srgb, channel)
}

/// What a cache's name has behind the source's.
pub open spec fn cache_suffix(usage: Usage, srgb: Option<bool>, channel: Channel) -> Seq<char> {
    "."@ + usage.text() + channel.text() + (match srgb {
        None => ""@,
        Some(encoded) => if encoded {
            ".srgb"@
        } else {
            ".linear"@
        },
    }) + ".dds"@
}

/// The file that caches what is prepared from `path`: beside it, and named
/// after it.
pub fn cache_path(
    path: &FilePath,
    usage: Usage,
    srgb: Option<bool>,
    channel: Channel,
) -> (r: FilePath)
    ensures
        r@ == path::suffixed(path@, cache_suffix(usage, srgb, channel)),
{
    let space = match srgb {
        None => "",
        Some(true) => ".srgb",
        Some(false) => ".linear",
    };
    let mut suffix = text::joined(".", usage.tag(), channel.tag());
    suffix.append(space);
    suffix.append(".dds");
    proof {
        reveal_strlit(".");
        reveal_strlit("color");
        reveal_strlit("scalar");
        reveal_strlit("vector");
        reveal_strlit("normal");
        reveal_strlit("");
        reveal_strlit(".g");
        reveal_strlit(".b");
        reveal_strlit(".a");
        reveal_strlit(".srgb");
        reveal_strlit(".linear");
        reveal_strlit(".dds");
        assert(suffix@.len() > 4);
        assert(path::plain(suffix@));
    }
    path.with_suffix(suffix.as_str())
}

// -- Looking again without reading ---------------------------------------------

/// What was last seen of a source file.
#[derive(Clone, Copy, Debug, PartialEq, Eq, Structural)]
pub struct Seen {
    /// Its size in bytes.
    pub size: u64,
    /// When it was last written, in nanoseconds from 1970.
    pub mtime: i128,
    /// What its content came to.
    pub stamp: Stamp,
}

/// What was last seen of every source file that was looked at.
#[derive(Debug)]
pub struct Stamps {
    seen: Table<FilePath, Seen>,
}

impl View for Stamps {
    type V = Map<Seq<Part<Seq<char>>>, Seen>;

    closed spec fn view(&self) -> Map<Seq<Part<Seq<char>>>, Seen> {
        self.seen@
    }
}

/// What was last seen of a file still holds, as far as its size and its time
/// of writing tell.
pub open spec fn unmoved(
    seen: Map<Seq<Part<Seq<char>>>, Seen>,
    path: Seq<Part<Seq<char>>>,
    size: u64,
    mtime: i128,
) -> bool {
    seen.dom().contains(path) && seen[path].size == size && seen[path].mtime == mtime
}

impl Stamps {
    /// Nothing was looked at yet.
    pub fn new() -> (r: Stamps)
        ensures
            r@ == Map::<Seq<Part<Seq<char>>>, Seen>::empty(),
    {
        Stamps { seen: Table::new() }
    }

    /// The hash that a cache of `path` is valid for, where nothing tells that
    /// the file was written since it was last read; else the file has to be
    /// read, and [`Stamps::expected_hash`] told of its content.
    pub fn recall(
        &self,
        path: &FilePath,
        size: u64,
        mtime: i128,
        usage: Usage,
        srgb: Option<bool>,
        channel: Channel,
    ) -> (r: Option<u64>)
        ensures
            r is Some == unmoved(self@, path@, size, mtime),
            r matches Some(hash) ==> hash == fnv(
                self@[path@].stamp.fnv,
                parameters(self@[path@].stamp.radiance, usage, srgb, channel),
            ),
    {
        match self.seen.get(path) {
            Some(seen) if seen.size == size && seen.mtime == mtime => Some(
                finish_hash(seen.stamp, usage, srgb, channel),
            ),
            _ => None,
        }
    }

    /// The hash that a cache of `path` is valid for, from its content, which
    /// is remembered under the size and the time of writing.
    pub fn expected_hash(
        &mut self,
        path: &FilePath,
        size: u64,
        mtime: i128,
        bytes: &[u8],
        usage: Usage,
        srgb: Option<bool>,
        channel: Channel,
    ) -> (r: u64)
        ensures
            r == fnv(FNV_OFFSET, ingredients(bytes@, usage, srgb, channel)),
            final(self)@ == old(self)@.insert(
                path@,
                (Seen { size, mtime, stamp: stamped(bytes@) }),
            ),
    {
        let stamp = Stamp::of(bytes);
        self.seen.insert(path.duplicate(), Seen { size, mtime, stamp });
        proof {
            hashing_continues(
                FNV_OFFSET,
                bytes@,
                parameters(radiance(bytes@), usage, srgb, channel),
            );
        }
        finish_hash(stamp, usage, srgb, channel)
    }
}

/// Looking again agrees with reading: once content was remembered, a file of
/// that size and time of writing is expected to have the hash that its
/// content has, whatever it is used for.
pub proof fn looking_agrees_with_reading(
    seen: Map<Seq<Part<Seq<char>>>, Seen>,
    path: Seq<Part<Seq<char>>>,
    size: u64,
    mtime: i128,
    bytes: Seq<u8>,
    usage: Usage,
    srgb: Option<bool>,
    channel: Channel,
)
    ensures
        ({
            let after = seen.insert(path, Seen { size, mtime, stamp: stamped(bytes) });
            &&& unmoved(after, path, size, mtime)
            &&& fnv(
                after[path].stamp.fnv,
                parameters(after[path].stamp.radiance, usage, srgb, channel),
            ) == fnv(FNV_OFFSET, ingredients(bytes, usage, srgb, channel))
        }),
{
    hashing_continues(FNV_OFFSET, bytes, parameters(radiance(bytes), usage, srgb, channel));
}

// -- From a source to blocks -----------------------------------------------------

/// Why a texture could not be prepared, with names of type `T`.
#[derive(Clone, Debug, PartialEq, Eq)]
pub enum TextureProblem<T> {
    /// The file cannot be read.
    Unreadable {
        /// The file.
        path: T,
        /// What the system says.
        reason: T,
    },
    /// The file starts as an EXR does, and does not decode as one.
    NoExr {
        /// The file.
        path: T,
        /// What the decoder says.
        reason: T,
    },
    /// The file does not decode.
    Undecodable {
        /// The file.
        path: T,
        /// What the decoder says.
        reason: T,
    },
    /// The image has no texels.
    ZeroSized {
        /// The file.
        path: T,
    },
}

/// Why a texture could not be prepared.
pub type TextureError = TextureProblem<String>;

impl View for TextureProblem<String> {
    type V = TextureProblem<Seq<char>>;

    open spec fn view(&self) -> TextureProblem<Seq<char>> {
        match *self {
            TextureProblem::Unreadable { path, reason } => TextureProblem::Unreadable {
                path: path@,
                reason: reason@,
            },
            TextureProblem::NoExr { path, reason } => TextureProblem::NoExr {
                path: path@,
                reason: reason@,
            },
            TextureProblem::Undecodable { path, reason } => TextureProblem::Undecodable {
                path: path@,
                reason: reason@,
            },
            TextureProblem::ZeroSized { path } => TextureProblem::ZeroSized { path: path@ },
        }
    }
}

/// A problem in words.
pub open spec fn texture_problem_text(problem: TextureProblem<Seq<char>>) -> Seq<char> {
    match problem {
        TextureProblem::Unreadable { path, reason } => "texture \""@ + path
            + "\": can't read: "@ + reason,
        TextureProblem::NoExr { path, reason } => "texture \""@ + path
            + "\": doesn't decode as an EXR: "@ + reason,
        TextureProblem::Undecodable { path, reason } => "texture \""@ + path
            + "\": doesn't decode: "@ + reason,
        TextureProblem::ZeroSized { path } => "texture \""@ + path + "\": zero-sized image"@,
    }
}

impl TextureProblem<String> {
    /// The problem in words.
    pub fn message(&self) -> (r: String)
        ensures
            r@ == texture_problem_text(self@),
    {
        match self {
            TextureProblem::Unreadable { path, reason } => {
                let mut r = text::joined("texture \"", path.as_str(), "\": can't read: ");
                r.append(reason.as_str());
                r
            },
            TextureProblem::NoExr { path, reason } => {
                let mut r = text::joined(
                    "texture \"",
                    path.as_str(),
                    "\": doesn't decode as an EXR: ",
                );
                r.append(reason.as_str());
                r
            },
            TextureProblem::Undecodable { path, reason } => {
                let mut r = text::joined("texture \"", path.as_str(), "\": doesn't decode: ");
                r.append(reason.as_str());
                r
            },
            TextureProblem::ZeroSized { path } => text::joined(
                "texture \"",
                path.as_str(),
                "\": zero-sized image",
            ),
        }
    }
}

/// A decoded image, as the source stores it: bytes stay bytes, and numbers
/// stay numbers. Each texel has red, green, blue and alpha.
#[derive(Debug)]
pub enum Source {
    /// The source holds bytes.
    Bytes {
        /// The values.
        rgba: Vec<u8>,
        /// Texels across.
        width: u32,
        /// Texels down.
        height: u32,
    },
    /// The source holds floating-point values.
    Float {
        /// The values.
        rgba: Vec<Num>,
        /// Texels across.
        width: u32,
        /// Texels down.
        height: u32,
    },
}

impl Source {
    /// There are four values for each texel.
    pub open spec fn wf(self) -> bool {
        match self {
            Source::Bytes { rgba, width, height } => rgba@.len() == width * height * 4,
            Source::Float { rgba, width, height } => rgba@.len() == width * height * 4,
        }
    }

    /// There is no texel.
    pub open spec fn vacant(self) -> bool {
        match self {
            Source::Bytes { width, height, .. } => width == 0 || height == 0,
            Source::Float { width, height, .. } => width == 0 || height == 0,
        }
    }
}

/// The values of an image as numbers, as the source stores them.
pub open spec fn holds_floats(source: Source, image: image::DynamicImage) -> bool {
    source matches Source::Float { rgba, width, height } && (width, height) == codec::extent(image)
        && rgba@ == codec::floats_of(image).take(width * height * 4)
}

/// What a file's image holds, as the source stores it: an EXR file's values
/// are always taken as numbers.
pub open spec fn holds_decoded(source: Source, bytes: Seq<u8>, image: image::DynamicImage) -> bool {
    if exr(bytes) {
        holds_floats(source, image)
    } else {
        holds_image(source, image)
    }
}

/// What an image holds, as the source stores it.
pub open spec fn holds_image(source: Source, image: image::DynamicImage) -> bool {
    match source {
        Source::Bytes { rgba, width, height } => {
            &&& !codec::floating(image)
            &&& (width, height) == codec::extent(image)
            &&& rgba@ == codec::bytes_of(image).take(width * height * 4)
        },
        Source::Float { .. } => codec::floating(image) && holds_floats(source, image),
    }
}

/// Take an image's values out of it as numbers.
pub fn floats_from(image: &image::DynamicImage) -> (r: Source)
    ensures
        holds_floats(r, *image),
        r.wf(),
{
    let (mut rgba, width, height) = codec::to_floats(image);
    let length: usize = rgba.len();
    assert(0 <= width * height <= width * height * 4) by (nonlinear_arith)
        requires
            0 <= width,
            0 <= height,
    ;
    rgba.truncate(width as usize * height as usize * 4);
    Source::Float { rgba, width, height }
}

/// Take an image's values out of it: an image that holds floating-point
/// values keeps their range.
pub fn source_of(image: &image::DynamicImage) -> (r: Source)
    ensures
        holds_image(r, *image),
        r.wf(),
{
    if codec::is_floating(image) {
        floats_from(image)
    } else {
        let (mut rgba, width, height) = codec::to_bytes(image);
        let length: usize = rgba.len();
        assert(0 <= width * height <= width * height * 4) by (nonlinear_arith)
            requires
                0 <= width,
                0 <= height,
        ;
        rgba.truncate(width as usize * height as usize * 4);
        Source::Bytes { rgba, width, height }
    }
}

/// The bytes start as an EXR file does.
pub open spec fn exr(bytes: Seq<u8>) -> bool {
    bytes.len() >= 4 && bytes[0] == 0x76 && bytes[1] == 0x2f && bytes[2] == 0x31 && bytes[3] == 0x01
}

/// What a path's extension is, if it has one.
pub open spec fn extension(path: Seq<Part<Seq<char>>>) -> Option<Seq<char>> {
    match path::last_name(path) {
        Some(name) => path::extension_of(name),
        None => None,
    }
}

/// A second try is made in the format that the file's extension names.
pub open spec fn tried_again(path: Seq<Part<Seq<char>>>, bytes: Seq<u8>) -> bool {
    !exr(bytes) && extension(path) is Some && codec::known_extension(extension(path)->0)
}

/// What decoding a file can come to: what its bytes come to, or where those fail
/// and the extension names a format, what they come to in that one.
pub open spec fn decodes_as(
    path: Seq<Part<Seq<char>>>,
    bytes: Seq<u8>,
    outcome: Result<image::DynamicImage, Seq<char>>,
) -> bool {
    if outcome is Ok && codec::sniffs_as(bytes, outcome) {
        true
    } else if tried_again(path, bytes) {
        codec::loads_as(bytes, codec::format_for(extension(path)->0)->0, outcome) && exists|first: Seq<char>|
            #[trigger] codec::sniffs_as(bytes, Err::<image::DynamicImage, Seq<char>>(first))
    } else {
        codec::sniffs_as(bytes, outcome)
    }
}

/// What is said of a file that does not decode.
pub open spec fn undecoded(
    path: FilePath,
    bytes: Seq<u8>,
    problem: TextureProblem<Seq<char>>,
) -> bool {
    match problem {
        TextureProblem::NoExr { path: at, reason } => exr(bytes) && at == path.text@ && decodes_as(
            path@,
            bytes,
            Err(reason),
        ),
        TextureProblem::Undecodable { path: at, reason } => !exr(bytes) && at == path.text@
            && decodes_as(path@, bytes, Err(reason)),
        _ => false,
    }
}

/// Decode an image file. Bytes that do not tell their format get a second
/// try in the one that the file's extension names; where it names none, what
/// was wrong with the first try stands. An EXR file gets one try, and always
/// gives floating-point values.
pub fn decode(path: &FilePath, bytes: &[u8]) -> (r: Result<Source, TextureError>)
    ensures
        r matches Ok(source) ==> source.wf() && exists|image: image::DynamicImage|
            #[trigger] decodes_as(path@, bytes@, Ok(image)) && holds_decoded(source, bytes@, image),
        r matches Ok(source) ==> (exr(bytes@) ==> source is Float),
        r matches Err(error) ==> undecoded(*path, bytes@, error@),
{
    if bytes.len() >= 4 && bytes[0] == 0x76 && bytes[1] == 0x2f && bytes[2] == 0x31 && bytes[3]
        == 0x01 {
        return match codec::sniff(bytes) {
            Ok(image) => {
                assert(decodes_as(path@, bytes@, Ok(image)));
                Ok(floats_from(&image))
            },
            Err(reason) => Err(TextureProblem::NoExr { path: path.text.clone(), reason }),
        };
    }
    let first = match codec::sniff(bytes) {
        Ok(image) => {
            assert(decodes_as(path@, bytes@, Ok(image)));
            return Ok(source_of(&image));
        },
        Err(reason) => reason,
    };
    let reason = match path.extension() {
        None => first,
        Some(extension) => match codec::format_of(extension.as_str()) {
            None => first,
            Some(format) => match codec::load(bytes, format) {
                Ok(image) => {
                    assert(decodes_as(path@, bytes@, Ok(image)));
                    return Ok(source_of(&image));
                },
                Err(second) => second,
            },
        },
    };
    Err(TextureProblem::Undecodable { path: path.text.clone(), reason })
}

/// The arithmetic can be called on anything: `light` gives a byte's value,
/// `average` the mean of four texels, `store` what a byte keeps of a value.
pub open spec fn able<
    L: Fn(u8, bool) -> Num,
    A: Fn(bool, Vec4, Vec4, Vec4, Vec4) -> Vec4,
    S: Fn(Num, bool) -> u8,
>(light: L, average: A, store: S) -> bool {
    &&& forall|byte: u8, srgb: bool| call_requires(light, (byte, srgb))
    &&& forall|normals: bool, a: Vec4, b: Vec4, c: Vec4, d: Vec4|
        call_requires(average, (normals, a, b, c, d))
    &&& forall|value: Num, srgb: bool| call_requires(store, (value, srgb))
}

/// Values at half precision.
pub open spec fn halved(values: Seq<Num>) -> Seq<u16> {
    values.map_values(|value: Num| texels::half(value) as u16)
}

/// `texture` is a BC7 texture of an image of bytes.
pub open spec fn encodes_bytes<
    L: Fn(u8, bool) -> Num,
    A: Fn(bool, Vec4, Vec4, Vec4, Vec4) -> Vec4,
    S: Fn(Num, bool) -> u8,
>(
    light: L,
    average: A,
    store: S,
    image: Image<u8>,
    encoded: bool,
    texture: Texture,
) -> bool {
    let width = texture.width as int;
    let height = texture.height as int;
    &&& texture.format == if encoded {
        BlockFormat::Bc7Srgb
    } else {
        BlockFormat::Bc7Unorm
    }
    &&& exists|small: Seq<u8>|
        #[trigger] texels::caps_bytes(
            light,
            average,
            store,
            encoded,
            false,
            image,
            Image { values: small, width, height },
        ) && codec::bc7_makes(
            texels::padded(small, width, height, 4),
            texels::block_multiple(width) as u32,
            texels::block_multiple(height) as u32,
            texture.data,
        )
}

/// `texture` is a BC6H texture of an image of floating-point values.
pub open spec fn encodes_floats<A: Fn(bool, Vec4, Vec4, Vec4, Vec4) -> Vec4>(
    average: A,
    image: Image<Num>,
    texture: Texture,
) -> bool {
    let width = texture.width as int;
    let height = texture.height as int;
    &&& texture.format == BlockFormat::Bc6hUfloat
    &&& exists|small: Seq<Num>|
        #[trigger] texels::caps(average, false, image, Image { values: small, width, height })
            && codec::bc6h_makes(
            texels::padded(halved(small), width, height, 4),
            texels::block_multiple(width) as u32,
            texels::block_multiple(height) as u32,
            texture.data,
        )
}

/// `texture` is a color texture of `source`.
pub open spec fn encodes_color<
    L: Fn(u8, bool) -> Num,
    A: Fn(bool, Vec4, Vec4, Vec4, Vec4) -> Vec4,
    S: Fn(Num, bool) -> u8,
>(light: L, average: A, store: S, source: Source, srgb: Option<bool>, texture: Texture) -> bool {
    match source {
        Source::Bytes { rgba, width, height } => encodes_bytes(
            light,
            average,
            store,
            Image { values: rgba@, width: width as int, height: height as int },
            encoded_or(srgb, true),
            texture,
        ),
        Source::Float { rgba, width, height } => encodes_floats(
            average,
            Image { values: rgba@, width: width as int, height: height as int },
            texture,
        ),
    }
}

/// What the blocks of a texture with this extent take.
proof fn blocks_fill_the_data(width: u32, height: u32, across: u32, down: u32)
    requires
        1 <= width <= MAX_DIM,
        1 <= height <= MAX_DIM,
        across == texels::block_multiple(width as int),
        down == texels::block_multiple(height as int),
    ensures
        codec::blocky(across, down),
        across / 4 == dds::blocks_across(width as int),
        down / 4 == dds::blocks_across(height as int),
        across * down * 4 <= usize::MAX,
        across <= MAX_DIM && down <= MAX_DIM,
        width * height >= 1,
{
    assert(across * down <= 4096 * 4096) by (nonlinear_arith)
        requires
            0 <= across <= 4096,
            0 <= down <= 4096,
    ;
    assert(width * height >= 1) by (nonlinear_arith)
        requires
            width >= 1,
            height >= 1,
    ;
}

/// The size of a padded image.
#[verifier::spinoff_prover]
proof fn padding_fills_blocks<T>(data: Seq<T>, width: int, height: int, channels: int)
    requires
        width >= 1,
        height >= 1,
        channels >= 1,
        data.len() == width * height * channels,
    ensures
        texels::padded(data, width, height, channels).len() == texels::block_multiple(width)
            * texels::block_multiple(height) * channels,
{
    let across = texels::block_multiple(width);
    let down = texels::block_multiple(height);
    let size = across * down * channels;
    if width % 4 == 0 && height % 4 == 0 {
        assert(across == width);
        assert(down == height);
        assert(texels::padded(data, width, height, channels) == data);
    } else {
        assert(size >= 0) by (nonlinear_arith)
            requires
                size == across * down * channels,
                across >= 0,
                down >= 0,
                channels >= 0,
        ;
        assert(texels::padded(data, width, height, channels).len() == size);
    }
}

/// Compress a color texture: bytes keep their color space as how they are
/// read, and floating-point values become half-precision ones, read linear
/// whatever the reference says.
pub fn encode_color<
    L: Fn(u8, bool) -> Num,
    A: Fn(bool, Vec4, Vec4, Vec4, Vec4) -> Vec4,
    S: Fn(Num, bool) -> u8,
>(source: Source, srgb: Option<bool>, light: &L, average: &A, store: &S) -> (r: Prepared)
    requires
        source.wf(),
        !source.vacant(),
        able(*light, *average, *store),
    ensures
        encodes_color(*light, *average, *store, source, srgb, r@),
        r.hash == 0,
        r@.complete(),
{
    match source {
        Source::Bytes { rgba, width, height } => {
            let encoded = encoded_or(srgb, true);
            let ghost image = Image {
                values: rgba@,
                width: width as int,
                height: height as int,
            };
            let (rgba, width, height) = texels::mip_cap_bytes(
                rgba,
                width,
                height,
                encoded,
                false,
                light,
                average,
                store,
            );
            let ghost small = rgba@;
            let ghost across = texels::block_multiple(width as int) as u32;
            let ghost down = texels::block_multiple(height as int) as u32;
            proof {
                blocks_fill_the_data(width, height, across, down);
                padding_fills_blocks(small, width as int, height as int, 4);
            }
            let (padded, pw, ph) = texels::pad_to_blocks(rgba.as_slice(), width, height, 4);
            let data = codec::compress_bc7(padded.as_slice(), pw, ph);
            let format = if encoded {
                BlockFormat::Bc7Srgb
            } else {
                BlockFormat::Bc7Unorm
            };
            let r = Prepared { width, height, format, data, hash: 0 };
            proof {
                assert(texels::caps_bytes(
                    *light,
                    *average,
                    *store,
                    encoded,
                    false,
                    image,
                    Image { values: small, width: width as int, height: height as int },
                ));
                let texture = r@;
                assert(codec::bc7_makes(
                    texels::padded(small, texture.width as int, texture.height as int, 4),
                    texels::block_multiple(texture.width as int) as u32,
                    texels::block_multiple(texture.height as int) as u32,
                    texture.data,
                ));
                assert(encodes_bytes(*light, *average, *store, image, encoded, r@));
            }
            r
        },
        Source::Float { rgba, width, height } => {
            let ghost image = Image {
                values: rgba@,
                width: width as int,
                height: height as int,
            };
            let (rgba, width, height) = texels::mip_cap_floats(rgba, width, height, false, average);
            let ghost small = rgba@;
            let mut halves: Vec<u16> = Vec::new();
            for i in 0..rgba.len()
                invariant
                    halves@ == halved(rgba@.take(i as int)),
            {
                halves.push(texels::half_bits(rgba[i]));
                assert(halves@ =~= halved(rgba@.take(i + 1)));
            }
            assert(rgba@.take(rgba@.len() as int) =~= rgba@);
            let ghost across = texels::block_multiple(width as int) as u32;
            let ghost down = texels::block_multiple(height as int) as u32;
            proof {
                blocks_fill_the_data(width, height, across, down);
                padding_fills_blocks(halves@, width as int, height as int, 4);
            }
            let (padded, pw, ph) = texels::pad_to_blocks(halves.as_slice(), width, height, 4);
            let data = codec::compress_bc6h(padded.as_slice(), pw, ph);
            let r = Prepared { width, height, format: BlockFormat::Bc6hUfloat, data, hash: 0 };
            proof {
                assert(texels::caps(
                    *average,
                    false,
                    image,
                    Image { values: small, width: width as int, height: height as int },
                ));
                let texture = r@;
                assert(codec::bc6h_makes(
                    texels::padded(halved(small), texture.width as int, texture.height as int, 4),
                    texels::block_multiple(texture.width as int) as u32,
                    texels::block_multiple(texture.height as int) as u32,
                    texture.data,
                ));
                assert(encodes_floats(*average, image, r@));
            }
            r
        },
    }
}

/// One component of every texel.
pub open spec fn picked<T>(rgba: Seq<T>, part: int) -> Seq<T> {
    Seq::new(rgba.len() / 4, |i: int| rgba[4 * i + part])
}

/// `mask` is the chosen component of `source`, at an extent that fits, before
/// any color space is taken out of it.
pub open spec fn picks<
    L: Fn(u8, bool) -> Num,
    A: Fn(bool, Vec4, Vec4, Vec4, Vec4) -> Vec4,
    S: Fn(Num, bool) -> u8,
>(
    light: L,
    average: A,
    store: S,
    source: Source,
    srgb: bool,
    channel: Channel,
    width: int,
    height: int,
    mask: Seq<u8>,
) -> bool {
    match source {
        Source::Bytes { rgba, width: across, height: down } => exists|small: Seq<u8>|
            #[trigger] texels::caps_bytes(
                light,
                average,
                store,
                srgb,
                false,
                Image { values: rgba@, width: across as int, height: down as int },
                Image { values: small, width, height },
            ) && mask == picked(small, channel.index() as int),
        Source::Float { rgba, width: across, height: down } => exists|small: Seq<Num>|
            #[trigger] texels::caps(
                average,
                false,
                Image { values: rgba@, width: across as int, height: down as int },
                Image { values: small, width, height },
            ) && texels::kept(store, false, picked(small, channel.index() as int), mask),
    }
}

/// `linear` is the mask without its color space, where it has one.
pub open spec fn linearizes<L: Fn(u8, bool) -> Num, S: Fn(Num, bool) -> u8>(
    light: L,
    store: S,
    srgb: bool,
    mask: Seq<u8>,
    linear: Seq<u8>,
) -> bool {
    if srgb {
        exists|values: Seq<Num>|
            #[trigger] texels::lit(light, true, mask, values) && texels::kept(
                store,
                false,
                values,
                linear,
            )
    } else {
        linear == mask
    }
}

/// `texture` is a mask of `source`, with or without a color space to be taken
/// out of it.
pub open spec fn encodes_mask<
    L: Fn(u8, bool) -> Num,
    A: Fn(bool, Vec4, Vec4, Vec4, Vec4) -> Vec4,
    S: Fn(Num, bool) -> u8,
>(
    light: L,
    average: A,
    store: S,
    source: Source,
    encoded: bool,
    channel: Channel,
    texture: Texture,
) -> bool {
    let width = texture.width as int;
    let height = texture.height as int;
    &&& texture.format == BlockFormat::Bc4Unorm
    &&& exists|mask: Seq<u8>, linear: Seq<u8>|
        #![trigger picks(light, average, store, source, encoded, channel, width, height, mask), linearizes(light, store, encoded, mask, linear)]
        picks(light, average, store, source, encoded, channel, width, height, mask) && linearizes(
            light,
            store,
            encoded,
            mask,
            linear,
        ) && codec::bc4_makes(
            texels::padded(linear, width, height, 1),
            texels::block_multiple(width) as u32,
            texels::block_multiple(height) as u32,
            texture.data,
        )
}

/// `texture` is a mask of `source`.
pub open spec fn encodes_scalar<
    L: Fn(u8, bool) -> Num,
    A: Fn(bool, Vec4, Vec4, Vec4, Vec4) -> Vec4,
    S: Fn(Num, bool) -> u8,
>(
    light: L,
    average: A,
    store: S,
    source: Source,
    srgb: Option<bool>,
    channel: Channel,
    texture: Texture,
) -> bool {
    encodes_mask(light, average, store, source, encoded_or(srgb, false), channel, texture)
}

/// One component of every texel.
fn pick<T: Copy>(rgba: &Vec<T>, part: usize) -> (r: Vec<T>)
    requires
        part < 4,
        rgba@.len() % 4 == 0,
    ensures
        r@ == picked(rgba@, part as int),
{
    let length: usize = rgba.len();
    let count: usize = length / 4;
    let mut out: Vec<T> = Vec::new();
    for i in 0..count
        invariant
            part < 4,
            length == rgba@.len(),
            count == rgba@.len() / 4,
            rgba@.len() % 4 == 0,
            out@ == picked(rgba@, part as int).take(i as int),
    {
        out.push(rgba[i * 4 + part]);
        assert(out@ =~= picked(rgba@, part as int).take(i + 1));
    }
    assert(out@ =~= picked(rgba@, part as int));
    out
}

/// Compress a mask from one component. Masks are linear: where the reference
/// says sRGB, the color space is taken out of them here.
pub fn encode_scalar<
    L: Fn(u8, bool) -> Num,
    A: Fn(bool, Vec4, Vec4, Vec4, Vec4) -> Vec4,
    S: Fn(Num, bool) -> u8,
>(
    source: Source,
    srgb: Option<bool>,
    channel: Channel,
    light: &L,
    average: &A,
    store: &S,
) -> (r: Prepared)
    requires
        source.wf(),
        !source.vacant(),
        able(*light, *average, *store),
    ensures
        encodes_scalar(*light, *average, *store, source, srgb, channel, r@),
        r.hash == 0,
        r@.complete(),
{
    let encoded = encoded_or(srgb, false);
    let part: usize = channel.index();
    let ghost before = source;
    let (mask, width, height) = match source {
        Source::Bytes { rgba, width, height } => {
            let ghost image = Image {
                values: rgba@,
                width: width as int,
                height: height as int,
            };
            let (rgba, width, height) = texels::mip_cap_bytes(
                rgba,
                width,
                height,
                encoded,
                false,
                light,
                average,
                store,
            );
            let mask = pick(&rgba, part);
            proof {
                assert(texels::caps_bytes(
                    *light,
                    *average,
                    *store,
                    encoded,
                    false,
                    image,
                    Image { values: rgba@, width: width as int, height: height as int },
                ));
            }
            (mask, width, height)
        },
        Source::Float { rgba, width, height } => {
            let ghost image = Image {
                values: rgba@,
                width: width as int,
                height: height as int,
            };
            let (rgba, width, height) = texels::mip_cap_floats(rgba, width, height, false, average);
            let mask = texels::keep_all(store, false, &pick(&rgba, part));
            proof {
                assert(texels::caps(
                    *average,
                    false,
                    image,
                    Image { values: rgba@, width: width as int, height: height as int },
                ));
            }
            (mask, width, height)
        },
    };
    assert(picks(
        *light,
        *average,
        *store,
        before,
        encoded,
        channel,
        width as int,
        height as int,
        mask@,
    ));
    let ghost raw = mask@;
    let linear = if encoded {
        let values = texels::light_all(light, true, &mask);
        assert(texels::lit(*light, true, raw, values@));
        texels::keep_all(store, false, &values)
    } else {
        mask
    };
    assert(linearizes(*light, *store, encoded, raw, linear@));
    let ghost across = texels::block_multiple(width as int) as u32;
    let ghost down = texels::block_multiple(height as int) as u32;
    proof {
        blocks_fill_the_data(width, height, across, down);
        padding_fills_blocks(linear@, width as int, height as int, 1);
    }
    let (padded, pw, ph) = texels::pad_to_blocks(linear.as_slice(), width, height, 1);
    let data = codec::compress_bc4(padded.as_slice(), pw, ph);
    let r = Prepared { width, height, format: BlockFormat::Bc4Unorm, data, hash: 0 };
    proof {
        let texture = r@;
        let last = linear@;
        assert(picks(
            *light,
            *average,
            *store,
            source,
            encoded,
            channel,
            texture.width as int,
            texture.height as int,
            raw,
        ));
        assert(codec::bc4_makes(
            texels::padded(last, texture.width as int, texture.height as int, 1),
            texels::block_multiple(texture.width as int) as u32,
            texels::block_multiple(texture.height as int) as u32,
            texture.data,
        ));
        assert(encodes_mask(*light, *average, *store, source, encoded, channel, texture));
    }
    r
}

/// The first two components of every texel.
pub open spec fn first_two(rgba: Seq<u8>) -> Seq<u8> {
    Seq::new(rgba.len() / 4 * 2, |i: int| rgba[i / 2 * 4 + i % 2])
}

/// `bytes` are the packed directions of `source`, at an extent that fits.
pub open spec fn directs<
    L: Fn(u8, bool) -> Num,
    A: Fn(bool, Vec4, Vec4, Vec4, Vec4) -> Vec4,
    S: Fn(Num, bool) -> u8,
>(
    light: L,
    average: A,
    store: S,
    source: Source,
    width: int,
    height: int,
    bytes: Seq<u8>,
) -> bool {
    match source {
        Source::Bytes { rgba, width: across, height: down } => texels::caps_bytes(
            light,
            average,
            store,
            false,
            true,
            Image { values: rgba@, width: across as int, height: down as int },
            Image { values: bytes, width, height },
        ),
        Source::Float { rgba, width: across, height: down } => exists|small: Seq<Num>|
            #[trigger] texels::caps(
                average,
                true,
                Image { values: rgba@, width: across as int, height: down as int },
                Image { values: small, width, height },
            ) && texels::kept(store, false, small, bytes),
    }
}

/// `texture` is a normal map of `source`.
pub open spec fn encodes_normal<
    L: Fn(u8, bool) -> Num,
    A: Fn(bool, Vec4, Vec4, Vec4, Vec4) -> Vec4,
    S: Fn(Num, bool) -> u8,
>(light: L, average: A, store: S, source: Source, texture: Texture) -> bool {
    let width = texture.width as int;
    let height = texture.height as int;
    &&& texture.format == BlockFormat::Bc5Unorm
    &&& exists|bytes: Seq<u8>|
        #[trigger] directs(light, average, store, source, width, height, bytes) && codec::bc5_makes(
            texels::padded(first_two(bytes), width, height, 2),
            texels::block_multiple(width) as u32,
            texels::block_multiple(height) as u32,
            texture.data,
        )
}

/// Compress a normal map: the first two components of directions, always
/// linear.
pub fn encode_normal<
    L: Fn(u8, bool) -> Num,
    A: Fn(bool, Vec4, Vec4, Vec4, Vec4) -> Vec4,
    S: Fn(Num, bool) -> u8,
>(source: Source, light: &L, average: &A, store: &S) -> (r: Prepared)
    requires
        source.wf(),
        !source.vacant(),
        able(*light, *average, *store),
    ensures
        encodes_normal(*light, *average, *store, source, r@),
        r.hash == 0,
        r@.complete(),
{
    let ghost before = source;
    let (rgba, width, height) = match source {
        Source::Bytes { rgba, width, height } => texels::mip_cap_bytes(
            rgba,
            width,
            height,
            false,
            true,
            light,
            average,
            store,
        ),
        Source::Float { rgba, width, height } => {
            let ghost image = Image {
                values: rgba@,
                width: width as int,
                height: height as int,
            };
            let (rgba, width, height) = texels::mip_cap_floats(rgba, width, height, true, average);
            let bytes = texels::keep_all(store, false, &rgba);
            proof {
                assert(texels::caps(
                    *average,
                    true,
                    image,
                    Image { values: rgba@, width: width as int, height: height as int },
                ));
            }
            (bytes, width, height)
        },
    };
    assert(directs(*light, *average, *store, before, width as int, height as int, rgba@));
    let length: usize = rgba.len();
    let count: usize = length / 4;
    let mut xy: Vec<u8> = Vec::new();
    for i in 0..count
        invariant
            length == rgba@.len(),
            count == rgba@.len() / 4,
            xy@.len() == 2 * i,
            xy@ == first_two(rgba@).take(2 * i),
    {
        xy.push(rgba[i * 4]);
        xy.push(rgba[i * 4 + 1]);
        assert(xy@ =~= first_two(rgba@).take(2 * (i + 1)));
    }
    assert(xy@ =~= first_two(rgba@));
    let ghost across = texels::block_multiple(width as int) as u32;
    let ghost down = texels::block_multiple(height as int) as u32;
    proof {
        blocks_fill_the_data(width, height, across, down);
        padding_fills_blocks(xy@, width as int, height as int, 2);
    }
    let (padded, pw, ph) = texels::pad_to_blocks(xy.as_slice(), width, height, 2);
    let data = codec::compress_bc5(padded.as_slice(), pw, ph);
    let r = Prepared { width, height, format: BlockFormat::Bc5Unorm, data, hash: 0 };
    proof {
        let bytes = rgba@;
        let texture = r@;
        assert(directs(*light, *average, *store, source, texture.width as int, texture.height as int, bytes));
        assert(codec::bc5_makes(
            texels::padded(first_two(bytes), texture.width as int, texture.height as int, 2),
            texels::block_multiple(texture.width as int) as u32,
            texels::block_multiple(texture.height as int) as u32,
            texture.data,
        ));
    }
    r
}

/// A texture before its hash is put on it.
pub open spec fn unstamped(texture: Texture) -> Texture {
    Texture { hash: 0, ..texture }
}

/// `texture` is what `source` is prepared as for a use.
pub open spec fn encodes<
    L: Fn(u8, bool) -> Num,
    A: Fn(bool, Vec4, Vec4, Vec4, Vec4) -> Vec4,
    S: Fn(Num, bool) -> u8,
>(
    light: L,
    average: A,
    store: S,
    source: Source,
    usage: Usage,
    srgb: Option<bool>,
    channel: Channel,
    texture: Texture,
) -> bool {
    match usage {
        Usage::Color => encodes_color(light, average, store, source, srgb, texture),
        Usage::Scalar => encodes_scalar(light, average, store, source, srgb, channel, texture),
        Usage::Vector => encodes_color(
            light,
            average,
            store,
            source,
            Some(encoded_or(srgb, false)),
            texture,
        ),
        Usage::Normal => encodes_normal(light, average, store, source, texture),
    }
}

/// Compress a decoded image for a use. An image without texels is refused.
pub fn encode_source<
    L: Fn(u8, bool) -> Num,
    A: Fn(bool, Vec4, Vec4, Vec4, Vec4) -> Vec4,
    S: Fn(Num, bool) -> u8,
>(
    path: &FilePath,
    source: Source,
    usage: Usage,
    srgb: Option<bool>,
    channel: Channel,
    hash: u64,
    light: &L,
    average: &A,
    store: &S,
) -> (r: Result<Prepared, TextureError>)
    requires
        source.wf(),
        able(*light, *average, *store),
    ensures
        r is Err == source.vacant(),
        r matches Err(error) ==> error@ == (TextureProblem::ZeroSized { path: path.text@ }),
        r matches Ok(prepared) ==> prepared@.complete() && prepared.hash == hash && encodes(
            *light,
            *average,
            *store,
            source,
            usage,
            srgb,
            channel,
            unstamped(prepared@),
        ),
{
    let (width, height) = match &source {
        Source::Bytes { width, height, .. } => (*width, *height),
        Source::Float { width, height, .. } => (*width, *height),
    };
    if width == 0 || height == 0 {
        return Err(TextureProblem::ZeroSized { path: path.text.clone() });
    }
    let prepared = match usage {
        Usage::Color => encode_color(source, srgb, light, average, store),
        Usage::Scalar => encode_scalar(source, srgb, channel, light, average, store),
        Usage::Vector => encode_color(
            source,
            Some(encoded_or(srgb, false)),
            light,
            average,
            store,
        ),
        Usage::Normal => encode_normal(source, light, average, store),
    };
    let ghost before = prepared@;
    let stamped = Prepared {
        width: prepared.width,
        height: prepared.height,
        format: prepared.format,
        data: prepared.data,
        hash,
    };
    assert(unstamped(stamped@) == before);
    Ok(stamped)
}

/// Decode an image file and compress it for a use.
pub fn encode<
    L: Fn(u8, bool) -> Num,
    A: Fn(bool, Vec4, Vec4, Vec4, Vec4) -> Vec4,
    S: Fn(Num, bool) -> u8,
>(
    path: &FilePath,
    bytes: &[u8],
    usage: Usage,
    srgb: Option<bool>,
    channel: Channel,
    hash: u64,
    light: &L,
    average: &A,
    store: &S,
) -> (r: Result<Prepared, TextureError>)
    requires
        able(*light, *average, *store),
    ensures
        r matches Ok(prepared) ==> prepared@.complete() && prepared.hash == hash && exists|
            source: Source,
            image: image::DynamicImage,
        |
            decodes_as(path@, bytes@, Ok(image)) && #[trigger] holds_decoded(source, bytes@, image) && encodes(
                *light,
                *average,
                *store,
                source,
                usage,
                srgb,
                channel,
                unstamped(prepared@),
            ),
        r matches Err(error) ==> match error@ {
            TextureProblem::ZeroSized { path: at } => at == path.text@ && exists|
                source: Source,
                image: image::DynamicImage,
            |
                decodes_as(path@, bytes@, Ok(image)) && #[trigger] holds_decoded(source, bytes@, image)
                    && source.vacant(),
            _ => undecoded(*path, bytes@, error@),
        },
{
    match decode(path, bytes) {
        Ok(source) => {
            let ghost before = source;
            proof {
                let image = choose|image: image::DynamicImage|
                    #[trigger] decodes_as(path@, bytes@, Ok(image)) && holds_decoded(before, bytes@, image);
                assert(holds_decoded(before, bytes@, image));
            }
            encode_source(path, source, usage, srgb, channel, hash, light, average, store)
        },
        Err(error) => Err(error),
    }
}

/// A prepared texture, and the bytes to put in its cache where those there
/// were no good.
#[derive(Debug)]
pub struct Outcome {
    /// The texture.
    pub prepared: Prepared,
    /// What the cache is to hold, if not what it held.
    pub fresh: Option<Vec<u8>>,
}

/// A cache file that counts for this hash.
pub open spec fn valid_cache(cached: Option<Vec<u8>>, hash: u64) -> bool {
    cached matches Some(file) && exists|format: BlockFormat|
        #[trigger] dds::accepted(file@, hash, format)
}

/// Prepare a texture from its source's content and what its cache holds, if
/// there is a cache. A cache that was written for the very content and
/// parameters is the answer; any other is a miss, and the texture is made
/// again, with the file to put in the cache's place.
pub fn prepare<
    L: Fn(u8, bool) -> Num,
    A: Fn(bool, Vec4, Vec4, Vec4, Vec4) -> Vec4,
    S: Fn(Num, bool) -> u8,
>(
    path: &FilePath,
    bytes: &[u8],
    cached: Option<Vec<u8>>,
    usage: Usage,
    srgb: Option<bool>,
    channel: Channel,
    light: &L,
    average: &A,
    store: &S,
) -> (r: Result<Outcome, TextureError>)
    requires
        able(*light, *average, *store),
    ensures
        ({
            let hash = fnv(FNV_OFFSET, ingredients(bytes@, usage, srgb, channel));
            &&& valid_cache(cached, hash) ==> r is Ok
            &&& r matches Ok(outcome) ==> {
                &&& outcome.prepared.hash == hash
                &&& outcome.prepared@.complete()
                &&& outcome.fresh is None == valid_cache(cached, hash)
                &&& outcome.fresh is None ==> dds::accepted(
                    cached->0@,
                    hash,
                    outcome.prepared.format,
                ) && outcome.prepared@ == dds::held(cached->0@, hash, outcome.prepared.format)
                &&& outcome.fresh matches Some(file) ==> file@ == dds::composed(
                    outcome.prepared@,
                    hash,
                ) && exists|source: Source, image: image::DynamicImage|
                    decodes_as(path@, bytes@, Ok(image)) && #[trigger] holds_decoded(source, bytes@, image)
                        && encodes(
                        *light,
                        *average,
                        *store,
                        source,
                        usage,
                        srgb,
                        channel,
                        unstamped(outcome.prepared@),
                    )
            }
            &&& r matches Err(error) ==> match error@ {
                TextureProblem::ZeroSized { path: at } => at == path.text@ && exists|
                    source: Source,
                    image: image::DynamicImage,
                |
                    decodes_as(path@, bytes@, Ok(image)) && #[trigger] holds_decoded(source, bytes@, image)
                        && source.vacant(),
                _ => undecoded(*path, bytes@, error@),
            }
        }),
{
    let hash: u64 = cache_hash(bytes, usage, srgb, channel);
    if let Some(file) = &cached {
        if let Some(prepared) = dds::parse(file.as_slice(), hash) {
            proof {
                dds::accepted_textures_are_complete(file@, hash, prepared.format);
            }
            return Ok(Outcome { prepared, fresh: None });
        }
    }
    assert(!valid_cache(cached, hash));
    match encode(path, bytes, usage, srgb, channel, hash, light, average, store) {
        Ok(prepared) => {
            let file = dds::compose(&prepared, hash);
            Ok(Outcome { prepared, fresh: Some(file) })
        },
        Err(error) => Err(error),
    }
}

/// A texture prepared once is not made again: the file that goes in its cache
/// is valid for the same content and parameters, and holds the texture
/// itself.
pub proof fn a_second_preparation_is_a_hit(texture: Texture, bytes: Seq<u8>, usage: Usage, srgb: Option<bool>, channel: Channel)
    requires
        texture.complete(),
        texture.hash == fnv(FNV_OFFSET, ingredients(bytes, usage, srgb, channel)),
    ensures
        dds::accepted(dds::composed(texture, texture.hash), texture.hash, texture.format),
        dds::held(dds::composed(texture, texture.hash), texture.hash, texture.format) == texture,
{
    dds::reading_gives_back_what_was_written(texture, texture.hash);
}

/// Content that hashes otherwise makes a cache a miss.
pub proof fn edited_content_is_a_miss(
    texture: Texture,
    bytes: Seq<u8>,
    usage: Usage,
    srgb: Option<bool>,
    channel: Channel,
    format: BlockFormat,
)
    requires
        texture.hash != fnv(FNV_OFFSET, ingredients(bytes, usage, srgb, channel)),
    ensures
        !dds::accepted(
            dds::composed(texture, texture.hash),
            fnv(FNV_OFFSET, ingredients(bytes, usage, srgb, channel)),
            format,
        ),
{
    dds::another_hash_is_a_miss(
        texture,
        texture.hash,
        fnv(FNV_OFFSET, ingredients(bytes, usage, srgb, channel)),
        format,
    );
}

} // verus!
