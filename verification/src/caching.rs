//! Which textures a scene asks for, what is done about each, and where its cache is.

use vstd::prelude::*;
use vstd::string::*;
use vstd::utf8::encode_utf8;

use crate::changeset::Kind;
use crate::description;
use crate::description::{Channel, TextureRef};
use crate::lower;
use crate::lower::Need;
use crate::path;
use crate::path::{FilePath, Part};
use crate::shaders;
use crate::shading::texture_in;
use crate::texture;
use crate::texture::{Identity, Usage};

verus! {

/// A parameter with a texture asks for that texture, for the parameter's own use; and
/// nothing else is asked for.
pub proof fn materials_ask_for_their_textures(material: description::Material, key: Identity)
    ensures
        lower::asks(material, key) == {
            ||| wants(texture_in(material.base_color), Usage::Color, key)
            ||| wants(texture_in(material.base_metalness), Usage::Scalar, key)
            ||| wants(texture_in(material.specular_roughness), Usage::Scalar, key)
            ||| wants(texture_in(material.emission_color), Usage::Color, key)
            ||| wants(texture_in(material.geometry_opacity), Usage::Scalar, key)
            ||| wants(material.geometry_normal, Usage::Normal, key)
            ||| wants(texture_in(material.subsurface_weight), Usage::Scalar, key)
            ||| wants(texture_in(material.subsurface_color), Usage::Color, key)
            ||| wants(texture_in(material.subsurface_radius), Usage::Scalar, key)
            ||| wants(texture_in(material.subsurface_radius_scale), Usage::Vector, key)
            ||| wants(texture_in(material.subsurface_scatter_anisotropy), Usage::Scalar, key)
        },
{
    let keys = lower::slot_keys(material);
    let slots = material.slots();
    assert(slots[0] == texture_in(material.base_color));
    assert(slots[1] == texture_in(material.base_metalness));
    assert(slots[2] == texture_in(material.specular_roughness));
    assert(slots[3] == texture_in(material.emission_color));
    assert(slots[4] == texture_in(material.geometry_opacity));
    assert(slots[5] == material.geometry_normal);
    assert(slots[6] == texture_in(material.subsurface_weight));
    assert(slots[7] == texture_in(material.subsurface_color));
    assert(slots[8] == texture_in(material.subsurface_radius));
    assert(slots[9] == texture_in(material.subsurface_radius_scale));
    assert(slots[10] == texture_in(material.subsurface_scatter_anisotropy));
    assert(asked_in(material, 0, key) == wants(slots[0], Usage::Color, key));
    assert(asked_in(material, 1, key) == wants(slots[1], Usage::Scalar, key));
    assert(asked_in(material, 2, key) == wants(slots[2], Usage::Scalar, key));
    assert(asked_in(material, 3, key) == wants(slots[3], Usage::Color, key));
    assert(asked_in(material, 4, key) == wants(slots[4], Usage::Scalar, key));
    assert(asked_in(material, 5, key) == wants(slots[5], Usage::Normal, key));
    assert(asked_in(material, 6, key) == wants(slots[6], Usage::Scalar, key));
    assert(asked_in(material, 7, key) == wants(slots[7], Usage::Color, key));
    assert(asked_in(material, 8, key) == wants(slots[8], Usage::Scalar, key));
    assert(asked_in(material, 9, key) == wants(slots[9], Usage::Vector, key));
    assert(asked_in(material, 10, key) == wants(slots[10], Usage::Scalar, key));
    if lower::asks(material, key) {
        let i = choose|i: int|
            0 <= i < 11 && (#[trigger] keys[i] matches Some(asked) && asked@ == key);
        assert(asked_in(material, i, key));
        assert(i == 0 || i == 1 || i == 2 || i == 3 || i == 4 || i == 5 || i == 6 || i == 7 || i
            == 8 || i == 9 || i == 10);
    }
    assert forall|i: int| 0 <= i < 11 && asked_in(material, i, key) implies lower::asks(
        material,
        key,
    ) by {
        assert(keys[i] matches Some(asked) && asked@ == key);
    }
}

/// A slot asks for the key.
spec fn asked_in(material: description::Material, i: int, key: Identity) -> bool {
    lower::slot_keys(material)[i] matches Some(asked) && asked@ == key
}

/// The reference, put to a use, is the key's texture.
pub open spec fn wants(reference: Option<TextureRef>, usage: Usage, key: Identity) -> bool {
    reference matches Some(asked) && lower::key_for(asked, usage)@ == key
}

/// A texture is asked for where some material asks for it, and was touched where one
/// that does changed.
pub proof fn scenes_ask_for_what_their_materials_do(
    materials: Map<Seq<char>, description::Material>,
    changed: Set<(Kind, Seq<char>)>,
    key: Identity,
    name: Seq<char>,
)
    ensures
        materials.contains_key(name) && lower::asks(materials[name], key) ==> lower::asked_for(
            materials,
        ).contains(key),
        materials.contains_key(name) && lower::asks(materials[name], key) && changed.contains(
            (Kind::Material, name),
        ) ==> lower::touched(materials, changed, key),
        lower::touched(materials, changed, key) ==> lower::asked_for(materials).contains(key),
        lower::asked_for(materials).contains(key) ==> exists|other: Seq<char>| #[trigger]
            materials.contains_key(other) && lower::asks(materials[other], key),
{
    if materials.contains_key(name) {
        assert(materials.dom().contains(name));
    }
    if lower::asked_for(materials).contains(key) {
        let other = choose|other: Seq<char>| #[trigger]
            materials.dom().contains(other) && lower::asks(materials[other], key);
        assert(materials.contains_key(other));
    }
    if lower::touched(materials, changed, key) {
        let other = choose|other: Seq<char>| #[trigger]
            materials.dom().contains(other) && changed.contains((Kind::Material, other))
                && lower::asks(materials[other], key);
        assert(materials.dom().contains(other));
    }
}

/// A texture that is not resident is prepared; one that is stays, unless a material that
/// asks for it changed: then its hash is held against what is resident.
pub proof fn resident_textures_stay_unless_touched(
    resident: Map<Identity, u64>,
    key: Identity,
    touched: bool,
)
    ensures
        !resident.contains_key(key) ==> lower::need(resident, key, touched) == Need::Prepare,
        resident.contains_key(key) && !touched ==> lower::need(resident, key, touched)
            == Need::Keep,
        resident.contains_key(key) && touched ==> lower::need(resident, key, touched)
            == Need::Check(resident[key]),
{
}

/// What is prepared for different uses, in different color spaces or of different
/// components is cached in different files.
pub proof fn caches_have_their_own_names(
    usage: Usage,
    srgb: Option<bool>,
    channel: Channel,
    other: Usage,
    space: Option<bool>,
    component: Channel,
)
    requires
        texture::cache_suffix(usage, srgb, channel) == texture::cache_suffix(
            other,
            space,
            component,
        ),
    ensures
        usage == other,
        srgb == space,
        channel == component,
{
    reveal_strlit(".");
    reveal_strlit("color");
    reveal_strlit("scalar");
    reveal_strlit("vector");
    reveal_strlit("normal");
    reveal_strlit("");
    reveal_strlit(".g");
    reveal_strlit(".b");
    reveal_strlit(".a");
    reveal_strlit(".srgb");
    reveal_strlit(".linear");
    reveal_strlit(".dds");
    let a = texture::cache_suffix(usage, srgb, channel);
    let b = texture::cache_suffix(other, space, component);
    let (u, v) = (usage.text(), other.text());
    assert(a[1] == u[0]);
    assert(b[1] == v[0]);
    assert(usage == other);
    let k = 1 + u.len() as int;
    suffixes_tell_components(usage, srgb, channel);
    suffixes_tell_components(other, space, component);
}

/// The letter behind the first dot behind the use tells the component, and the one
/// behind the dot after that the color space.
proof fn suffixes_tell_components(usage: Usage, srgb: Option<bool>, channel: Channel)
    ensures
        ({
            let a = texture::cache_suffix(usage, srgb, channel);
            let k = 2 + usage.text().len() as int;
            let first = match srgb {
                None => 'd',
                Some(encoded) => if encoded {
                    's'
                } else {
                    'l'
                },
            };
            match channel {
                Channel::R => a[k] == first,
                Channel::G => a[k] == 'g' && a[k + 2] == first,
                Channel::B => a[k] == 'b' && a[k + 2] == first,
                Channel::A => a[k] == 'a' && a[k + 2] == first,
            }
        }),
{
    reveal_strlit(".");
    reveal_strlit("color");
    reveal_strlit("scalar");
    reveal_strlit("vector");
    reveal_strlit("normal");
    reveal_strlit("");
    reveal_strlit(".g");
    reveal_strlit(".b");
    reveal_strlit(".a");
    reveal_strlit(".srgb");
    reveal_strlit(".linear");
    reveal_strlit(".dds");
}

/// What a cache is made from: the file's own bytes come first, then the use and the
/// component that the reference names, and a mark where the file is a Radiance picture.
/// The rules that it is prepared by come last: their version, the color space that
/// the reference says, and the largest extent.
pub proof fn caches_depend_on_content_and_rules(
    bytes: Seq<u8>,
    usage: Usage,
    srgb: Option<bool>,
    channel: Channel,
)
    ensures
        ({
            let all = texture::ingredients(bytes, usage, srgb, channel);
            let code = match srgb {
                None => 0u8,
                Some(false) => 1u8,
                Some(true) => 2u8,
            };
            &&& bytes.len() + 6 <= all.len()
            &&& all.take(bytes.len() as int) == bytes
            &&& all[all.len() - 6] == 1
            &&& all[all.len() - 5] == code
            &&& all.skip(all.len() - 4) == vstd::bytes::spec_u32_to_le_bytes(4096)
            &&& all.skip(bytes.len() as int).take(
                encode_utf8(usage.text()).len() as int,
            ) == encode_utf8(usage.text())
            &&& ({
                let named = bytes.len() + encode_utf8(usage.text()).len();
                let marked = named + encode_utf8(channel.text()).len();
                let mark = encode_utf8("radiance-float"@);
                let radiance = bytes.len() >= 2 && bytes[0] == 0x23 && bytes[1] == 0x3f;
                &&& all.subrange(named as int, marked as int) == encode_utf8(channel.text())
                &&& all.len() == marked + (if radiance {
                    mark.len()
                } else {
                    0
                }) + 6
                &&& radiance ==> all.subrange(marked as int, (marked + mark.len()) as int) == mark
            })
        }),
{
    vstd::bytes::lemma_auto_spec_u32_to_from_le_bytes();
    let all = texture::ingredients(bytes, usage, srgb, channel);
    assert(all.take(bytes.len() as int) =~= bytes);
    assert(all.skip(all.len() - 4) =~= vstd::bytes::spec_u32_to_le_bytes(4096));
    assert(all.skip(bytes.len() as int).take(encode_utf8(usage.text()).len() as int)
        =~= encode_utf8(usage.text()));
    let named = bytes.len() + encode_utf8(usage.text()).len();
    let marked = named + encode_utf8(channel.text()).len();
    let mark = encode_utf8("radiance-float"@);
    assert(all.subrange(named as int, marked as int) =~= encode_utf8(channel.text()));
    if texture::radiance(bytes) {
        assert(all.subrange(marked as int, (marked + mark.len()) as int) =~= mark);
    }
}

/// A cache lies beside its source: in the same place, under the source's whole name and
/// something behind it.
pub proof fn caches_lie_beside_their_source(
    list: Seq<Part<Seq<char>>>,
    name: Seq<char>,
    suffix: Seq<char>,
)
    ensures
        path::suffixed(list.push(Part::Name(name)), suffix) == list.push(
            Part::Name(name + suffix),
        ),
{
    let whole = list.push(Part::Name(name));
    assert(whole.drop_last() =~= list);
}

/// What follows the last dot of a name is its extension; without a dot behind the first
/// letter it has none.
pub proof fn extensions_follow_the_last_dot(stem: Seq<char>, extension: Seq<char>)
    requires
        stem.len() > 0,
        forall|i: int| 0 <= i < extension.len() ==> extension[i] != '.',
    ensures
        path::extension_of(stem + seq!['.'] + extension) == Some(extension),
        extension.len() > 0 ==> path::extension_of(extension) is None,
        extension.len() > 0 ==> path::extension_of(seq!['.'] + extension) is None,
{
    let name = stem + seq!['.'] + extension;
    dots_are_found(name, name.len() - 1, stem.len() as int);
    assert(name.skip(stem.len() as int + 1) =~= extension);
    if extension.len() > 0 {
        no_dots_are_found(extension, extension.len() - 1);
        no_dots_are_found(seq!['.'] + extension, extension.len() as int);
    }
}

/// A file is stamped as a Radiance picture exactly where it begins as one does.
pub proof fn stamps_tell_radiance(rest: Seq<u8>)
    ensures
        texture::stamped(seq![0x23u8, 0x3f] + rest).radiance,
        rest.len() < 2 || rest[0] != 0x23 || rest[1] != 0x3f ==> !texture::stamped(rest).radiance,
{
}

/// Contents are hashed byte by byte: what stands for no bytes is the agreed beginning, and
/// one more byte is mixed into the lowest eight bits before all are multiplied, as
/// far as sixty-four bits hold it.
pub proof fn contents_are_hashed_byte_by_byte(state: u64, bytes: Seq<u8>, byte: u8)
    ensures
        texture::fnv(state, Seq::empty()) == state,
        texture::fnv(state, bytes.push(byte)) == ((texture::fnv(state, bytes) ^ (byte as u64))
            * 0x100_0000_01b3) % 0x1_0000_0000_0000_0000,
        texture::stamped(bytes).fnv == texture::fnv(0xcbf2_9ce4_8422_2325, bytes),
{
    assert(bytes.push(byte).drop_last() == bytes);
}

/// A file is taken to be what it was exactly where its size and the time of its last
/// change are those that were seen.
pub proof fn files_are_seen_by_size_and_time(
    seen: Map<Seq<Part<Seq<char>>>, texture::Seen>,
    file: Seq<Part<Seq<char>>>,
    last: texture::Seen,
    size: u64,
    mtime: i128,
)
    ensures
        texture::unmoved(seen.insert(file, last), file, size, mtime) == (size == last.size && mtime
            == last.mtime),
        !texture::unmoved(seen.remove(file), file, size, mtime),
{
}

/// A file is a shader source exactly where its name is a stem and the shader extension
/// behind the last dot.
pub proof fn shader_sources_end_in_their_extension(
    file: FilePath,
    stem: Seq<char>,
    extension: Seq<char>,
)
    requires
        stem.len() > 0,
        forall|i: int| 0 <= i < extension.len() ==> extension[i] != '.',
        file@.len() > 0,
    ensures
        file@.last() == Part::Name(stem + seq!['.'] + extension) ==> shaders::slang(file) == (
        extension == "slang"@),
        file@.last() == Part::Name(extension) && extension.len() > 0 ==> !shaders::slang(file),
        !(file@.last() is Name) ==> !shaders::slang(file),
{
    extensions_follow_the_last_dot(stem, extension);
}

/// The last dot is found.
proof fn dots_are_found(name: Seq<char>, at: int, dot: int)
    requires
        0 < dot <= at < name.len(),
        name[dot] == '.',
        forall|i: int| dot < i <= at ==> name[i] != '.',
    ensures
        path::last_dot(name, at) == Some(dot),
    decreases at,
{
    if at > dot {
        dots_are_found(name, at - 1, dot);
    }
}

/// Where there is none, none is found.
proof fn no_dots_are_found(name: Seq<char>, at: int)
    requires
        0 <= at < name.len(),
        forall|i: int| 0 < i <= at ==> name[i] != '.',
    ensures
        path::last_dot(name, at) is None,
    decreases at,
{
    if at > 0 {
        no_dots_are_found(name, at - 1);
    }
}

} // verus!
