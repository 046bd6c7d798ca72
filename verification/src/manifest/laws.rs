//! Where a manifest keeps what, byte by byte.
//!
//! An installed BOOT reads manifests written years after it, so the places of
//! the fields and what covers them are stated here in numbers.

use vstd::prelude::*;

use crate::manifest::{read_version, AppManifest, ManifestBody, SigScheme};

verus! {

/// The number in the two bytes of `s` from `at` on.
pub open spec fn half(s: Seq<u8>, at: int) -> int {
    s[at] + 256 * s[at + 1]
}

/// The number in the four bytes of `s` from `at` on.
pub open spec fn word(s: Seq<u8>, at: int) -> int {
    s[at] + 256 * s[at + 1] + 65536 * s[at + 2] + 16777216 * s[at + 3]
}

/// A manifest is read field by field from its 96 bytes.
pub proof fn where_the_fields_are(bytes: &[u8], m: AppManifest)
    requires
        bytes@.len() == 96,
        call_ensures(AppManifest::from_bytes, (bytes,), m),
    ensures
        m.head.crc32_vec_table == word(bytes@, 0),
        m.head.crc32_image == word(bytes@, 4),
        m.body.pubkey_id == word(bytes@, 8) + 4294967296 * word(bytes@, 12),
        m.body.magic == word(bytes@, 16),
        m.body.image_len == word(bytes@, 20),
        m.body.version == half(bytes@, 24),
        m.body.fmt_version == half(bytes@, 26),
        m.body.sig_scheme == bytes@[28],
        forall|i: int| 0 <= i < 3 ==> #[trigger] m.body.reserved@[i] == bytes@[29 + i],
        forall|i: int| 0 <= i < 64 ==> #[trigger] m.body.sig@[i] == bytes@[32 + i],
{
    let s = bytes@;
    crate::bytes::fields_are_little_endian(s, 0, 0, 0);
    crate::bytes::fields_are_little_endian(s, 4, 0, 0);
    crate::bytes::fields_are_little_endian(s, 8, 0, 0);
    crate::bytes::fields_are_little_endian(s, 12, 0, 0);
    crate::bytes::fields_are_little_endian(s, 16, 0, 0);
    crate::bytes::fields_are_little_endian(s, 20, 0, 0);
    crate::bytes::fields_are_little_endian(s, 24, 0, 0);
    crate::bytes::fields_are_little_endian(s, 26, 0, 0);
    assert forall|i: int| 0 <= i < 3 implies #[trigger] m.body.reserved@[i] == s[29 + i] by {
        assert(m.body.reserved@[i] == s.subrange(29, 32)[i]);
    }
    assert forall|i: int| 0 <= i < 64 implies #[trigger] m.body.sig@[i] == s[32 + i] by {
        assert(m.body.sig@[i] == s.subrange(32, 96)[i]);
    }
}

/// An image says its version exactly if it has room for a manifest, the magic
/// is in its place, and the layout is the first or a later one. Nothing else
/// in the image has a say.
pub proof fn when_an_image_says_its_version(image: &[u8], version: Option<u16>)
    requires
        call_ensures(read_version, (image,), version),
    ensures
        version is Some <==> image@.len() >= 0x460 && word(image@, 0x410) == 0xa55a_f00b && half(
            image@,
            0x41a,
        ) >= 1,
        version matches Some(v) ==> v == half(image@, 0x418),
{
    let s = image@;
    crate::bytes::fields_are_little_endian(s, 0x410, 0, 0);
    crate::bytes::fields_are_little_endian(s, 0x418, 0, 0);
    crate::bytes::fields_are_little_endian(s, 0x41a, 0, 0);
}

/// A stamped image is the image outside its manifest. In it: the two
/// checksums; no key; the magic; the length of the image; the version; the
/// first layout; no scheme; and an unused signature of erased bytes.
pub proof fn what_a_stamp_writes(image: Seq<u8>, version: u16, i: int)
    requires
        0x460 <= image.len() <= u32::MAX,
        0 <= i < image.len(),
    ensures
        ({
            let out = crate::manifest::stamped_image(image, version);
            &&& out.len() == image.len()
            &&& i < 0x400 || i >= 0x460 ==> out[i] == image[i]
            &&& word(out, 0x400) == crate::crc32::checksum(out.subrange(0, 0x400))
            &&& word(out, 0x404) == crate::crc32::checksum(out.subrange(0x408, out.len() as int))
            &&& 0x408 <= i < 0x410 ==> out[i] == 0
            &&& word(out, 0x410) == 0xa55a_f00b
            &&& word(out, 0x414) == image.len()
            &&& half(out, 0x418) == version
            &&& half(out, 0x41a) == 1
            &&& 0x41c <= i < 0x420 ==> out[i] == 0
            &&& 0x420 <= i < 0x460 ==> out[i] == 0xFF
        }),
{
    let out = crate::manifest::stamped_image(image, version);
    crate::manifest::a_stamped_image_describes_itself(image, version);
    crate::bytes::fields_are_little_endian(out, 0x400, 0, 0);
    crate::bytes::fields_are_little_endian(out, 0x404, 0, 0);
    crate::bytes::fields_are_little_endian(out, 0x410, 0, 0);
    crate::bytes::fields_are_little_endian(out, 0x414, 0, 0);
    crate::bytes::fields_are_little_endian(out, 0x418, 0, 0);
    crate::bytes::fields_are_little_endian(out, 0x41a, 0, 0);
    let body = crate::manifest::unsigned_body(image.len() as u32, version);
    assert(body.len() == 88);
    if 0x408 <= i < 0x460 {
        assert(out[i] == body[i - 0x408]);
    }
}

/// The first checksum is of everything below the manifest, the second of
/// everything past the checksums.
pub proof fn what_the_checksums_cover(image: Seq<u8>)
    requires
        image.len() >= 0x460,
    ensures
        crate::manifest::vec_table_crc(image) == crate::crc32::checksum(image.subrange(0, 0x400)),
        crate::manifest::image_crc(image) == crate::crc32::checksum(
            image.subrange(0x408, image.len() as int),
        ),
{
}

/// Two schemes have a number, and every other number is unknown.
pub proof fn which_schemes_there_are(
    body: ManifestBody,
    v: u8,
    known: Option<SigScheme>,
    scheme: SigScheme,
    code: u8,
)
    requires
        call_ensures(SigScheme::from_u8, (v,), known),
        call_ensures(SigScheme::code, (scheme,), code),
    ensures
        known == Some(SigScheme::Unsigned) <==> v == 0,
        known == Some(SigScheme::EcdsaP256Sha256) <==> v == 1,
        known is None <==> v > 1,
        scheme is Unsigned <==> code == 0,
        scheme is EcdsaP256Sha256 <==> code == 1,
        body.sig_scheme == v && call_ensures(ManifestBody::scheme, (&body,), known) ==> known
            == SigScheme::decode(v),
{
}

/// A reserved slot has the magic, the layout and no length, version or
/// checksums yet.
pub proof fn what_reserves_a_slot(m: AppManifest, i: int)
    requires
        call_ensures(AppManifest::placeholder, (), m),
        0 <= i < 64,
    ensures
        m.body.magic == 0xa55a_f00b,
        m.body.fmt_version == 1,
        m.body.sig_scheme == 0,
        m.body.sig@[i] == 0xFF,
        m.body.reserved@ == seq![0u8, 0u8, 0u8],
        m.body.pubkey_id == 0,
        m.body.image_len == 0,
        m.body.version == 0,
        m.head.crc32_vec_table == 0,
        m.head.crc32_image == 0,
{
}

} // verus!
