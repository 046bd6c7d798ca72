//! Application image manifest: the fixed-layout descriptor BOOT reads to
//! verify an image before booting it.
//!
//! The manifest sits at [`MANIFEST_OFFSET`] inside the image. It is a frozen
//! flash ABI: an installed BOOT must read manifests from applications built
//! years later, so new fields are append-only and gated by [`FMT_VER`]. The
//! head CRCs and the body are split so every byte of the image except the
//! two CRC fields themselves is covered by one of them.
//!
//! Nothing here signs or checks a signature. [`stamp`] writes
//! [`SigScheme::Unsigned`] and fills `sig` with `0xFF`; the reservation is
//! the layout only.

use vstd::prelude::*;

pub mod laws;

use crate::bytes::{
    read_u16, read_u32, read_u64, write_bytes, write_u16, write_u32, write_u64,
};
use crate::consts::MANIFEST_OFFSET;
use crate::crc32::crc32;

verus! {

/// Manifest magic ([`ManifestBody::magic`]); the first check in verification.
pub const MAGIC: u32 = 0xa55a_f00b;

/// Lowest manifest layout this bootloader accepts
/// ([`ManifestBody::fmt_version`]).
pub const FMT_VER: u16 = 1;

/// Bytes a manifest occupies.
pub const MANIFEST_SIZE: usize = 96;

pub const OFF_CRC_VEC: usize = 0x400;

pub const OFF_CRC_IMG: usize = 0x404;

/// Start of the `crc32_image` range: the body, that is everything past the
/// two CRC fields that cannot cover themselves.
pub const OFF_BODY: usize = 0x408;

pub const OFF_PUBKEY: usize = 0x408;

pub const OFF_MAGIC: usize = 0x410;

pub const OFF_IMAGE_LEN: usize = 0x414;

pub const OFF_VERSION: usize = 0x418;

pub const OFF_FMT_VERSION: usize = 0x41a;

pub const OFF_SIG_SCHEME: usize = 0x41c;

pub const OFF_RESERVED: usize = 0x41d;

pub const OFF_SIG: usize = 0x420;

/// Smallest image a manifest fits in: the slot must be wholly present. This
/// is the floor the bootloader applies to `image_len` when it verifies a
/// slot; the ceiling is a runtime value and is checked there.
pub const MIN_IMAGE_LEN: usize = 0x460;

/// Stored at [`MANIFEST_OFFSET`] inside the application image.
#[derive(Clone, Copy)]
pub struct AppManifest {
    pub head: ManifestHeader,
    pub body: ManifestBody,
}

/// The two CRC32s that cover the image, split around themselves: together
/// they cover the whole image except these eight bytes. `crc32_vec_table`
/// covers the vector table below the manifest (image start up to `head`);
/// `crc32_image` covers `body` through the end of the image (`image_len`).
#[derive(Clone, Copy)]
pub struct ManifestHeader {
    pub crc32_vec_table: u32,
    pub crc32_image: u32,
}

/// The part of the manifest `crc32_image` covers. New fields are append
/// only: a BOOT built today reads the fields it knows from a manifest an
/// application writes later.
#[derive(Clone, Copy)]
pub struct ManifestBody {
    /// Selects the signing key among those baked into BOOT; 0 when unsigned.
    pub pubkey_id: u64,
    pub magic: u32,
    /// Word-aligned; bounds `crc32_image` and is range-checked when the slot
    /// is verified.
    pub image_len: u32,
    /// Anti-rollback counter.
    pub version: u16,
    /// Layout this manifest was stamped with. BOOT refuses an image below
    /// its own [`FMT_VER`].
    pub fmt_version: u16,
    /// [`SigScheme`] as a raw byte; read it typed with
    /// [`ManifestBody::scheme`].
    pub sig_scheme: u8,
    /// Pads the body so it carries no implicit padding bytes. [`stamp`]
    /// zeroes it; nothing checks it.
    pub reserved: [u8; 3],
    /// Reserved for a detached signature, sized for an ECDSA P-256 `r || s`.
    /// [`stamp`] fills it with `0xFF` and nothing reads it.
    pub sig: [u8; 64],
}

/// Signature algorithm over the image, the typed form of the raw
/// [`ManifestBody::sig_scheme`] byte. `Unsigned` leaves `sig` all `0xFF`;
/// `EcdsaP256Sha256` is a big-endian `r || s`, reserved.
#[derive(Clone, Copy, PartialEq, Eq, Structural, Debug)]
pub enum SigScheme {
    Unsigned,
    EcdsaP256Sha256,
}

/// Why [`stamp`] could not stamp an image.
#[derive(Debug, Clone, Copy, PartialEq, Eq, Structural)]
pub enum StampError {
    /// The manifest slot does not fit; `len` is what was offered.
    TooShort { len: usize, need: usize },
    /// `crc32_image` runs to `image_len`, which the DSU walks in words.
    Unaligned { len: usize },
}

/// What was written, for a caller that wants to report or re-check it.
#[derive(Debug, Clone, Copy, PartialEq, Eq, Structural)]
pub struct Stamped {
    pub image_len: u32,
    pub version: u16,
    pub crc32_vec_table: u32,
    pub crc32_image: u32,
}

// ── Definition ──────────────────────────────────────────────────────────

impl AppManifest {
    /// The manifest stored in the bytes of `s` from `at` on.
    pub open spec fn stored_at(self, s: Seq<u8>, at: int) -> bool {
        &&& self.head.crc32_vec_table == crate::bytes::u32_at(s, at)
        &&& self.head.crc32_image == crate::bytes::u32_at(s, at + 4)
        &&& self.body.pubkey_id == crate::bytes::u64_at(s, at + 8)
        &&& self.body.magic == crate::bytes::u32_at(s, at + 16)
        &&& self.body.image_len == crate::bytes::u32_at(s, at + 20)
        &&& self.body.version == crate::bytes::u16_at(s, at + 24)
        &&& self.body.fmt_version == crate::bytes::u16_at(s, at + 26)
        &&& self.body.sig_scheme == s[at + 28]
        &&& self.body.reserved@ == s.subrange(at + 29, at + 32)
        &&& self.body.sig@ == s.subrange(at + 32, at + 96)
    }
}

/// The bytes of an unsigned manifest body.
pub open spec fn unsigned_body(image_len: u32, version: u16) -> Seq<u8> {
    crate::bytes::le64(0) + crate::bytes::le32(MAGIC) + crate::bytes::le32(image_len)
        + crate::bytes::le16(version) + crate::bytes::le16(FMT_VER) + seq![0u8, 0u8, 0u8, 0u8]
        + Seq::new(64, |i: int| 0xFFu8)
}

/// CRC of everything below the manifest.
pub open spec fn vec_table_crc(image: Seq<u8>) -> u32 {
    crate::crc32::checksum(image.subrange(0, MANIFEST_OFFSET as int))
}

/// CRC of the manifest body and everything behind it.
pub open spec fn image_crc(image: Seq<u8>) -> u32 {
    crate::crc32::checksum(image.subrange(OFF_BODY as int, image.len() as int))
}

/// `image` with an unsigned body in place, its CRC fields untouched.
pub open spec fn with_body(image: Seq<u8>, version: u16) -> Seq<u8> {
    crate::bytes::splice(image, OFF_BODY as int, unsigned_body(image.len() as u32, version))
}

/// `image` with a complete unsigned manifest: the body, then the two CRCs of
/// the bytes around them.
pub open spec fn stamped_image(image: Seq<u8>, version: u16) -> Seq<u8> {
    let body = with_body(image, version);
    crate::bytes::splice(
        body,
        OFF_CRC_VEC as int,
        crate::bytes::le32(vec_table_crc(body)) + crate::bytes::le32(image_crc(body)),
    )
}

/// What an image says its version is, if it says so in a layout this build
/// reads.
pub open spec fn version_of(image: Seq<u8>) -> Option<u16> {
    if image.len() >= MIN_IMAGE_LEN && crate::bytes::u32_at(image, OFF_MAGIC as int) == MAGIC
        && crate::bytes::u16_at(image, OFF_FMT_VERSION as int) >= FMT_VER {
        Some(crate::bytes::u16_at(image, OFF_VERSION as int))
    } else {
        None
    }
}

// ── Laws ────────────────────────────────────────────────────────────────

/// The offsets follow from the field sizes, in order, with no padding.
pub proof fn offsets_tile_the_manifest()
    ensures
        OFF_CRC_VEC == MANIFEST_OFFSET,
        OFF_CRC_IMG == OFF_CRC_VEC + 4,
        OFF_BODY == OFF_CRC_IMG + 4,
        OFF_PUBKEY == OFF_BODY,
        OFF_MAGIC == OFF_PUBKEY + 8,
        OFF_IMAGE_LEN == OFF_MAGIC + 4,
        OFF_VERSION == OFF_IMAGE_LEN + 4,
        OFF_FMT_VERSION == OFF_VERSION + 2,
        OFF_SIG_SCHEME == OFF_FMT_VERSION + 2,
        OFF_RESERVED == OFF_SIG_SCHEME + 1,
        OFF_SIG == OFF_RESERVED + 3,
        MIN_IMAGE_LEN == OFF_SIG + 64,
        MIN_IMAGE_LEN == MANIFEST_OFFSET + MANIFEST_SIZE,
{
}

/// A stamped image carries the fields it was stamped with, and its two CRC
/// fields are the CRCs of the bytes as they now stand.
pub proof fn a_stamped_image_describes_itself(image: Seq<u8>, version: u16)
    requires
        image.len() >= MIN_IMAGE_LEN,
    ensures
        ({
            let out = stamped_image(image, version);
            &&& out.len() == image.len()
            &&& crate::bytes::u32_at(out, OFF_MAGIC as int) == MAGIC
            &&& crate::bytes::u32_at(out, OFF_IMAGE_LEN as int) == image.len() as u32
            &&& crate::bytes::u16_at(out, OFF_VERSION as int) == version
            &&& crate::bytes::u16_at(out, OFF_FMT_VERSION as int) == FMT_VER
            &&& out[OFF_SIG_SCHEME as int] == 0
            &&& crate::bytes::u32_at(out, OFF_CRC_VEC as int) == vec_table_crc(out)
            &&& crate::bytes::u32_at(out, OFF_CRC_IMG as int) == image_crc(out)
        }),
{
    let body = with_body(image, version);
    let out = stamped_image(image, version);
    let field = unsigned_body(image.len() as u32, version);
    assert(field.len() == 88);
    assert(out.subrange(OFF_MAGIC as int, OFF_MAGIC + 4) =~= crate::bytes::le32(MAGIC));
    crate::bytes::u32_round_trips(MAGIC, out, OFF_MAGIC as int);
    let len = image.len() as u32;
    assert(out.subrange(OFF_IMAGE_LEN as int, OFF_IMAGE_LEN + 4) =~= crate::bytes::le32(len));
    crate::bytes::u32_round_trips(len, out, OFF_IMAGE_LEN as int);
    assert(out.subrange(OFF_VERSION as int, OFF_VERSION + 2) =~= crate::bytes::le16(version));
    crate::bytes::u16_round_trips(version, out, OFF_VERSION as int);
    assert(out.subrange(OFF_FMT_VERSION as int, OFF_FMT_VERSION + 2) =~= crate::bytes::le16(
        FMT_VER,
    ));
    crate::bytes::u16_round_trips(FMT_VER, out, OFF_FMT_VERSION as int);
    let vec_crc = vec_table_crc(body);
    let img_crc = image_crc(body);
    assert(out.subrange(OFF_CRC_VEC as int, OFF_CRC_VEC + 4) =~= crate::bytes::le32(vec_crc));
    crate::bytes::u32_round_trips(vec_crc, out, OFF_CRC_VEC as int);
    assert(out.subrange(OFF_CRC_IMG as int, OFF_CRC_IMG + 4) =~= crate::bytes::le32(img_crc));
    crate::bytes::u32_round_trips(img_crc, out, OFF_CRC_IMG as int);
    assert(out.subrange(0, MANIFEST_OFFSET as int) =~= body.subrange(0, MANIFEST_OFFSET as int));
    assert(out.subrange(OFF_BODY as int, out.len() as int) =~= body.subrange(
        OFF_BODY as int,
        body.len() as int,
    ));
}

/// Stamping changes the manifest and nothing else.
pub proof fn stamping_touches_only_the_manifest(image: Seq<u8>, version: u16, i: int)
    requires
        image.len() >= MIN_IMAGE_LEN,
        0 <= i < image.len(),
        !(MANIFEST_OFFSET <= i < MIN_IMAGE_LEN),
    ensures
        stamped_image(image, version)[i] == image[i],
{
}

/// The version an image was stamped with is the version it reads back as.
pub proof fn a_stamped_version_reads_back(image: Seq<u8>, version: u16)
    requires
        image.len() >= MIN_IMAGE_LEN,
    ensures
        version_of(stamped_image(image, version)) == Some(version),
{
    a_stamped_image_describes_itself(image, version);
}

/// Stamping an image that is already stamped with the same version changes
/// nothing: the stamp does not depend on what the slot held before.
pub proof fn stamping_is_idempotent(image: Seq<u8>, version: u16)
    requires
        image.len() >= MIN_IMAGE_LEN,
    ensures
        stamped_image(stamped_image(image, version), version) == stamped_image(image, version),
{
    let once = stamped_image(image, version);
    let first = with_body(image, version);
    let second = with_body(once, version);
    assert(second.subrange(0, MANIFEST_OFFSET as int) =~= first.subrange(0, MANIFEST_OFFSET as int));
    assert(second.subrange(OFF_BODY as int, second.len() as int) =~= first.subrange(
        OFF_BODY as int,
        first.len() as int,
    ));
    assert(stamped_image(once, version) =~= once);
}

/// The eight CRC bytes are the only bytes no CRC covers: changing any one
/// other byte of an image changes one of the two checksums.
pub proof fn every_other_byte_is_covered(image: Seq<u8>, damaged: Seq<u8>, at: int)
    requires
        image.len() >= MIN_IMAGE_LEN,
        damaged.len() == image.len(),
        0 <= at < image.len(),
        !(OFF_CRC_VEC <= at < OFF_BODY),
        damaged[at] != image[at],
        forall|i: int| 0 <= i < image.len() && i != at ==> damaged[i] == image[i],
    ensures
        vec_table_crc(damaged) != vec_table_crc(image) || image_crc(damaged) != image_crc(image),
{
    let len = image.len() as int;
    if at < MANIFEST_OFFSET {
        crate::crc32::one_byte_of_damage_is_detected(
            image.subrange(0, MANIFEST_OFFSET as int),
            damaged.subrange(0, MANIFEST_OFFSET as int),
            at,
        );
    } else {
        crate::crc32::one_byte_of_damage_is_detected(
            image.subrange(OFF_BODY as int, len),
            damaged.subrange(OFF_BODY as int, len),
            at - OFF_BODY,
        );
    }
}

// ── Functions ───────────────────────────────────────────────────────────

impl ManifestBody {
    /// Typed view of [`sig_scheme`](Self::sig_scheme).
    pub fn scheme(&self) -> (scheme: Option<SigScheme>)
        ensures
            scheme == SigScheme::decode(self.sig_scheme),
    {
        SigScheme::from_u8(self.sig_scheme)
    }
}

impl SigScheme {
    /// The stored byte of a scheme.
    pub open spec fn spec_code(self) -> u8 {
        match self {
            SigScheme::Unsigned => 0,
            SigScheme::EcdsaP256Sha256 => 1,
        }
    }

    /// The scheme a stored byte stands for, if this build knows it.
    pub open spec fn decode(v: u8) -> Option<SigScheme> {
        if v == 0 {
            Some(SigScheme::Unsigned)
        } else if v == 1 {
            Some(SigScheme::EcdsaP256Sha256)
        } else {
            None
        }
    }

    /// The stored byte of this scheme.
    pub fn code(self) -> (v: u8)
        ensures
            v == self.spec_code(),
            SigScheme::decode(v) == Some(self),
    {
        match self {
            SigScheme::Unsigned => 0,
            SigScheme::EcdsaP256Sha256 => 1,
        }
    }

    /// Decode a stored [`ManifestBody::sig_scheme`] byte.
    ///
    /// `None` is a scheme this build does not know. Verification does not
    /// look at the byte, so an unknown scheme is not by itself a reason an
    /// image is refused.
    pub fn from_u8(v: u8) -> (scheme: Option<SigScheme>)
        ensures
            scheme == SigScheme::decode(v),
            scheme matches Some(s) ==> s.spec_code() == v,
    {
        match v {
            0 => Some(SigScheme::Unsigned),
            1 => Some(SigScheme::EcdsaP256Sha256),
            _ => None,
        }
    }
}

impl AppManifest {
    /// An unsigned, unstamped manifest to reserve the slot with. [`stamp`]
    /// fills in the length, the version and the CRCs after linking.
    pub fn placeholder() -> (m: AppManifest)
        ensures
            m.head.crc32_vec_table == 0,
            m.head.crc32_image == 0,
            m.body.pubkey_id == 0,
            m.body.magic == MAGIC,
            m.body.image_len == 0,
            m.body.version == 0,
            m.body.fmt_version == FMT_VER,
            SigScheme::decode(m.body.sig_scheme) == Some(SigScheme::Unsigned),
            m.body.reserved@ == seq![0u8, 0u8, 0u8],
            m.body.sig@ == Seq::new(64, |i: int| 0xFFu8),
    {
        let m: AppManifest = AppManifest {
            head: ManifestHeader { crc32_vec_table: 0, crc32_image: 0 },
            body: ManifestBody {
                pubkey_id: 0,
                magic: MAGIC,
                image_len: 0,
                version: 0,
                fmt_version: FMT_VER,
                sig_scheme: SigScheme::Unsigned.code(),
                reserved: [0u8; 3],
                sig: [0xFFu8; 64],
            },
        };
        assert(m.body.reserved@ =~= seq![0u8, 0u8, 0u8]);
        assert(m.body.sig@ =~= Seq::new(64, |i: int| 0xFFu8));
        m
    }

    /// The manifest stored in `bytes`, every bit pattern of which is one.
    pub fn from_bytes(bytes: &[u8]) -> (m: AppManifest)
        requires
            bytes@.len() == MANIFEST_SIZE,
        ensures
            m.stored_at(bytes@, 0),
    {
        let mut reserved: [u8; 3] = [0u8; 3];
        reserved[0] = bytes[29];
        reserved[1] = bytes[30];
        reserved[2] = bytes[31];
        let mut sig: [u8; 64] = [0u8; 64];
        let mut i: usize = 0;
        while i < 64
            invariant
                i <= 64,
                bytes@.len() == MANIFEST_SIZE,
                forall|j: int| 0 <= j < i ==> sig@[j] == bytes@[32 + j],
            decreases 64 - i,
        {
            sig[i] = bytes[32 + i];
            i = i + 1;
        }
        let m: AppManifest = AppManifest {
            head: ManifestHeader {
                crc32_vec_table: read_u32(bytes, 0),
                crc32_image: read_u32(bytes, 4),
            },
            body: ManifestBody {
                pubkey_id: read_u64(bytes, 8),
                magic: read_u32(bytes, 16),
                image_len: read_u32(bytes, 20),
                version: read_u16(bytes, 24),
                fmt_version: read_u16(bytes, 26),
                sig_scheme: bytes[28],
                reserved,
                sig,
            },
        };
        assert(m.body.reserved@ =~= bytes@.subrange(29, 32));
        assert(m.body.sig@ =~= bytes@.subrange(32, 96));
        m
    }
}

/// Stamp a valid unsigned manifest into a linked image, in place.
///
/// The offsets are fixed, so stamping an image with no manifest slot
/// overwrites whatever is at [`MANIFEST_OFFSET`] instead.
///
/// `image.len()` becomes `image_len`, so the caller pads the image to its
/// final length first; a length that is not a multiple of 4 is rejected. An
/// image that is rejected is left as it was.
pub fn stamp(image: &mut [u8], version: u16) -> (r: Result<Stamped, StampError>)
    ensures
        final(image)@.len() == old(image)@.len(),
        r is Err ==> final(image)@ == old(image)@,
        r matches Err(e) ==> e == (if old(image)@.len() < MIN_IMAGE_LEN {
            StampError::TooShort { len: old(image)@.len() as usize, need: MIN_IMAGE_LEN }
        } else {
            StampError::Unaligned { len: old(image)@.len() as usize }
        }),
        r is Err <==> old(image)@.len() < MIN_IMAGE_LEN || old(image)@.len() % 4 != 0,
        r matches Ok(stamped) ==> {
            &&& final(image)@ == stamped_image(old(image)@, version)
            &&& stamped.image_len == old(image)@.len() as u32
            &&& stamped.version == version
            &&& stamped.crc32_vec_table == vec_table_crc(final(image)@)
            &&& stamped.crc32_image == image_crc(final(image)@)
        },
{
    let len: usize = image.len();
    if len < MIN_IMAGE_LEN {
        return Err(StampError::TooShort { len, need: MIN_IMAGE_LEN });
    }
    if len % 4 != 0 {
        return Err(StampError::Unaligned { len });
    }
    let ghost before = image@;
    let none: [u8; 4] = [0u8; 4];
    let unsigned: [u8; 64] = [0xFFu8; 64];
    write_u64(image, OFF_PUBKEY, 0);
    write_u32(image, OFF_MAGIC, MAGIC);
    write_u32(image, OFF_IMAGE_LEN, len as u32);
    write_u16(image, OFF_VERSION, version);
    write_u16(image, OFF_FMT_VERSION, FMT_VER);
    // An unstamped slot is 0xFF, and 0xFF would decode as an unknown scheme
    // rather than as unsigned.
    image[OFF_SIG_SCHEME] = SigScheme::Unsigned.code();
    write_bytes(image, OFF_RESERVED, vstd::slice::slice_subrange(none.as_slice(), 0, 3));
    write_bytes(image, OFF_SIG, unsigned.as_slice());
    let ghost body = with_body(before, version);
    assert(image@ =~= body);

    let crc32_vec_table: u32 = crc32(vstd::slice::slice_subrange(image, 0, MANIFEST_OFFSET));
    let crc32_image: u32 = crc32(vstd::slice::slice_subrange(image, OFF_BODY, len));
    write_u32(image, OFF_CRC_VEC, crc32_vec_table);
    write_u32(image, OFF_CRC_IMG, crc32_image);
    proof {
        assert(image@ =~= stamped_image(before, version));
        assert(image@.subrange(0, MANIFEST_OFFSET as int) =~= body.subrange(
            0,
            MANIFEST_OFFSET as int,
        ));
        assert(image@.subrange(OFF_BODY as int, len as int) =~= body.subrange(
            OFF_BODY as int,
            len as int,
        ));
    }
    Ok(Stamped { image_len: len as u32, version, crc32_vec_table, crc32_image })
}

/// The version a stamped image carries, or `None` if it holds no manifest
/// with a recognised [`MAGIC`] and an [`FMT_VER`] this build can read.
///
/// This is an identity check, not a verification: `image_len` and the two
/// CRCs are not looked at, so an image that reads a version here can still
/// be refused.
pub fn read_version(image: &[u8]) -> (version: Option<u16>)
    ensures
        version == version_of(image@),
{
    if image.len() < MIN_IMAGE_LEN {
        return None;
    }
    let manifest: AppManifest = AppManifest::from_bytes(
        vstd::slice::slice_subrange(image, MANIFEST_OFFSET, MANIFEST_OFFSET + MANIFEST_SIZE),
    );
    if manifest.body.magic == MAGIC && manifest.body.fmt_version >= FMT_VER {
        Some(manifest.body.version)
    } else {
        None
    }
}

} // verus!
