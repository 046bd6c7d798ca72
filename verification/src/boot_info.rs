//! Boot-info block: a fixed structure the BOOT binary embeds and the
//! application reads at runtime to audit BOOT/app compatibility. It sits in
//! the top page of the BOOT region
//! ([`Layout::boot_info_addr`](crate::consts::Layout::boot_info_addr)).

use vstd::prelude::*;

pub mod laws;

use crate::bytes::{read_u16, read_u32, word_bytes};

verus! {

/// Sentinel for a populated boot-info block ([`BootInfo::magic`]).
pub const MAGIC: u32 = 0xb007_1f0b;

/// Current boot-info layout version ([`BootInfo::abi_version`]).
pub const ABI_VERSION: u16 = 1;

/// Bytes a boot-info block occupies, of the page reserved for it.
pub const BOOT_INFO_SIZE: usize = 16;

/// Compatibility block the BOOT binary embeds for the application to audit
/// at runtime. Put what is stored through [`BootInfo::validated`] before
/// trusting the rest. New fields are append only, as in the manifest, so an
/// older application still reads the fields it knows.
///
/// `boot_size` is the BOOT size this BOOT was built with; `build_id`
/// identifies the exact BOOT build. A BOOT and an application laid out
/// differently do not agree on where this block lives, so that mismatch
/// shows up as [`BootInfo::validated`] finding nothing at all, not as an
/// unequal `boot_size`.
#[derive(Clone, Copy, PartialEq, Eq, Structural, Debug)]
pub struct BootInfo {
    pub magic: u32,
    pub abi_version: u16,
    /// What the BOOT binary's own download transport speaks. Nothing here
    /// reads it; BOOT and the application agree on its meaning.
    pub transport_version: u16,
    pub boot_size: u32,
    pub build_id: u32,
}

impl BootInfo {
    /// The block as stored.
    pub open spec fn stored(self) -> Seq<u8> {
        crate::bytes::le32(self.magic) + crate::bytes::le16(self.abi_version) + crate::bytes::le16(
            self.transport_version,
        ) + crate::bytes::le32(self.boot_size) + crate::bytes::le32(self.build_id)
    }

    /// Something populated this block, in a layout this build reads.
    pub open spec fn valid(self) -> bool {
        self.magic == MAGIC && self.abi_version >= ABI_VERSION
    }

    /// The block as stored, or `None` if nothing populated it or it predates
    /// this build's [`ABI_VERSION`].
    pub fn validated(self) -> (r: Option<BootInfo>)
        ensures
            r == (if self.valid() {
                Some(self)
            } else {
                None
            }),
    {
        if self.magic == MAGIC && self.abi_version >= ABI_VERSION {
            Some(self)
        } else {
            None
        }
    }

    /// The block stored in `bytes`, every bit pattern of which is one.
    pub fn read(bytes: &[u8]) -> (info: BootInfo)
        requires
            bytes@.len() == BOOT_INFO_SIZE,
        ensures
            info.stored() == bytes@,
    {
        let info: BootInfo = BootInfo {
            magic: read_u32(bytes, 0),
            abi_version: read_u16(bytes, 4),
            transport_version: read_u16(bytes, 6),
            boot_size: read_u32(bytes, 8),
            build_id: read_u32(bytes, 12),
        };
        proof {
            crate::bytes::word_bytes_round_trip(bytes@, 0);
            crate::bytes::half_bytes_round_trip(bytes@, 4);
            crate::bytes::half_bytes_round_trip(bytes@, 6);
            crate::bytes::word_bytes_round_trip(bytes@, 8);
            crate::bytes::word_bytes_round_trip(bytes@, 12);
            assert(bytes@ =~= bytes@.subrange(0, 4) + bytes@.subrange(4, 6) + bytes@.subrange(6, 8)
                + bytes@.subrange(8, 12) + bytes@.subrange(12, 16));
        }
        info
    }

    /// The block as BOOT embeds it.
    pub fn to_bytes(&self) -> (bytes: Vec<u8>)
        ensures
            bytes@ == self.stored(),
            bytes@.len() == BOOT_INFO_SIZE,
    {
        let mut bytes: Vec<u8> = word_bytes(self.magic);
        bytes.push((self.abi_version & 0xFF) as u8);
        bytes.push(((self.abi_version >> 8) & 0xFF) as u8);
        bytes.push((self.transport_version & 0xFF) as u8);
        bytes.push(((self.transport_version >> 8) & 0xFF) as u8);
        let mut size: Vec<u8> = word_bytes(self.boot_size);
        let mut build: Vec<u8> = word_bytes(self.build_id);
        bytes.append(&mut size);
        bytes.append(&mut build);
        assert(bytes@ =~= self.stored());
        bytes
    }
}

/// What BOOT embeds is what the application reads.
pub proof fn an_embedded_block_reads_back(a: BootInfo, b: BootInfo)
    requires
        a.stored() == b.stored(),
    ensures
        a == b,
{
    let (s, t) = (a.stored(), b.stored());
    assert(s.subrange(0, 4) =~= crate::bytes::le32(a.magic));
    assert(t.subrange(0, 4) =~= crate::bytes::le32(b.magic));
    assert(s.subrange(4, 6) =~= crate::bytes::le16(a.abi_version));
    assert(t.subrange(4, 6) =~= crate::bytes::le16(b.abi_version));
    assert(s.subrange(6, 8) =~= crate::bytes::le16(a.transport_version));
    assert(t.subrange(6, 8) =~= crate::bytes::le16(b.transport_version));
    assert(s.subrange(8, 12) =~= crate::bytes::le32(a.boot_size));
    assert(t.subrange(8, 12) =~= crate::bytes::le32(b.boot_size));
    assert(s.subrange(12, 16) =~= crate::bytes::le32(a.build_id));
    assert(t.subrange(12, 16) =~= crate::bytes::le32(b.build_id));
    crate::bytes::u32_round_trips(a.magic, s, 0);
    crate::bytes::u32_round_trips(b.magic, t, 0);
    crate::bytes::u16_round_trips(a.abi_version, s, 4);
    crate::bytes::u16_round_trips(b.abi_version, t, 4);
    crate::bytes::u16_round_trips(a.transport_version, s, 6);
    crate::bytes::u16_round_trips(b.transport_version, t, 6);
    crate::bytes::u32_round_trips(a.boot_size, s, 8);
    crate::bytes::u32_round_trips(b.boot_size, t, 8);
    crate::bytes::u32_round_trips(a.build_id, s, 12);
    crate::bytes::u32_round_trips(b.build_id, t, 12);
}

/// Erased flash is no boot-info block.
pub proof fn erased_flash_is_no_block(info: BootInfo)
    requires
        info.stored() == Seq::new(16, |i: int| 0xFFu8),
    ensures
        !info.valid(),
{
    let s = info.stored();
    assert(s.subrange(0, 4) =~= crate::bytes::le32(info.magic));
    crate::bytes::u32_round_trips(info.magic, s, 0);
    assert(s[0] == 0xFF);
    let m = info.magic;
    assert((m & 0xFF) as u8 == s[0]);
    assert(m != 0xb007_1f0b) by (bit_vector)
        requires
            (m & 0xFF) as u8 == 0xFF,
    ;
}

} // verus!
