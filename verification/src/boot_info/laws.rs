//! What a boot-info block looks like in flash, and which are believed.

use vstd::prelude::*;

use crate::boot_info::BootInfo;

verus! {

/// A block is believed, as it stands, exactly if it has the magic and is of
/// the first layout or a later one.
pub proof fn which_blocks_are_believed(info: BootInfo, r: Option<BootInfo>)
    requires
        call_ensures(BootInfo::validated, (info,), r),
    ensures
        r is Some <==> info.magic == 0xb007_1f0b && info.abi_version >= 1,
        r matches Some(same) ==> same == info,
{
}

/// The fields of a block lie one behind the other in sixteen bytes, each with
/// its low byte first.
pub proof fn where_the_fields_are(bytes: &[u8], info: BootInfo)
    requires
        bytes@.len() == 16,
        call_ensures(BootInfo::read, (bytes,), info),
    ensures
        info.magic == bytes@[0] + 256 * bytes@[1] + 65536 * bytes@[2] + 16777216 * bytes@[3],
        info.abi_version == bytes@[4] + 256 * bytes@[5],
        info.transport_version == bytes@[6] + 256 * bytes@[7],
        info.boot_size == bytes@[8] + 256 * bytes@[9] + 65536 * bytes@[10] + 16777216 * bytes@[11],
        info.build_id == bytes@[12] + 256 * bytes@[13] + 65536 * bytes@[14] + 16777216 * bytes@[15],
        crate::boot_info::BOOT_INFO_SIZE == 16,
{
    lemma_fields(info, bytes@);
}

/// What is embedded is laid out the way it is read.
pub proof fn a_block_is_embedded_the_way_it_is_read(info: BootInfo, bytes: Vec<u8>)
    requires
        call_ensures(BootInfo::to_bytes, (&info,), bytes),
    ensures
        bytes@.len() == 16,
        info.magic == bytes@[0] + 256 * bytes@[1] + 65536 * bytes@[2] + 16777216 * bytes@[3],
        info.abi_version == bytes@[4] + 256 * bytes@[5],
        info.transport_version == bytes@[6] + 256 * bytes@[7],
        info.boot_size == bytes@[8] + 256 * bytes@[9] + 65536 * bytes@[10] + 16777216 * bytes@[11],
        info.build_id == bytes@[12] + 256 * bytes@[13] + 65536 * bytes@[14] + 16777216 * bytes@[15],
{
    lemma_fields(info, bytes@);
}

proof fn lemma_fields(info: BootInfo, s: Seq<u8>)
    requires
        s == info.stored(),
        s.len() == 16,
    ensures
        info.magic == s[0] + 256 * s[1] + 65536 * s[2] + 16777216 * s[3],
        info.abi_version == s[4] + 256 * s[5],
        info.transport_version == s[6] + 256 * s[7],
        info.boot_size == s[8] + 256 * s[9] + 65536 * s[10] + 16777216 * s[11],
        info.build_id == s[12] + 256 * s[13] + 65536 * s[14] + 16777216 * s[15],
{
    assert(s.subrange(0, 4) =~= crate::bytes::le32(info.magic));
    assert(s.subrange(4, 6) =~= crate::bytes::le16(info.abi_version));
    assert(s.subrange(6, 8) =~= crate::bytes::le16(info.transport_version));
    assert(s.subrange(8, 12) =~= crate::bytes::le32(info.boot_size));
    assert(s.subrange(12, 16) =~= crate::bytes::le32(info.build_id));
    crate::bytes::u32_round_trips(info.magic, s, 0);
    crate::bytes::u16_round_trips(info.abi_version, s, 4);
    crate::bytes::u16_round_trips(info.transport_version, s, 6);
    crate::bytes::u32_round_trips(info.boot_size, s, 8);
    crate::bytes::u32_round_trips(info.build_id, s, 12);
    crate::bytes::fields_are_little_endian(s, 0, 0, 0);
    crate::bytes::fields_are_little_endian(s, 4, 0, 0);
    crate::bytes::fields_are_little_endian(s, 6, 0, 0);
    crate::bytes::fields_are_little_endian(s, 8, 0, 0);
    crate::bytes::fields_are_little_endian(s, 12, 0, 0);
}

} // verus!
