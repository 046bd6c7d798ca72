//! What the registers say, in numbers.

use vstd::prelude::*;

use crate::probe::{
    command_progress, describe, see_sblk, uncached_ctrla, Cmd, CmdProgress, Mode, Param, Status,
};

verus! {

/// Bit `n` of a word, whose weight is `weight`.
pub open spec fn bit(flags: u16, weight: u16) -> bool {
    (flags / weight) % 2 == 1
}

proof fn lemma_bits(flags: u16, code: u16, shift: u32, page: usize)
    ensures
        flags & 0x0001 != 0 <==> (flags / 1) % 2 == 1,
        flags & 0x0002 != 0 <==> (flags / 2) % 2 == 1,
        flags & 0x0004 != 0 <==> (flags / 4) % 2 == 1,
        flags & 0x0008 != 0 <==> (flags / 8) % 2 == 1,
        flags & 0x0040 != 0 <==> (flags / 64) % 2 == 1,
        flags & 0x004E != 0 <==> (flags / 2) % 2 == 1 || (flags / 4) % 2 == 1 || (flags / 8) % 2
            == 1 || (flags / 64) % 2 == 1,
        flags | 0xC000 == flags % 16384 + 0xC000,
        code < 128 ==> 0xA500 | code == 0xA500 + code,
        page == 8usize << shift ==> {
            &&& shift == 0 ==> page == 8
            &&& shift == 1 ==> page == 16
            &&& shift == 2 ==> page == 32
            &&& shift == 3 ==> page == 64
            &&& shift == 4 ==> page == 128
            &&& shift == 5 ==> page == 256
            &&& shift == 6 ==> page == 512
            &&& shift == 7 ==> page == 1024
        },
{
    assert((flags & 0x0001 != 0 <==> (flags / 1) % 2 == 1) && (flags & 0x0002 != 0 <==> (flags / 2)
        % 2 == 1) && (flags & 0x0004 != 0 <==> (flags / 4) % 2 == 1) && (flags & 0x0008 != 0 <==> (
    flags / 8) % 2 == 1) && (flags & 0x0040 != 0 <==> (flags / 64) % 2 == 1) && (flags & 0x004E != 0
        <==> (flags / 2) % 2 == 1 || (flags / 4) % 2 == 1 || (flags / 8) % 2 == 1 || (flags / 64)
        % 2 == 1) && (flags | 0xC000 == flags % 16384 + 0xC000) && (code < 128 ==> 0xA500 | code
        == 0xA500 + code) && (page == 8usize << shift ==> (shift == 0 ==> page == 8) && (shift == 1
        ==> page == 16) && (shift == 2 ==> page == 32) && (shift == 3 ==> page == 64) && (shift == 4
        ==> page == 128) && (shift == 5 ==> page == 256) && (shift == 6 ==> page == 512) && (shift
        == 7 ==> page == 1024))) by (bit_vector);
}

/// A command is issued by its number behind the key.
pub proof fn how_a_command_is_issued(cmd: Cmd, code: u16, word: u16)
    requires
        call_ensures(Cmd::code, (cmd,), code),
        call_ensures(Cmd::ctrlb, (cmd,), word),
    ensures
        cmd is Ep ==> code == 0x00,
        cmd is Wqw ==> code == 0x04,
        cmd is Pbc ==> code == 0x15,
        cmd is Bkswrst ==> code == 0x17,
        word == 0xA500 + code,
{
    lemma_bits(0, code, 0, 0);
}

/// Where the registers are.
pub proof fn where_the_registers_are()
    ensures
        crate::probe::CTRLA == 0x4100_4000,
        crate::probe::CTRLB == 0x4100_4004,
        crate::probe::PARAM == 0x4100_4008,
        crate::probe::INTFLAG == 0x4100_4010,
        crate::probe::STATUS == 0x4100_4012,
        crate::probe::ADDR == 0x4100_4014,
        crate::probe::RUNLOCK == 0x4100_4018,
        crate::probe::SEESTAT == 0x4100_402C,
        crate::probe::ALL_FLAGS == 0x7FF,
{
}

/// The page count is in the low half, and each step of the field behind it
/// doubles the page, from 8 bytes on. Flash is that many pages.
pub proof fn how_big_a_part_is(raw: u32, param: Param)
    requires
        call_ensures(Param::decode, (raw,), param),
    ensures
        ({
            let psz = (raw as int / 65536) % 8;
            &&& psz == 0 ==> param.page_size == 8
            &&& psz == 1 ==> param.page_size == 16
            &&& psz == 2 ==> param.page_size == 32
            &&& psz == 3 ==> param.page_size == 64
            &&& psz == 4 ==> param.page_size == 128
            &&& psz == 5 ==> param.page_size == 256
            &&& psz == 6 ==> param.page_size == 512
            &&& psz == 7 ==> param.page_size == 1024
        }),
        param.flash_size == (raw as int % 65536) * param.page_size,
{
    crate::bytes::fields_are_digits(0, 0, raw);
    lemma_bits(0, 0, (raw >> 16) & 0x7, param.page_size);
}

/// BOOTPROT is the low digit of the high byte; bit 4 says that bank A is
/// mapped low, bit 5 that BOOTPROT is overridden. The head is protected
/// unless the fuse protects nothing or is overridden.
pub proof fn what_the_status_says(raw: u16, status: Status, protected: bool)
    requires
        call_ensures(Status::decode, (raw,), status),
        call_ensures(Status::protected, (&status,), protected),
    ensures
        status.bootprot == (raw as int / 256) % 16,
        status.a_first <==> bit(raw, 16),
        status.bpdis <==> bit(raw, 32),
        protected <==> (raw as int / 256) % 16 != 15 && !bit(raw, 32),
{
    crate::bytes::fields_are_digits(0, raw, 0);
}

/// The sentence on a status names the fuse, the bytes it protects, the bank
/// mapped low and whether the fuse is overridden.
pub proof fn how_a_status_reads(status: Status, text: String)
    requires
        status.bootprot <= 15,
        call_ensures(Status::text, (&status,), text),
    ensures
        ({
            let front = "BOOTPROT="@ + crate::text::decimal(status.bootprot as nat) + " ("@
                + crate::text::decimal((120 - 8 * status.bootprot) as nat)
                + " KiB protected), active bank "@;
            &&& status.a_first && !status.bpdis ==> text@ == front + "A"@
            &&& !status.a_first && !status.bpdis ==> text@ == front + "B"@
            &&& status.a_first && status.bpdis ==> text@ == front + "A"@ + ", BPDIS set"@
            &&& !status.a_first && status.bpdis ==> text@ == front + "B"@ + ", BPDIS set"@
        }),
{
    assert((120 - 8 * status.bootprot) as nat == ((15 - status.bootprot) * 8) as nat);
    assert(text@ == status.spec_text());
    assert(!status.bpdis ==> text@ =~= "BOOTPROT="@ + crate::text::decimal(status.bootprot as nat)
        + " ("@ + crate::text::decimal((120 - 8 * status.bootprot) as nat)
        + " KiB protected), active bank "@ + (if status.a_first {
        "A"@
    } else {
        "B"@
    }));
}

/// The block count is the low digit.
pub proof fn how_many_blocks_were_latched(seestat: u32, sblk: u8)
    requires
        call_ensures(see_sblk, (seestat,), sblk),
    ensures
        sblk == seestat % 16,
{
    crate::bytes::fields_are_digits(0, 0, seestat);
}

/// Disabling the cache sets the two highest bits and keeps the others.
pub proof fn the_cache_is_disabled_and_nothing_else(ctrla: u16, r: u16)
    requires
        call_ensures(uncached_ctrla, (ctrla,), r),
    ensures
        r == ctrla % 16384 + 49152,
{
    lemma_bits(ctrla, 0, 0, 0);
}

/// A command that reports an error failed, even if it also completed or ran
/// out of time; one that completed is done, even if late; only one that did
/// neither can time out.
pub proof fn how_a_command_stands(flags: u16, expired: bool, p: CmdProgress)
    requires
        call_ensures(command_progress, (flags, expired), p),
    ensures
        ({
            let failed = bit(flags, 2) || bit(flags, 4) || bit(flags, 8) || bit(flags, 64);
            &&& failed <==> p == (CmdProgress::Failed { flags })
            &&& !failed && bit(flags, 1) <==> p == CmdProgress::Done
            &&& !failed && !bit(flags, 1) && expired <==> p == CmdProgress::TimedOut
            &&& !failed && !bit(flags, 1) && !expired <==> p == CmdProgress::Busy
        }),
{
    lemma_bits(flags, 0, 0, 0);
}

/// A locked region is what explains most, then a bad address, then a bad
/// sequence.
pub proof fn what_explains_a_failure(flags: u16, text: &'static str)
    requires
        call_ensures(describe, (flags,), text),
    ensures
        bit(flags, 8) ==> text@ == " (LOCKE: the region is write protected)"@,
        !bit(flags, 8) && bit(flags, 2) ==> text@ == " (ADDRE: bad address)"@,
        !bit(flags, 8) && !bit(flags, 2) && bit(flags, 4) ==> text@
            == " (PROGE: invalid command sequence)"@,
        !bit(flags, 8) && !bit(flags, 2) && !bit(flags, 4) && bit(flags, 64) ==> text@ == " (NVME)"@,
        !bit(flags, 8) && !bit(flags, 2) && !bit(flags, 4) && !bit(flags, 64) ==> text@ == ""@,
{
    lemma_bits(flags, 0, 0, 0);
}

/// A dry run writes nothing, and every other run writes.
pub proof fn only_a_dry_run_does_not_write(dry_run: bool, mode: Mode, writes: bool)
    requires
        call_ensures(Mode::of, (dry_run,), mode),
        call_ensures(Mode::writes, (mode,), writes),
    ensures
        writes <==> !dry_run,
{
}

} // verus!
