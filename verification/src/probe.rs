//! NVMCTRL as a debug probe sees it: its registers, its commands, and what
//! its status words say.
//!
//! Register offsets and bit positions are DS60001507 section 25.8, as are
//! the `CTRLB.CMD` values in [`Cmd`].

use vstd::prelude::*;
use vstd::string::*;

pub mod laws;

use crate::text::to_decimal;

verus! {

pub const NVMCTRL: u64 = 0x4100_4000;

pub const CTRLA: u64 = 0x4100_4000;

pub const CTRLB: u64 = 0x4100_4004;

pub const PARAM: u64 = 0x4100_4008;

pub const INTFLAG: u64 = 0x4100_4010;

pub const STATUS: u64 = 0x4100_4012;

pub const ADDR: u64 = 0x4100_4014;

pub const RUNLOCK: u64 = 0x4100_4018;

pub const SEESTAT: u64 = 0x4100_402C;

/// `CTRLA.CACHEDIS0` and `CACHEDIS1`.
///
/// Errata NVM101-7 leaves the NVM cache holding stale lines after
/// programming.
pub const CACHEDIS: u16 = 0xC000;

/// `CTRLB.CMDEX`: a command executes only with this key in bits 15:8.
pub const CMD_KEY: u16 = 0xA500;

/// Completion, polled for.
pub const DONE: u16 = 0x0001;

pub const ERR_ADDRE: u16 = 0x0002;

pub const ERR_PROGE: u16 = 0x0004;

pub const ERR_LOCKE: u16 = 0x0008;

pub const ERR_NVME: u16 = 0x0040;

/// `INTFLAG` bits that mean the last command failed.
pub const ERRORS: u16 = 0x004E;

/// Every flag the hardware sets, cleared by writing ones.
pub const ALL_FLAGS: u16 = 0x07FF;

/// The literal register addresses and masks are the offsets and bits they
/// stand for.
pub proof fn registers_and_masks_agree()
    ensures
        CTRLA == NVMCTRL,
        CTRLB == NVMCTRL + 0x04,
        PARAM == NVMCTRL + 0x08,
        INTFLAG == NVMCTRL + 0x10,
        STATUS == NVMCTRL + 0x12,
        ADDR == NVMCTRL + 0x14,
        RUNLOCK == NVMCTRL + 0x18,
        SEESTAT == NVMCTRL + 0x2C,
        CACHEDIS == (1u16 << 14) | (1u16 << 15),
        ERR_ADDRE == 1u16 << 1,
        ERR_PROGE == 1u16 << 2,
        ERR_LOCKE == 1u16 << 3,
        ERR_NVME == 1u16 << 6,
        ERRORS == ERR_ADDRE | ERR_PROGE | ERR_LOCKE | ERR_NVME,
{
    assert(0xC000u16 == (1u16 << 14) | (1u16 << 15) && 0x0002u16 == 1u16 << 1 && 0x0004u16 == 1u16
        << 2 && 0x0008u16 == 1u16 << 3 && 0x0040u16 == 1u16 << 6 && 0x004Eu16 == 0x0002u16
        | 0x0004u16 | 0x0008u16 | 0x0040u16) by (bit_vector);
}

/// NVMCTRL commands, as `CTRLB.CMD` values.
#[derive(Clone, Copy, PartialEq, Eq, Structural, Debug)]
pub enum Cmd {
    Ep,
    Wqw,
    Pbc,
    Bkswrst,
}

impl Cmd {
    /// The command's number.
    pub open spec fn spec_code(self) -> u16 {
        match self {
            Cmd::Ep => 0,
            Cmd::Wqw => 4,
            Cmd::Pbc => 21,
            Cmd::Bkswrst => 23,
        }
    }

    /// The command's name, for a report.
    pub open spec fn spec_name(self) -> Seq<char> {
        match self {
            Cmd::Ep => "EP (erase page)"@,
            Cmd::Wqw => "WQW (write quad word)"@,
            Cmd::Pbc => "PBC (page buffer clear)"@,
            Cmd::Bkswrst => "BKSWRST (bank swap and reset)"@,
        }
    }

    /// The command's number.
    pub fn code(self) -> (code: u16)
        ensures
            code == self.spec_code(),
    {
        match self {
            Cmd::Ep => 0,
            Cmd::Wqw => 4,
            Cmd::Pbc => 21,
            Cmd::Bkswrst => 23,
        }
    }

    /// The word that issues the command: its number under the key.
    pub fn ctrlb(self) -> (word: u16)
        ensures
            word == CMD_KEY | self.spec_code(),
    {
        CMD_KEY | self.code()
    }

    /// The command's name, for a report.
    pub fn name(self) -> (name: &'static str)
        ensures
            name@ == self.spec_name(),
    {
        match self {
            Cmd::Ep => "EP (erase page)",
            Cmd::Wqw => "WQW (write quad word)",
            Cmd::Pbc => "PBC (page buffer clear)",
            Cmd::Bkswrst => "BKSWRST (bank swap and reset)",
        }
    }
}

/// The command's number can be read back out of the word that issues it.
pub proof fn a_command_word_carries_its_command(cmd: Cmd)
    ensures
        (CMD_KEY | cmd.spec_code()) & 0x7F == cmd.spec_code(),
        (CMD_KEY | cmd.spec_code()) & 0xFF00 == CMD_KEY,
{
    let code = cmd.spec_code();
    assert((0xA500u16 | code) & 0x7F == code && (0xA500u16 | code) & 0xFF00 == 0xA500)
        by (bit_vector)
        requires
            code < 128,
    ;
}

/// Whether a session may write.
#[derive(Clone, Copy, PartialEq, Eq, Structural, Debug)]
pub enum Mode {
    Run,
    /// Reads still happen, so the plan is computed against the real part.
    /// Writes are printed instead of issued.
    DryRun,
}

impl Mode {
    pub fn writes(self) -> (r: bool)
        ensures
            r == (self == Mode::Run),
    {
        match self {
            Mode::Run => true,
            Mode::DryRun => false,
        }
    }

    /// The mode a command line asked for.
    pub fn of(dry_run: bool) -> (mode: Mode)
        ensures
            mode == (if dry_run {
                Mode::DryRun
            } else {
                Mode::Run
            }),
    {
        if dry_run {
            Mode::DryRun
        } else {
            Mode::Run
        }
    }
}

/// Flash geometry read from `NVMCTRL.PARAM`, in bytes.
#[derive(Clone, Copy, PartialEq, Eq, Structural, Debug)]
pub struct Param {
    pub flash_size: usize,
    pub page_size: usize,
}

impl Param {
    /// Bytes in a page: PSZ encodes it as a power of two from 8 up.
    pub open spec fn page_size_of(raw: u32) -> usize {
        8usize << ((raw >> 16) & 0x7)
    }

    /// Decode `PARAM`: the page count in bits 15:0, the page size in 18:16.
    pub fn decode(raw: u32) -> (param: Param)
        ensures
            param.page_size == Param::page_size_of(raw),
            8 <= param.page_size <= 1024,
            param.flash_size == (raw & 0xFFFF) * param.page_size,
    {
        let pages: usize = (raw & 0xFFFF) as usize;
        let shift: u32 = (raw >> 16) & 0x7;
        assert(shift <= 7 && (raw & 0xFFFF) <= 0xFFFF) by (bit_vector)
            requires
                shift == (raw >> 16) & 0x7,
        ;
        let page_size: usize = 8usize << shift;
        assert(8 <= page_size <= 1024) by (bit_vector)
            requires
                page_size == 8usize << shift,
                shift <= 7,
        ;
        assert(pages * page_size <= 0xFFFF * 1024) by (nonlinear_arith)
            requires
                pages <= 0xFFFF,
                page_size <= 1024,
        ;
        Param { flash_size: pages * page_size, page_size }
    }
}

/// What `NVMCTRL.STATUS` says.
#[derive(Clone, Copy, PartialEq, Eq, Structural, Debug)]
pub struct Status {
    /// `STATUS.BOOTPROT`, the raw fuse value: `(15 - bootprot) * 8 KiB` of
    /// the active bank is protected, so 15 protects nothing.
    pub bootprot: u8,
    /// `STATUS.AFIRST`: true when bank A is the one mapped at the flash base.
    pub a_first: bool,
    /// `STATUS.BPDIS`: BOOTPROT is overridden at runtime, so the head is
    /// writable whatever the fuse says.
    pub bpdis: bool,
}

impl Status {
    /// The status in a sentence.
    pub open spec fn spec_text(self) -> Seq<char> {
        "BOOTPROT="@ + crate::text::decimal(self.bootprot as nat) + " ("@ + crate::text::decimal(
            ((15 - self.bootprot) * 8) as nat,
        ) + " KiB protected), active bank "@ + (if self.a_first {
            "A"@
        } else {
            "B"@
        }) + (if self.bpdis {
            ", BPDIS set"@
        } else {
            Seq::<char>::empty()
        })
    }

    /// Decode `STATUS`: BOOTPROT in bits 11:8, AFIRST in bit 4, BPDIS in
    /// bit 5.
    pub fn decode(raw: u16) -> (status: Status)
        ensures
            status.bootprot == ((raw >> 8) & 0xF) as u8,
            status.bootprot <= 15,
            status.a_first == (raw & 0x10 != 0),
            status.bpdis == (raw & 0x20 != 0),
    {
        let field: u16 = (raw >> 8) & 0xF;
        assert(field <= 15) by (bit_vector)
            requires
                field == (raw >> 8) & 0xF,
        ;
        Status { bootprot: field as u8, a_first: raw & 0x10 != 0, bpdis: raw & 0x20 != 0 }
    }

    /// The status in a sentence.
    pub fn text(&self) -> (text: String)
        requires
            self.bootprot <= 15,
        ensures
            text@ == self.spec_text(),
    {
        let mut text: String = "BOOTPROT=".to_owned();
        text.append(to_decimal(self.bootprot as u32).as_str());
        text.append(" (");
        text.append(to_decimal((15 - self.bootprot as u32) * 8).as_str());
        text.append(" KiB protected), active bank ");
        if self.a_first {
            text.append("A");
        } else {
            text.append("B");
        }
        if self.bpdis {
            text.append(", BPDIS set");
        }
        assert(text@ =~= self.spec_text());
        text
    }

    /// The head of the active bank cannot be written where it is: BOOTPROT
    /// protects something, and nothing overrides it.
    pub fn protected(&self) -> (r: bool)
        ensures
            r == (self.bootprot != 15 && !self.bpdis),
    {
        self.bootprot != 15 && !self.bpdis
    }
}

/// `SEESTAT.SBLK`, the block count latched from the user page at reset.
pub fn see_sblk(seestat: u32) -> (sblk: u8)
    ensures
        sblk == (seestat & 0xF) as u8,
        sblk <= 15,
{
    let field: u32 = seestat & 0xF;
    assert(field <= 15) by (bit_vector)
        requires
            field == seestat & 0xF,
    ;
    field as u8
}

/// The `CTRLA` value that disables the NVM cache and leaves the rest alone.
pub fn uncached_ctrla(ctrla: u16) -> (r: u16)
    ensures
        r == ctrla | CACHEDIS,
        r & CACHEDIS == CACHEDIS,
        r & !CACHEDIS == ctrla & !CACHEDIS,
{
    assert((ctrla | 0xC000) & 0xC000 == 0xC000 && (ctrla | 0xC000) & !0xC000u16 == ctrla & !0xC000u16)
        by (bit_vector);
    ctrla | CACHEDIS
}

/// How an issued command stands.
#[derive(Clone, Copy, PartialEq, Eq, Structural, Debug)]
pub enum CmdProgress {
    /// It failed with these flags.
    Failed { flags: u16 },
    Done,
    /// It did not complete in time.
    TimedOut,
    /// Poll again.
    Busy,
}

/// How an issued command stands, from `INTFLAG` and whether its time is up.
///
/// An error flag counts even when the command has also completed, and a
/// command that has completed counts even when its time is up.
pub fn command_progress(flags: u16, expired: bool) -> (p: CmdProgress)
    ensures
        p == (if flags & ERRORS != 0 {
            CmdProgress::Failed { flags }
        } else if flags & DONE != 0 {
            CmdProgress::Done
        } else if expired {
            CmdProgress::TimedOut
        } else {
            CmdProgress::Busy
        }),
{
    if flags & ERRORS != 0 {
        CmdProgress::Failed { flags }
    } else if flags & DONE != 0 {
        CmdProgress::Done
    } else if expired {
        CmdProgress::TimedOut
    } else {
        CmdProgress::Busy
    }
}

/// What failure flags mean, the most telling one first.
pub fn describe(flags: u16) -> (text: &'static str)
    ensures
        text@ == (if flags & ERR_LOCKE != 0 {
            " (LOCKE: the region is write protected)"@
        } else if flags & ERR_ADDRE != 0 {
            " (ADDRE: bad address)"@
        } else if flags & ERR_PROGE != 0 {
            " (PROGE: invalid command sequence)"@
        } else if flags & ERR_NVME != 0 {
            " (NVME)"@
        } else {
            ""@
        }),
{
    if flags & ERR_LOCKE != 0 {
        " (LOCKE: the region is write protected)"
    } else if flags & ERR_ADDRE != 0 {
        " (ADDRE: bad address)"
    } else if flags & ERR_PROGE != 0 {
        " (PROGE: invalid command sequence)"
    } else if flags & ERR_NVME != 0 {
        " (NVME)"
    } else {
        ""
    }
}

} // verus!
