//! The bootloader state machine.
//!
//! A BOOT binary uses this in four steps. First, build a [`Boot`] from the
//! live fuse configuration with [`Boot::new`], which checks the fuses it
//! will boot under. Next, either hand the decision to
//! [`Boot::boot_or_enter_download`] or read [`Boot::disposition`] and match
//! the [`Disposition`] itself. Either way, a jump into the active image goes
//! through [`Boot::verify`]: its `Boot<Verified>` is the only thing that
//! unlocks [`Boot::boot_active`]. Finally, a binary left in download mode
//! drives its own transport: [`Boot::condemn`], then the operations of
//! [`Boot::download`], then [`Boot::install`].
//!
//! Nothing here touches a peripheral. A verb that ends in a swap or a jump
//! returns the [`Departure`] for the binary to carry out, and what only the
//! DSU or the NVM can answer comes in as an argument.

use vstd::prelude::*;

use core::marker::PhantomData;

pub mod laws;
pub mod outcomes;
mod seal;
pub mod verbs;

use crate::consts::{Layout, ACTIVE_SLOT_ADDR, MANIFEST_OFFSET};
use crate::flash_writer::{pages, words, FlashError, FlashOp, FlashWriter, Page};
use crate::manifest::{AppManifest, FMT_VER, MAGIC, MIN_IMAGE_LEN, OFF_BODY};
use crate::persist::{BankState, BootStorage, BootStore, PhysicalBank, RevertReason};

verus! {

/// Sealed typestate marking whether [`Boot`]'s active slot has been verified
/// this boot: either [`Unverified`] or [`Verified`].
pub trait SlotState: seal::Sealed {

}

/// The initial state of a freshly constructed [`Boot`].
pub struct Unverified {}

impl seal::Sealed for Unverified {

}

impl SlotState for Unverified {

}

/// Reached only through [`Boot::verify`].
pub struct Verified {}

impl seal::Sealed for Verified {

}

impl SlotState for Verified {

}

/// Watchdog periods, in cycles of its 1024 Hz clock.
#[derive(Clone, Copy, PartialEq, Eq, Structural, Debug)]
pub enum WatchdogTimeout {
    Cycles8,
    Cycles16,
    Cycles32,
    Cycles64,
    Cycles128,
    Cycles256,
    Cycles512,
    Cycles1K,
    Cycles2K,
    Cycles4K,
    Cycles8K,
    Cycles16K,
}

impl WatchdogTimeout {
    /// The register encoding: the period is `8 << code` cycles.
    pub open spec fn spec_code(self) -> u8 {
        match self {
            WatchdogTimeout::Cycles8 => 0,
            WatchdogTimeout::Cycles16 => 1,
            WatchdogTimeout::Cycles32 => 2,
            WatchdogTimeout::Cycles64 => 3,
            WatchdogTimeout::Cycles128 => 4,
            WatchdogTimeout::Cycles256 => 5,
            WatchdogTimeout::Cycles512 => 6,
            WatchdogTimeout::Cycles1K => 7,
            WatchdogTimeout::Cycles2K => 8,
            WatchdogTimeout::Cycles4K => 9,
            WatchdogTimeout::Cycles8K => 10,
            WatchdogTimeout::Cycles16K => 11,
        }
    }

    /// The register encoding.
    pub fn code(self) -> (code: u8)
        ensures
            code == self.spec_code(),
    {
        match self {
            WatchdogTimeout::Cycles8 => 0,
            WatchdogTimeout::Cycles16 => 1,
            WatchdogTimeout::Cycles32 => 2,
            WatchdogTimeout::Cycles64 => 3,
            WatchdogTimeout::Cycles128 => 4,
            WatchdogTimeout::Cycles256 => 5,
            WatchdogTimeout::Cycles512 => 6,
            WatchdogTimeout::Cycles1K => 7,
            WatchdogTimeout::Cycles2K => 8,
            WatchdogTimeout::Cycles4K => 9,
            WatchdogTimeout::Cycles8K => 10,
            WatchdogTimeout::Cycles16K => 11,
        }
    }
}

/// Downstream-set boot policy.
#[derive(Clone, Copy, PartialEq, Eq, Structural, Debug)]
pub struct BootConfig {
    /// Trial boots of one image before it is reverted.
    pub max_boot_attempts: u8,
    /// Watchdog period armed for trial boots only.
    pub trial_timeout: WatchdogTimeout,
}

/// The configuration the hardware is operating with right now.
#[derive(Clone, Copy, PartialEq, Eq, Structural, Debug)]
pub struct LiveFuses {
    /// The user page's BOOTPROT field.
    pub bootprot: u8,
    /// Live `SEESTAT.SBLK`, not the fuse.
    pub see_sblk: u8,
    /// The bank mapped at the base of flash, `STATUS.AFIRST`.
    pub first_bank: PhysicalBank,
    /// `RUNLOCK`; a clear bit locks the region.
    pub runlock: u32,
}

/// What a [`Boot`] is built from: the part, its live state and the policy.
#[derive(Clone, Copy, PartialEq, Eq, Structural, Debug)]
pub struct Parts {
    pub layout: Layout,
    pub first_bank: PhysicalBank,
    pub see_sblk: u8,
    pub config: BootConfig,
}

/// The bootloader state machine. `S` is a [`SlotState`] typestate that
/// records whether the active slot has been verified this boot: only
/// [`Boot::verify`] produces a `Boot<Verified>`, and only that unlocks
/// [`Boot::boot_active`]. Construct with [`Boot::new`]; take it apart with
/// [`Boot::free`].
pub struct Boot<S: SlotState> {
    parts: Parts,
    state: PhantomData<S>,
}

impl<S: SlotState> View for Boot<S> {
    type V = Parts;

    closed spec fn view(&self) -> Parts {
        self.parts
    }
}

/// A precondition [`Boot::new`] found unmet: the live fuse configuration is
/// incompatible with a swap-safe layout. All three are provisioning faults,
/// fixed off-board.
#[derive(Clone, Copy, PartialEq, Eq, Structural, Debug)]
pub enum BootConfigError {
    BootprotMisconfigured,
    SmartEEPROMTooLarge,
    SmartEEPROMReservedSblk,
}

/// Why the DSU could not run a CRC.
#[derive(Clone, Copy, PartialEq, Eq, Structural, Debug)]
pub enum DsuError {
    /// Address or length was not word aligned.
    Alignment,
    /// The PAC would not unlock the DSU.
    PacUnlockFailed,
    /// The CRC32 operation failed.
    CrcFailed,
    /// Bus error, usually a misaligned address or length.
    Bus,
}

/// Why an image failed integrity verification: the first check to fail. The
/// checks run cheapest first, in the order `BadMagic`, `VersionMismatch`,
/// `BadLen`, `BadCrc`, which is not the order the variants are declared in.
#[derive(Clone, Copy, PartialEq, Eq, Structural, Debug)]
pub enum VerifyError {
    BadMagic,
    VersionMismatch,
    BadCrc,
    BadLen,
    /// The DSU could not run the CRC at all (unaligned range, PAC unlock,
    /// bus error), as opposed to a CRC that came back wrong.
    Dsu(DsuError),
}

impl From<DsuError> for VerifyError {
    fn from(e: DsuError) -> (r: VerifyError) {
        VerifyError::Dsu(e)
    }
}

impl vstd::std_specs::convert::FromSpecImpl<DsuError> for VerifyError {
    open spec fn obeys_from_spec() -> bool {
        true
    }

    open spec fn from_spec(e: DsuError) -> VerifyError {
        VerifyError::Dsu(e)
    }
}

/// Failure of the composed install. `Write` is a boot record, not the image;
/// `W` is the store's write-error type.
#[derive(PartialEq, Eq, Debug)]
pub enum InstallError<W> {
    Flash(FlashError),
    Verify(VerifyError),
    Write(W),
}

/// Failure of a download.
#[derive(Clone, Copy, PartialEq, Eq, Structural, Debug)]
pub enum DownloadError {
    Flash(FlashError),
    Verify(VerifyError),
}

impl<W> From<DownloadError> for InstallError<W> {
    fn from(e: DownloadError) -> (r: InstallError<W>) {
        match e {
            DownloadError::Flash(e) => InstallError::Flash(e),
            DownloadError::Verify(e) => InstallError::Verify(e),
        }
    }
}

impl<W> vstd::std_specs::convert::FromSpecImpl<DownloadError> for InstallError<W> {
    open spec fn obeys_from_spec() -> bool {
        true
    }

    open spec fn from_spec(e: DownloadError) -> InstallError<W> {
        match e {
            DownloadError::Flash(e) => InstallError::Flash(e),
            DownloadError::Verify(e) => InstallError::Verify(e),
        }
    }
}

/// A verb that could not complete, handing the [`Boot`] it consumed back so
/// the caller can take another route with the peripherals.
#[must_use]
pub struct Aborted<E, B> {
    pub error: E,
    pub boot: B,
}

/// How the bootloader leaves: the binary carries this out and does not come
/// back.
#[derive(Clone, Copy, PartialEq, Eq, Structural, Debug)]
pub enum Departure {
    /// Disable interrupts and issue `BKSWRST`: swap which bank occupies each
    /// slot and reset. The command stalls the AHB and forbids any NVM fetch
    /// while it runs, so an interrupt taken during it sends the core to a
    /// vector it cannot fetch.
    Swap,
    /// Jump to the program whose vector table is at this address.
    Jump { vector_table: usize },
    /// Start the watchdog at this register code, then jump.
    TrialJump { timeout: u8, vector_table: usize },
}

/// What the stored boot record says this boot should do. Read with
/// [`Boot::disposition`]; the caller runs the action each variant calls for,
/// so its own validation or bookkeeping can sit in each arm.
#[derive(Clone, Copy, PartialEq, Eq, Structural, Debug)]
pub enum Disposition {
    SteadyBoot,
    /// `attempt` is this boot's 1-based trial count.
    Trial { attempt: u8 },
    /// The trial budget is spent: revert rather than boot again. `attempt`
    /// is this boot's 1-based count, as far as a byte counts.
    TrialExhausted { attempt: u8 },
    Promote,
    Reject,
    /// An install recorded its trial but the swap never happened. Swapping
    /// now finishes it; the image was read-back verified when it was
    /// written.
    ResumeInstall,
    /// The active image is condemned and the other bank holds a confirmed
    /// one. Swapping is the only action needed: the record already says so.
    Rollback,
    UpdateRequested,
    /// The active image is condemned and no bank holds a confirmed one:
    /// nothing on the part is known to boot.
    NoImage,
}

/// One range of a slot and the CRC its manifest claims for it.
#[derive(Clone, Copy, PartialEq, Eq, Structural, Debug)]
pub struct CrcRange {
    pub addr: u32,
    pub len: u32,
    pub expected: u32,
}

/// The two ranges of a slot its manifest claims CRCs for: everything below
/// the CRC fields, then everything behind them.
#[derive(Clone, Copy, PartialEq, Eq, Structural, Debug)]
pub struct SlotRanges {
    pub vec_table: CrcRange,
    pub image: CrcRange,
}

/// A slot whose manifest passed and whose two CRCs are still to be run. Only
/// [`Boot::check_slot`] makes one; [`SlotCheck::vec_table`] takes the first
/// CRC.
pub struct SlotCheck {
    base: usize,
    ranges: SlotRanges,
}

/// A slot with one CRC to go; [`BodyCheck::image`] takes it.
pub struct BodyCheck {
    base: usize,
    ranges: SlotRanges,
}

/// Proof that a slot holds the image its manifest describes: the manifest
/// was accepted and both CRCs came out as it claims. Only
/// [`BodyCheck::image`] makes one; [`Boot::verify`] and
/// [`Boot::downloaded`] ask for it.
pub struct Intact {
    base: usize,
}

/// Proof that an image was downloaded into the inactive slot and found
/// intact there. Only [`Boot::downloaded`] makes one, and [`Boot::install`]
/// asks for it.
pub struct Downloaded {
    slot: Intact,
}

/// Proof that the bank about to be overwritten is recorded as condemned.
/// Only [`Boot::condemn`] makes one, once the store has taken the record;
/// [`Boot::download_region`], [`Boot::download`] and [`Boot::install`] ask
/// for it.
pub struct Condemned {
    bank: PhysicalBank,
    record: BootStore,
}

impl Condemned {
    /// The record condemns the bank.
    #[verifier::type_invariant]
    closed spec fn condemns(self) -> bool {
        self.record.boot_state.spec_bank(self.bank) == BankState::Invalid
    }

    /// The bank that was condemned.
    pub closed spec fn spec_bank(self) -> PhysicalBank {
        self.bank
    }

    /// The record that was written.
    pub closed spec fn spec_record(self) -> BootStore {
        self.record
    }

    /// The record that was written.
    pub fn record(&self) -> (record: BootStore)
        ensures
            record == self.spec_record(),
    {
        self.record
    }
}

/// Why an image is about to be verified.
#[derive(Clone, Copy, PartialEq, Eq, Structural, Debug)]
pub enum Purpose {
    Promote,
    SteadyBoot,
    Trial,
}

/// A boot that waits for the verdict on the active slot.
pub struct Pending {
    pub boot: Boot<Unverified>,
    pub record: BootStore,
    pub purpose: Purpose,
}

/// Where a boot ends: it leaves, or the binary enters download mode.
pub enum Settled {
    Leave(Departure),
    Download(Boot<Unverified>),
}

/// How far [`Boot::boot_or_enter_download`] gets without the DSU.
pub enum Outcome {
    Settled(Settled),
    Verify(Pending),
}

// ── Definition ──────────────────────────────────────────────────────────

/// Bytes the SmartEEPROM keeps clear in each bank: two blocks of 8 KiB per
/// SBLK.
pub open spec fn reserve_of(sblk: u8) -> int {
    2 * sblk * 8192
}

/// What is wrong with a live configuration, if anything.
pub open spec fn config_error(layout: Layout, live: LiveFuses) -> Option<BootConfigError> {
    if live.bootprot != 15 - layout.boot_size / 8192 {
        Some(BootConfigError::BootprotMisconfigured)
    } else if live.see_sblk > 10 {
        Some(BootConfigError::SmartEEPROMReservedSblk)
    } else if layout.boot_size + reserve_of(live.see_sblk) >= layout.spec_bank_size() {
        Some(BootConfigError::SmartEEPROMTooLarge)
    } else {
        None
    }
}

impl Parts {
    /// The part can be protected and leaves an application region in a bank.
    pub open spec fn wf(self) -> bool {
        &&& self.layout.wf()
        &&& self.see_sblk <= 10
        &&& self.layout.boot_size + reserve_of(self.see_sblk) < self.layout.spec_bank_size()
    }

    /// Bytes an application may occupy in a bank.
    pub open spec fn region_len(self) -> int {
        self.layout.spec_bank_size() - self.layout.boot_size - reserve_of(self.see_sblk)
    }

    /// The bank mapped high.
    pub open spec fn inactive_bank(self) -> PhysicalBank {
        self.first_bank.spec_other()
    }

    /// The same part after a bank swap.
    pub open spec fn swapped(self) -> Parts {
        Parts { first_bank: self.first_bank.spec_other(), ..self }
    }
}

/// The base of one of the two slots.
pub open spec fn is_slot(parts: Parts, base: usize) -> bool {
    base == ACTIVE_SLOT_ADDR || base == parts.layout.spec_bank_size()
}

/// The first check a manifest fails, before any CRC is run.
pub open spec fn manifest_error(m: AppManifest, region_len: int) -> Option<VerifyError> {
    if m.body.magic != MAGIC {
        Some(VerifyError::BadMagic)
    } else if m.body.fmt_version < FMT_VER {
        Some(VerifyError::VersionMismatch)
    } else if !(MIN_IMAGE_LEN <= m.body.image_len <= region_len) || m.body.image_len % 4 != 0 {
        Some(VerifyError::BadLen)
    } else {
        None
    }
}

impl SlotRanges {
    /// The ranges a manifest claims CRCs for, in the slot at `base`.
    pub open spec fn of(parts: Parts, base: usize, m: AppManifest) -> SlotRanges {
        let begin = base + parts.layout.boot_size;
        SlotRanges {
            vec_table: CrcRange {
                addr: begin as u32,
                len: MANIFEST_OFFSET as u32,
                expected: m.head.crc32_vec_table,
            },
            image: CrcRange {
                addr: (begin + OFF_BODY) as u32,
                len: (m.body.image_len - OFF_BODY) as u32,
                expected: m.head.crc32_image,
            },
        }
    }
}

impl CrcRange {
    /// What a CRC result says about this range.
    pub open spec fn verdict(self, crc: Result<u32, DsuError>) -> Result<(), VerifyError> {
        match crc {
            Ok(crc) => if crc == self.expected {
                Ok(())
            } else {
                Err(VerifyError::BadCrc)
            },
            Err(e) => Err(VerifyError::Dsu(e)),
        }
    }
}

/// The verdict on the slot at `base`, given what the DSU answers for each
/// range it is asked about. The second range is only reached when the first
/// passes.
pub open spec fn slot_verdict(
    parts: Parts,
    base: usize,
    m: AppManifest,
    dsu: spec_fn(u32, u32) -> Result<u32, DsuError>,
) -> Result<(), VerifyError> {
    match manifest_error(m, parts.region_len()) {
        Some(e) => Err(e),
        None => {
            let check = SlotRanges::of(parts, base, m);
            match check.vec_table.verdict(dsu(check.vec_table.addr, check.vec_table.len)) {
                Err(e) => Err(e),
                Ok(_) => check.image.verdict(dsu(check.image.addr, check.image.len)),
            }
        },
    }
}

/// What the manifest of the slot at `base` comes to: the first thing wrong
/// with it, or the ranges it claims CRCs for, at addresses that fit.
pub open spec fn checks_manifest(
    parts: Parts,
    base: usize,
    m: AppManifest,
    r: Result<SlotCheck, VerifyError>,
) -> bool {
    match r {
        Err(e) => manifest_error(m, parts.region_len()) == Some(e),
        Ok(check) => {
            &&& manifest_error(m, parts.region_len()) is None
            &&& check.spec_base() == base
            &&& check.spec_ranges() == SlotRanges::of(parts, base, m)
            &&& check.spec_ranges().vec_table.addr == base + parts.layout.boot_size
            &&& check.spec_ranges().image.addr == base + parts.layout.boot_size + OFF_BODY
            &&& check.spec_ranges().image.len == m.body.image_len - OFF_BODY
        },
    }
}

impl SlotCheck {
    /// Where the slot begins.
    pub closed spec fn spec_base(self) -> usize {
        self.base
    }

    /// The ranges whose CRCs are to be run.
    pub closed spec fn spec_ranges(self) -> SlotRanges {
        self.ranges
    }

    /// What the CRC of the first range comes to.
    pub open spec fn checks_vec_table(
        self,
        crc: Result<u32, DsuError>,
        r: Result<BodyCheck, VerifyError>,
    ) -> bool {
        match self.spec_ranges().vec_table.verdict(crc) {
            Ok(_) => r matches Ok(next) && next.spec_base() == self.spec_base()
                && next.spec_ranges() == self.spec_ranges(),
            Err(e) => r == Err::<BodyCheck, VerifyError>(e),
        }
    }
}

impl BodyCheck {
    /// Where the slot begins.
    pub closed spec fn spec_base(self) -> usize {
        self.base
    }

    /// The ranges whose CRCs are to be run.
    pub closed spec fn spec_ranges(self) -> SlotRanges {
        self.ranges
    }

    /// What the CRC of the second range comes to.
    pub open spec fn checks_image(
        self,
        crc: Result<u32, DsuError>,
        r: Result<Intact, VerifyError>,
    ) -> bool {
        match self.spec_ranges().image.verdict(crc) {
            Ok(_) => r matches Ok(intact) && intact.spec_base() == self.spec_base(),
            Err(e) => r == Err::<Intact, VerifyError>(e),
        }
    }
}

impl Intact {
    /// Where the slot begins.
    pub closed spec fn spec_base(self) -> usize {
        self.base
    }
}

impl Downloaded {
    /// Where the slot begins.
    pub closed spec fn spec_base(self) -> usize {
        self.slot.base
    }
}

/// What a check came to, without the proof.
pub open spec fn verdict_of(check: Result<Intact, VerifyError>) -> Result<(), VerifyError> {
    match check {
        Ok(_) => Ok(()),
        Err(e) => Err(e),
    }
}

/// A check that passed was one of the slot at `base`.
pub open spec fn speaks_of(check: Result<Intact, VerifyError>, base: int) -> bool {
    check matches Ok(intact) ==> intact.spec_base() == base
}

/// What a record says this boot should do. The first match wins.
pub open spec fn classify(parts: Parts, record: BootStore) -> Disposition {
    let active = record.boot_state.spec_bank(parts.first_bank);
    let inactive = record.boot_state.spec_bank(parts.inactive_bank());
    let mailbox = record.mailbox;
    if inactive == BankState::New {
        Disposition::ResumeInstall
    } else if mailbox.has(crate::persist::REJECT) {
        Disposition::Reject
    } else if active == BankState::New && mailbox.has(crate::persist::CONFIRM) {
        Disposition::Promote
    } else if mailbox.has(crate::persist::REQUEST) {
        Disposition::UpdateRequested
    } else {
        match active {
            BankState::New => {
                let attempt = counted(record.boot_state.boot_count);
                if record.boot_state.boot_count >= parts.config.max_boot_attempts {
                    Disposition::TrialExhausted { attempt }
                } else {
                    Disposition::Trial { attempt }
                }
            },
            BankState::Valid => Disposition::SteadyBoot,
            BankState::Empty => Disposition::SteadyBoot,
            BankState::Invalid => if inactive == BankState::Valid {
                Disposition::Rollback
            } else {
                Disposition::NoImage
            },
        }
    }
}

/// A trial count one higher, stopping at the top.
pub open spec fn counted(count: u8) -> u8 {
    if count == 255 {
        255
    } else {
        (count + 1) as u8
    }
}

/// The record with a bank condemned.
pub open spec fn condemned(record: BootStore, bank: PhysicalBank) -> BootStore {
    BootStore { boot_state: record.boot_state.with_bank(bank, BankState::Invalid), ..record }
}

/// The record of an abandoned image: its bank condemned, the reason kept.
pub open spec fn reverted(
    record: BootStore,
    bank: PhysicalBank,
    reason: RevertReason,
) -> BootStore {
    BootStore {
        boot_state: record.boot_state.with_bank(bank, BankState::Invalid).with_reason(reason),
        ..record
    }
}

/// The record of a promoted image: confirmed, its count and any earlier
/// revert reason cleared, the confirmation consumed.
pub open spec fn promoted(record: BootStore, bank: PhysicalBank) -> BootStore {
    let state = record.boot_state.with_bank(bank, BankState::Valid);
    BootStore {
        boot_state: (crate::persist::BootState { boot_count: 0, ..state }).with_reason(
            RevertReason::NoRevert,
        ),
        mailbox: record.mailbox.with(crate::persist::CONFIRM, false),
        ..record
    }
}

/// The record of one more trial boot.
pub open spec fn tried(record: BootStore) -> BootStore {
    BootStore {
        boot_state: crate::persist::BootState {
            boot_count: counted(record.boot_state.boot_count),
            ..record.boot_state
        },
        ..record
    }
}

/// The record of a freshly installed image: on trial, none of its attempts
/// spent, and neither of the outgoing image's verdicts carried over.
pub open spec fn installed(record: BootStore, bank: PhysicalBank) -> BootStore {
    let state = record.boot_state.with_new(bank);
    BootStore {
        boot_state: crate::persist::BootState { boot_count: 0, ..state },
        mailbox: record.mailbox.with(crate::persist::CONFIRM, false).with(
            crate::persist::REJECT,
            false,
        ),
        ..record
    }
}

/// `record` was sealed and written, whatever the store made of it.
pub open spec fn attempts<St: BootStorage>(pre: St, record: BootStore, post: St) -> bool {
    exists|w: Result<(), St::WriteErr>| #[trigger] St::writes(pre, record.sealed(), post, w)
}

/// `record` was sealed and written, and how that ends: with `departure` if
/// the store took it, back in download mode if it did not.
pub open spec fn settles<St: BootStorage>(
    pre: St,
    record: BootStore,
    post: St,
    departure: Departure,
    boot: Boot<Unverified>,
    settled: Settled,
) -> bool {
    match settled {
        Settled::Leave(d) => d == departure && St::writes(pre, record.sealed(), post, Ok(())),
        Settled::Download(b) => b == boot && exists|e: St::WriteErr| #[trigger]
            St::writes(pre, record.sealed(), post, Err(e)),
    }
}

/// How a boot goes on after its store answered `read`, up to the point where
/// the active slot has to be verified.
pub open spec fn decides<St: BootStorage>(
    boot: Boot<Unverified>,
    read: Result<BootStore, St::ReadErr>,
    pre: St,
    post: St,
    outcome: Outcome,
) -> bool {
    let record = match read {
        Ok(record) => record,
        Err(_) => BootStore::blank(),
    };
    let disposition = match read {
        Ok(record) => classify(boot@, record),
        Err(_) => Disposition::SteadyBoot,
    };
    let bank = boot@.first_bank;
    match disposition {
        Disposition::UpdateRequested => {
            &&& outcome == Outcome::Settled(Settled::Download(boot))
            &&& attempts(pre, request_cleared(record), post)
        },
        Disposition::ResumeInstall => post == pre && outcome == Outcome::Settled(
            Settled::Leave(Departure::Swap),
        ),
        Disposition::Rollback => post == pre && outcome == Outcome::Settled(
            Settled::Leave(Departure::Swap),
        ),
        Disposition::NoImage => post == pre && outcome == Outcome::Settled(Settled::Download(boot)),
        Disposition::Reject => outcome matches Outcome::Settled(s) && settles(
            pre,
            reverted(reject_cleared(record), bank, RevertReason::AppRejected),
            post,
            Departure::Swap,
            boot,
            s,
        ),
        Disposition::TrialExhausted { .. } => outcome matches Outcome::Settled(s) && settles(
            pre,
            reverted(record, bank, RevertReason::AttemptsExhausted),
            post,
            Departure::Swap,
            boot,
            s,
        ),
        Disposition::Promote => post == pre && outcome == Outcome::Verify(
            Pending { boot, record, purpose: Purpose::Promote },
        ),
        Disposition::SteadyBoot => post == pre && outcome == Outcome::Verify(
            Pending { boot, record, purpose: Purpose::SteadyBoot },
        ),
        Disposition::Trial { .. } => post == pre && outcome == Outcome::Verify(
            Pending { boot, record, purpose: Purpose::Trial },
        ),
    }
}

/// What a store answered, without what was made of it.
pub open spec fn record_read<E>(classified: Result<(Disposition, BootStore), E>) -> Result<
    BootStore,
    E,
> {
    match classified {
        Ok(d) => Ok(d.1),
        Err(e) => Err(e),
    }
}

/// The record with the update request consumed.
pub open spec fn request_cleared(record: BootStore) -> BootStore {
    BootStore { mailbox: record.mailbox.with(crate::persist::REQUEST, false), ..record }
}

/// The record with the reject flag consumed.
pub open spec fn reject_cleared(record: BootStore) -> BootStore {
    BootStore { mailbox: record.mailbox.with(crate::persist::REJECT, false), ..record }
}

/// How a pending boot goes on once the verdict on the active slot is in.
pub open spec fn resumes<St: BootStorage>(
    pending: Pending,
    verdict: Result<(), VerifyError>,
    pre: St,
    post: St,
    settled: Settled,
) -> bool {
    let boot = pending.boot;
    let bank = boot@.first_bank;
    let vector_table = boot@.layout.boot_size;
    let failed = reverted(pending.record, bank, RevertReason::VerifyFailed);
    let has_fallback = pending.record.boot_state.spec_bank(boot@.inactive_bank())
        == BankState::Valid;
    match (verdict, pending.purpose) {
        (Ok(_), Purpose::Promote) => settles(
            pre,
            promoted(pending.record, bank),
            post,
            Departure::Jump { vector_table },
            boot,
            settled,
        ),
        (Ok(_), Purpose::SteadyBoot) => post == pre && settled == Settled::Leave(
            Departure::Jump { vector_table },
        ),
        (Ok(_), Purpose::Trial) => settles(
            pre,
            tried(pending.record),
            post,
            Departure::TrialJump {
                timeout: boot@.config.trial_timeout.spec_code(),
                vector_table,
            },
            boot,
            settled,
        ),
        (Err(_), Purpose::Trial) => settles(pre, failed, post, Departure::Swap, boot, settled),
        (Err(_), _) => if has_fallback {
            settles(pre, failed, post, Departure::Swap, boot, settled)
        } else {
            post == pre && settled == Settled::Download(boot)
        },
    }
}

/// How condemning the bank about to be overwritten may end: the store took
/// the record that says so, or refused it.
pub open spec fn condemns<St: BootStorage>(
    parts: Parts,
    record: BootStore,
    pre: St,
    post: St,
    r: Result<Condemned, St::WriteErr>,
) -> bool {
    let bank = parts.inactive_bank();
    let after = condemned(record, bank);
    match r {
        Ok(c) => c.spec_record() == after && c.spec_bank() == bank && St::writes(
            pre,
            after.sealed(),
            post,
            Ok(()),
        ),
        Err(e) => St::writes(pre, after.sealed(), post, Err(e)),
    }
}

/// How an install may end, given what became of the download.
pub open spec fn installs<S: SlotState, St: BootStorage>(
    boot: Boot<S>,
    before: BootStore,
    download: Result<Downloaded, DownloadError>,
    pre: St,
    post: St,
    r: Result<Departure, Aborted<InstallError<St::WriteErr>, Boot<S>>>,
) -> bool {
    match download {
        Err(DownloadError::Flash(e)) => post == pre && (r matches Err(a) && a.error
            == InstallError::<St::WriteErr>::Flash(e) && a.boot == boot),
        Err(DownloadError::Verify(e)) => post == pre && (r matches Err(a) && a.error
            == InstallError::<St::WriteErr>::Verify(e) && a.boot == boot),
        Ok(_) => {
            let record = installed(before, boot@.inactive_bank()).sealed();
            match r {
                Ok(d) => d == Departure::Swap && St::writes(pre, record, post, Ok(())),
                Err(a) => a.boot == boot && (a.error matches InstallError::Write(e) && St::writes(
                    pre,
                    record,
                    post,
                    Err(e),
                )),
            }
        },
    }
}

// ── Functions ───────────────────────────────────────────────────────────

/// Bytes the SmartEEPROM keeps clear in each bank.
fn see_reserve(sblk: u8) -> (reserve: usize)
    ensures
        reserve == reserve_of(sblk),
{
    2 * (sblk as usize) * 8192
}

impl SlotCheck {
    /// The ranges whose CRCs are to be run, in order.
    pub fn ranges(&self) -> (ranges: SlotRanges)
        ensures
            ranges == self.spec_ranges(),
    {
        self.ranges
    }

    /// Take the CRC of everything below the CRC fields.
    pub fn vec_table(self, crc: Result<u32, DsuError>) -> (r: Result<BodyCheck, VerifyError>)
        ensures
            self.checks_vec_table(crc, r),
    {
        match self.ranges.vec_table.judge(crc) {
            Ok(_) => Ok(BodyCheck { base: self.base, ranges: self.ranges }),
            Err(e) => Err(e),
        }
    }
}

impl BodyCheck {
    /// Take the CRC of everything behind the CRC fields.
    pub fn image(self, crc: Result<u32, DsuError>) -> (r: Result<Intact, VerifyError>)
        ensures
            self.checks_image(crc, r),
    {
        match self.ranges.image.judge(crc) {
            Ok(_) => Ok(Intact { base: self.base }),
            Err(e) => Err(e),
        }
    }
}

impl Intact {
    /// Where the slot begins.
    pub fn base(&self) -> (base: usize)
        ensures
            base == self.spec_base(),
    {
        self.base
    }
}

impl CrcRange {
    /// Judge this range by what the DSU made of it.
    fn judge(&self, crc: Result<u32, DsuError>) -> (r: Result<(), VerifyError>)
        ensures
            r == self.verdict(crc),
    {
        match crc {
            Ok(crc) => if crc != self.expected {
                Err(VerifyError::BadCrc)
            } else {
                Ok(())
            },
            Err(e) => Err(VerifyError::from(e)),
        }
    }
}

impl<S: SlotState> Boot<S> {
    /// The part can be booted from.
    pub open spec fn wf(self) -> bool {
        self@.wf()
    }

    /// Where the application starts in the slot at `base`.
    pub fn app_begin(&self, base: usize) -> (addr: usize)
        requires
            self.wf(),
            is_slot(self@, base),
        ensures
            addr == base + self@.layout.boot_size,
    {
        base + self.parts.layout.boot_size
    }

    /// Bytes an application may occupy, below the live SmartEEPROM reserve.
    pub fn app_region_len(&self) -> (len: usize)
        requires
            self.wf(),
        ensures
            len == self@.region_len(),
    {
        self.parts.layout.bank_size() - self.parts.layout.boot_size - see_reserve(
            self.parts.see_sblk,
        )
    }

    /// The writer for the inactive slot's app region, bounded below the
    /// slot's live SmartEEPROM reserve. The mirror BOOT below it is left
    /// alone.
    ///
    /// There is none before the slot's bank has been condemned, so not a
    /// block of it is erased before that.
    pub fn download_region(&self, condemned: &Condemned) -> (writer: FlashWriter)
        requires
            self.wf(),
            condemned.spec_bank() == self@.inactive_bank(),
        ensures
            condemned.spec_record().boot_state.spec_bank(self@.inactive_bank())
                == BankState::Invalid,
            writer.wf(),
            writer.begin == self@.layout.spec_bank_size() + self@.layout.boot_size,
            writer.end == writer.begin + self@.region_len(),
    {
        proof {
            use_type_invariant(condemned);
        }
        let begin: usize = self.app_begin(self.parts.layout.inactive_slot_addr());
        let end: usize = begin + self.app_region_len();
        proof {
            assert(self.parts.layout.boot_size as int % 8192 == 0);
            assert(self.parts.layout.spec_bank_size() % 8192 == 0);
        }
        FlashWriter::new(begin, end)
    }

    /// The operations that put an image (file order) into the inactive
    /// slot's app region, and whether it fits.
    ///
    /// Erases ahead block by block, so no separate erase pass is needed.
    /// What was written has to be read back through
    /// [`check_slot`](Self::check_slot) before [`downloaded`](Self::downloaded)
    /// calls it done.
    pub fn download(&self, condemned: &Condemned, source: &[u8]) -> (r: (
        Vec<FlashOp>,
        Result<(), FlashError>,
    ))
        requires
            self.wf(),
            condemned.spec_bank() == self@.inactive_bank(),
        ensures
            condemned.spec_record().boot_state.spec_bank(self@.inactive_bank())
                == BankState::Invalid,
            r.1 is Ok <==> crate::flash_writer::pages_of(
                crate::flash_writer::words_of(source@),
            ).len() * 512 <= self@.region_len(),
            r.1 matches Err(e) ==> e == FlashError::ImageTooLarge,
            exists|image: Seq<Page>|
                {
                    &&& #[trigger] crate::flash_writer::page_views(image)
                        == crate::flash_writer::pages_of(crate::flash_writer::words_of(source@))
                    &&& r.0@ == crate::flash_writer::ops_of(
                        self@.layout.spec_bank_size() + self@.layout.boot_size,
                        image,
                        if r.1 is Ok {
                            image.len()
                        } else {
                            (self@.region_len() / 512) as nat
                        },
                    )
                },
    {
        let words: Vec<u32> = words(source);
        let image: Vec<Page> = pages(words.as_slice());
        proof {
            assert(crate::flash_writer::page_views(image@).len() == image@.len());
        }
        self.download_region(condemned).write(image.as_slice())
    }

    /// Whether a download went well: every operation carried out, the slot
    /// read back and verified, and at least one byte delivered. A source
    /// that ends before it has delivered anything wrote nothing, so what the
    /// slot holds is not what was sent, however well it verifies.
    pub fn downloaded(
        &self,
        delivered: usize,
        flash: Result<(), FlashError>,
        check: Result<Intact, VerifyError>,
    ) -> (r: Result<Downloaded, DownloadError>)
        requires
            speaks_of(check, self@.layout.spec_bank_size()),
        ensures
            match (flash, check) {
                (Err(e), _) => r == Err::<Downloaded, DownloadError>(DownloadError::Flash(e)),
                (Ok(_), Ok(_)) => if delivered == 0 {
                    r == Err::<Downloaded, DownloadError>(
                        DownloadError::Verify(VerifyError::BadLen),
                    )
                } else {
                    r matches Ok(done) && done.spec_base() == self@.layout.spec_bank_size()
                },
                (Ok(_), Err(e)) => r == Err::<Downloaded, DownloadError>(
                    DownloadError::Verify(
                        if delivered == 0 {
                            VerifyError::BadLen
                        } else {
                            e
                        },
                    ),
                ),
            },
    {
        match flash {
            Err(e) => Err(DownloadError::Flash(e)),
            Ok(_) => if delivered == 0 {
                Err(DownloadError::Verify(VerifyError::BadLen))
            } else {
                match check {
                    Err(e) => Err(DownloadError::Verify(e)),
                    Ok(slot) => Ok(Downloaded { slot }),
                }
            },
        }
    }

    /// Swap which bank occupies each slot and reboot: the mirror BOOT runs
    /// from the other bank to boot the image there.
    ///
    /// The other bank must already hold a working image. Nothing here checks
    /// it, and the reset lands in whatever sits at its base.
    pub fn swap_reboot(self) -> (departure: Departure)
        ensures
            departure == Departure::Swap,
    {
        Departure::Swap
    }

    fn inactive_bank(&self) -> (bank: PhysicalBank)
        ensures
            bank == self@.inactive_bank(),
    {
        self.parts.first_bank.other()
    }

    /// Record the bank about to be overwritten as condemned.
    ///
    /// The first step of an install, before a byte is read or a block
    /// erased: until the new image has been verified the bank holds nothing
    /// that may be booted, and it must not be left recorded as if it did. A
    /// store that does not take the record stops the install with the bank
    /// intact.
    pub fn condemn<St: BootStorage>(&self, store: &mut St, record: BootStore) -> (r: Result<
        Condemned,
        St::WriteErr,
    >)
        ensures
            condemns(self@, record, *old(store), *final(store), r),
    {
        let bank: PhysicalBank = self.inactive_bank();
        proof {
            crate::persist::set_bank_reaches_one_bank_only(
                record.boot_state,
                bank,
                BankState::Invalid,
            );
        }
        let mut record: BootStore = record;
        record.boot_state.set_bank(&bank, BankState::Invalid);
        match store.write(record) {
            Ok(()) => Ok(Condemned { bank, record }),
            Err(e) => Err(e),
        }
    }

    /// Finish an install: given what became of the download, mark the image
    /// for a trial boot and swap the banks (which reboots).
    ///
    /// Clears the confirm and reject flags as it records the trial: both
    /// refer to the image being replaced, and carrying one over would let
    /// the outgoing image's confirmation promote the incoming one before it
    /// has served a trial at all. On failure the [`Boot`] comes back, and
    /// the target bank stays condemned.
    pub fn install<St: BootStorage>(
        self,
        store: &mut St,
        condemned: Condemned,
        download: Result<Downloaded, DownloadError>,
    ) -> (r: Result<Departure, Aborted<InstallError<St::WriteErr>, Boot<S>>>)
        requires
            condemned.spec_bank() == self@.inactive_bank(),
            download matches Ok(done) ==> done.spec_base() == self@.layout.spec_bank_size(),
        ensures
            installs(self, condemned.spec_record(), download, *old(store), *final(store), r),
    {
        if let Err(e) = download {
            return Err(Aborted { error: InstallError::from(e), boot: self });
        }
        let mut record: BootStore = condemned.record;
        record.boot_state.mark_new(&self.inactive_bank());
        record.boot_state.boot_count = 0;
        record.mailbox.set_confirmed(false);
        record.mailbox.set_rejected(false);
        match store.write(record) {
            Ok(()) => Ok(self.swap_reboot()),
            Err(e) => Err(Aborted { error: InstallError::Write(e), boot: self }),
        }
    }

    /// Hand over to the other bank because the active image did not verify,
    /// when that bank holds a confirmed image to hand over to. Otherwise, or
    /// when the store does not take the record, the [`Boot`] comes back for
    /// the caller to drop to download.
    pub fn fall_back<St: BootStorage>(
        self,
        store: &mut St,
        record: BootStore,
        reason: RevertReason,
    ) -> (r: Result<Departure, Boot<S>>)
        ensures
            if record.boot_state.spec_bank(self@.inactive_bank()) == BankState::Valid {
                match r {
                    Ok(d) => d == Departure::Swap && St::writes(
                        *old(store),
                        reverted(record, self@.first_bank, reason).sealed(),
                        *final(store),
                        Ok(()),
                    ),
                    Err(b) => b == self && exists|e: St::WriteErr| #[trigger]
                        St::writes(
                            *old(store),
                            reverted(record, self@.first_bank, reason).sealed(),
                            *final(store),
                            Err(e),
                        ),
                }
            } else {
                *final(store) == *old(store) && r == Err::<Departure, Boot<S>>(self)
            },
    {
        if record.boot_state.bank(&self.inactive_bank()) == BankState::Valid {
            return match self.revert(store, record, reason) {
                Ok(d) => Ok(d),
                Err(a) => Err(a.boot),
            };
        }
        Err(self)
    }

    /// Abandon the active slot's image: mark it `Invalid` with `reason`,
    /// then swap back to the other bank (which reboots). The [`Boot`] comes
    /// back only when the store does not take the record.
    pub fn revert<St: BootStorage>(
        self,
        store: &mut St,
        record: BootStore,
        reason: RevertReason,
    ) -> (r: Result<Departure, Aborted<St::WriteErr, Boot<S>>>)
        ensures
            match r {
                Ok(d) => d == Departure::Swap && St::writes(
                    *old(store),
                    reverted(record, self@.first_bank, reason).sealed(),
                    *final(store),
                    Ok(()),
                ),
                Err(a) => a.boot == self && St::writes(
                    *old(store),
                    reverted(record, self@.first_bank, reason).sealed(),
                    *final(store),
                    Err(a.error),
                ),
            },
    {
        let mut record: BootStore = record;
        record.boot_state.set_bank(&self.parts.first_bank, BankState::Invalid);
        record.boot_state.set_reason(reason);
        match store.write(record) {
            Ok(()) => Ok(self.swap_reboot()),
            Err(e) => Err(Aborted { error: e, boot: self }),
        }
    }

    /// Judge the slot at `base` by its manifest: either the first thing
    /// wrong with it, or the check that is still to be given the CRCs of its
    /// two ranges.
    ///
    /// Errata 2.7.1: the DSU CRC32 never completes while the NVM cache is
    /// disabled, so the cache has to be on before the first one.
    pub fn check_slot(&self, base: usize, manifest: &AppManifest) -> (r: Result<
        SlotCheck,
        VerifyError,
    >)
        requires
            self.wf(),
            is_slot(self@, base),
        ensures
            checks_manifest(self@, base, *manifest, r),
    {
        if manifest.body.magic != MAGIC {
            return Err(VerifyError::BadMagic);
        }
        // Image must contain at least the fields we expect. Extras are ignored.
        if manifest.body.fmt_version < FMT_VER {
            return Err(VerifyError::VersionMismatch);
        }
        let len: usize = manifest.body.image_len as usize;
        if len < MIN_IMAGE_LEN || len > self.app_region_len() || len % 4 != 0 {
            return Err(VerifyError::BadLen);
        }
        // Coverage splits around the two crc fields at the manifest head:
        // everything else in the image, the rest of the manifest included,
        // sits under one of the two CRCs.
        let begin: usize = self.app_begin(base);
        let ranges: SlotRanges = SlotRanges {
            vec_table: CrcRange {
                addr: begin as u32,
                len: MANIFEST_OFFSET as u32,
                expected: manifest.head.crc32_vec_table,
            },
            image: CrcRange {
                addr: (begin + OFF_BODY) as u32,
                len: (len - OFF_BODY) as u32,
                expected: manifest.head.crc32_image,
            },
        };
        Ok(SlotCheck { base, ranges })
    }

    /// The `RUNLOCK` value that locks the regions holding both copies of
    /// BOOT, given the current one.
    ///
    /// BOOTPROT covers only the BOOT at the base of the *active* bank, which
    /// leaves the mirror in the inactive bank writable. Idempotent and
    /// non-clobbering: only the BOOT bits are cleared, so locks the
    /// application set elsewhere survive.
    pub fn lock_boot_regions(&self, runlock: u32) -> (locked: u32)
        requires
            self.wf(),
        ensures
            locks_boot(self@.layout, runlock, locked),
    {
        let regions: u32 = self.parts.layout.boot_regions();
        let locked: u32 = runlock & !regions;
        assert forall|i: u32| i < 32 implies (#[trigger] crate::consts::geometry::selects(locked, i)
            <==> crate::consts::geometry::selects(runlock, i) && !crate::consts::geometry::selects(
            regions,
            i,
        )) by {
            assert((locked >> i) & 1 == 1 <==> (runlock >> i) & 1 == 1 && (regions >> i) & 1 != 1)
                by (bit_vector)
                requires
                    locked == runlock & !regions,
                    i < 32,
            ;
        }
        locked
    }

    /// Dissolve the bootloader.
    pub fn free(self) -> (parts: Parts)
        ensures
            parts == self@,
    {
        self.parts
    }
}

/// `locked` locks every region of BOOT and leaves every other region as
/// `runlock` has it.
pub open spec fn locks_boot(layout: Layout, runlock: u32, locked: u32) -> bool {
    exists|regions: u32|
        {
            &&& #[trigger] crate::consts::geometry::selects_boot_regions(
                regions,
                layout.density.spec_flash_size(),
                layout.boot_size as int,
            )
            &&& forall|i: u32|
                i < 32 ==> (#[trigger] crate::consts::geometry::selects(locked, i)
                    <==> crate::consts::geometry::selects(runlock, i)
                    && !crate::consts::geometry::selects(regions, i))
        }
}

impl Boot<Unverified> {
    /// Construct the bootloader, validating the fuse configuration it will
    /// boot under.
    ///
    /// Also hands back the `RUNLOCK` value that re-asserts the BOOT region
    /// locks. A part that will not take it is not refused: the image is
    /// intact either way, and BOOTPROT still covers the active copy.
    pub fn new(layout: Layout, live: LiveFuses, config: BootConfig) -> (r: Result<
        (Boot<Unverified>, u32),
        BootConfigError,
    >)
        requires
            layout.wf(),
        ensures
            match r {
                Err(e) => config_error(layout, live) == Some(e),
                Ok((boot, locked)) => {
                    &&& config_error(layout, live) is None
                    &&& boot.wf()
                    &&& boot@ == (Parts {
                        layout,
                        first_bank: live.first_bank,
                        see_sblk: live.see_sblk,
                        config,
                    })
                    &&& locks_boot(layout, live.runlock, locked)
                },
            },
    {
        if live.bootprot != layout.bootprot_value() {
            return Err(BootConfigError::BootprotMisconfigured);
        }
        if live.see_sblk > 10 {
            return Err(BootConfigError::SmartEEPROMReservedSblk);
        }
        if layout.boot_size + see_reserve(live.see_sblk) >= layout.bank_size() {
            return Err(BootConfigError::SmartEEPROMTooLarge);
        }
        let boot: Boot<Unverified> = Boot {
            parts: Parts {
                layout,
                first_bank: live.first_bank,
                see_sblk: live.see_sblk,
                config,
            },
            state: PhantomData,
        };
        let locked: u32 = boot.lock_boot_regions(live.runlock);
        Ok((boot, locked))
    }

    /// Read the stored boot record and classify what this boot should do,
    /// without acting on it.
    ///
    /// Hands back the record it read so the caller can act without reading
    /// it a second time. The checks run in this order and the first match
    /// wins: the inactive bank is `New`, an install that recorded its trial
    /// but never swapped; the rejected flag; the active bank is `New` and
    /// the confirmed flag (a confirm about an image that is not on trial is
    /// left alone); the update request; the active bank's own state.
    pub fn disposition<St: BootStorage>(&self, store: &mut St) -> (r: Result<
        (Disposition, BootStore),
        St::ReadErr,
    >)
        ensures
            match r {
                Ok((d, record)) => d == classify(self@, record)
                    && crate::persist::storage::read_gives(
                    *old(store),
                    *final(store),
                    Ok::<BootStore, St::ReadErr>(record),
                ),
                Err(e) => crate::persist::storage::read_gives(
                    *old(store),
                    *final(store),
                    Err::<BootStore, St::ReadErr>(e),
                ),
            },
    {
        let record: BootStore = match store.read() {
            Ok(record) => record,
            Err(e) => return Err(e),
        };
        let active: BankState = record.boot_state.bank(&self.parts.first_bank);
        let inactive: BankState = record.boot_state.bank(&self.inactive_bank());
        let disposition: Disposition = if inactive == BankState::New {
            Disposition::ResumeInstall
        } else if record.mailbox.rejected() {
            Disposition::Reject
        } else if active == BankState::New && record.mailbox.confirmed() {
            Disposition::Promote
        } else if record.mailbox.request_update() {
            Disposition::UpdateRequested
        } else {
            match active {
                BankState::New => {
                    let attempt: u8 = record.boot_state.boot_count.saturating_add(1);
                    if record.boot_state.boot_count >= self.parts.config.max_boot_attempts {
                        Disposition::TrialExhausted { attempt }
                    } else {
                        Disposition::Trial { attempt }
                    }
                },
                BankState::Valid | BankState::Empty => Disposition::SteadyBoot,
                BankState::Invalid => if inactive == BankState::Valid {
                    Disposition::Rollback
                } else {
                    Disposition::NoImage
                },
            }
        };
        Ok((disposition, record))
    }

    /// Default handling of [`Boot::disposition`]: boot the image, or swap
    /// banks and reboot, on every bootable outcome.
    ///
    /// An outcome that first needs the active slot verified comes back as
    /// [`Outcome::Verify`], for [`Pending::resume`] to go on with.
    ///
    /// Ends in download mode in three cases: the application asked for an
    /// update, nothing on the part is known to boot, or a store write
    /// failed, which leaves no way to record the promotion, trial or revert
    /// this boot called for. A store that cannot be *read* is not one of
    /// them: the record is taken to be the fresh default and the boot
    /// proceeds as [`Disposition::SteadyBoot`], so the active image is still
    /// verified before the jump.
    pub fn boot_or_enter_download<St: BootStorage>(self, store: &mut St) -> (outcome: Outcome)
        ensures
            exists|mid: St, read: Result<BootStore, St::ReadErr>|
                #[trigger] crate::persist::storage::read_gives(*old(store), mid, read) && decides(
                    self,
                    read,
                    mid,
                    *final(store),
                    outcome,
                ),
    {
        let classified: Result<(Disposition, BootStore), St::ReadErr> = self.disposition(store);
        let ghost read = record_read(classified);
        let ghost mid = *store;
        assert(crate::persist::storage::read_gives(*old(store), mid, read));
        let (disposition, record) = match classified {
            Ok((disposition, record)) => (disposition, record),
            Err(_) => (Disposition::SteadyBoot, BootStore::default()),
        };
        let boot: Boot<Unverified> = self;
        let outcome: Outcome = match disposition {
            Disposition::UpdateRequested => {
                let ghost asked = record;
                let mut record: BootStore = record;
                record.mailbox.set_request_update(false);
                let written: Result<(), St::WriteErr> = store.write(record);
                assert(written matches Ok(done) ==> done == ());
                assert(St::writes(mid, request_cleared(asked).sealed(), *store, written));
                assert(attempts(mid, request_cleared(asked), *store));
                Outcome::Settled(Settled::Download(boot))
            },
            Disposition::ResumeInstall | Disposition::Rollback => Outcome::Settled(
                Settled::Leave(boot.swap_reboot()),
            ),
            Disposition::NoImage => Outcome::Settled(Settled::Download(boot)),
            Disposition::Reject => {
                // Clear the flag before reverting: an uncleared reject would
                // condemn the bank we swap into as well.
                let mut record: BootStore = record;
                record.mailbox.set_rejected(false);
                Outcome::Settled(
                    match boot.revert(store, record, RevertReason::AppRejected) {
                        Ok(d) => Settled::Leave(d),
                        Err(a) => Settled::Download(a.boot),
                    },
                )
            },
            Disposition::TrialExhausted { .. } => Outcome::Settled(
                match boot.revert(store, record, RevertReason::AttemptsExhausted) {
                    Ok(d) => Settled::Leave(d),
                    Err(a) => Settled::Download(a.boot),
                },
            ),
            Disposition::Promote => Outcome::Verify(
                Pending { boot, record, purpose: Purpose::Promote },
            ),
            Disposition::SteadyBoot => Outcome::Verify(
                Pending { boot, record, purpose: Purpose::SteadyBoot },
            ),
            Disposition::Trial { .. } => Outcome::Verify(
                Pending { boot, record, purpose: Purpose::Trial },
            ),
        };
        assert(decides(self, read, mid, *store, outcome));
        outcome
    }

    /// Take the verdict on the active slot, unlocking boot if it passed.
    pub fn verify(self, check: Result<Intact, VerifyError>) -> (r: Result<
        Boot<Verified>,
        Aborted<VerifyError, Boot<Unverified>>,
    >)
        requires
            speaks_of(check, ACTIVE_SLOT_ADDR as int),
        ensures
            match check {
                Ok(_) => r matches Ok(b) && b@ == self@,
                Err(e) => r matches Err(a) && a.error == e && a.boot == self,
            },
    {
        match check {
            Ok(_) => Ok(Boot { parts: self.parts, state: PhantomData }),
            Err(e) => Err(Aborted { error: e, boot: self }),
        }
    }
}

impl Pending {
    /// Go on with a boot once the verdict on the active slot is in.
    pub fn resume<St: BootStorage>(self, store: &mut St, verdict: Result<Intact, VerifyError>) -> (
    settled: Settled)
        requires
            speaks_of(verdict, ACTIVE_SLOT_ADDR as int),
        ensures
            resumes(self, verdict_of(verdict), *old(store), *final(store), settled),
    {
        let pending: Pending = self;
        let record: BootStore = pending.record;
        match pending.purpose {
            // Verified before the promotion is recorded, so an image that
            // cannot be booted is never written down as good.
            Purpose::Promote => match pending.boot.verify(verdict) {
                Ok(verified) => {
                    let mut record: BootStore = record;
                    record.boot_state.set_bank(&verified.parts.first_bank, BankState::Valid);
                    record.boot_state.boot_count = 0;
                    // A trial that succeeded supersedes whatever rollback
                    // came before it, so the reason has served its purpose.
                    record.boot_state.set_reason(RevertReason::NoRevert);
                    record.mailbox.set_confirmed(false);
                    match verified.boot_recorded(store, record) {
                        Ok(d) => Settled::Leave(d),
                        Err(a) => Settled::Download(a.boot.denounce()),
                    }
                },
                Err(a) => match a.boot.fall_back(store, record, RevertReason::VerifyFailed) {
                    Ok(d) => Settled::Leave(d),
                    Err(boot) => Settled::Download(boot),
                },
            },
            Purpose::SteadyBoot => match pending.boot.verify(verdict) {
                Ok(verified) => Settled::Leave(verified.boot_active()),
                Err(a) => match a.boot.fall_back(store, record, RevertReason::VerifyFailed) {
                    Ok(d) => Settled::Leave(d),
                    Err(boot) => Settled::Download(boot),
                },
            },
            Purpose::Trial => match pending.boot.verify(verdict) {
                // Dropping to download is the terminal state for a store
                // that cannot be written: swapping away instead would leave
                // this bank inactive and still `New`, which the next boot
                // reads as an interrupted install and swaps back.
                Ok(verified) => match verified.boot_trial(store, record) {
                    Ok(d) => Settled::Leave(d),
                    Err(a) => Settled::Download(a.boot.denounce()),
                },
                // Condemn rather than fall back: with nothing bootable in
                // the other bank `fall_back` hands the boot back, leaving
                // this bank `New` with its count unmoved (only `boot_trial`
                // advances it), so every later reset re-runs the same
                // failing trial.
                Err(a) => match a.boot.revert(store, record, RevertReason::VerifyFailed) {
                    Ok(d) => Settled::Leave(d),
                    Err(a) => Settled::Download(a.boot),
                },
            },
        }
    }
}

impl Boot<Verified> {
    /// Commit `record`, then jump. The [`Boot`] comes back only if the write
    /// failed, with the proof intact so the caller can discard it: booting
    /// an image whose bookkeeping was lost leaves a trial that can never
    /// resolve, and dropping to download is what the bootloader has a
    /// transport for.
    pub fn boot_recorded<St: BootStorage>(self, store: &mut St, record: BootStore) -> (r: Result<
        Departure,
        Aborted<St::WriteErr, Boot<Verified>>,
    >)
        ensures
            match r {
                Ok(d) => d == (Departure::Jump { vector_table: self@.layout.boot_size })
                    && St::writes(*old(store), record.sealed(), *final(store), Ok(())),
                Err(a) => a.boot == self && St::writes(
                    *old(store),
                    record.sealed(),
                    *final(store),
                    Err(a.error),
                ),
            },
    {
        match store.write(record) {
            Ok(()) => Ok(self.boot_active()),
            Err(e) => Err(Aborted { error: e, boot: self }),
        }
    }

    /// Count this trial boot, arm the trial watchdog, then jump.
    ///
    /// Increments the boot count and commits `record` before the watchdog is
    /// started at [`BootConfig::trial_timeout`], so a crash loop is counted
    /// even when the image never reaches its own code. An image that does
    /// not take the watchdog over is reset until
    /// [`BootConfig::max_boot_attempts`] is spent, at which point
    /// [`Boot::disposition`] answers [`Disposition::TrialExhausted`].
    pub fn boot_trial<St: BootStorage>(self, store: &mut St, record: BootStore) -> (r: Result<
        Departure,
        Aborted<St::WriteErr, Boot<Verified>>,
    >)
        ensures
            match r {
                Ok(d) => d == (Departure::TrialJump {
                    timeout: self@.config.trial_timeout.spec_code(),
                    vector_table: self@.layout.boot_size,
                }) && St::writes(*old(store), tried(record).sealed(), *final(store), Ok(())),
                Err(a) => a.boot == self && St::writes(
                    *old(store),
                    tried(record).sealed(),
                    *final(store),
                    Err(a.error),
                ),
            },
    {
        let mut record: BootStore = record;
        record.boot_state.boot_count = record.boot_state.boot_count.saturating_add(1);
        match store.write(record) {
            Ok(()) => {
                let timeout: u8 = self.parts.config.trial_timeout.code();
                Ok(Departure::TrialJump { timeout, vector_table: self.vector_table() })
            },
            Err(e) => Err(Aborted { error: e, boot: self }),
        }
    }

    /// Drop the verified proof, for a caller that decides against booting
    /// after `verify` (for instance because its own check failed).
    pub fn denounce(self) -> (boot: Boot<Unverified>)
        ensures
            boot@ == self@,
    {
        Boot { parts: self.parts, state: PhantomData }
    }

    fn vector_table(&self) -> (addr: usize)
        ensures
            addr == self@.layout.boot_size,
    {
        ACTIVE_SLOT_ADDR + self.parts.layout.boot_size
    }

    /// Jump to the program.
    pub fn boot_active(self) -> (departure: Departure)
        ensures
            departure == (Departure::Jump { vector_table: self@.layout.boot_size }),
    {
        Departure::Jump { vector_table: self.vector_table() }
    }
}

} // verus!
