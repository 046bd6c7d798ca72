//! Boot decisions, downloads and trials, driven against a part held in
//! memory.

use samd5_boot::boot::{
    Aborted, Boot, BootConfig, BootConfigError, CrcRange, Departure, Disposition, DownloadError,
    DsuError, InstallError, Intact, LiveFuses, Outcome, Purpose, Settled, Unverified, VerifyError,
    WatchdogTimeout,
};
use samd5_boot::consts::{Density, Layout, MANIFEST_OFFSET};
use samd5_boot::crc32::crc32;
use samd5_boot::flash_writer::{FlashError, FlashOp, FlashWriter, NvmError, Stream};
use samd5_boot::manifest::{stamp, AppManifest, MANIFEST_SIZE};
use samd5_boot::persist::{BankState, BootStorage, BootStore, NoStore, PhysicalBank, RevertReason};

struct Store {
    held: BootStore,
    readable: bool,
    writable: bool,
}

impl BootStorage for Store {
    type ReadErr = ();
    type WriteErr = ();

    fn read_raw(&mut self) -> Result<BootStore, ()> {
        if self.readable { Ok(self.held) } else { Err(()) }
    }

    fn write_raw(&mut self, val: BootStore) -> Result<(), ()> {
        if !self.writable {
            return Err(());
        }
        self.held = val;
        Ok(())
    }
}

fn store(record: BootStore) -> Store {
    let mut s = Store { held: record, readable: true, writable: true };
    s.write(record).unwrap();
    s
}

const BOOT_SIZE: usize = 0x8000;

fn layout() -> Layout {
    Layout::new(Density::D20, BOOT_SIZE).unwrap()
}

fn fuses(first_bank: PhysicalBank) -> LiveFuses {
    LiveFuses { bootprot: 11, see_sblk: 0, first_bank, runlock: 0xFFFF_FFFF }
}

fn config() -> BootConfig {
    BootConfig { max_boot_attempts: 3, trial_timeout: WatchdogTimeout::Cycles16K }
}

fn boot(first_bank: PhysicalBank) -> Boot<Unverified> {
    Boot::new(layout(), fuses(first_bank), config()).unwrap_or_else(|_| panic!()).0
}

/// A slot that passed both CRCs.
fn intact(base: usize) -> Result<Intact, VerifyError> {
    let image = image(1);
    let m = AppManifest::from_bytes(&image[MANIFEST_OFFSET..MANIFEST_OFFSET + MANIFEST_SIZE]);
    let check = boot(PhysicalBank::A).check_slot(base, &m)?;
    let ranges = check.ranges();
    let slot = check.vec_table(Ok(ranges.vec_table.expected))?.image(Ok(ranges.image.expected))?;
    assert_eq!(slot.base(), base);
    Ok(slot)
}

fn active() -> Result<Intact, VerifyError> {
    intact(0)
}

fn record(a: BankState, b: BankState) -> BootStore {
    let mut r = BootStore::default();
    r.boot_state.set_bank(&PhysicalBank::A, a);
    r.boot_state.set_bank(&PhysicalBank::B, b);
    r
}

fn disposition(r: BootStore) -> Disposition {
    boot(PhysicalBank::A).disposition(&mut store(r)).unwrap().0
}

#[test]
fn fuses_are_validated() {
    let err = |live| Boot::new(layout(), live, config()).err();
    let good = fuses(PhysicalBank::A);
    assert_eq!(
        err(LiveFuses { bootprot: 15, ..good }),
        Some(BootConfigError::BootprotMisconfigured)
    );
    assert_eq!(
        err(LiveFuses { see_sblk: 11, ..good }),
        Some(BootConfigError::SmartEEPROMReservedSblk)
    );
    let small = Layout::new(Density::D18, BOOT_SIZE).unwrap();
    assert_eq!(
        Boot::new(small, LiveFuses { see_sblk: 6, ..good }, config()).err(),
        Some(BootConfigError::SmartEEPROMTooLarge)
    );
    assert!(err(good).is_none());
}

#[test]
fn new_locks_both_copies_of_boot() {
    let (_, lock) = Boot::new(layout(), fuses(PhysicalBank::A), config()).unwrap_or_else(|_| panic!());
    assert_eq!(lock, 0xFFFE_FFFE);
    assert_eq!(boot(PhysicalBank::A).lock_boot_regions(0x0F0F_0F0F), 0x0F0E_0F0E);
}

#[test]
fn the_record_decides() {
    assert_eq!(disposition(BootStore::default()), Disposition::SteadyBoot);
    assert_eq!(disposition(record(BankState::Valid, BankState::Empty)), Disposition::SteadyBoot);
    assert_eq!(disposition(record(BankState::New, BankState::Valid)), Disposition::Trial { attempt: 1 });
    assert_eq!(disposition(record(BankState::Valid, BankState::New)), Disposition::ResumeInstall);
    assert_eq!(disposition(record(BankState::Invalid, BankState::Valid)), Disposition::Rollback);
    assert_eq!(disposition(record(BankState::Invalid, BankState::Empty)), Disposition::NoImage);
    let mut r = record(BankState::New, BankState::Valid);
    r.boot_state.boot_count = 2;
    assert_eq!(disposition(r), Disposition::Trial { attempt: 3 });
    r.boot_state.boot_count = 3;
    assert_eq!(disposition(r), Disposition::TrialExhausted { attempt: 4 });
    r.mailbox.set_request_update(true);
    assert_eq!(disposition(r), Disposition::UpdateRequested);
    r.mailbox.set_confirmed(true);
    assert_eq!(disposition(r), Disposition::Promote);
    r.mailbox.set_rejected(true);
    assert_eq!(disposition(r), Disposition::Reject);
    r.boot_state.set_bank(&PhysicalBank::B, BankState::New);
    assert_eq!(disposition(r), Disposition::ResumeInstall);
}

#[test]
fn a_steady_boot_jumps_only_once_verified() {
    let mut s = store(record(BankState::Valid, BankState::Empty));
    let Outcome::Verify(pending) = boot(PhysicalBank::A).boot_or_enter_download(&mut s) else {
        panic!("the slot has to be verified first");
    };
    assert_eq!(pending.purpose, Purpose::SteadyBoot);
    let settled = pending.resume(&mut s, active());
    assert!(matches!(settled, Settled::Leave(Departure::Jump { vector_table: BOOT_SIZE })));
}

#[test]
fn an_image_that_fails_verification_is_abandoned_for_a_confirmed_one() {
    let mut s = store(record(BankState::Valid, BankState::Valid));
    let Outcome::Verify(pending) = boot(PhysicalBank::A).boot_or_enter_download(&mut s) else {
        panic!();
    };
    let settled = pending.resume(&mut s, Err(VerifyError::BadCrc));
    assert!(matches!(settled, Settled::Leave(Departure::Swap)));
    assert_eq!(s.held.boot_state.bank(&PhysicalBank::A), BankState::Invalid);
    assert_eq!(s.held.boot_state.reason(), Some(RevertReason::VerifyFailed));
}

#[test]
fn with_nothing_to_fall_back_on_it_waits_for_an_image() {
    let mut s = store(record(BankState::Valid, BankState::Empty));
    let Outcome::Verify(pending) = boot(PhysicalBank::A).boot_or_enter_download(&mut s) else {
        panic!();
    };
    assert!(matches!(
        pending.resume(&mut s, Err(VerifyError::Dsu(DsuError::Bus))),
        Settled::Download(_)
    ));
}

#[test]
fn a_trial_is_counted_and_watched() {
    let mut s = store(record(BankState::New, BankState::Valid));
    for attempt in 1..=3u8 {
        let Outcome::Verify(pending) = boot(PhysicalBank::A).boot_or_enter_download(&mut s) else {
            panic!();
        };
        assert_eq!(pending.purpose, Purpose::Trial);
        assert!(matches!(
            pending.resume(&mut s, active()),
            Settled::Leave(Departure::TrialJump { timeout: 11, vector_table: BOOT_SIZE })
        ));
        assert_eq!(s.held.boot_state.boot_count, attempt);
    }
    // The budget is spent: roll back to the image before it.
    assert!(matches!(
        boot(PhysicalBank::A).boot_or_enter_download(&mut s),
        Outcome::Settled(Settled::Leave(Departure::Swap))
    ));
    assert_eq!(s.held.boot_state.reason(), Some(RevertReason::AttemptsExhausted));
    let (d, _) = boot(PhysicalBank::B).disposition(&mut s).unwrap();
    assert_eq!(d, Disposition::SteadyBoot);
}

/// The largest budget there is, spent one trial at a time.
#[test]
fn a_budget_of_255_is_spent_too() {
    let most = || BootConfig { max_boot_attempts: 255, ..config() };
    let boot = || Boot::new(layout(), fuses(PhysicalBank::A), most()).unwrap_or_else(|_| panic!()).0;
    let mut s = store(record(BankState::New, BankState::Valid));
    for attempt in 1..=255u8 {
        let (d, _) = boot().disposition(&mut s).unwrap();
        assert_eq!(d, Disposition::Trial { attempt });
        let Outcome::Verify(pending) = boot().boot_or_enter_download(&mut s) else { panic!() };
        assert!(matches!(
            pending.resume(&mut s, active()),
            Settled::Leave(Departure::TrialJump { .. })
        ));
        assert_eq!(s.held.boot_state.boot_count, attempt);
    }
    let (d, _) = boot().disposition(&mut s).unwrap();
    assert_eq!(d, Disposition::TrialExhausted { attempt: 255 });
    assert!(matches!(
        boot().boot_or_enter_download(&mut s),
        Outcome::Settled(Settled::Leave(Departure::Swap))
    ));
    assert_eq!(s.held.boot_state.bank(&PhysicalBank::A), BankState::Invalid);
    assert_eq!(s.held.boot_state.reason(), Some(RevertReason::AttemptsExhausted));
}

/// No attempts at all: a new image is reverted without being tried.
#[test]
fn a_budget_of_nothing_tries_nothing() {
    let none = BootConfig { max_boot_attempts: 0, ..config() };
    let b = Boot::new(layout(), fuses(PhysicalBank::A), none).unwrap_or_else(|_| panic!()).0;
    let mut s = store(record(BankState::New, BankState::Valid));
    let (d, _) = b.disposition(&mut s).unwrap();
    assert_eq!(d, Disposition::TrialExhausted { attempt: 1 });
}

#[test]
fn a_trial_that_cannot_be_counted_is_not_booted() {
    let mut s = store(record(BankState::New, BankState::Valid));
    s.writable = false;
    let Outcome::Verify(pending) = boot(PhysicalBank::A).boot_or_enter_download(&mut s) else {
        panic!();
    };
    assert!(matches!(pending.resume(&mut s, active()), Settled::Download(_)));
}

#[test]
fn a_confirmed_trial_is_promoted() {
    let mut r = record(BankState::New, BankState::Valid);
    r.boot_state.boot_count = 2;
    r.boot_state.set_reason(RevertReason::AppRejected);
    r.mailbox.set_confirmed(true);
    let mut s = store(r);
    let Outcome::Verify(pending) = boot(PhysicalBank::A).boot_or_enter_download(&mut s) else {
        panic!();
    };
    assert!(matches!(
        pending.resume(&mut s, active()),
        Settled::Leave(Departure::Jump { vector_table: BOOT_SIZE })
    ));
    assert_eq!(s.held.boot_state.bank(&PhysicalBank::A), BankState::Valid);
    assert_eq!(s.held.boot_state.boot_count, 0);
    assert_eq!(s.held.boot_state.reason(), Some(RevertReason::NoRevert));
    assert!(!s.held.mailbox.confirmed());
}

#[test]
fn flags_are_consumed_once() {
    let mut r = record(BankState::Valid, BankState::Valid);
    r.mailbox.set_request_update(true);
    let mut s = store(r);
    assert!(matches!(
        boot(PhysicalBank::A).boot_or_enter_download(&mut s),
        Outcome::Settled(Settled::Download(_))
    ));
    assert!(!s.held.mailbox.request_update());

    r.mailbox.set_request_update(false);
    r.mailbox.set_rejected(true);
    let mut s = store(r);
    assert!(matches!(
        boot(PhysicalBank::A).boot_or_enter_download(&mut s),
        Outcome::Settled(Settled::Leave(Departure::Swap))
    ));
    assert!(!s.held.mailbox.rejected());
    assert_eq!(s.held.boot_state.reason(), Some(RevertReason::AppRejected));
    let (d, _) = boot(PhysicalBank::B).disposition(&mut s).unwrap();
    assert_eq!(d, Disposition::SteadyBoot);
}

#[test]
fn an_unreadable_store_boots_what_verifies() {
    let mut s = store(record(BankState::Invalid, BankState::Invalid));
    s.readable = false;
    assert!(boot(PhysicalBank::A).disposition(&mut s).is_err());
    let Outcome::Verify(pending) = boot(PhysicalBank::A).boot_or_enter_download(&mut s) else {
        panic!();
    };
    assert!(matches!(pending.resume(&mut s, active()), Settled::Leave(Departure::Jump { .. })));
    assert!(matches!(
        boot(PhysicalBank::A).boot_or_enter_download(&mut NoStore),
        Outcome::Verify(_)
    ));
}

/// Flash, with the operations of a download carried out on it.
fn program(flash: &mut [u8], ops: &[FlashOp]) {
    for op in ops {
        match op {
            FlashOp::EraseBlock { addr } => flash[*addr..addr + 8192].fill(0xFF),
            FlashOp::WritePage { addr, page } => {
                for (i, w) in page.iter().enumerate() {
                    flash[addr + 4 * i..addr + 4 * i + 4].copy_from_slice(&w.to_le_bytes());
                }
            }
        }
    }
}

/// The verdict on a slot, with the CRCs computed from flash.
fn check(boot: &Boot<Unverified>, flash: &[u8], base: usize) -> Result<Intact, VerifyError> {
    let at = boot.app_begin(base) + MANIFEST_OFFSET;
    let manifest = AppManifest::from_bytes(&flash[at..at + MANIFEST_SIZE]);
    let slot = boot.check_slot(base, &manifest)?;
    let ranges = slot.ranges();
    let dsu = |r: &CrcRange| Ok(crc32(&flash[r.addr as usize..(r.addr + r.len) as usize]));
    slot.vec_table(dsu(&ranges.vec_table))?.image(dsu(&ranges.image))
}

fn image(version: u16) -> Vec<u8> {
    let mut image: Vec<u8> = (0..20_000usize).map(|i| (i * 13) as u8).collect();
    stamp(&mut image, version).unwrap();
    image
}

#[test]
fn an_image_goes_in_and_boots_on_trial() {
    let mut flash = vec![0x55u8; 1024 * 1024];
    let mut s = store(record(BankState::Valid, BankState::Valid));
    let image = image(1);
    let b = boot(PhysicalBank::A);
    let slot = layout().inactive_slot_addr();

    let held = s.held;
    let condemned = b.condemn(&mut s, held).unwrap_or_else(|_| panic!());
    assert_eq!(s.held.boot_state.bank(&PhysicalBank::B), BankState::Invalid);
    let (ops, fit) = b.download(&condemned, &image);
    assert_eq!(fit, Ok(()));
    program(&mut flash, &ops);
    assert_eq!(&flash[slot + BOOT_SIZE..slot + BOOT_SIZE + image.len()], &image[..]);
    // BOOT's mirror below, and the active bank, are untouched.
    assert!(flash[..slot + BOOT_SIZE].iter().all(|&x| x == 0x55));
    let verdict = check(&b, &flash, slot);
    assert!(verdict.is_ok());
    let done = b.downloaded(image.len(), fit, verdict);
    assert!(done.is_ok());
    let Ok(departure) = b.install(&mut s, condemned, done) else { panic!() };
    assert_eq!(departure, Departure::Swap);
    let (d, _) = boot(PhysicalBank::B).disposition(&mut s).unwrap();
    assert_eq!(d, Disposition::Trial { attempt: 1 });
    // Before the swap happens, the same record finishes the install.
    let (d, _) = boot(PhysicalBank::A).disposition(&mut s).unwrap();
    assert_eq!(d, Disposition::ResumeInstall);
}

#[test]
fn a_download_that_delivers_nothing_is_refused() {
    // The target bank still holds a whole, good image.
    let mut flash = vec![0xFFu8; 1024 * 1024];
    let stale = image(9);
    let slot = layout().inactive_slot_addr();
    flash[slot + BOOT_SIZE..slot + BOOT_SIZE + stale.len()].copy_from_slice(&stale);
    let mut s = store(record(BankState::Valid, BankState::Valid));
    let b = boot(PhysicalBank::A);
    let held = s.held;
    let condemned = b.condemn(&mut s, held).unwrap_or_else(|_| panic!());
    let (ops, fit) = b.download(&condemned, &[]);
    assert!(ops.is_empty());
    assert!(check(&b, &flash, slot).is_ok());
    let done = b.downloaded(0, fit, check(&b, &flash, slot));
    assert!(matches!(done, Err(DownloadError::Verify(VerifyError::BadLen))));
    let Err(Aborted { error, boot: b }) = b.install(&mut s, condemned, done) else { panic!() };
    assert_eq!(error, InstallError::Verify(VerifyError::BadLen));
    // The running image still boots; the target is not something to fall
    // back to.
    assert_eq!(b.disposition(&mut s).unwrap().0, Disposition::SteadyBoot);
    assert_eq!(s.held.boot_state.bank(&PhysicalBank::B), BankState::Invalid);
}

#[test]
fn install_errors_say_what_failed() {
    let b = boot(PhysicalBank::A);
    let mut s = store(BootStore::default());
    let held = s.held;
    let c = b.condemn(&mut s, held).unwrap_or_else(|_| panic!());
    let slot = layout().inactive_slot_addr();
    let too_large = b.downloaded(1, Err(FlashError::ImageTooLarge), intact(slot));
    assert!(matches!(too_large, Err(DownloadError::Flash(FlashError::ImageTooLarge))));
    let Err(aborted) = b.install(&mut s, c, too_large) else { panic!() };
    assert_eq!(aborted.error, InstallError::Flash(FlashError::ImageTooLarge));

    let b = aborted.boot;
    let held = s.held;
    let c = b.condemn(&mut s, held).unwrap_or_else(|_| panic!());
    assert_eq!(c.record().boot_state.bank(&PhysicalBank::B), BankState::Invalid);
    s.writable = false;
    let done = b.downloaded(1, Ok(()), intact(slot));
    let Err(aborted) = b.install(&mut s, c, done) else { panic!() };
    assert_eq!(aborted.error, InstallError::Write(()));
    let held = s.held;
    assert!(aborted.boot.condemn(&mut s, held).is_err());
    assert_eq!(FlashError::from(NvmError::Protected), FlashError::Nvm(NvmError::Protected));
}

#[test]
fn an_image_that_does_not_fit_is_too_large() {
    let b = boot(PhysicalBank::A);
    assert_eq!(b.app_region_len(), 512 * 1024 - BOOT_SIZE);
    let mut s = store(BootStore::default());
    let condemned = b.condemn(&mut s, BootStore::default()).unwrap_or_else(|_| panic!());
    let (_, fit) = b.download(&condemned, &vec![0; b.app_region_len()]);
    assert_eq!(fit, Ok(()));
    let (ops, fit) = b.download(&condemned, &vec![0; b.app_region_len() + 1]);
    assert_eq!(fit, Err(FlashError::ImageTooLarge));
    assert_eq!(ops.len(), 960 + 60);
}

#[test]
fn what_is_wrong_with_a_slot_is_named() {
    let b = boot(PhysicalBank::A);
    let good = image(1);
    let m = AppManifest::from_bytes(&good[MANIFEST_OFFSET..MANIFEST_OFFSET + MANIFEST_SIZE]);
    let verdict = |m: AppManifest| b.check_slot(0, &m).err();
    assert_eq!(verdict(m), None);
    let mut x = m;
    x.body.magic = 0;
    assert_eq!(verdict(x), Some(VerifyError::BadMagic));
    let mut x = m;
    x.body.fmt_version = 0;
    assert_eq!(verdict(x), Some(VerifyError::VersionMismatch));
    for len in [0u32, 0x45C, 0x462, 512 * 1024] {
        let mut x = m;
        x.body.image_len = len;
        assert_eq!(verdict(x), Some(VerifyError::BadLen));
    }
    let fresh = || b.check_slot(0, &m).unwrap_or_else(|_| panic!());
    let ranges = fresh().ranges();
    assert_eq!((ranges.vec_table.addr, ranges.vec_table.len), (0x8000, 0x400));
    assert_eq!((ranges.image.addr, ranges.image.len), (0x8408, 20_000 - 0x408));
    let (vec_table, body) = (ranges.vec_table.expected, ranges.image.expected);
    assert_eq!(fresh().vec_table(Ok(!vec_table)).err(), Some(VerifyError::BadCrc));
    assert_eq!(
        fresh().vec_table(Err(DsuError::CrcFailed)).err(),
        Some(VerifyError::Dsu(DsuError::CrcFailed))
    );
    let half = || fresh().vec_table(Ok(vec_table)).unwrap_or_else(|_| panic!());
    assert_eq!(half().image(Ok(!body)).err(), Some(VerifyError::BadCrc));
    assert_eq!(
        half().image(Err(DsuError::Alignment)).err(),
        Some(VerifyError::Dsu(DsuError::Alignment))
    );
    assert!(half().image(Ok(body)).is_ok());
    assert_eq!(VerifyError::from(DsuError::Bus), VerifyError::Dsu(DsuError::Bus));
}

#[test]
fn damage_anywhere_in_a_slot_is_refused() {
    let b = boot(PhysicalBank::A);
    let mut flash = vec![0xFFu8; 1024 * 1024];
    let good = image(1);
    flash[BOOT_SIZE..BOOT_SIZE + good.len()].copy_from_slice(&good);
    assert!(check(&b, &flash, 0).is_ok());
    for at in [0usize, 0x3FF, 0x408, 0x418, 0x45F, 0x460, good.len() - 1] {
        flash[BOOT_SIZE + at] ^= 1;
        assert!(check(&b, &flash, 0).is_err());
        flash[BOOT_SIZE + at] ^= 1;
    }
}

#[test]
fn a_policy_of_ones_own_can_take_each_step() {
    let mut s = store(record(BankState::New, BankState::Valid));
    let b = boot(PhysicalBank::A);
    let (d, r) = b.disposition(&mut s).unwrap();
    assert_eq!(d, Disposition::Trial { attempt: 1 });
    let Err(Aborted { error, boot: b }) = b.verify(Err(VerifyError::BadCrc)) else { panic!() };
    assert_eq!(error, VerifyError::BadCrc);
    let Ok(v) = b.verify(active()) else { panic!() };
    let Ok(departure) = v.boot_trial(&mut s, r) else { panic!() };
    assert_eq!(departure, Departure::TrialJump { timeout: 11, vector_table: BOOT_SIZE });

    let Ok(v) = boot(PhysicalBank::A).verify(active()) else { panic!() };
    let b = v.denounce();
    let held = s.held;
    let Ok(departure) = b.revert(&mut s, held, RevertReason::VerifyFailed) else { panic!() };
    assert_eq!(departure, Departure::Swap);
    assert_eq!(s.held.boot_state.bank(&PhysicalBank::A), BankState::Invalid);

    // With no confirmed image in the other bank there is nowhere to go.
    let mut s = store(record(BankState::Valid, BankState::Empty));
    let held = s.held;
    assert!(boot(PhysicalBank::A).fall_back(&mut s, held, RevertReason::VerifyFailed).is_err());

    let Ok(v) = boot(PhysicalBank::A).verify(active()) else { panic!() };
    let held = s.held;
    let Ok(departure) = v.boot_recorded(&mut s, held) else { panic!() };
    assert_eq!(departure, Departure::Jump { vector_table: BOOT_SIZE });
    let Ok(v) = boot(PhysicalBank::A).verify(active()) else { panic!() };
    assert_eq!(v.boot_active(), Departure::Jump { vector_table: BOOT_SIZE });
    assert_eq!(boot(PhysicalBank::B).swap_reboot(), Departure::Swap);
    assert_eq!(boot(PhysicalBank::B).free().first_bank, PhysicalBank::B);
}

#[test]
fn an_image_that_was_never_stamped_is_refused() {
    let b = boot(PhysicalBank::A);
    let erased = AppManifest::from_bytes(&[0xFF; MANIFEST_SIZE]);
    assert_eq!(b.check_slot(0, &erased).err(), Some(VerifyError::BadMagic));
    assert_eq!(b.check_slot(0, &AppManifest::placeholder()).err(), Some(VerifyError::BadLen));
}

#[test]
fn locking_twice_is_locking_once() {
    let b = boot(PhysicalBank::A);
    let once = b.lock_boot_regions(0xA5A5_5A5A);
    assert_eq!(b.lock_boot_regions(once), once);
    assert_eq!(once | 0x0001_0001, 0xA5A5_5A5A | 0x0001_0001);
}

/// Whichever operation a download is cut off after, the running image is
/// still the one that boots.
#[test]
fn a_cut_off_download_leaves_the_running_image() {
    let slot = layout().inactive_slot_addr();
    let good = image(1);
    let mut before = vec![0x33u8; 1024 * 1024];
    before[BOOT_SIZE..BOOT_SIZE + good.len()].copy_from_slice(&good);
    let mut s = store(record(BankState::Valid, BankState::Valid));
    let b = boot(PhysicalBank::A);
    let held = s.held;
    let condemned = b.condemn(&mut s, held).unwrap_or_else(|_| panic!());
    let (ops, _) = b.download(&condemned, &image(2));
    for done in [0, 1, 2, 17, 18, ops.len()] {
        let mut flash = before.clone();
        program(&mut flash, &ops[..done]);
        assert_eq!(flash[..slot + BOOT_SIZE], before[..slot + BOOT_SIZE]);
        let b = boot(PhysicalBank::A);
        let Outcome::Verify(pending) = b.boot_or_enter_download(&mut s) else { panic!() };
        let verdict = check(&pending.boot, &flash, 0);
        assert!(matches!(
            pending.resume(&mut s, verdict),
            Settled::Leave(Departure::Jump { vector_table: BOOT_SIZE })
        ));
    }
}

/// The store already says that a bank is condemned when there is first a
/// region of it to write to.
#[test]
fn there_is_no_region_before_the_bank_is_condemned() {
    for (bank, other) in [(PhysicalBank::A, PhysicalBank::B), (PhysicalBank::B, PhysicalBank::A)] {
        let b = boot(bank);
        let mut s = store(record(BankState::Valid, BankState::Valid));
        let held = s.held;
        let condemned = b.condemn(&mut s, held).unwrap_or_else(|_| panic!());
        assert_eq!(s.read().unwrap().boot_state.bank(&other), BankState::Invalid);
        assert_eq!(s.read().unwrap().boot_state.bank(&bank), BankState::Valid);
        let writer = b.download_region(&condemned);
        assert_eq!(writer.begin, 512 * 1024 + BOOT_SIZE);
        assert_eq!(writer.end, 1024 * 1024);
    }
}

/// An image fed to a stream a page at a time lands as the whole of it does.
#[test]
fn a_streamed_image_lands_as_a_whole_one() {
    let b = boot(PhysicalBank::A);
    let mut s = store(BootStore::default());
    let condemned = b.condemn(&mut s, BootStore::default()).unwrap_or_else(|_| panic!());
    let region = b.app_region_len();
    for len in [0, 1, 512, 8193, 20_000, region, region + 1] {
        let image: Vec<u8> = (0..len).map(|i| (i * 31) as u8).collect();
        let mut stream = Stream::new(b.download_region(&condemned));
        let mut chunks = image.chunks(512);
        let mut ops = Vec::new();
        while stream.outcome.is_none() {
            ops.extend(stream.take(chunks.next().unwrap_or(&[])));
        }
        let (whole, fit) = b.download(&condemned, &image);
        assert!(ops == whole);
        assert_eq!(stream.outcome, Some(fit));
        assert_eq!(stream.delivered, len);
    }
}

#[test]
fn a_stream_stops_where_flash_does() {
    let mut stream = Stream::new(FlashWriter::new(0, 0x4000));
    assert_eq!(stream.take(&[1; 512]).len(), 2);
    assert_eq!(stream.take(&[2; 512]).len(), 1);
    stream.fail(FlashError::Nvm(NvmError::Protected));
    assert_eq!(stream.outcome, Some(Err(FlashError::Nvm(NvmError::Protected))));
    assert_eq!((stream.index, stream.delivered), (2, 1024));
}
