//! Boot records and the stores that keep them.

use samd5_boot::bytes::read_u32;
use samd5_boot::client::{BootClient, ClientError, WdtHandoff};
use samd5_boot::boot::WatchdogTimeout;
use samd5_boot::persist::{
    crc32, BankState, BkupRamStore, BootState, BootStorage, BootStore, Fallback, NoStore,
    PhysicalBank, RevertReason, SeeAction, SeeStatus, SeeWrite, SeeWriteFailed, SmartEepromStore,
    StoreConfigError, UpdateMailbox,
};

/// A backend whose writes can be switched off, standing in for a store that
/// has started refusing them.
struct Flaky {
    held: BootStore,
    writable: bool,
}

impl BootStorage for Flaky {
    type ReadErr = ();
    type WriteErr = ();

    fn read_raw(&mut self) -> Result<BootStore, ()> {
        Ok(self.held)
    }

    fn write_raw(&mut self, val: BootStore) -> Result<(), ()> {
        if !self.writable {
            return Err(());
        }
        self.held = val;
        Ok(())
    }
}

fn flaky() -> Flaky {
    Flaky {
        held: BootStore::default(),
        writable: true,
    }
}

/// Records are told apart by their trial count.
fn counted(n: u8) -> BootStore {
    let mut record = BootStore::default();
    record.boot_state.boot_count = n;
    record
}

/// Host tooling seals a record the target then validates, so this has to
/// stay byte-identical to the image convention.
#[test]
fn record_crc_matches_the_image_convention() {
    assert_eq!(crc32(b"123456789"), 0xCBF4_3926);
    let record: [u8; 12] = [
        0x02, 0x03, 0x01, 0x00, 0x2A, 0x00, 0x00, 0x00, 0x05, 0x00, 0x00, 0x00,
    ];
    assert_eq!(crc32(&record), samd5_boot::crc32::crc32(&record));
}

#[test]
fn a_working_primary_keeps_the_spare_empty() {
    let mut store = Fallback::new(flaky(), flaky());
    store.write(counted(1)).unwrap();

    assert_eq!(store.read().unwrap().boot_state.boot_count, 1);
    assert_eq!(store.primary.held.boot_state.boot_count, 1);
    assert!(
        store.spare.read_raw().unwrap().validated().is_none(),
        "an untouched spare must not look like it holds the record"
    );
}

/// The case the whole type exists for: a trial that could not be counted is
/// counted anyway, so the bootloader still has somewhere to go.
#[test]
fn a_failed_primary_write_lands_in_the_spare() {
    let mut store = Fallback::new(flaky(), flaky());
    store.write(counted(1)).unwrap();

    store.primary.writable = false;
    store.write(counted(2)).unwrap();

    assert_eq!(store.read().unwrap().boot_state.boot_count, 2);
    assert_eq!(
        store.primary.held.boot_state.boot_count, 1,
        "the primary is behind, which is why the spare wins"
    );
}

#[test]
fn a_recovered_primary_takes_the_record_back() {
    let mut store = Fallback::new(flaky(), flaky());
    store.primary.writable = false;
    store.write(counted(1)).unwrap();
    assert_eq!(store.read().unwrap().boot_state.boot_count, 1);

    store.primary.writable = true;
    store.write(counted(2)).unwrap();

    assert_eq!(store.primary.held.boot_state.boot_count, 2);
    assert!(
        store.spare.read_raw().unwrap().validated().is_none(),
        "a stale spare would outrank the primary on the next read"
    );
    assert_eq!(store.read().unwrap().boot_state.boot_count, 2);
}

/// Losing the spare is losing the writes it was covering for, not losing the
/// record: the primary is stale but sound.
#[test]
fn losing_the_spare_falls_back_to_the_primary() {
    let mut store = Fallback::new(flaky(), flaky());
    store.write(counted(1)).unwrap();
    store.primary.writable = false;
    store.write(counted(2)).unwrap();

    // What backup RAM reads as once power has been away.
    store.spare.held = BootStore::default();

    assert_eq!(store.read().unwrap().boot_state.boot_count, 1);
}

/// With neither backend accepting a write there is nothing to report but
/// failure.
#[test]
fn both_gone_is_an_error() {
    let mut store = Fallback::new(flaky(), flaky());
    store.primary.writable = false;
    store.spare.writable = false;
    assert!(store.write(counted(1)).is_err());
}

/// The codes are a stored format.
#[test]
fn codes_are_pinned() {
    assert_eq!(RevertReason::NoRevert.code(), 0);
    assert_eq!(RevertReason::AttemptsExhausted.code(), 1);
    assert_eq!(RevertReason::VerifyFailed.code(), 2);
    assert_eq!(RevertReason::AppRejected.code(), 3);
    assert_eq!(BankState::Empty.code(), 0);
    assert_eq!(BankState::Valid.code(), 1);
    assert_eq!(BankState::New.code(), 2);
    assert_eq!(BankState::Invalid.code(), 3);
}

#[test]
fn a_code_this_build_does_not_know_decodes_to_nothing() {
    for v in 0..=3u8 {
        assert_eq!(RevertReason::from_u8(v).map(|r| r.code()), Some(v));
    }
    assert!(RevertReason::from_u8(4).is_none());
    assert!(RevertReason::from_u8(0xFF).is_none());
}

#[test]
fn the_stored_byte_round_trips() {
    let mut state = BootState::default();
    assert_eq!(state.reason(), Some(RevertReason::NoRevert));
    state.set_reason(RevertReason::AppRejected);
    assert_eq!(state.revert_reason, 3);
    assert_eq!(state.reason(), Some(RevertReason::AppRejected));
}

#[test]
fn a_record_is_four_words() {
    let mut record = BootStore::default();
    record.boot_state.states = 0x21;
    record.boot_state.boot_count = 0x22;
    record.boot_state.revert_reason = 0x23;
    record.rollback.highest_seen_manifest = 0x2524;
    record.mailbox.flags = 0x07;
    record.seal();
    let bytes = record.to_bytes();
    assert_eq!(bytes.len(), 16);
    assert_eq!(&bytes[..8], &[0x21, 0x22, 0x23, 0x00, 0x24, 0x25, 0x00, 0x00]);
    assert_eq!(&bytes[8..12], &[0x07, 0, 0, 0]);
    assert_eq!(read_u32(&bytes, 12), crc32(&bytes[..12]));
    assert_eq!(BootStore::from_bytes(&bytes).validated(), Some(record));
    let words = record.to_words();
    assert_eq!(words[0], 0x0023_2221);
    assert_eq!(BootStore::from_words(words), record);
}

#[test]
fn damage_is_noticed() {
    let mut record = counted(5);
    record.seal();
    let bytes = record.to_bytes();
    for at in 0..16 {
        let mut damaged = bytes.clone();
        damaged[at] ^= 0x40;
        assert_eq!(BootStore::from_bytes(&damaged).validated(), None);
    }
    // What storage holds before anything was written.
    assert_eq!(BootStore::from_bytes(&[0; 16]).validated(), None);
    assert_eq!(BootStore::from_bytes(&[0xFF; 16]).validated(), None);
}

/// Any mix of old and new words is the old record, the new one, or rejected.
#[test]
fn a_torn_write_is_not_a_third_record() {
    let mut old = counted(1);
    old.seal();
    let mut new = counted(2);
    new.mailbox.set_request_update(true);
    new.seal();
    let (a, b) = (old.to_words(), new.to_words());
    for mix in 0..16u32 {
        let mut words = [0u32; 4];
        for i in 0..4 {
            words[i] = if mix >> i & 1 == 1 { b[i] } else { a[i] };
        }
        if let Some(read) = BootStore::from_words(words).validated() {
            assert!(read == old || read == new);
        }
    }
}

#[test]
fn at_most_one_bank_is_on_trial_at_a_time() {
    let mut state = BootState::default();
    state.set_bank(&PhysicalBank::A, BankState::Valid);
    state.mark_new(&PhysicalBank::B);
    assert_eq!(state.bank(&PhysicalBank::A), BankState::Valid);
    assert_eq!(state.bank(&PhysicalBank::B), BankState::New);
    state.mark_new(&PhysicalBank::A);
    assert_eq!(state.bank(&PhysicalBank::A), BankState::New);
    assert_eq!(state.bank(&PhysicalBank::B), BankState::Empty);
    assert_eq!(BankState::from_bits(0xFE), BankState::New);
    assert_eq!(PhysicalBank::A.other(), PhysicalBank::B);
}

#[test]
fn mailbox_flags_do_not_touch_each_other() {
    let mut mailbox = UpdateMailbox::default();
    mailbox.set_confirmed(true);
    mailbox.set_rejected(true);
    assert!(!mailbox.request_update() && mailbox.confirmed() && mailbox.rejected());
    mailbox.set_request_update(true);
    mailbox.set_confirmed(false);
    assert!(mailbox.request_update() && !mailbox.confirmed() && mailbox.rejected());
}

#[test]
fn no_store_reads_fresh_and_drops_writes() {
    let mut store = NoStore;
    store.write(counted(9)).unwrap();
    assert_eq!(store.read().unwrap(), BootStore::default());
}

#[test]
fn stores_know_their_addresses() {
    assert_eq!(BkupRamStore::<16>::new().ptr(), 0x4700_0010);
    let status = SeeStatus { sblk: 1, psz: 0, lock: false, buffered: false };
    let store = SmartEepromStore::<8>::new(status).unwrap_or_else(|_| panic!());
    assert_eq!(store.word_ptr(0), 0x4400_0008);
    assert_eq!(store.word_ptr(3), 0x4400_0014);
}

#[test]
fn a_smart_eeprom_has_to_be_usable() {
    let good = SeeStatus { sblk: 1, psz: 0, lock: false, buffered: false };
    assert_eq!(
        SmartEepromStore::<0>::new(SeeStatus { sblk: 0, ..good }).err(),
        Some(StoreConfigError::SeeUnavailable)
    );
    assert_eq!(
        SmartEepromStore::<0>::new(SeeStatus { lock: true, ..good }).err(),
        Some(StoreConfigError::SeeLocked)
    );
    assert_eq!(
        SmartEepromStore::<0>::new(SeeStatus { buffered: true, ..good }).err(),
        Some(StoreConfigError::SeeBuffered)
    );
    assert_eq!(
        SmartEepromStore::<512>::new(good).err(),
        Some(StoreConfigError::OffsetOutOfRange)
    );
    assert!(SmartEepromStore::<496>::new(good).is_ok());
}

/// Carry a SmartEEPROM write out against a memory whose words can stick.
fn drive(memory: &mut [u32; 4], record: &BootStore, stuck: Option<usize>) -> (Result<(), SeeWriteFailed>, usize) {
    let (mut write, mut action) = SeeWrite::start(record);
    let mut writes = 0;
    loop {
        match action {
            SeeAction::Read { index } => action = write.step(memory[index]),
            SeeAction::Write { index, word } => {
                writes += 1;
                if stuck != Some(index) {
                    memory[index] = word;
                }
                action = write.step(memory[index]);
            }
            SeeAction::Done(r) => return (r, writes),
        }
    }
}

#[test]
fn only_changed_words_are_written() {
    let mut memory = [0u32; 4];
    let mut record = counted(1);
    record.seal();
    assert_eq!(drive(&mut memory, &record, None), (Ok(()), 2));
    assert_eq!(memory, record.to_words());
    assert_eq!(drive(&mut memory, &record, None), (Ok(()), 0));
}

#[test]
fn a_word_that_does_not_take_is_a_failure() {
    let mut memory = [0u32; 4];
    let mut record = counted(1);
    record.seal();
    assert_eq!(drive(&mut memory, &record, Some(0)).0, Err(SeeWriteFailed));
}

#[test]
fn a_client_raises_its_flags() {
    let mut store = flaky();
    store.write(counted(2)).unwrap();
    let mut client = BootClient::new(store);
    assert_eq!(client.confirm(false, Some(WatchdogTimeout::Cycles16K)), Ok(WdtHandoff::Reconfigured));
    assert_eq!(client.confirm(false, None), Ok(WdtHandoff::Disabled));
    assert_eq!(client.confirm(true, None), Ok(WdtHandoff::LockedByAlwaysOn));
    client.reject().unwrap();
    client.request_update().unwrap();
    let record = client.free().held;
    assert!(record.validated().is_some());
    assert!(record.mailbox.confirmed() && record.mailbox.rejected() && record.mailbox.request_update());
    assert_eq!(record.boot_state.boot_count, 2);
}

#[test]
fn a_client_reports_what_the_record_says() {
    let mut record = BootStore::default();
    record.boot_state.set_bank(&PhysicalBank::A, BankState::Valid);
    record.boot_state.set_bank(&PhysicalBank::B, BankState::Invalid);
    record.boot_state.set_reason(RevertReason::VerifyFailed);
    let mut store = flaky();
    store.write(record).unwrap();
    let mut client = BootClient::new(store);
    assert_eq!(client.boot_state().unwrap().revert_reason, Some(RevertReason::VerifyFailed));
    let banks = client.banks(PhysicalBank::B).unwrap();
    assert_eq!((banks.active, banks.inactive), (BankState::Invalid, BankState::Valid));
}

#[test]
fn a_client_reports_a_store_that_refuses() {
    let mut store = flaky();
    store.writable = false;
    let mut client = BootClient::new(store);
    assert_eq!(client.reject(), Err(ClientError::Write(())));
}
