//! The persisted boot record: trial bookkeeping, the application's mailbox,
//! and the checksum that tells a record from an unwritten store.
//!
//! Every sub-struct of [`BootStore`] is exactly one 32-bit word: the unit a
//! backend must write power-atomically. The record carries a checksum over
//! those words, so a backing store that was never written, or a write torn
//! by a power cut, is detected and reported as the fresh default rather than
//! trusted. That matters because "unwritten" is not zeros everywhere: an
//! erased SmartEEPROM region reads as 0xFF, which would otherwise decode as
//! every mailbox flag set and a spent trial budget.
//!
//! [`storage`] is where records are kept, [`backends`] the two stores the
//! silicon offers.

use vstd::prelude::*;

pub mod backends;
pub mod laws;
pub mod storage;

pub use crate::persist::backends::{
    BkupRamStore, SeeAction, SeeStatus, SeeWrite, SeeWriteFailed, SmartEepromStore,
    StoreConfigError, STORE_WORDS,
};
pub use crate::persist::storage::{BootStorage, Fallback, NoStore};

use crate::bytes::{read_u16, read_u32, word_bytes};
use crate::crc32::{shift_byte, INIT};

verus! {

/// Bytes in a stored record.
pub const STORE_SIZE: usize = 16;

/// Bytes the checksum covers: everything ahead of it.
pub const COVERED: usize = 12;

/// A physical flash half, the `STATUS.AFIRST` domain. A bank maps to either
/// slot; persisted state is keyed by bank because the mapping flips.
#[derive(Clone, Copy, PartialEq, Eq, Structural, Debug)]
pub enum PhysicalBank {
    A,
    B,
}

impl PhysicalBank {
    /// The bank that is not this one.
    pub open spec fn spec_other(self) -> PhysicalBank {
        match self {
            PhysicalBank::A => PhysicalBank::B,
            PhysicalBank::B => PhysicalBank::A,
        }
    }

    /// The bank that is not this one.
    pub fn other(self) -> (bank: PhysicalBank)
        ensures
            bank == self.spec_other(),
            bank != self,
            bank.spec_other() == self,
    {
        match self {
            PhysicalBank::A => PhysicalBank::B,
            PhysicalBank::B => PhysicalBank::A,
        }
    }
}

/// The full persisted boot record. Read at boot and rewritten as state
/// advances.
#[derive(Clone, Copy, PartialEq, Eq, Structural, Debug)]
pub struct BootStore {
    pub boot_state: BootState,
    pub rollback: Rollback,
    pub mailbox: UpdateMailbox,
    /// Set by [`BootStore::seal`], examined by [`BootStore::validated`].
    pub checksum: u32,
}

/// Trial bookkeeping. Bank states are keyed by *physical* bank: the record
/// survives a swap while the slot mapping flips.
#[derive(Clone, Copy, PartialEq, Eq, Structural, Debug)]
pub struct BootState {
    /// Bank A in bits 1:0, bank B in bits 3:2; four variants fill two bits,
    /// so every pattern decodes. Upper bits reserved, preserved.
    pub states: u8,
    pub boot_count: u8,
    /// Read it typed with [`BootState::reason`].
    pub revert_reason: u8,
    pub reserved: u8,
}

/// State of one bank's image, packed 2 bits per bank in [`BootState`].
/// `Empty` is the all-zeros default, no image or a fresh chip, bootable in
/// steady state; `New` is an installed image on trial, counted against the
/// attempt budget until confirmed; `Valid` is a confirmed image; `Invalid`
/// is condemned and never re-trialed.
#[derive(Clone, Copy, PartialEq, Eq, Structural, Debug)]
pub enum BankState {
    Empty,
    Valid,
    New,
    Invalid,
}

/// Anti-rollback watermark.
#[derive(Clone, Copy, PartialEq, Eq, Structural, Debug)]
pub struct Rollback {
    pub highest_seen_manifest: u16,
    pub reserved: u16,
}

/// Application to BOOT signals: the application sets a flag at runtime, BOOT
/// reads it and clears it when it acts on it. All flags are edge-triggered,
/// so a set flag is consumed once.
#[derive(Clone, Copy, PartialEq, Eq, Structural, Debug)]
pub struct UpdateMailbox {
    pub flags: u8,
    pub reserved_a: u8,
    pub reserved_b: u8,
    pub reserved_c: u8,
}

/// Why the bootloader last abandoned an image, the typed form of the raw
/// [`BootState::revert_reason`] byte. `NoRevert` is the steady state: no
/// rollback has happened, or a later trial superseded the one that did.
#[derive(Clone, Copy, PartialEq, Eq, Structural, Debug)]
pub enum RevertReason {
    NoRevert,
    AttemptsExhausted,
    VerifyFailed,
    AppRejected,
}

// ── Definition ──────────────────────────────────────────────────────────

impl BootStore {
    /// The record a fresh store starts from: all zeros.
    pub open spec fn blank() -> BootStore {
        BootStore {
            boot_state: BootState { states: 0, boot_count: 0, revert_reason: 0, reserved: 0 },
            rollback: Rollback { highest_seen_manifest: 0, reserved: 0 },
            mailbox: UpdateMailbox { flags: 0, reserved_a: 0, reserved_b: 0, reserved_c: 0 },
            checksum: 0,
        }
    }

    /// The bytes the checksum covers, as stored.
    pub open spec fn covered(self) -> Seq<u8> {
        seq![
            self.boot_state.states,
            self.boot_state.boot_count,
            self.boot_state.revert_reason,
            self.boot_state.reserved,
        ] + crate::bytes::le16(self.rollback.highest_seen_manifest) + crate::bytes::le16(
            self.rollback.reserved,
        ) + seq![
            self.mailbox.flags,
            self.mailbox.reserved_a,
            self.mailbox.reserved_b,
            self.mailbox.reserved_c,
        ]
    }

    /// The whole record as stored.
    pub open spec fn stored(self) -> Seq<u8> {
        self.covered() + crate::bytes::le32(self.checksum)
    }

    /// The stored record as the four words a backend writes.
    pub open spec fn words(self) -> Seq<u32> {
        Seq::new(4, |i: int| crate::bytes::u32_at(self.stored(), 4 * i))
    }

    /// The record with a current checksum.
    pub open spec fn sealed(self) -> BootStore {
        BootStore { checksum: crate::crc32::checksum(self.covered()), ..self }
    }

    /// The checksum is current.
    pub open spec fn valid(self) -> bool {
        self.checksum == crate::crc32::checksum(self.covered())
    }

    /// What a reader takes a stored record for: itself if it checks out, the
    /// fresh default otherwise.
    pub open spec fn usable(self) -> BootStore {
        if self.valid() {
            self
        } else {
            BootStore::blank()
        }
    }
}

impl BankState {
    /// The two bits a state is stored as.
    pub open spec fn spec_code(self) -> u8 {
        match self {
            BankState::Empty => 0,
            BankState::Valid => 1,
            BankState::New => 2,
            BankState::Invalid => 3,
        }
    }

    /// The state stored in the low two bits.
    pub open spec fn decode(bits: u8) -> BankState {
        if bits & 0b11 == 0 {
            BankState::Empty
        } else if bits & 0b11 == 1 {
            BankState::Valid
        } else if bits & 0b11 == 2 {
            BankState::New
        } else {
            BankState::Invalid
        }
    }
}

impl RevertReason {
    /// The byte a reason is stored as.
    pub open spec fn spec_code(self) -> u8 {
        match self {
            RevertReason::NoRevert => 0,
            RevertReason::AttemptsExhausted => 1,
            RevertReason::VerifyFailed => 2,
            RevertReason::AppRejected => 3,
        }
    }

    /// The reason a stored byte stands for, if this build knows it.
    pub open spec fn decode(v: u8) -> Option<RevertReason> {
        if v == 0 {
            Some(RevertReason::NoRevert)
        } else if v == 1 {
            Some(RevertReason::AttemptsExhausted)
        } else if v == 2 {
            Some(RevertReason::VerifyFailed)
        } else if v == 3 {
            Some(RevertReason::AppRejected)
        } else {
            None
        }
    }
}

impl BootState {
    /// Where a bank's two bits sit.
    pub open spec fn spec_shift(bank: PhysicalBank) -> u8 {
        match bank {
            PhysicalBank::A => 0,
            PhysicalBank::B => 2,
        }
    }

    /// The state of one bank.
    pub open spec fn spec_bank(self, bank: PhysicalBank) -> BankState {
        BankState::decode(self.states >> BootState::spec_shift(bank))
    }

    /// One bank set to `state`; the other bank, the upper bits and the other
    /// fields as they were.
    pub open spec fn with_bank(self, bank: PhysicalBank, state: BankState) -> BootState {
        BootState {
            states: (self.states & !(0b11u8 << BootState::spec_shift(bank))) | (state.spec_code()
                << BootState::spec_shift(bank)),
            ..self
        }
    }

    /// `bank` on trial, and no other: a stale trial on the other bank is
    /// demoted to no image.
    pub open spec fn with_new(self, bank: PhysicalBank) -> BootState {
        let other = bank.spec_other();
        if self.spec_bank(other) == BankState::New {
            self.with_bank(other, BankState::Empty).with_bank(bank, BankState::New)
        } else {
            self.with_bank(bank, BankState::New)
        }
    }

    /// The revert reason replaced.
    pub open spec fn with_reason(self, reason: RevertReason) -> BootState {
        BootState { revert_reason: reason.spec_code(), ..self }
    }
}

/// Enter download mode on the next boot.
pub const REQUEST: u8 = 1;

/// The trial image ran; promote it on the next boot.
pub const CONFIRM: u8 = 2;

/// The running image condemned itself; revert on the next boot.
pub const REJECT: u8 = 4;

impl UpdateMailbox {
    /// The flags of `bit` are set.
    pub open spec fn has(self, bit: u8) -> bool {
        self.flags & bit != 0
    }

    /// The flags of `bit` set or cleared, the rest as they were.
    pub open spec fn with(self, bit: u8, on: bool) -> UpdateMailbox {
        UpdateMailbox {
            flags: if on {
                self.flags | bit
            } else {
                self.flags & !bit
            },
            ..self
        }
    }
}

// ── Laws ────────────────────────────────────────────────────────────────

/// Setting one bank stores that state there and leaves the other bank and
/// the reserved upper bits alone.
pub proof fn set_bank_reaches_one_bank_only(s: BootState, bank: PhysicalBank, state: BankState)
    ensures
        s.with_bank(bank, state).spec_bank(bank) == state,
        s.with_bank(bank, state).spec_bank(bank.spec_other()) == s.spec_bank(bank.spec_other()),
        s.with_bank(bank, state).states & 0xF0 == s.states & 0xF0,
{
    let old_bits = s.states;
    let code = state.spec_code();
    let a = (old_bits & !(0b11u8 << 0u8)) | (code << 0u8);
    let b = (old_bits & !(0b11u8 << 2u8)) | (code << 2u8);
    assert((a >> 0u8) & 0b11 == code && (a >> 2u8) & 0b11 == (old_bits >> 2u8) & 0b11 && a & 0xF0
        == old_bits & 0xF0 && (b >> 2u8) & 0b11 == code && (b >> 0u8) & 0b11 == (old_bits >> 0u8)
        & 0b11 && b & 0xF0 == old_bits & 0xF0) by (bit_vector)
        requires
            code < 4,
            a == (old_bits & !(0b11u8 << 0u8)) | (code << 0u8),
            b == (old_bits & !(0b11u8 << 2u8)) | (code << 2u8),
    ;
}

/// At most one bank is ever on trial: marking one leaves it the only one.
pub proof fn at_most_one_bank_is_on_trial(s: BootState, bank: PhysicalBank)
    ensures
        s.with_new(bank).spec_bank(bank) == BankState::New,
        s.with_new(bank).spec_bank(bank.spec_other()) != BankState::New,
        s.spec_bank(bank.spec_other()) != BankState::New ==> s.with_new(bank).spec_bank(
            bank.spec_other(),
        ) == s.spec_bank(bank.spec_other()),
{
    let other = bank.spec_other();
    set_bank_reaches_one_bank_only(s, other, BankState::Empty);
    set_bank_reaches_one_bank_only(s, bank, BankState::New);
    set_bank_reaches_one_bank_only(s.with_bank(other, BankState::Empty), bank, BankState::New);
}

/// Setting or clearing one mailbox flag does exactly that, whichever flag
/// it is, and no flag reaches another.
pub proof fn mailbox_flags_are_independent(m: UpdateMailbox, on: bool)
    ensures
        m.with(REQUEST, on).has(REQUEST) == on,
        m.with(REQUEST, on).has(CONFIRM) == m.has(CONFIRM),
        m.with(REQUEST, on).has(REJECT) == m.has(REJECT),
        m.with(CONFIRM, on).has(CONFIRM) == on,
        m.with(CONFIRM, on).has(REQUEST) == m.has(REQUEST),
        m.with(CONFIRM, on).has(REJECT) == m.has(REJECT),
        m.with(REJECT, on).has(REJECT) == on,
        m.with(REJECT, on).has(REQUEST) == m.has(REQUEST),
        m.with(REJECT, on).has(CONFIRM) == m.has(CONFIRM),
        m.with(REQUEST, on).flags & 0xF8 == m.flags & 0xF8,
        m.with(CONFIRM, on).flags & 0xF8 == m.flags & 0xF8,
        m.with(REJECT, on).flags & 0xF8 == m.flags & 0xF8,
{
    let f = m.flags;
    assert((f | 1) & 1 != 0 && (f | 1) & 2 == f & 2 && (f | 1) & 4 == f & 4 && (f | 2) & 2 != 0
        && (f | 2) & 1 == f & 1 && (f | 2) & 4 == f & 4 && (f | 4) & 4 != 0 && (f | 4) & 1 == f & 1
        && (f | 4) & 2 == f & 2 && (f & !1) & 1 == 0 && (f & !1) & 2 == f & 2 && (f & !1) & 4 == f
        & 4 && (f & !2) & 2 == 0 && (f & !2) & 1 == f & 1 && (f & !2) & 4 == f & 4 && (f & !4) & 4
        == 0 && (f & !4) & 1 == f & 1 && (f & !4) & 2 == f & 2 && (f | 1) & 0xF8 == f & 0xF8 && (f
        | 2) & 0xF8 == f & 0xF8 && (f | 4) & 0xF8 == f & 0xF8 && (f & !1) & 0xF8 == f & 0xF8 && (f
        & !2) & 0xF8 == f & 0xF8 && (f & !4) & 0xF8 == f & 0xF8) by (bit_vector);
}

/// A stored reason reads back as the reason it was.
pub proof fn a_stored_reason_reads_back(s: BootState, reason: RevertReason)
    ensures
        RevertReason::decode(s.with_reason(reason).revert_reason) == Some(reason),
{
}

/// A sealed record checks out.
pub proof fn a_sealed_record_is_valid(r: BootStore)
    ensures
        r.sealed().valid(),
        r.sealed().usable() == r.sealed(),
{
    assert(r.sealed().covered() =~= r.covered());
}

/// Storage that was never written does not check out: neither all zeros,
/// which is also the fresh default, nor erased flash.
pub proof fn unwritten_storage_is_not_a_record(r: BootStore)
    requires
        r == BootStore::blank() || r.stored() == Seq::new(16, |i: int| 0xFFu8),
    ensures
        !r.valid(),
{
    reveal_with_fuel(crate::crc32::fold, 13);
    let c = r.covered();
    assert(c.len() == 12);
    let p1 = c.subrange(0, 1);
    let p2 = c.subrange(0, 2);
    let p3 = c.subrange(0, 3);
    let p4 = c.subrange(0, 4);
    let p5 = c.subrange(0, 5);
    let p6 = c.subrange(0, 6);
    let p7 = c.subrange(0, 7);
    let p8 = c.subrange(0, 8);
    let p9 = c.subrange(0, 9);
    let p10 = c.subrange(0, 10);
    let p11 = c.subrange(0, 11);
    assert(c.drop_last() =~= p11);
    assert(p11.drop_last() =~= p10);
    assert(p10.drop_last() =~= p9);
    assert(p9.drop_last() =~= p8);
    assert(p8.drop_last() =~= p7);
    assert(p7.drop_last() =~= p6);
    assert(p6.drop_last() =~= p5);
    assert(p5.drop_last() =~= p4);
    assert(p4.drop_last() =~= p3);
    assert(p3.drop_last() =~= p2);
    assert(p2.drop_last() =~= p1);
    assert(p1.drop_last().len() == 0);
    if r == BootStore::blank() {
        lemma_register_over_zeros();
        assert((0u16 & 0xFF) as u8 == 0 && ((0u16 >> 8) & 0xFF) as u8 == 0) by (bit_vector);
        assert(forall|i: int| 0 <= i < 12 ==> c[i] == 0);
        assert(crate::crc32::fold(INIT, c) == 0x842a3990);
        assert(0x842a3990u32 ^ 0xFFFF_FFFF != 0) by (bit_vector);
    } else {
        lemma_register_over_ones();
        assert forall|i: int| 0 <= i < 12 implies c[i] == 0xFF by {
            assert(r.stored()[i] == c[i]);
        }
        assert(crate::crc32::fold(INIT, c) == 0x44660075);
        let k = r.checksum;
        let t = crate::bytes::le32(k);
        assert(t[0] == r.stored()[12] && t[1] == r.stored()[13] && t[2] == r.stored()[14] && t[3]
            == r.stored()[15]);
        assert(k == 0xFFFF_FFFF) by (bit_vector)
            requires
                (k & 0xFF) as u8 == 0xFF,
                ((k >> 8) & 0xFF) as u8 == 0xFF,
                ((k >> 16) & 0xFF) as u8 == 0xFF,
                ((k >> 24) & 0xFF) as u8 == 0xFF,
        ;
        assert(0x44660075u32 ^ 0xFFFF_FFFF != 0xFFFF_FFFF) by (bit_vector);
    }
}

/// The checksum register over twelve zero bytes.
proof fn lemma_register_over_zeros()
    ensures
        ({
            let f = |c: u32| crate::crc32::absorb(c, 0);
            f(f(f(f(f(f(f(f(f(f(f(f(INIT)))))))))))) == 0x842a3990
        }),
{
    assert(crate::crc32::absorb(0xffffffff, 0) == 0x2dfd1072 && crate::crc32::absorb(0x2dfd1072, 0)
        == 0xbe26ed00 && crate::crc32::absorb(0xbe26ed00, 0) == 0xbe26ed && crate::crc32::absorb(
        0xbe26ed,
        0,
    ) == 0xdebb20e3 && crate::crc32::absorb(0xdebb20e3, 0) == 0x39dd08e2 && crate::crc32::absorb(
        0x39dd08e2,
        0,
    ) == 0x4e3d5e5c && crate::crc32::absorb(0x4e3d5e5c, 0) == 0x62932081 && crate::crc32::absorb(
        0x62932081,
        0,
    ) == 0x9add2096 && crate::crc32::absorb(0x9add2096, 0) == 0x19f6eb51 && crate::crc32::absorb(
        0x19f6eb51,
        0,
    ) == 0x1c759789 && crate::crc32::absorb(0x1c759789, 0) == 0x94784e13 && crate::crc32::absorb(
        0x94784e13,
        0,
    ) == 0x842a3990) by (bit_vector);
}

/// The checksum register over twelve erased bytes.
proof fn lemma_register_over_ones()
    ensures
        ({
            let f = |c: u32| crate::crc32::absorb(c, 0xFF);
            f(f(f(f(f(f(f(f(f(f(f(f(INIT)))))))))))) == 0x44660075
        }),
{
    assert(crate::crc32::absorb(0xffffffff, 0xFF) == 0xffffff && crate::crc32::absorb(
        0xffffff,
        0xFF,
    ) == 0xffff && crate::crc32::absorb(0xffff, 0xFF) == 0xff && crate::crc32::absorb(0xff, 0xFF)
        == 0 && crate::crc32::absorb(0, 0xFF) == 0x2d02ef8d && crate::crc32::absorb(
        0x2d02ef8d,
        0xFF,
    ) == 0xbe2612ff && crate::crc32::absorb(0xbe2612ff, 0xFF) == 0xbe2612 && crate::crc32::absorb(
        0xbe2612,
        0xFF,
    ) == 0xdebb20e3 && crate::crc32::absorb(0xdebb20e3, 0xFF) == 0x14dfe76f
        && crate::crc32::absorb(0x14dfe76f, 0xFF) == 0xf01b4ca3 && crate::crc32::absorb(
        0xf01b4ca3,
        0xFF,
    ) == 0x622d0693 && crate::crc32::absorb(0x622d0693, 0xFF) == 0x44660075) by (bit_vector);
}

/// A stored record reads back as the record it was: no two records share
/// their bytes, nor their words.
pub proof fn a_stored_record_reads_back(a: BootStore, b: BootStore)
    requires
        a.stored() == b.stored() || a.words() == b.words(),
    ensures
        a == b,
{
    let (s, t) = (a.stored(), b.stored());
    assert forall|i: int| 0 <= i < 16 implies s[i] == t[i] by {
        if a.words() == b.words() {
            let k = i / 4;
            assert(a.words()[k] == b.words()[k]);
            crate::bytes::word_bytes_round_trip(s, 4 * k);
            crate::bytes::word_bytes_round_trip(t, 4 * k);
            assert(s.subrange(4 * k, 4 * k + 4)[i - 4 * k] == t.subrange(4 * k, 4 * k + 4)[i - 4
                * k]);
        }
    }
    assert(s[0] == t[0] && s[1] == t[1] && s[2] == t[2] && s[3] == t[3] && s[8] == t[8] && s[9]
        == t[9] && s[10] == t[10] && s[11] == t[11]);
    assert(s.subrange(4, 6) =~= crate::bytes::le16(a.rollback.highest_seen_manifest));
    assert(t.subrange(4, 6) =~= crate::bytes::le16(b.rollback.highest_seen_manifest));
    assert(s.subrange(6, 8) =~= crate::bytes::le16(a.rollback.reserved));
    assert(t.subrange(6, 8) =~= crate::bytes::le16(b.rollback.reserved));
    assert(s.subrange(12, 16) =~= crate::bytes::le32(a.checksum));
    assert(t.subrange(12, 16) =~= crate::bytes::le32(b.checksum));
    crate::bytes::u16_round_trips(a.rollback.highest_seen_manifest, s, 4);
    crate::bytes::u16_round_trips(b.rollback.highest_seen_manifest, t, 4);
    crate::bytes::u16_round_trips(a.rollback.reserved, s, 6);
    crate::bytes::u16_round_trips(b.rollback.reserved, t, 6);
    crate::bytes::u32_round_trips(a.checksum, s, 12);
    crate::bytes::u32_round_trips(b.checksum, t, 12);
}

/// A power cut during a write leaves each word old or new. Between two
/// sealed records that share their rollback word, which nothing here
/// changes, whatever is left reads as the old record, as the new one, or as
/// unwritten: never as a mixture of the two.
pub proof fn a_torn_write_is_old_new_or_rejected(old: BootStore, new: BootStore, torn: BootStore)
    requires
        old.valid(),
        new.valid(),
        old.rollback == new.rollback,
        torn.rollback == old.rollback,
        torn.boot_state == old.boot_state || torn.boot_state == new.boot_state,
        torn.mailbox == old.mailbox || torn.mailbox == new.mailbox,
        torn.checksum == old.checksum || torn.checksum == new.checksum,
    ensures
        torn == old || torn == new || !torn.valid(),
{
    if torn.valid() {
        if torn.checksum == old.checksum {
            lemma_one_word_apart(torn, old);
        }
        if torn.checksum == new.checksum {
            lemma_one_word_apart(torn, new);
        }
    }
}

/// Two valid records with the same checksum that differ in one word at most
/// do not differ at all.
proof fn lemma_one_word_apart(a: BootStore, b: BootStore)
    requires
        a.valid(),
        b.valid(),
        a.checksum == b.checksum,
        a.rollback == b.rollback,
    ensures
        a.boot_state == b.boot_state ==> a == b,
        a.mailbox == b.mailbox ==> a == b,
{
    let (s, t) = (a.covered(), b.covered());
    if a.boot_state == b.boot_state && a != b {
        assert(s[8] != t[8] || s[9] != t[9] || s[10] != t[10] || s[11] != t[11]);
        crate::crc32::one_word_of_damage_is_detected(s, t, 8);
    }
    if a.mailbox == b.mailbox && a != b {
        assert(s[0] != t[0] || s[1] != t[1] || s[2] != t[2] || s[3] != t[3]);
        crate::crc32::one_word_of_damage_is_detected(s, t, 0);
    }
}

// ── Functions ───────────────────────────────────────────────────────────

/// CRC-32/ISO-HDLC without a table, so a bootloader that otherwise never
/// needs one does not carry 1 KiB of it for a twelve-byte record.
pub fn crc32(bytes: &[u8]) -> (crc: u32)
    ensures
        crc == crate::crc32::checksum(bytes@),
{
    let mut crc: u32 = INIT;
    let mut i: usize = 0;
    while i < bytes.len()
        invariant
            i <= bytes@.len(),
            crc == crate::crc32::fold(INIT, bytes@.subrange(0, i as int)),
        decreases bytes@.len() - i,
    {
        assert(bytes@.subrange(0, i + 1).drop_last() =~= bytes@.subrange(0, i as int));
        crc = shift_byte(crc ^ (bytes[i] as u32));
        i = i + 1;
    }
    assert(bytes@.subrange(0, bytes@.len() as int) =~= bytes@);
    crc ^ 0xFFFF_FFFF
}

impl Default for BootStore {
    fn default() -> (r: BootStore)
        ensures
            r == BootStore::blank(),
    {
        BootStore {
            boot_state: BootState { states: 0, boot_count: 0, revert_reason: 0, reserved: 0 },
            rollback: Rollback { highest_seen_manifest: 0, reserved: 0 },
            mailbox: UpdateMailbox { flags: 0, reserved_a: 0, reserved_b: 0, reserved_c: 0 },
            checksum: 0,
        }
    }
}

impl Default for BootState {
    fn default() -> (s: BootState)
        ensures
            s == BootStore::blank().boot_state,
    {
        BootState { states: 0, boot_count: 0, revert_reason: 0, reserved: 0 }
    }
}

impl Default for UpdateMailbox {
    fn default() -> (m: UpdateMailbox)
        ensures
            m == BootStore::blank().mailbox,
    {
        UpdateMailbox { flags: 0, reserved_a: 0, reserved_b: 0, reserved_c: 0 }
    }
}

impl BootStore {
    /// The record as stored.
    pub fn to_bytes(&self) -> (bytes: Vec<u8>)
        ensures
            bytes@ == self.stored(),
    {
        let h: u16 = self.rollback.highest_seen_manifest;
        let r: u16 = self.rollback.reserved;
        let mut bytes: Vec<u8> = Vec::new();
        bytes.push(self.boot_state.states);
        bytes.push(self.boot_state.boot_count);
        bytes.push(self.boot_state.revert_reason);
        bytes.push(self.boot_state.reserved);
        bytes.push((h & 0xFF) as u8);
        bytes.push(((h >> 8) & 0xFF) as u8);
        bytes.push((r & 0xFF) as u8);
        bytes.push(((r >> 8) & 0xFF) as u8);
        bytes.push(self.mailbox.flags);
        bytes.push(self.mailbox.reserved_a);
        bytes.push(self.mailbox.reserved_b);
        bytes.push(self.mailbox.reserved_c);
        let mut tail: Vec<u8> = word_bytes(self.checksum);
        bytes.append(&mut tail);
        assert(bytes@ =~= self.stored());
        bytes
    }

    /// The record stored in `bytes`, every bit pattern of which is one.
    pub fn from_bytes(bytes: &[u8]) -> (r: BootStore)
        requires
            bytes@.len() == STORE_SIZE,
        ensures
            r.stored() == bytes@,
    {
        let r: BootStore = BootStore {
            boot_state: BootState {
                states: bytes[0],
                boot_count: bytes[1],
                revert_reason: bytes[2],
                reserved: bytes[3],
            },
            rollback: Rollback {
                highest_seen_manifest: read_u16(bytes, 4),
                reserved: read_u16(bytes, 6),
            },
            mailbox: UpdateMailbox {
                flags: bytes[8],
                reserved_a: bytes[9],
                reserved_b: bytes[10],
                reserved_c: bytes[11],
            },
            checksum: read_u32(bytes, 12),
        };
        proof {
            crate::bytes::word_bytes_round_trip(bytes@, 12);
            let w = bytes@.subrange(12, 16);
            assert(w[0] == bytes@[12] && w[1] == bytes@[13] && w[2] == bytes@[14] && w[3]
                == bytes@[15]);
            crate::bytes::half_bytes_round_trip(bytes@, 4);
            crate::bytes::half_bytes_round_trip(bytes@, 6);
            assert(r.stored() =~= bytes@);
        }
        r
    }

    /// The record as the words a backend writes.
    pub fn to_words(&self) -> (words: [u32; 4])
        ensures
            words@ == self.words(),
    {
        let bytes: Vec<u8> = self.to_bytes();
        let b: &[u8] = bytes.as_slice();
        let words: [u32; 4] = [read_u32(b, 0), read_u32(b, 4), read_u32(b, 8), read_u32(b, 12)];
        assert(words@ =~= self.words());
        words
    }

    /// The record in the words a backend read.
    pub fn from_words(words: [u32; 4]) -> (r: BootStore)
        ensures
            r.words() == words@,
    {
        let mut bytes: Vec<u8> = word_bytes(words[0]);
        let mut b: Vec<u8> = word_bytes(words[1]);
        let mut c: Vec<u8> = word_bytes(words[2]);
        let mut d: Vec<u8> = word_bytes(words[3]);
        bytes.append(&mut b);
        bytes.append(&mut c);
        bytes.append(&mut d);
        let r: BootStore = BootStore::from_bytes(bytes.as_slice());
        proof {
            assert forall|i: int| 0 <= i < 4 implies r.words()[i] == words@[i] by {
                assert(bytes@.subrange(4 * i, 4 * i + 4) =~= crate::bytes::le32(words@[i]));
                crate::bytes::u32_round_trips(words@[i], bytes@, 4 * i);
            }
            assert(r.words() =~= words@);
        }
        r
    }

    fn computed(&self) -> (crc: u32)
        ensures
            crc == crate::crc32::checksum(self.covered()),
    {
        let bytes: Vec<u8> = self.to_bytes();
        let crc: u32 = crc32(vstd::slice::slice_subrange(bytes.as_slice(), 0, COVERED));
        assert(self.stored().subrange(0, COVERED as int) =~= self.covered());
        crc
    }

    /// Stamp the checksum. A backend's `write` does this, so a record on its
    /// way to storage always carries a current one.
    pub fn seal(&mut self)
        ensures
            *final(self) == old(self).sealed(),
            final(self).valid(),
    {
        proof {
            a_sealed_record_is_valid(*self);
        }
        self.checksum = self.computed();
    }

    /// The record as stored, or `None` if the bytes do not check out.
    pub fn validated(self) -> (r: Option<BootStore>)
        ensures
            r == (if self.valid() {
                Some(self)
            } else {
                None
            }),
    {
        if self.checksum == self.computed() {
            Some(self)
        } else {
            None
        }
    }
}

impl BootState {
    /// Typed view of [`revert_reason`](Self::revert_reason). `None` is a code
    /// this build cannot decode, not [`RevertReason::NoRevert`].
    pub fn reason(&self) -> (reason: Option<RevertReason>)
        ensures
            reason == RevertReason::decode(self.revert_reason),
    {
        RevertReason::from_u8(self.revert_reason)
    }

    pub fn set_reason(&mut self, reason: RevertReason)
        ensures
            *final(self) == old(self).with_reason(reason),
            RevertReason::decode(final(self).revert_reason) == Some(reason),
    {
        self.revert_reason = reason.code();
    }

    fn shift(bank: &PhysicalBank) -> (shift: u8)
        ensures
            shift == BootState::spec_shift(*bank),
    {
        match bank {
            PhysicalBank::A => 0,
            PhysicalBank::B => 2,
        }
    }

    /// The stored [`BankState`] of a physical bank.
    pub fn bank(self, bank: &PhysicalBank) -> (state: BankState)
        ensures
            state == self.spec_bank(*bank),
    {
        BankState::from_bits(self.states >> BootState::shift(bank))
    }

    /// Overwrite one physical bank's [`BankState`], leaving the other bank's
    /// bits and the reserved upper bits untouched.
    pub fn set_bank(&mut self, bank: &PhysicalBank, state: BankState)
        ensures
            *final(self) == old(self).with_bank(*bank, state),
            final(self).spec_bank(*bank) == state,
            final(self).spec_bank(bank.spec_other()) == old(self).spec_bank(bank.spec_other()),
    {
        proof {
            set_bank_reaches_one_bank_only(*self, *bank, state);
        }
        let shift: u8 = BootState::shift(bank);
        self.states = (self.states & !(0b11u8 << shift)) | (state.code() << shift);
    }

    /// At most one bank is ever `New`: marking one demotes a stale `New` on
    /// the other to `Empty`.
    pub fn mark_new(&mut self, bank: &PhysicalBank)
        ensures
            *final(self) == old(self).with_new(*bank),
            final(self).spec_bank(*bank) == BankState::New,
            final(self).spec_bank(bank.spec_other()) != BankState::New,
    {
        proof {
            at_most_one_bank_is_on_trial(*self, *bank);
        }
        let other: PhysicalBank = bank.other();
        if let BankState::New = self.bank(&other) {
            self.set_bank(&other, BankState::Empty);
        }
        self.set_bank(bank, BankState::New);
    }
}

impl BankState {
    /// The two bits this state is stored as.
    pub fn code(self) -> (code: u8)
        ensures
            code == self.spec_code(),
            code < 4,
    {
        match self {
            BankState::Empty => 0,
            BankState::Valid => 1,
            BankState::New => 2,
            BankState::Invalid => 3,
        }
    }

    /// The state stored in the low two bits; every pattern is one.
    pub fn from_bits(bits: u8) -> (state: BankState)
        ensures
            state == BankState::decode(bits),
    {
        match bits & 0b11 {
            0 => BankState::Empty,
            1 => BankState::Valid,
            2 => BankState::New,
            _ => BankState::Invalid,
        }
    }
}

impl RevertReason {
    /// The byte this reason is stored as.
    pub fn code(self) -> (code: u8)
        ensures
            code == self.spec_code(),
            RevertReason::decode(code) == Some(self),
    {
        match self {
            RevertReason::NoRevert => 0,
            RevertReason::AttemptsExhausted => 1,
            RevertReason::VerifyFailed => 2,
            RevertReason::AppRejected => 3,
        }
    }

    /// Decode a stored [`BootState::revert_reason`] byte. `None` is a code
    /// this build does not know, which a newer BOOT may have written.
    pub fn from_u8(v: u8) -> (reason: Option<RevertReason>)
        ensures
            reason == RevertReason::decode(v),
            reason matches Some(r) ==> r.spec_code() == v,
            reason is Some <==> v <= 3,
    {
        match v {
            0 => Some(RevertReason::NoRevert),
            1 => Some(RevertReason::AttemptsExhausted),
            2 => Some(RevertReason::VerifyFailed),
            3 => Some(RevertReason::AppRejected),
            _ => None,
        }
    }
}

impl UpdateMailbox {
    /// Whether a flag of `bit` is set.
    pub fn get(self, bit: u8) -> (on: bool)
        ensures
            on == self.has(bit),
    {
        self.flags & bit != 0
    }

    /// Set or clear the flags of `bit`.
    pub fn set(&mut self, bit: u8, on: bool)
        ensures
            *final(self) == old(self).with(bit, on),
    {
        if on {
            self.flags = self.flags | bit;
        } else {
            self.flags = self.flags & !bit;
        }
    }

    /// Enter download mode on the next boot.
    pub fn request_update(self) -> (on: bool)
        ensures
            on == self.has(REQUEST),
    {
        self.get(REQUEST)
    }

    pub fn set_request_update(&mut self, on: bool)
        ensures
            *final(self) == old(self).with(REQUEST, on),
            final(self).has(REQUEST) == on,
            final(self).has(CONFIRM) == old(self).has(CONFIRM),
            final(self).has(REJECT) == old(self).has(REJECT),
    {
        proof {
            mailbox_flags_are_independent(*self, on);
        }
        self.set(REQUEST, on)
    }

    /// The trial image ran; promote it on the next boot. Only acted on while
    /// the image is actually on trial.
    pub fn confirmed(self) -> (on: bool)
        ensures
            on == self.has(CONFIRM),
    {
        self.get(CONFIRM)
    }

    pub fn set_confirmed(&mut self, on: bool)
        ensures
            *final(self) == old(self).with(CONFIRM, on),
            final(self).has(CONFIRM) == on,
            final(self).has(REQUEST) == old(self).has(REQUEST),
            final(self).has(REJECT) == old(self).has(REJECT),
    {
        proof {
            mailbox_flags_are_independent(*self, on);
        }
        self.set(CONFIRM, on)
    }

    /// The application condemned the running image; revert on the next boot
    /// regardless of which state that image is in. When to set this is the
    /// application's call.
    pub fn rejected(self) -> (on: bool)
        ensures
            on == self.has(REJECT),
    {
        self.get(REJECT)
    }

    pub fn set_rejected(&mut self, on: bool)
        ensures
            *final(self) == old(self).with(REJECT, on),
            final(self).has(REJECT) == on,
            final(self).has(REQUEST) == old(self).has(REQUEST),
            final(self).has(CONFIRM) == old(self).has(CONFIRM),
    {
        proof {
            mailbox_flags_are_independent(*self, on);
        }
        self.set(REJECT, on)
    }
}

} // verus!
