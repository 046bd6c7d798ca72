//! What a boot record means, down to its bytes.
//!
//! BOOT and the application are built apart and years may lie between them,
//! so what a record's bytes stand for is fixed here in numbers.

use vstd::prelude::*;

use crate::persist::backends::{
    BkupRamStore, SeeAction, SeeStatus, SmartEepromStore, StoreConfigError,
};
use crate::persist::{
    BankState, BootState, BootStorage, BootStore, PhysicalBank, RevertReason, UpdateMailbox,
};
use crate::persist::storage::Fallback;

verus! {

// ── The record ──────────────────────────────────────────────────────────

/// A bank's state is one base-4 digit of the states byte, bank A's the lowest
/// and bank B's the one above: 0 nothing, 1 confirmed, 2 on trial, 3
/// condemned.
pub proof fn a_bank_state_is_a_digit(s: BootState, bank: PhysicalBank)
    ensures
        ({
            let digit = if bank == PhysicalBank::A {
                s.states % 4
            } else {
                (s.states / 4) % 4
            };
            &&& s.spec_bank(bank) == BankState::Empty <==> digit == 0
            &&& s.spec_bank(bank) == BankState::Valid <==> digit == 1
            &&& s.spec_bank(bank) == BankState::New <==> digit == 2
            &&& s.spec_bank(bank) == BankState::Invalid <==> digit == 3
        }),
{
    let (a, b) = (s.states >> 0u8, s.states >> 2u8);
    crate::bytes::fields_are_digits(s.states, 0, 0);
    crate::bytes::fields_are_digits(a, 0, 0);
    crate::bytes::fields_are_digits(b, 0, 0);
}

/// The codes of the bank states, of which every bit pattern is one.
pub proof fn bank_state_codes(state: BankState, bits: u8)
    ensures
        BankState::Empty.spec_code() == 0,
        BankState::Valid.spec_code() == 1,
        BankState::New.spec_code() == 2,
        BankState::Invalid.spec_code() == 3,
        BankState::decode(bits).spec_code() == bits % 4,
        BankState::decode(state.spec_code()) == state,
{
    crate::bytes::fields_are_digits(bits, 0, 0);
    crate::bytes::fields_are_digits(state.spec_code(), 0, 0);
}

/// A revert reason is stored as its number: 0 none, 1 the attempts ran out, 2
/// it did not verify, 3 the application rejected itself; no other byte is one.
pub proof fn revert_reason_codes(v: u8)
    ensures
        RevertReason::decode(v) == Some(RevertReason::NoRevert) <==> v == 0,
        RevertReason::decode(v) == Some(RevertReason::AttemptsExhausted) <==> v == 1,
        RevertReason::decode(v) == Some(RevertReason::VerifyFailed) <==> v == 2,
        RevertReason::decode(v) == Some(RevertReason::AppRejected) <==> v == 3,
        RevertReason::decode(v) is None <==> v > 3,
        RevertReason::NoRevert.spec_code() == 0,
        RevertReason::AttemptsExhausted.spec_code() == 1,
        RevertReason::VerifyFailed.spec_code() == 2,
        RevertReason::AppRejected.spec_code() == 3,
{
}

/// The three flags are the three lowest bits: the update request, the
/// confirmation, the rejection.
pub proof fn mailbox_flags_are_bits(m: UpdateMailbox)
    ensures
        crate::persist::REQUEST == 1,
        crate::persist::CONFIRM == 2,
        crate::persist::REJECT == 4,
        m.has(1) <==> m.flags % 2 == 1,
        m.has(2) <==> (m.flags / 2) % 2 == 1,
        m.has(4) <==> (m.flags / 4) % 2 == 1,
{
    crate::bytes::fields_are_digits(m.flags, 0, 0);
}

/// Sixteen bytes, each where its field is: the bookkeeping, the watermark,
/// the mailbox, then the checksum of those twelve, low bytes first.
pub proof fn a_record_is_laid_out_in_words(r: BootStore)
    ensures
        ({
            let s = r.stored();
            &&& s.len() == 16
            &&& s[0] == r.boot_state.states
            &&& s[1] == r.boot_state.boot_count
            &&& s[2] == r.boot_state.revert_reason
            &&& s[3] == r.boot_state.reserved
            &&& s[4] + 256 * s[5] == r.rollback.highest_seen_manifest
            &&& s[6] + 256 * s[7] == r.rollback.reserved
            &&& s[8] == r.mailbox.flags
            &&& s[9] == r.mailbox.reserved_a
            &&& s[10] == r.mailbox.reserved_b
            &&& s[11] == r.mailbox.reserved_c
            &&& s[12] + 256 * s[13] + 65536 * s[14] + 16777216 * s[15] == r.checksum
            &&& r.words().len() == 4
            &&& forall|i: int|
                0 <= i < 4 ==> #[trigger] r.words()[i] == s[4 * i] + 256 * s[4 * i + 1] + 65536 * s[4
                    * i + 2] + 16777216 * s[4 * i + 3]
            &&& r.valid() <==> r.checksum == crate::crc32::checksum(s.subrange(0, 12))
        }),
{
    let s = r.stored();
    crate::bytes::fields_are_little_endian(s, 0, r.rollback.highest_seen_manifest, r.checksum);
    crate::bytes::fields_are_little_endian(s, 4, r.rollback.reserved, 0);
    crate::bytes::fields_are_little_endian(s, 8, 0, 0);
    crate::bytes::fields_are_little_endian(s, 12, 0, 0);
    assert(s.subrange(0, 12) =~= r.covered());
    assert forall|i: int| 0 <= i < 4 implies #[trigger] r.words()[i] == s[4 * i] + 256 * s[4 * i + 1]
        + 65536 * s[4 * i + 2] + 16777216 * s[4 * i + 3] by {
        crate::bytes::fields_are_little_endian(s, 4 * i, 0, 0);
    }
}

/// Sealing a record changes its checksum and nothing else, and a fresh one is
/// zero throughout.
pub proof fn sealing_touches_the_checksum_only(r: BootStore)
    ensures
        r.sealed().boot_state == r.boot_state,
        r.sealed().rollback == r.rollback,
        r.sealed().mailbox == r.mailbox,
        r.sealed().valid(),
        r.valid() ==> r.sealed() == r,
        forall|i: int| 0 <= i < 16 ==> #[trigger] BootStore::blank().stored()[i] == 0,
{
    crate::persist::a_sealed_record_is_valid(r);
    a_record_is_laid_out_in_words(BootStore::blank());
}

/// Marking a bank as installed says so of that bank, demotes a stale trial in
/// the other to nothing at all, and keeps everything else.
pub proof fn a_new_image_is_the_only_trial(s: BootState, bank: PhysicalBank)
    ensures
        ({
            let other = if bank == PhysicalBank::A {
                PhysicalBank::B
            } else {
                PhysicalBank::A
            };
            let after = s.with_new(bank);
            &&& after.spec_bank(bank) == BankState::New
            &&& after.spec_bank(other) == (if s.spec_bank(other) == BankState::New {
                BankState::Empty
            } else {
                s.spec_bank(other)
            })
            &&& after.boot_count == s.boot_count
            &&& after.revert_reason == s.revert_reason
            &&& after.reserved == s.reserved
            &&& after.states & 0xF0 == s.states & 0xF0
        }),
{
    let other = bank.spec_other();
    crate::persist::set_bank_reaches_one_bank_only(s, other, BankState::Empty);
    crate::persist::set_bank_reaches_one_bank_only(s, bank, BankState::New);
    crate::persist::set_bank_reaches_one_bank_only(
        s.with_bank(other, BankState::Empty),
        bank,
        BankState::New,
    );
}

/// Setting a bank, a reason or a flag leaves the fields beside it alone.
pub proof fn setters_keep_to_their_field(
    s: BootState,
    bank: PhysicalBank,
    state: BankState,
    reason: RevertReason,
    m: UpdateMailbox,
    bit: u8,
    on: bool,
)
    ensures
        s.with_bank(bank, state).boot_count == s.boot_count,
        s.with_bank(bank, state).revert_reason == s.revert_reason,
        s.with_bank(bank, state).reserved == s.reserved,
        s.with_reason(reason).states == s.states,
        s.with_reason(reason).boot_count == s.boot_count,
        s.with_reason(reason).reserved == s.reserved,
        m.with(bit, on).reserved_a == m.reserved_a,
        m.with(bit, on).reserved_b == m.reserved_b,
        m.with(bit, on).reserved_c == m.reserved_c,
{
}

// ── Reading and writing ─────────────────────────────────────────────────

/// Reading a store gives what it holds if that checks out, and zeros if it
/// does not; it fails exactly as the backend does.
pub proof fn what_a_read_gives<St: BootStorage>(
    pre: St,
    post: St,
    r: Result<BootStore, St::ReadErr>,
)
    requires
        crate::persist::storage::read_gives(pre, post, r),
    ensures
        r matches Err(e) ==> St::reads(pre, post, Err(e)),
        r matches Ok(record) ==> exists|raw: BootStore|
            {
                &&& #[trigger] St::reads(pre, post, Ok(raw))
                &&& raw.checksum == crate::crc32::checksum(raw.stored().subrange(0, 12)) ==> record
                    == raw
                &&& raw.checksum != crate::crc32::checksum(raw.stored().subrange(0, 12)) ==> forall|
                    i: int,
                |
                    0 <= i < 16 ==> #[trigger] record.stored()[i] == 0
            },
{
    if let Ok(record) = r {
        let raw = choose|raw: BootStore|
            #[trigger] St::reads(pre, post, Ok(raw)) && record == raw.usable();
        a_record_is_laid_out_in_words(raw);
        sealing_touches_the_checksum_only(raw);
    }
}

/// A spare that cannot be read is no authority: the pair answers as its
/// primary does.
pub proof fn an_unreadable_spare_defers_to_the_primary<P: BootStorage, S: BootStorage>(
    pre: Fallback<P, S>,
    post: Fallback<P, S>,
    r: Result<BootStore, P::ReadErr>,
)
    requires
        Fallback::<P, S>::reads(pre, post, r),
        forall|s: S, answer: Result<BootStore, S::ReadErr>| #[trigger]
            S::reads(pre.spare, s, answer) ==> answer is Err,
    ensures
        P::reads(pre.primary, post.primary, r),
{
}

/// The pair never answers out of thin air: what it reads is what its spare or
/// its primary read, and a sealed spare comes first.
pub proof fn the_pair_reads_one_of_its_stores<P: BootStorage, S: BootStorage>(
    pre: Fallback<P, S>,
    post: Fallback<P, S>,
    r: Result<BootStore, P::ReadErr>,
)
    requires
        Fallback::<P, S>::reads(pre, post, r),
    ensures
        exists|spare: Result<BootStore, S::ReadErr>|
            {
                &&& #[trigger] S::reads(pre.spare, post.spare, spare)
                &&& (spare matches Ok(held) && held.valid()) ==> r == Ok::<BootStore, P::ReadErr>(
                    spare->Ok_0,
                ) && post.primary == pre.primary
                &&& !(spare matches Ok(held) && held.valid()) ==> P::reads(
                    pre.primary,
                    post.primary,
                    r,
                )
            },
{
}

/// Writing to the pair clears its spare first, then tries its primary, and
/// only if that refuses tries the spare; it succeeds exactly when one of them
/// took the record.
pub proof fn the_pair_writes_to_its_primary_first<P: BootStorage, S: BootStorage>(
    pre: Fallback<P, S>,
    val: BootStore,
    post: Fallback<P, S>,
    r: Result<(), S::WriteErr>,
)
    requires
        Fallback::<P, S>::writes(pre, val, post, r),
    ensures
        exists|cleared: S, c: Result<(), S::WriteErr>, first: Result<(), P::WriteErr>|
            {
                &&& #[trigger] S::writes(pre.spare, BootStore::blank(), cleared, c)
                &&& #[trigger] P::writes(pre.primary, val, post.primary, first)
                &&& first is Ok ==> r is Ok && post.spare == cleared
                &&& first is Err ==> S::writes(cleared, val, post.spare, r)
            },
{
    let (cleared, c, first) = choose|
        cleared: S,
        c: Result<(), S::WriteErr>,
        first: Result<(), P::WriteErr>,
    |
        #[trigger] S::writes(pre.spare, BootStore::blank(), cleared, c)
            && #[trigger] crate::persist::storage::fallback_writes(
            pre,
            val,
            post,
            cleared,
            first,
            r,
        );
    assert(S::writes(pre.spare, BootStore::blank(), cleared, c));
    assert(P::writes(pre.primary, val, post.primary, first));
}

// ── SmartEEPROM ─────────────────────────────────────────────────────────

/// A SmartEEPROM holds a record exactly when it has between one and ten
/// blocks, is neither locked nor buffered, and is large enough: 512 bytes
/// doubled as often as its page size says, and never more than its blocks can
/// back.
pub proof fn what_a_smart_eeprom_must_be<const OFFSET: usize>(
    status: SeeStatus,
    r: Result<SmartEepromStore<OFFSET>, StoreConfigError>,
)
    requires
        OFFSET % 4 == 0,
        OFFSET + 16 <= usize::MAX,
        status.psz <= 7,
        call_ensures(SmartEepromStore::<OFFSET>::new, (status,), r),
    ensures
        ({
            let known = 1 <= status.sblk <= 10;
            let scaled = 512 * vstd::arithmetic::power2::pow2(status.psz as nat);
            let backed: int = if status.sblk == 1 {
                4096
            } else if status.sblk == 2 {
                8192
            } else if status.sblk <= 4 {
                16384
            } else if status.sblk <= 8 {
                32768
            } else {
                65536
            };
            let fits = OFFSET + 16 <= scaled && OFFSET + 16 <= backed;
            &&& r is Ok <==> known && fits && !status.lock && !status.buffered
            &&& r == Err::<SmartEepromStore<OFFSET>, _>(StoreConfigError::SeeUnavailable) <==> !known
            &&& r == Err::<SmartEepromStore<OFFSET>, _>(StoreConfigError::OffsetOutOfRange)
                <==> known && !fits
            &&& r == Err::<SmartEepromStore<OFFSET>, _>(StoreConfigError::SeeLocked) <==> known
                && fits && status.lock
            &&& r == Err::<SmartEepromStore<OFFSET>, _>(StoreConfigError::SeeBuffered) <==> known
                && fits && !status.lock && status.buffered
        }),
{
    lemma_scaled(status.psz);
}

proof fn lemma_scaled(psz: u8)
    requires
        psz <= 7,
    ensures
        512usize << psz == 512 * vstd::arithmetic::power2::pow2(psz as nat),
{
    vstd::arithmetic::power2::lemma2_to64();
    assert(512usize << 0u8 == 512 && 512usize << 1u8 == 1024 && 512usize << 2u8 == 2048 && 512usize
        << 3u8 == 4096 && 512usize << 4u8 == 8192 && 512usize << 5u8 == 16384 && 512usize << 6u8
        == 32768 && 512usize << 7u8 == 65536) by (bit_vector);
}

/// A word goes out only if it would change, as itself and to its own place;
/// it is read back once, and one that did not take ends the write as failed.
/// The write succeeds only with the last word found as wanted.
pub proof fn a_word_is_written_once_if_at_all(
    words: Seq<u32>,
    index: int,
    written: bool,
    read: u32,
)
    requires
        words.len() == 4,
        0 <= index < 4,
    ensures
        ({
            let next = crate::persist::backends::see_answer(words, index, written, read);
            &&& next is Write <==> read != words[index] && !written
            &&& next matches SeeAction::Write { index: i, word } ==> i == index && word
                == words[index]
            &&& next is Read <==> read == words[index] && index < 3
            &&& next matches SeeAction::Read { index: i } ==> i == index + 1
            &&& next matches SeeAction::Done(outcome) ==> (outcome is Ok <==> read == words[index])
            &&& next is Done <==> (read == words[index] && index == 3) || (read != words[index]
                && written)
        }),
{
}

/// A record is as far into its store as its offset says: backup RAM is at
/// `0x4700_0000`, SmartEEPROM at `0x4400_0000`, a word every four bytes.
pub proof fn where_a_record_is_kept<const OFFSET: usize>(
    ram: BkupRamStore<OFFSET>,
    see: SmartEepromStore<OFFSET>,
    index: usize,
    first: usize,
    word: usize,
)
    requires
        index < 4,
        call_ensures(BkupRamStore::<OFFSET>::ptr, (&ram,), first),
        call_ensures(SmartEepromStore::<OFFSET>::word_ptr, (&see, index), word),
    ensures
        first == 0x4700_0000 + OFFSET,
        word == 0x4400_0000 + OFFSET + 4 * index,
        crate::persist::STORE_SIZE == 16,
        crate::persist::COVERED == 12,
{
}

/// A fresh record is all zeros: it has nothing on either bank, no attempt or
/// revert counted, no flag raised, and is not sealed.
pub proof fn a_fresh_record_says_nothing(record: BootStore, bank: PhysicalBank)
    requires
        call_ensures(<BootStore as Default>::default, (), record),
    ensures
        record.boot_state.states == 0,
        record.boot_state.boot_count == 0,
        record.boot_state.revert_reason == 0,
        record.boot_state.reserved == 0,
        record.rollback.highest_seen_manifest == 0,
        record.rollback.reserved == 0,
        record.mailbox.flags == 0,
        record.mailbox.reserved_a == 0,
        record.mailbox.reserved_b == 0,
        record.mailbox.reserved_c == 0,
        record.checksum == 0,
        record.boot_state.spec_bank(bank) == BankState::Empty,
        !record.mailbox.has(1) && !record.mailbox.has(2) && !record.mailbox.has(4),
        !record.valid(),
{
    a_bank_state_is_a_digit(record.boot_state, bank);
    crate::bytes::fields_are_digits(0, 0, 0);
    crate::persist::unwritten_storage_is_not_a_record(record);
}

} // verus!
