//! What the bootloader promises over several boots.
//!
//! Each function here states one promise over the definitions that the
//! contracts in [`boot`](crate::boot) are written in, for every part, every
//! record and every store.

use vstd::prelude::*;

use crate::boot::{
    BodyCheck, Boot, Departure, Disposition, DsuError, Intact, Outcome, Parts, Pending, Purpose,
    Settled, SlotCheck, Unverified, VerifyError,
};
use crate::consts::MANIFEST_OFFSET;
use crate::flash_writer::FlashOp;
use crate::manifest::{AppManifest, MIN_IMAGE_LEN, OFF_BODY, OFF_CRC_VEC, OFF_IMAGE_LEN, OFF_VERSION};
use crate::persist::{BankState, BootStorage, BootStore, NoStore, RevertReason};

verus! {

// ── Verification ────────────────────────────────────────────────────────

/// A DSU that computes the CRC-32 of what flash holds.
pub open spec fn reads_flash(
    dsu: spec_fn(u32, u32) -> Result<u32, DsuError>,
    flash: Seq<u8>,
) -> bool {
    forall|addr: u32, len: u32|
        addr + len <= flash.len() ==> #[trigger] dsu(addr, len) == Ok::<u32, DsuError>(
            crate::crc32::checksum(flash.subrange(addr as int, addr + len)),
        )
}

/// Checking a slot in its three steps, [`Boot::check_slot`],
/// [`SlotCheck::vec_table`] and [`BodyCheck::image`], each given what the DSU
/// answers for the range it asks about and the first error ending it, comes
/// to the verdict on that slot.
pub proof fn the_checks_come_to_the_verdict(
    parts: Parts,
    base: usize,
    m: AppManifest,
    dsu: spec_fn(u32, u32) -> Result<u32, DsuError>,
    manifest: Result<SlotCheck, VerifyError>,
    vec_table: Result<BodyCheck, VerifyError>,
    image: Result<Intact, VerifyError>,
)
    requires
        crate::boot::checks_manifest(parts, base, m, manifest),
        match manifest {
            Ok(check) => {
                let range = check.spec_ranges().vec_table;
                check.checks_vec_table(dsu(range.addr, range.len), vec_table)
            },
            Err(e) => vec_table == Err::<BodyCheck, VerifyError>(e),
        },
        match vec_table {
            Ok(check) => {
                let range = check.spec_ranges().image;
                check.checks_image(dsu(range.addr, range.len), image)
            },
            Err(e) => image == Err::<Intact, VerifyError>(e),
        },
    ensures
        crate::boot::verdict_of(image) == crate::boot::slot_verdict(parts, base, m, dsu),
        crate::boot::speaks_of(image, base as int),
{
}

/// An image stamped by [`stamp`](crate::manifest::stamp) and placed in a
/// slot verifies there exactly when it fits the slot's app region.
pub proof fn a_stamped_image_verifies_where_it_fits(
    parts: Parts,
    base: usize,
    flash: Seq<u8>,
    image: Seq<u8>,
    version: u16,
    m: AppManifest,
    dsu: spec_fn(u32, u32) -> Result<u32, DsuError>,
)
    requires
        parts.wf(),
        crate::boot::is_slot(parts, base),
        image.len() >= MIN_IMAGE_LEN,
        image.len() % 4 == 0,
        image.len() <= u32::MAX,
        base + parts.layout.boot_size + image.len() <= flash.len() <= u32::MAX,
        flash.subrange(
            base + parts.layout.boot_size,
            base + parts.layout.boot_size + image.len(),
        ) == crate::manifest::stamped_image(image, version),
        m.stored_at(flash, base + parts.layout.boot_size + MANIFEST_OFFSET),
        reads_flash(dsu, flash),
    ensures
        crate::boot::slot_verdict(parts, base, m, dsu) == (if image.len() <= parts.region_len() {
            Ok::<(), VerifyError>(())
        } else {
            Err::<(), VerifyError>(VerifyError::BadLen)
        }),
{
    let begin = base + parts.layout.boot_size;
    let slot = crate::manifest::stamped_image(image, version);
    let len = image.len() as int;
    crate::manifest::a_stamped_image_describes_itself(image, version);
    crate::bytes::lemma_fields_of_a_window(flash, begin, slot, 0x400);
    crate::bytes::lemma_fields_of_a_window(flash, begin, slot, 0x404);
    crate::bytes::lemma_fields_of_a_window(flash, begin, slot, 0x410);
    crate::bytes::lemma_fields_of_a_window(flash, begin, slot, 0x414);
    crate::bytes::lemma_fields_of_a_window(flash, begin, slot, 0x41a);
    assert(m.body.image_len == len);
    if len <= parts.region_len() {
        let check = crate::boot::SlotRanges::of(parts, base, m);
        assert(flash.subrange(begin, begin + MANIFEST_OFFSET) =~= slot.subrange(
            0,
            MANIFEST_OFFSET as int,
        ));
        assert(flash.subrange(begin + OFF_BODY, begin + len) =~= slot.subrange(
            OFF_BODY as int,
            len,
        ));
        assert(dsu(check.vec_table.addr, check.vec_table.len) == Ok::<u32, DsuError>(
            crate::manifest::vec_table_crc(slot),
        ));
        assert(dsu(check.image.addr, check.image.len) == Ok::<u32, DsuError>(
            crate::manifest::image_crc(slot),
        ));
    }
}

/// A slot that verifies stops verifying when any one byte of its image
/// changes, outside the two CRC fields and the length field.
pub proof fn a_damaged_image_is_refused(
    parts: Parts,
    base: usize,
    flash: Seq<u8>,
    damaged: Seq<u8>,
    at: int,
    m: AppManifest,
    n: AppManifest,
    dsu: spec_fn(u32, u32) -> Result<u32, DsuError>,
    dsu_damaged: spec_fn(u32, u32) -> Result<u32, DsuError>,
)
    requires
        parts.wf(),
        crate::boot::is_slot(parts, base),
        parts.layout.spec_bank_size() + base <= flash.len() <= u32::MAX,
        damaged.len() == flash.len(),
        m.stored_at(flash, base + parts.layout.boot_size + MANIFEST_OFFSET),
        n.stored_at(damaged, base + parts.layout.boot_size + MANIFEST_OFFSET),
        reads_flash(dsu, flash),
        reads_flash(dsu_damaged, damaged),
        crate::boot::slot_verdict(parts, base, m, dsu) is Ok,
        0 <= at < m.body.image_len,
        !(OFF_CRC_VEC <= at < OFF_BODY),
        !(OFF_IMAGE_LEN <= at < OFF_VERSION),
        damaged[base + parts.layout.boot_size + at] != flash[base + parts.layout.boot_size + at],
        forall|i: int|
            0 <= i < flash.len() && i != base + parts.layout.boot_size + at ==> damaged[i]
                == flash[i],
    ensures
        crate::boot::slot_verdict(parts, base, n, dsu_damaged) is Err,
{
    let begin = base + parts.layout.boot_size;
    let len = m.body.image_len as int;
    let check = crate::boot::SlotRanges::of(parts, base, m);
    assert(m.head.crc32_vec_table == n.head.crc32_vec_table);
    assert(m.head.crc32_image == n.head.crc32_image);
    assert(m.body.image_len == n.body.image_len);
    if crate::boot::manifest_error(n, parts.region_len()) is None {
        assert(crate::boot::SlotRanges::of(parts, base, n) == check);
        let v = flash.subrange(begin, begin + MANIFEST_OFFSET);
        let w = damaged.subrange(begin, begin + MANIFEST_OFFSET);
        let x = flash.subrange(begin + OFF_BODY, begin + len);
        let y = damaged.subrange(begin + OFF_BODY, begin + len);
        assert(dsu(check.vec_table.addr, check.vec_table.len) == Ok::<u32, DsuError>(
            crate::crc32::checksum(v),
        ));
        assert(dsu(check.image.addr, check.image.len) == Ok::<u32, DsuError>(
            crate::crc32::checksum(x),
        ));
        assert(dsu_damaged(check.vec_table.addr, check.vec_table.len) == Ok::<u32, DsuError>(
            crate::crc32::checksum(w),
        ));
        assert(dsu_damaged(check.image.addr, check.image.len) == Ok::<u32, DsuError>(
            crate::crc32::checksum(y),
        ));
        if at < MANIFEST_OFFSET {
            crate::crc32::one_byte_of_damage_is_detected(v, w, at);
        } else {
            crate::crc32::one_byte_of_damage_is_detected(x, y, at - OFF_BODY);
        }
    }
}

/// A stamped image that fits its region verifies once its download has been
/// carried out, whatever flash held before, and nothing below the region has
/// been touched: neither the running image nor either copy of BOOT.
pub proof fn a_downloaded_image_verifies(
    parts: Parts,
    flash: Seq<u8>,
    image: Seq<u8>,
    version: u16,
    pages: Seq<crate::flash_writer::Page>,
    m: AppManifest,
    dsu: spec_fn(u32, u32) -> Result<u32, DsuError>,
    a: int,
)
    requires
        parts.wf(),
        MIN_IMAGE_LEN <= image.len() <= parts.region_len(),
        image.len() % 4 == 0,
        parts.layout.spec_bank_size() * 2 <= flash.len() <= u32::MAX,
        crate::flash_writer::page_views(pages) == crate::flash_writer::pages_of(
            crate::flash_writer::words_of(crate::manifest::stamped_image(image, version)),
        ),
        m.stored_at(
            downloaded(parts, flash, pages),
            parts.layout.spec_bank_size() + parts.layout.boot_size + MANIFEST_OFFSET,
        ),
        reads_flash(dsu, downloaded(parts, flash, pages)),
        0 <= a < parts.layout.spec_bank_size() + parts.layout.boot_size,
    ensures
        crate::boot::slot_verdict(parts, parts.layout.spec_bank_size() as usize, m, dsu) == Ok::<
            (),
            VerifyError,
        >(()),
        downloaded(parts, flash, pages)[a] == flash[a],
{
    let base = parts.layout.spec_bank_size();
    let stamped = crate::manifest::stamped_image(image, version);
    lemma_download_lands(parts, flash, stamped, pages, a);
    a_stamped_image_verifies_where_it_fits(
        parts,
        base as usize,
        downloaded(parts, flash, pages),
        image,
        version,
        m,
        dsu,
    );
}

proof fn lemma_download_lands(
    parts: Parts,
    flash: Seq<u8>,
    bytes: Seq<u8>,
    pages: Seq<crate::flash_writer::Page>,
    a: int,
)
    requires
        parts.wf(),
        bytes.len() <= parts.region_len(),
        parts.layout.spec_bank_size() * 2 <= flash.len() <= u32::MAX,
        crate::flash_writer::page_views(pages) == crate::flash_writer::pages_of(
            crate::flash_writer::words_of(bytes),
        ),
        0 <= a < parts.layout.spec_bank_size() + parts.layout.boot_size,
    ensures
        ({
            let begin = parts.layout.spec_bank_size() + parts.layout.boot_size;
            let after = downloaded(parts, flash, pages);
            &&& after.len() == flash.len()
            &&& after.subrange(begin, begin + bytes.len()) == bytes
            &&& after[a] == flash[a]
        }),
{
    let begin = parts.layout.spec_bank_size() + parts.layout.boot_size;
    let after = downloaded(parts, flash, pages);
    let writer = region(parts);
    lemma_region(parts);
    assert(crate::flash_writer::page_views(pages).len() == pages.len());
    assert(pages.len() * 512 <= parts.region_len());
    assert forall|k: int| 0 <= k < bytes.len() implies after[begin + k] == bytes[k] by {
        crate::flash_writer::a_written_image_is_what_the_region_holds(
            flash,
            writer,
            bytes,
            pages,
            begin + k,
        );
    }
    crate::flash_writer::a_written_image_is_what_the_region_holds(flash, writer, bytes, pages, a);
    assert(after.subrange(begin, begin + bytes.len()) =~= bytes);
}

/// The region a download is written to.
pub open spec fn region(parts: Parts) -> crate::flash_writer::FlashWriter {
    let begin = parts.layout.spec_bank_size() + parts.layout.boot_size;
    crate::flash_writer::FlashWriter {
        begin: begin as usize,
        end: (begin + parts.region_len()) as usize,
    }
}

/// The region a download is written to is one a writer takes.
pub proof fn lemma_region(parts: Parts)
    requires
        parts.wf(),
    ensures
        region(parts).wf(),
        region(parts).begin == parts.layout.spec_bank_size() + parts.layout.boot_size,
        region(parts).end == region(parts).begin + parts.region_len(),
        region(parts).end <= parts.layout.spec_bank_size() * 2,
        parts.region_len() % 512 == 0,
{
    assert(parts.layout.boot_size as int % 8192 == 0);
    assert(parts.layout.spec_bank_size() % 8192 == 0);
}

/// Flash once a download of these pages has been carried out.
pub open spec fn downloaded(
    parts: Parts,
    flash: Seq<u8>,
    pages: Seq<crate::flash_writer::Page>,
) -> Seq<u8> {
    crate::flash_writer::apply_all(
        flash,
        crate::flash_writer::ops_of(
            parts.layout.spec_bank_size() + parts.layout.boot_size,
            pages,
            pages.len(),
        ),
    )
}

/// An image that was never stamped does not verify, whatever the DSU says:
/// neither a slot that is erased nor one that only reserves its manifest.
pub proof fn an_unstamped_image_is_refused(
    parts: Parts,
    base: usize,
    flash: Seq<u8>,
    at: int,
    m: AppManifest,
    dsu: spec_fn(u32, u32) -> Result<u32, DsuError>,
)
    requires
        m.stored_at(flash, at),
        0 <= at,
        at + 96 <= flash.len(),
    ensures
        (forall|i: int| at <= i < at + 96 ==> flash[i] == 0xFF) ==> crate::boot::slot_verdict(
            parts,
            base,
            m,
            dsu,
        ) == Err::<(), VerifyError>(VerifyError::BadMagic),
        m.body.image_len == 0 ==> crate::boot::slot_verdict(parts, base, m, dsu) is Err,
{
    if forall|i: int| at <= i < at + 96 ==> flash[i] == 0xFF {
        let word = flash.subrange(at + 16, at + 20);
        assert(word =~= crate::bytes::le32(0xFFFF_FFFF)) by {
            assert((0xFFFF_FFFFu32 & 0xFF) as u8 == 0xFF && ((0xFFFF_FFFFu32 >> 8) & 0xFF) as u8
                == 0xFF && ((0xFFFF_FFFFu32 >> 16) & 0xFF) as u8 == 0xFF && ((0xFFFF_FFFFu32 >> 24)
                & 0xFF) as u8 == 0xFF) by (bit_vector);
        }
        crate::bytes::u32_round_trips(0xFFFF_FFFF, flash, at + 16);
    }
}

/// Locking the BOOT regions is idempotent, and no other region's lock
/// changes.
pub proof fn locking_boot_clobbers_nothing(
    layout: crate::consts::Layout,
    runlock: u32,
    locked: u32,
    again: u32,
    region: u32,
)
    requires
        crate::boot::locks_boot(layout, runlock, locked),
        crate::boot::locks_boot(layout, locked, again),
        region < 32,
    ensures
        crate::consts::geometry::selects(again, region) <==> crate::consts::geometry::selects(
            locked,
            region,
        ),
        crate::consts::geometry::selects(locked, region) ==> crate::consts::geometry::selects(
            runlock,
            region,
        ),
{
}

// ── What a record may lead to ───────────────────────────────────────────

/// A condemned image is never booted, tried or promoted, whatever else the
/// record holds.
pub proof fn a_condemned_image_is_never_booted(parts: Parts, record: BootStore)
    requires
        record.boot_state.spec_bank(parts.first_bank) == BankState::Invalid,
    ensures
        !(crate::boot::classify(parts, record) is SteadyBoot),
        !(crate::boot::classify(parts, record) is Trial),
        !(crate::boot::classify(parts, record) is Promote),
{
}

/// Nothing is jumped to before the active slot has been verified: a boot
/// that has not seen the verdict swaps, waits for it or enters download
/// mode.
pub proof fn no_jump_before_the_verdict<St: BootStorage>(
    boot: Boot<Unverified>,
    read: Result<BootStore, St::ReadErr>,
    pre: St,
    post: St,
    outcome: Outcome,
)
    requires
        crate::boot::decides(boot, read, pre, post, outcome),
    ensures
        outcome matches Outcome::Settled(Settled::Leave(d)) ==> d == Departure::Swap,
{
}

/// Nothing is jumped to after a verdict that went against it, and nothing is
/// promoted: the record that is written, if one is, condemns the image.
pub proof fn no_jump_after_a_failed_verdict<St: BootStorage>(
    pending: Pending,
    e: VerifyError,
    pre: St,
    post: St,
    settled: Settled,
)
    requires
        crate::boot::resumes(pending, Err(e), pre, post, settled),
    ensures
        settled matches Settled::Leave(d) ==> d == Departure::Swap && St::writes(
            pre,
            crate::boot::reverted(
                pending.record,
                pending.boot@.first_bank,
                RevertReason::VerifyFailed,
            ).sealed(),
            post,
            Ok(()),
        ),
{
}

/// A steady image that stops verifying is only ever abandoned for a
/// confirmed one.
pub proof fn a_steady_image_falls_back_only_to_a_confirmed_one<St: BootStorage>(
    pending: Pending,
    e: VerifyError,
    pre: St,
    post: St,
    settled: Settled,
)
    requires
        crate::boot::resumes(pending, Err(e), pre, post, settled),
        pending.purpose != Purpose::Trial,
        settled is Leave,
    ensures
        pending.record.boot_state.spec_bank(pending.boot@.inactive_bank()) == BankState::Valid,
{
}

/// Without a store every boot is a steady one: the active slot is verified,
/// then jumped to if it passes, and otherwise the binary enters download
/// mode.
pub proof fn without_a_store_every_boot_is_steady(
    boot: Boot<Unverified>,
    read: Result<BootStore, core::convert::Infallible>,
    pre: NoStore,
    mid: NoStore,
    post: NoStore,
    outcome: Outcome,
    verdict: Result<(), VerifyError>,
    settled: Settled,
)
    requires
        crate::persist::storage::read_gives(pre, mid, read),
        crate::boot::decides(boot, read, mid, post, outcome),
        outcome matches Outcome::Verify(pending) ==> crate::boot::resumes(
            pending,
            verdict,
            post,
            post,
            settled,
        ),
    ensures
        outcome is Verify,
        verdict is Ok ==> settled == Settled::Leave(
            Departure::Jump { vector_table: boot@.layout.boot_size },
        ),
        verdict is Err ==> settled == Settled::Download(boot),
{
    lemma_blank_is_steady(boot@);
}

/// A fresh record, which is also what an unwritten or torn one reads as,
/// boots the active slot.
pub proof fn lemma_blank_is_steady(parts: Parts)
    ensures
        crate::boot::classify(parts, BootStore::blank()) == Disposition::SteadyBoot,
        BootStore::blank().boot_state.spec_bank(parts.inactive_bank()) == BankState::Empty,
{
    assert((0u8 >> 0u8) & 0b11 == 0 && (0u8 >> 2u8) & 0b11 == 0 && 0u8 & 1 == 0 && 0u8 & 2 == 0
        && 0u8 & 4 == 0) by (bit_vector);
}

// ── Trials ──────────────────────────────────────────────────────────────

/// The record after `n` trial boots.
pub open spec fn after_trials(record: BootStore, n: nat) -> BootStore
    decreases n,
{
    if n == 0 {
        record
    } else {
        crate::boot::tried(after_trials(record, (n - 1) as nat))
    }
}

/// A freshly installed image that never confirms is tried exactly
/// `max_boot_attempts` times and then reverted.
pub proof fn the_trial_budget_is_spent_exactly(parts: Parts, record: BootStore, n: nat)
    requires
        record.boot_state.spec_bank(parts.first_bank) == BankState::New,
        record.boot_state.spec_bank(parts.inactive_bank()) != BankState::New,
        record.boot_state.boot_count == 0,
        !record.mailbox.has(crate::persist::REJECT),
        !record.mailbox.has(crate::persist::CONFIRM),
        !record.mailbox.has(crate::persist::REQUEST),
        n <= parts.config.max_boot_attempts,
    ensures
        crate::boot::classify(parts, after_trials(record, n)) == (if n
            < parts.config.max_boot_attempts {
            Disposition::Trial { attempt: crate::boot::counted(n as u8) }
        } else {
            Disposition::TrialExhausted { attempt: crate::boot::counted(n as u8) }
        }),
{
    lemma_after_trials(parts, record, n);
}

/// However the count got there, an image on trial whose budget is spent is
/// not tried again.
pub proof fn a_spent_budget_ends_the_trial(parts: Parts, record: BootStore)
    requires
        record.boot_state.spec_bank(parts.first_bank) == BankState::New,
        record.boot_state.boot_count >= parts.config.max_boot_attempts,
    ensures
        !(crate::boot::classify(parts, record) is Trial),
        record.boot_state.spec_bank(parts.inactive_bank()) != BankState::New
            && !record.mailbox.has(crate::persist::REJECT) && !record.mailbox.has(
            crate::persist::CONFIRM,
        ) && !record.mailbox.has(crate::persist::REQUEST) ==> crate::boot::classify(parts, record)
            is TrialExhausted,
{
}

proof fn lemma_after_trials(parts: Parts, record: BootStore, n: nat)
    requires
        n <= 255,
        record.boot_state.boot_count == 0,
    ensures
        after_trials(record, n).boot_state.boot_count == n,
        after_trials(record, n).boot_state.states == record.boot_state.states,
        after_trials(record, n).mailbox == record.mailbox,
    decreases n,
{
    if n > 0 {
        lemma_after_trials(parts, record, (n - 1) as nat);
    }
}

/// A trial image that confirmed itself and verifies is promoted, and the
/// boot after that is a steady one of the same image with a clean slate.
pub proof fn a_confirmed_trial_becomes_steady(parts: Parts, record: BootStore)
    requires
        crate::boot::classify(parts, record) == Disposition::Promote,
        !record.mailbox.has(crate::persist::REQUEST),
    ensures
        ({
            let after = crate::boot::promoted(record, parts.first_bank);
            &&& crate::boot::classify(parts, after) == Disposition::SteadyBoot
            &&& after.boot_state.spec_bank(parts.first_bank) == BankState::Valid
            &&& after.boot_state.spec_bank(parts.inactive_bank()) == record.boot_state.spec_bank(
                parts.inactive_bank(),
            )
            &&& after.boot_state.boot_count == 0
            &&& RevertReason::decode(after.boot_state.revert_reason) == Some(RevertReason::NoRevert)
            &&& !after.mailbox.has(crate::persist::CONFIRM)
        }),
{
    crate::persist::set_bank_reaches_one_bank_only(
        record.boot_state,
        parts.first_bank,
        BankState::Valid,
    );
    crate::persist::mailbox_flags_are_independent(record.mailbox, false);
}

// ── Reverting ───────────────────────────────────────────────────────────

/// An abandoned image hands over to the other bank: after the swap that bank
/// is the active one, untouched, and the abandoned bank stays condemned with
/// the reason on record.
pub proof fn a_revert_hands_over_to_the_other_bank(
    parts: Parts,
    record: BootStore,
    reason: RevertReason,
)
    ensures
        ({
            let after = crate::boot::reverted(record, parts.first_bank, reason);
            &&& after.boot_state.spec_bank(parts.first_bank) == BankState::Invalid
            &&& after.boot_state.spec_bank(parts.swapped().first_bank)
                == record.boot_state.spec_bank(parts.inactive_bank())
            &&& RevertReason::decode(after.boot_state.revert_reason) == Some(reason)
            &&& after.mailbox == record.mailbox
            &&& after.rollback == record.rollback
        }),
{
    crate::persist::set_bank_reaches_one_bank_only(
        record.boot_state,
        parts.first_bank,
        BankState::Invalid,
    );
}

/// A revert to a confirmed image boots it: with no flag set the boot after
/// the swap is a steady one, so the previous image is running again.
pub proof fn a_revert_to_a_confirmed_image_boots_it(
    parts: Parts,
    record: BootStore,
    reason: RevertReason,
)
    requires
        record.boot_state.spec_bank(parts.inactive_bank()) == BankState::Valid,
        !record.mailbox.has(crate::persist::REJECT),
        !record.mailbox.has(crate::persist::REQUEST),
    ensures
        crate::boot::classify(
            parts.swapped(),
            crate::boot::reverted(record, parts.first_bank, reason),
        ) == Disposition::SteadyBoot,
{
    a_revert_hands_over_to_the_other_bank(parts, record, reason);
}

/// A rejection is consumed once: the record the revert writes no longer
/// carries it, so the bank swapped into is not condemned as well.
pub proof fn a_rejection_is_consumed_once(parts: Parts, record: BootStore)
    requires
        crate::boot::classify(parts, record) == Disposition::Reject,
    ensures
        ({
            let after = crate::boot::reverted(
                crate::boot::reject_cleared(record),
                parts.first_bank,
                RevertReason::AppRejected,
            );
            &&& !after.mailbox.has(crate::persist::REJECT)
            &&& crate::boot::classify(parts.swapped(), after) != Disposition::Reject
        }),
{
    crate::persist::mailbox_flags_are_independent(record.mailbox, false);
}

/// An update request is consumed once: the record written on the way into
/// download mode no longer carries it, and says the same otherwise.
pub proof fn an_update_request_is_consumed_once(parts: Parts, record: BootStore)
    ensures
        ({
            let after = crate::boot::request_cleared(record);
            &&& !after.mailbox.has(crate::persist::REQUEST)
            &&& crate::boot::classify(parts, after) != Disposition::UpdateRequested
            &&& after.mailbox.has(crate::persist::CONFIRM) == record.mailbox.has(
                crate::persist::CONFIRM,
            )
            &&& after.mailbox.has(crate::persist::REJECT) == record.mailbox.has(
                crate::persist::REJECT,
            )
            &&& after.boot_state == record.boot_state
        }),
{
    crate::persist::mailbox_flags_are_independent(record.mailbox, false);
}

/// A reset between a revert's record and its swap finishes the revert: the
/// record calls for the same swap again when the other bank is confirmed.
pub proof fn an_interrupted_revert_is_finished(
    parts: Parts,
    record: BootStore,
    reason: RevertReason,
)
    requires
        record.boot_state.spec_bank(parts.inactive_bank()) == BankState::Valid,
        !record.mailbox.has(crate::persist::REJECT),
        !record.mailbox.has(crate::persist::REQUEST),
    ensures
        crate::boot::classify(parts, crate::boot::reverted(record, parts.first_bank, reason))
            == Disposition::Rollback,
{
    a_revert_hands_over_to_the_other_bank(parts, record, reason);
}

// ── Installing ──────────────────────────────────────────────────────────

/// The bank a download overwrites is on record as condemned while it does:
/// from the write of [`Boot::condemn`] on, which [`Boot::download_region`]
/// and [`Boot::download`] ask for first, a store that takes the record says
/// so, and no operation of the download leaves the app region of that bank.
pub proof fn a_bank_is_condemned_before_it_is_overwritten<St: BootStorage>(
    parts: Parts,
    record: BootStore,
    pre: St,
    post: St,
    pages: Seq<crate::flash_writer::Page>,
    n: nat,
    i: int,
)
    requires
        parts.wf(),
        crate::persist::storage::accepts(
            pre,
            crate::boot::condemned(record, parts.inactive_bank()).sealed(),
        ),
        St::writes(
            pre,
            crate::boot::condemned(record, parts.inactive_bank()).sealed(),
            post,
            Ok(()),
        ),
        n <= pages.len(),
        n * 512 <= parts.region_len(),
        0 <= i < crate::flash_writer::ops_of(
            parts.layout.spec_bank_size() + parts.layout.boot_size,
            pages,
            n,
        ).len(),
    ensures
        forall|after: St, r: Result<BootStore, St::ReadErr>| #[trigger]
            crate::persist::storage::read_gives(post, after, r) ==> (r matches Ok(now)
                && now.boot_state.spec_bank(parts.inactive_bank()) == BankState::Invalid
                && now.boot_state.spec_bank(parts.first_bank) == record.boot_state.spec_bank(
                parts.first_bank,
            )),
        ({
            let bank = parts.layout.spec_bank_size();
            match crate::flash_writer::ops_of(bank + parts.layout.boot_size, pages, n)[i] {
                FlashOp::EraseBlock { addr } => bank + parts.layout.boot_size <= addr && addr + 8192
                    <= bank * 2,
                FlashOp::WritePage { addr, page: _ } => bank + parts.layout.boot_size <= addr && addr
                    + 512 <= bank * 2,
            }
        }),
{
    let begin = parts.layout.spec_bank_size() + parts.layout.boot_size;
    let after = crate::boot::condemned(record, parts.inactive_bank());
    crate::persist::set_bank_reaches_one_bank_only(
        record.boot_state,
        parts.inactive_bank(),
        BankState::Invalid,
    );
    crate::persist::a_sealed_record_is_valid(after);
    lemma_region(parts);
    crate::flash_writer::no_operation_leaves_its_blocks(begin, pages, n, i);
    assert(((n + 15) / 16) * 8192 <= parts.region_len()) by {
        assert(parts.region_len() % 8192 == 0) by {
            assert(parts.layout.boot_size as int % 8192 == 0);
            assert(parts.layout.spec_bank_size() % 8192 == 0);
        }
    }
}

/// While a download is in progress, and after one that failed, its target
/// bank is condemned and the running image's standing is untouched: nothing
/// falls back to the half-written bank, and a steady image goes on booting.
pub proof fn a_failed_download_leaves_its_target_condemned(parts: Parts, record: BootStore)
    ensures
        ({
            let after = crate::boot::condemned(record, parts.inactive_bank());
            &&& after.boot_state.spec_bank(parts.inactive_bank()) == BankState::Invalid
            &&& after.boot_state.spec_bank(parts.first_bank) == record.boot_state.spec_bank(
                parts.first_bank,
            )
            &&& after.mailbox == record.mailbox
            &&& !(crate::boot::classify(parts, after) is Rollback)
            &&& !(crate::boot::classify(parts, after) is ResumeInstall)
            &&& crate::boot::classify(parts, record) == Disposition::SteadyBoot
                ==> crate::boot::classify(parts, after) == Disposition::SteadyBoot
        }),
{
    crate::persist::set_bank_reaches_one_bank_only(
        record.boot_state,
        parts.inactive_bank(),
        BankState::Invalid,
    );
}

/// An installed image starts a fresh trial after the swap, whatever the
/// image it replaces had confirmed or rejected.
pub proof fn an_installed_image_starts_a_fresh_trial(parts: Parts, record: BootStore)
    requires
        parts.config.max_boot_attempts >= 1,
        !record.mailbox.has(crate::persist::REQUEST),
    ensures
        ({
            let after = crate::boot::installed(
                crate::boot::condemned(record, parts.inactive_bank()),
                parts.inactive_bank(),
            );
            crate::boot::classify(parts.swapped(), after) == (Disposition::Trial { attempt: 1 })
        }),
{
    lemma_installed(parts, record);
}

/// A reset between an install's record and its swap finishes the install.
pub proof fn an_interrupted_install_is_finished(parts: Parts, record: BootStore)
    ensures
        ({
            let after = crate::boot::installed(
                crate::boot::condemned(record, parts.inactive_bank()),
                parts.inactive_bank(),
            );
            crate::boot::classify(parts, after) == Disposition::ResumeInstall
        }),
{
    lemma_installed(parts, record);
}

/// The image an install replaces in service keeps its standing, so a trial
/// that fails has something to fall back on; only a replaced trial loses
/// its own.
pub proof fn an_install_keeps_the_outgoing_image(parts: Parts, record: BootStore)
    ensures
        ({
            let after = crate::boot::installed(
                crate::boot::condemned(record, parts.inactive_bank()),
                parts.inactive_bank(),
            );
            let before = record.boot_state.spec_bank(parts.first_bank);
            after.boot_state.spec_bank(parts.first_bank) == (if before == BankState::New {
                BankState::Empty
            } else {
                before
            })
        }),
{
    lemma_installed(parts, record);
}

/// An update that never confirms ends where it started: once its attempts
/// are spent the image that was running before it is active again, still
/// confirmed, and boots.
pub proof fn a_trial_that_never_confirms_ends_where_it_started(parts: Parts, record: BootStore)
    requires
        record.boot_state.spec_bank(parts.first_bank) == BankState::Valid,
        !record.mailbox.has(crate::persist::REQUEST),
    ensures
        ({
            let target = parts.inactive_bank();
            let budget = parts.config.max_boot_attempts;
            let trial = crate::boot::installed(crate::boot::condemned(record, target), target);
            let spent = after_trials(trial, budget as nat);
            let after = crate::boot::reverted(spent, target, RevertReason::AttemptsExhausted);
            &&& parts.swapped().first_bank == target
            &&& crate::boot::classify(parts.swapped(), spent) == Disposition::TrialExhausted {
                attempt: crate::boot::counted(budget),
            }
            &&& parts.swapped().swapped() == parts
            &&& crate::boot::classify(parts, after) == Disposition::SteadyBoot
            &&& after.boot_state.spec_bank(parts.first_bank) == BankState::Valid
            &&& after.boot_state.spec_bank(target) == BankState::Invalid
        }),
{
    let target = parts.inactive_bank();
    let budget = parts.config.max_boot_attempts as nat;
    let trial = crate::boot::installed(crate::boot::condemned(record, target), target);
    let spent = after_trials(trial, budget);
    lemma_installed(parts, record);
    the_trial_budget_is_spent_exactly(parts.swapped(), trial, budget);
    lemma_after_trials(parts.swapped(), trial, budget);
    a_revert_to_a_confirmed_image_boots_it(
        parts.swapped(),
        spent,
        RevertReason::AttemptsExhausted,
    );
    a_revert_hands_over_to_the_other_bank(
        parts.swapped(),
        spent,
        RevertReason::AttemptsExhausted,
    );
}

proof fn lemma_installed(parts: Parts, record: BootStore)
    ensures
        ({
            let after = crate::boot::installed(
                crate::boot::condemned(record, parts.inactive_bank()),
                parts.inactive_bank(),
            );
            let before = record.boot_state.spec_bank(parts.first_bank);
            &&& after.boot_state.spec_bank(parts.inactive_bank()) == BankState::New
            &&& after.boot_state.spec_bank(parts.first_bank) == (if before == BankState::New {
                BankState::Empty
            } else {
                before
            })
            &&& after.boot_state.boot_count == 0
            &&& !after.mailbox.has(crate::persist::CONFIRM)
            &&& !after.mailbox.has(crate::persist::REJECT)
            &&& after.mailbox.has(crate::persist::REQUEST) == record.mailbox.has(
                crate::persist::REQUEST,
            )
        }),
{
    let target = parts.inactive_bank();
    let start = crate::boot::condemned(record, target);
    crate::persist::set_bank_reaches_one_bank_only(record.boot_state, target, BankState::Invalid);
    crate::persist::set_bank_reaches_one_bank_only(
        start.boot_state,
        parts.first_bank,
        BankState::Empty,
    );
    crate::persist::set_bank_reaches_one_bank_only(start.boot_state, target, BankState::New);
    crate::persist::set_bank_reaches_one_bank_only(
        start.boot_state.with_bank(parts.first_bank, BankState::Empty),
        target,
        BankState::New,
    );
    crate::persist::mailbox_flags_are_independent(record.mailbox, false);
    crate::persist::mailbox_flags_are_independent(
        record.mailbox.with(crate::persist::CONFIRM, false),
        false,
    );
}

} // verus!
