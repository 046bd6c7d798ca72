//! What a boot comes to, case by case.
//!
//! Each law takes a situation, by what the record says of the two banks and
//! which flags are raised, and says what must happen then: where the boot
//! ends, and what the store is handed, field by field.

use vstd::prelude::*;

use crate::boot::{
    Boot, BootConfig, BootConfigError, CrcRange, Departure, Disposition, DsuError, LiveFuses,
    Outcome, Parts, Pending, Purpose, Settled, SlotRanges, Unverified, VerifyError,
    WatchdogTimeout,
};
use crate::consts::{Density, Layout};
use crate::manifest::AppManifest;
use crate::persist::{BankState, BootStorage, BootStore, PhysicalBank, RevertReason};

verus! {

// ── Vocabulary ──────────────────────────────────────────────────────────

/// The bank that is not `bank`.
pub open spec fn opposite(bank: PhysicalBank) -> PhysicalBank {
    if bank == PhysicalBank::A {
        PhysicalBank::B
    } else {
        PhysicalBank::A
    }
}

/// What a record says of one bank.
pub open spec fn says(record: BootStore, bank: PhysicalBank) -> BankState {
    record.boot_state.spec_bank(bank)
}

/// The application asked for an update.
pub open spec fn requested(record: BootStore) -> bool {
    record.mailbox.has(1)
}

/// The application confirmed itself.
pub open spec fn confirmed(record: BootStore) -> bool {
    record.mailbox.has(2)
}

/// The application condemned itself.
pub open spec fn rejected(record: BootStore) -> bool {
    record.mailbox.has(4)
}

/// `after` is a sealed record that differs from `before` at most in the
/// states of the banks, the trial count, the revert reason and the three
/// flags.
pub open spec fn same_elsewhere(before: BootStore, after: BootStore) -> bool {
    &&& after.valid()
    &&& after.rollback == before.rollback
    &&& after.boot_state.reserved == before.boot_state.reserved
    &&& after.boot_state.states & 0xF0 == before.boot_state.states & 0xF0
    &&& after.mailbox.flags & 0xF8 == before.mailbox.flags & 0xF8
    &&& after.mailbox.reserved_a == before.mailbox.reserved_a
    &&& after.mailbox.reserved_b == before.mailbox.reserved_b
    &&& after.mailbox.reserved_c == before.mailbox.reserved_c
}

/// The three flags are as they were.
pub open spec fn same_flags(before: BootStore, after: BootStore) -> bool {
    &&& requested(after) == requested(before)
    &&& confirmed(after) == confirmed(before)
    &&& rejected(after) == rejected(before)
}

/// `after` is `before` with the image in `bank` abandoned for `reason`: the
/// bank condemned, the other bank and the count as they were.
pub open spec fn abandons(
    before: BootStore,
    after: BootStore,
    bank: PhysicalBank,
    reason: u8,
) -> bool {
    &&& same_elsewhere(before, after)
    &&& says(after, bank) == BankState::Invalid
    &&& says(after, opposite(bank)) == says(before, opposite(bank))
    &&& after.boot_state.boot_count == before.boot_state.boot_count
    &&& after.boot_state.revert_reason == reason
    &&& requested(after) == requested(before)
    &&& confirmed(after) == confirmed(before)
}

/// The store was handed `after`. If it took it the boot leaves by
/// `departure`, and if it did not the boot is back for a download.
pub open spec fn hands_over<St: BootStorage>(
    pre: St,
    after: BootStore,
    post: St,
    departure: Departure,
    boot: Boot<Unverified>,
    settled: Settled,
) -> bool {
    match settled {
        Settled::Leave(d) => d == departure && St::writes(pre, after, post, Ok(())),
        Settled::Download(b) => b == boot && exists|e: St::WriteErr| #[trigger]
            St::writes(pre, after, post, Err(e)),
    }
}

proof fn lemma_abandons(record: BootStore, cleared: BootStore, bank: PhysicalBank, reason: RevertReason)
    requires
        cleared.boot_state == record.boot_state,
        cleared.rollback == record.rollback,
        cleared.mailbox.reserved_a == record.mailbox.reserved_a,
        cleared.mailbox.reserved_b == record.mailbox.reserved_b,
        cleared.mailbox.reserved_c == record.mailbox.reserved_c,
        cleared.mailbox.flags & 0xF8 == record.mailbox.flags & 0xF8,
        requested(cleared) == requested(record),
        confirmed(cleared) == confirmed(record),
    ensures
        abandons(
            record,
            crate::boot::reverted(cleared, bank, reason).sealed(),
            bank,
            match reason {
                RevertReason::NoRevert => 0,
                RevertReason::AttemptsExhausted => 1,
                RevertReason::VerifyFailed => 2,
                RevertReason::AppRejected => 3,
            },
        ),
        rejected(crate::boot::reverted(cleared, bank, reason).sealed()) == rejected(cleared),
{
    crate::persist::set_bank_reaches_one_bank_only(cleared.boot_state, bank, BankState::Invalid);
    crate::persist::a_sealed_record_is_valid(crate::boot::reverted(cleared, bank, reason));
}

// ── Before the verdict ──────────────────────────────────────────────────

/// A store that cannot be read is taken for a fresh one: the boot goes on to
/// verify the active slot, and nothing is written.
pub proof fn an_unreadable_store_is_a_fresh_one<St: BootStorage>(
    boot: Boot<Unverified>,
    e: St::ReadErr,
    pre: St,
    post: St,
    outcome: Outcome,
)
    requires
        crate::boot::decides(boot, Err::<BootStore, St::ReadErr>(e), pre, post, outcome),
    ensures
        post == pre,
        outcome matches Outcome::Verify(p) && p.boot == boot && p.purpose == Purpose::SteadyBoot
            && p.record == BootStore::blank(),
{
}

/// An install that recorded its trial but never swapped is swapped in,
/// whatever else the record says, and nothing is written.
pub proof fn an_unfinished_install_is_swapped_in<St: BootStorage>(
    boot: Boot<Unverified>,
    record: BootStore,
    pre: St,
    post: St,
    outcome: Outcome,
)
    requires
        crate::boot::decides(boot, Ok::<BootStore, St::ReadErr>(record), pre, post, outcome),
        says(record, opposite(boot@.first_bank)) == BankState::New,
    ensures
        post == pre,
        outcome == Outcome::Settled(Settled::Leave(Departure::Swap)),
{
}

/// An image that condemned itself is abandoned as rejected and the flag goes
/// with it, whatever state its bank is in.
pub proof fn a_rejected_image_is_given_up<St: BootStorage>(
    boot: Boot<Unverified>,
    record: BootStore,
    pre: St,
    post: St,
    outcome: Outcome,
)
    requires
        crate::boot::decides(boot, Ok::<BootStore, St::ReadErr>(record), pre, post, outcome),
        says(record, opposite(boot@.first_bank)) != BankState::New,
        rejected(record),
    ensures
        outcome matches Outcome::Settled(settled) && exists|after: BootStore|
            {
                &&& #[trigger] abandons(record, after, boot@.first_bank, 3)
                &&& !rejected(after)
                &&& hands_over(pre, after, post, Departure::Swap, boot, settled)
            },
{
    let bank = boot@.first_bank;
    let cleared = crate::boot::reject_cleared(record);
    crate::persist::mailbox_flags_are_independent(record.mailbox, false);
    lemma_abandons(record, cleared, bank, RevertReason::AppRejected);
    let after = crate::boot::reverted(cleared, bank, RevertReason::AppRejected).sealed();
    assert(abandons(record, after, bank, 3));
}

/// A trial image that confirmed itself is verified once more before it is
/// promoted, and nothing is written until then.
pub proof fn a_confirmed_trial_is_verified_first<St: BootStorage>(
    boot: Boot<Unverified>,
    record: BootStore,
    pre: St,
    post: St,
    outcome: Outcome,
)
    requires
        crate::boot::decides(boot, Ok::<BootStore, St::ReadErr>(record), pre, post, outcome),
        says(record, opposite(boot@.first_bank)) != BankState::New,
        says(record, boot@.first_bank) == BankState::New,
        !rejected(record),
        confirmed(record),
    ensures
        post == pre,
        outcome matches Outcome::Verify(p) && p.boot == boot && p.record == record && p.purpose
            == Purpose::Promote,
{
}

/// A requested update ends in download mode, whatever the store makes of the
/// record with the request consumed.
pub proof fn a_requested_update_is_waited_for<St: BootStorage>(
    boot: Boot<Unverified>,
    record: BootStore,
    pre: St,
    post: St,
    outcome: Outcome,
)
    requires
        crate::boot::decides(boot, Ok::<BootStore, St::ReadErr>(record), pre, post, outcome),
        says(record, opposite(boot@.first_bank)) != BankState::New,
        !rejected(record),
        !(says(record, boot@.first_bank) == BankState::New && confirmed(record)),
        requested(record),
    ensures
        outcome == Outcome::Settled(Settled::Download(boot)),
        exists|after: BootStore, w: Result<(), St::WriteErr>|
            {
                &&& #[trigger] St::writes(pre, after, post, w)
                &&& same_elsewhere(record, after)
                &&& after.boot_state == record.boot_state
                &&& !requested(after)
                &&& confirmed(after) == confirmed(record)
                &&& !rejected(after)
            },
{
    let cleared = crate::boot::request_cleared(record);
    crate::persist::mailbox_flags_are_independent(record.mailbox, false);
    crate::persist::a_sealed_record_is_valid(cleared);
    let w = choose|w: Result<(), St::WriteErr>| #[trigger]
        St::writes(pre, cleared.sealed(), post, w);
    assert(St::writes(pre, cleared.sealed(), post, w));
    assert(same_elsewhere(record, cleared.sealed()));
}

/// An image on trial with attempts left is verified before it is tried
/// again; one with none left is abandoned as exhausted.
pub proof fn a_trial_goes_on_while_it_has_attempts<St: BootStorage>(
    boot: Boot<Unverified>,
    record: BootStore,
    pre: St,
    post: St,
    outcome: Outcome,
)
    requires
        crate::boot::decides(boot, Ok::<BootStore, St::ReadErr>(record), pre, post, outcome),
        says(record, opposite(boot@.first_bank)) != BankState::New,
        says(record, boot@.first_bank) == BankState::New,
        !rejected(record),
        !confirmed(record),
        !requested(record),
    ensures
        record.boot_state.boot_count < boot@.config.max_boot_attempts ==> post == pre && (
        outcome matches Outcome::Verify(p) && p.boot == boot && p.record == record && p.purpose
            == Purpose::Trial),
        record.boot_state.boot_count >= boot@.config.max_boot_attempts ==> (
        outcome matches Outcome::Settled(settled) && exists|after: BootStore|
            {
                &&& #[trigger] abandons(record, after, boot@.first_bank, 1)
                &&& !rejected(after)
                &&& hands_over(pre, after, post, Departure::Swap, boot, settled)
            }),
{
    let bank = boot@.first_bank;
    lemma_abandons(record, record, bank, RevertReason::AttemptsExhausted);
    let after = crate::boot::reverted(record, bank, RevertReason::AttemptsExhausted).sealed();
    assert(abandons(record, after, bank, 1));
}

/// A confirmed image, and one no record was ever kept of, is verified and
/// then booted; a confirmation changes nothing about it.
pub proof fn a_standing_image_is_verified<St: BootStorage>(
    boot: Boot<Unverified>,
    record: BootStore,
    pre: St,
    post: St,
    outcome: Outcome,
)
    requires
        crate::boot::decides(boot, Ok::<BootStore, St::ReadErr>(record), pre, post, outcome),
        says(record, opposite(boot@.first_bank)) != BankState::New,
        says(record, boot@.first_bank) == BankState::Valid || says(record, boot@.first_bank)
            == BankState::Empty,
        !rejected(record),
        !requested(record),
    ensures
        post == pre,
        outcome matches Outcome::Verify(p) && p.boot == boot && p.record == record && p.purpose
            == Purpose::SteadyBoot,
{
}

/// A condemned image gives way to a confirmed one in the other bank; with
/// none there the boot ends in download mode. Nothing is written.
pub proof fn a_condemned_image_gives_way<St: BootStorage>(
    boot: Boot<Unverified>,
    record: BootStore,
    pre: St,
    post: St,
    outcome: Outcome,
)
    requires
        crate::boot::decides(boot, Ok::<BootStore, St::ReadErr>(record), pre, post, outcome),
        says(record, opposite(boot@.first_bank)) != BankState::New,
        says(record, boot@.first_bank) == BankState::Invalid,
        !rejected(record),
        !requested(record),
    ensures
        post == pre,
        says(record, opposite(boot@.first_bank)) == BankState::Valid ==> outcome
            == Outcome::Settled(Settled::Leave(Departure::Swap)),
        says(record, opposite(boot@.first_bank)) != BankState::Valid ==> outcome
            == Outcome::Settled(Settled::Download(boot)),
{
}

/// What [`Boot::disposition`] answers agrees with what
/// [`Boot::boot_or_enter_download`] goes on to do, and an attempt is counted
/// from one.
pub proof fn a_disposition_names_the_situation(parts: Parts, record: BootStore)
    ensures
        ({
            let d = crate::boot::classify(parts, record);
            let here = says(record, parts.first_bank);
            let there = says(record, opposite(parts.first_bank));
            let count = record.boot_state.boot_count;
            let quiet = there != BankState::New && !rejected(record);
            let idle = quiet && !requested(record);
            let attempt = if count < 255 {
                count + 1
            } else {
                255
            };
            &&& d == Disposition::ResumeInstall <==> there == BankState::New
            &&& d == Disposition::Reject <==> there != BankState::New && rejected(record)
            &&& d == Disposition::Promote <==> quiet && here == BankState::New && confirmed(record)
            &&& d == Disposition::UpdateRequested <==> quiet && requested(record) && !(here
                == BankState::New && confirmed(record))
            &&& d is Trial <==> idle && here == BankState::New && !confirmed(record) && count
                < parts.config.max_boot_attempts
            &&& d is TrialExhausted <==> idle && here == BankState::New && !confirmed(record)
                && count >= parts.config.max_boot_attempts
            &&& d matches Disposition::Trial { attempt: a } ==> a == attempt
            &&& d matches Disposition::TrialExhausted { attempt: a } ==> a == attempt
            &&& d == Disposition::SteadyBoot <==> idle && (here == BankState::Valid || here
                == BankState::Empty)
            &&& d == Disposition::Rollback <==> idle && here == BankState::Invalid && there
                == BankState::Valid
            &&& d == Disposition::NoImage <==> idle && here == BankState::Invalid && there
                != BankState::Valid
        }),
{
}

// ── After the verdict ───────────────────────────────────────────────────

/// An image on trial that does not verify is abandoned at once: the boot
/// leaves for the other bank, and waits for a download only if the store
/// refused the record.
pub proof fn a_trial_that_does_not_verify_is_given_up<St: BootStorage>(
    pending: Pending,
    e: VerifyError,
    pre: St,
    post: St,
    settled: Settled,
)
    requires
        crate::boot::resumes(pending, Err(e), pre, post, settled),
        pending.purpose == Purpose::Trial,
    ensures
        exists|after: BootStore|
            {
                &&& #[trigger] abandons(pending.record, after, pending.boot@.first_bank, 2)
                &&& rejected(after) == rejected(pending.record)
                &&& hands_over(pre, after, post, Departure::Swap, pending.boot, settled)
            },
{
    let bank = pending.boot@.first_bank;
    lemma_abandons(pending.record, pending.record, bank, RevertReason::VerifyFailed);
    let after = crate::boot::reverted(pending.record, bank, RevertReason::VerifyFailed).sealed();
    assert(abandons(pending.record, after, bank, 2));
}

/// Any other image that does not verify is abandoned in the same way when
/// the other bank holds a confirmed one. When it does not, nothing is
/// written and the boot is back for a download.
pub proof fn an_image_that_does_not_verify_gives_way<St: BootStorage>(
    pending: Pending,
    e: VerifyError,
    pre: St,
    post: St,
    settled: Settled,
)
    requires
        crate::boot::resumes(pending, Err(e), pre, post, settled),
        pending.purpose != Purpose::Trial,
    ensures
        says(pending.record, opposite(pending.boot@.first_bank)) == BankState::Valid ==> exists|
            after: BootStore,
        |
            {
                &&& #[trigger] abandons(pending.record, after, pending.boot@.first_bank, 2)
                &&& rejected(after) == rejected(pending.record)
                &&& hands_over(pre, after, post, Departure::Swap, pending.boot, settled)
            },
        says(pending.record, opposite(pending.boot@.first_bank)) != BankState::Valid ==> post == pre
            && settled == Settled::Download(pending.boot),
{
    let bank = pending.boot@.first_bank;
    lemma_abandons(pending.record, pending.record, bank, RevertReason::VerifyFailed);
    let after = crate::boot::reverted(pending.record, bank, RevertReason::VerifyFailed).sealed();
    assert(abandons(pending.record, after, bank, 2));
}

/// A steady image that verifies is jumped to and nothing is written.
pub proof fn a_steady_image_that_verifies_runs<St: BootStorage>(
    pending: Pending,
    pre: St,
    post: St,
    settled: Settled,
)
    requires
        crate::boot::resumes(pending, Ok(()), pre, post, settled),
        pending.purpose == Purpose::SteadyBoot,
    ensures
        post == pre,
        settled == Settled::Leave(
            Departure::Jump { vector_table: pending.boot@.layout.boot_size },
        ),
{
}

/// A trial image that verifies is counted first, and then run under the
/// watchdog; if it could not be counted it is not run.
pub proof fn a_trial_that_verifies_is_counted_and_run<St: BootStorage>(
    pending: Pending,
    pre: St,
    post: St,
    settled: Settled,
)
    requires
        crate::boot::resumes(pending, Ok(()), pre, post, settled),
        pending.purpose == Purpose::Trial,
    ensures
        exists|after: BootStore|
            {
                &&& #[trigger] same_elsewhere(pending.record, after)
                &&& same_flags(pending.record, after)
                &&& after.boot_state.states == pending.record.boot_state.states
                &&& after.boot_state.revert_reason == pending.record.boot_state.revert_reason
                &&& after.boot_state.boot_count == (if pending.record.boot_state.boot_count < 255 {
                    pending.record.boot_state.boot_count + 1
                } else {
                    255
                })
                &&& hands_over(
                    pre,
                    after,
                    post,
                    Departure::TrialJump {
                        timeout: watchdog_code(pending.boot@.config.trial_timeout),
                        vector_table: pending.boot@.layout.boot_size,
                    },
                    pending.boot,
                    settled,
                )
            },
{
    let after = crate::boot::tried(pending.record).sealed();
    crate::persist::a_sealed_record_is_valid(crate::boot::tried(pending.record));
    a_watchdog_code_is_its_period(pending.boot@.config.trial_timeout);
    assert(same_elsewhere(pending.record, after));
}

/// A confirmed trial that verifies is written down as good, with its count,
/// the confirmation and any older revert reason gone, and then run; if that
/// could not be written it is not run.
pub proof fn a_confirmed_trial_that_verifies_is_promoted<St: BootStorage>(
    pending: Pending,
    pre: St,
    post: St,
    settled: Settled,
)
    requires
        crate::boot::resumes(pending, Ok(()), pre, post, settled),
        pending.purpose == Purpose::Promote,
    ensures
        exists|after: BootStore|
            {
                &&& #[trigger] same_elsewhere(pending.record, after)
                &&& says(after, pending.boot@.first_bank) == BankState::Valid
                &&& says(after, opposite(pending.boot@.first_bank)) == says(
                    pending.record,
                    opposite(pending.boot@.first_bank),
                )
                &&& after.boot_state.boot_count == 0
                &&& after.boot_state.revert_reason == 0
                &&& !confirmed(after)
                &&& requested(after) == requested(pending.record)
                &&& rejected(after) == rejected(pending.record)
                &&& hands_over(
                    pre,
                    after,
                    post,
                    Departure::Jump { vector_table: pending.boot@.layout.boot_size },
                    pending.boot,
                    settled,
                )
            },
{
    let bank = pending.boot@.first_bank;
    let promoted = crate::boot::promoted(pending.record, bank);
    crate::persist::set_bank_reaches_one_bank_only(
        pending.record.boot_state,
        bank,
        BankState::Valid,
    );
    crate::persist::mailbox_flags_are_independent(pending.record.mailbox, false);
    crate::persist::a_sealed_record_is_valid(promoted);
    assert(same_elsewhere(pending.record, promoted.sealed()));
}

// ── The verbs ───────────────────────────────────────────────────────────

/// The record each verb writes, field by field: condemning a bank, giving an
/// image up, counting a trial, and installing one into a bank.
pub proof fn what_the_verbs_write(record: BootStore, bank: PhysicalBank, reason: RevertReason)
    ensures
        ({
            let after = crate::boot::condemned(record, bank).sealed();
            &&& same_elsewhere(record, after) && same_flags(record, after)
            &&& says(after, bank) == BankState::Invalid
            &&& says(after, opposite(bank)) == says(record, opposite(bank))
            &&& after.boot_state.boot_count == record.boot_state.boot_count
            &&& after.boot_state.revert_reason == record.boot_state.revert_reason
        }),
        ({
            let after = crate::boot::reverted(record, bank, reason).sealed();
            &&& abandons(
                record,
                after,
                bank,
                match reason {
                    RevertReason::NoRevert => 0,
                    RevertReason::AttemptsExhausted => 1,
                    RevertReason::VerifyFailed => 2,
                    RevertReason::AppRejected => 3,
                },
            )
            &&& rejected(after) == rejected(record)
        }),
        ({
            let after = crate::boot::tried(record).sealed();
            &&& same_elsewhere(record, after) && same_flags(record, after)
            &&& after.boot_state.states == record.boot_state.states
            &&& after.boot_state.revert_reason == record.boot_state.revert_reason
            &&& after.boot_state.boot_count == (if record.boot_state.boot_count < 255 {
                record.boot_state.boot_count + 1
            } else {
                255
            })
        }),
        ({
            let after = crate::boot::installed(record, bank).sealed();
            &&& same_elsewhere(record, after)
            &&& says(after, bank) == BankState::New
            &&& says(after, opposite(bank)) == (if says(record, opposite(bank)) == BankState::New {
                BankState::Empty
            } else {
                says(record, opposite(bank))
            })
            &&& after.boot_state.boot_count == 0
            &&& after.boot_state.revert_reason == record.boot_state.revert_reason
            &&& requested(after) == requested(record)
            &&& !confirmed(after)
            &&& !rejected(after)
        }),
{
    let state = record.boot_state;
    let other = bank.spec_other();
    crate::persist::set_bank_reaches_one_bank_only(state, bank, BankState::Invalid);
    crate::persist::set_bank_reaches_one_bank_only(state, bank, BankState::New);
    crate::persist::set_bank_reaches_one_bank_only(state, other, BankState::Empty);
    crate::persist::set_bank_reaches_one_bank_only(
        state.with_bank(other, BankState::Empty),
        bank,
        BankState::New,
    );
    crate::persist::mailbox_flags_are_independent(record.mailbox, false);
    crate::persist::mailbox_flags_are_independent(record.mailbox.with(2, false), false);
    lemma_abandons(record, record, bank, reason);
    crate::persist::a_sealed_record_is_valid(crate::boot::condemned(record, bank));
    crate::persist::a_sealed_record_is_valid(crate::boot::tried(record));
    crate::persist::a_sealed_record_is_valid(crate::boot::installed(record, bank));
}

// ── The configuration ───────────────────────────────────────────────────

/// Bytes in one bank of a part.
pub open spec fn bank_bytes(density: Density) -> int {
    match density {
        Density::D18 => 131_072,
        Density::D19 => 262_144,
        Density::D20 => 524_288,
    }
}

/// [`Boot::new`] takes every configuration whose BOOTPROT protects exactly
/// BOOT, whose SmartEEPROM is one the hardware knows, and which leaves the
/// application a byte of its bank, and refuses the others by the first of
/// these they miss.
pub proof fn a_boot_starts_on_every_usable_part(
    layout: Layout,
    live: LiveFuses,
    config: BootConfig,
    r: Result<(Boot<Unverified>, u32), BootConfigError>,
)
    requires
        layout.wf(),
        call_ensures(Boot::<Unverified>::new, (layout, live, config), r),
    ensures
        ({
            let guarded = (15 - live.bootprot) * 8192 == layout.boot_size;
            let known = live.see_sblk <= 10;
            let room = layout.boot_size + 16_384 * live.see_sblk < bank_bytes(layout.density);
            &&& r is Ok <==> guarded && known && room
            &&& r == Err::<(Boot<Unverified>, u32), _>(BootConfigError::BootprotMisconfigured)
                <==> !guarded
            &&& r == Err::<(Boot<Unverified>, u32), _>(BootConfigError::SmartEEPROMReservedSblk)
                <==> guarded && !known
            &&& r == Err::<(Boot<Unverified>, u32), _>(BootConfigError::SmartEEPROMTooLarge)
                <==> guarded && known && !room
        }),
        r matches Ok((boot, _)) ==> {
            &&& boot@.layout == layout
            &&& boot@.first_bank == live.first_bank
            &&& boot@.see_sblk == live.see_sblk
            &&& boot@.config == config
            &&& boot@.region_len() == bank_bytes(layout.density) - layout.boot_size - 16_384
                * live.see_sblk
            &&& boot@.region_len() > 0
        },
{
    assert(layout.boot_size as int % 8192 == 0);
    assert(layout.boot_size <= 122_880);
}

/// The locks [`Boot::new`] hands back cover both copies of BOOT and nothing
/// else that was open: a byte of either copy is locked, and any other byte is
/// exactly as it was.
pub proof fn a_boot_locks_itself_and_no_more(
    layout: Layout,
    live: LiveFuses,
    config: BootConfig,
    r: Result<(Boot<Unverified>, u32), BootConfigError>,
    region: u32,
    addr: int,
)
    requires
        layout.wf(),
        call_ensures(Boot::<Unverified>::new, (layout, live, config), r),
        region < 32,
        region * (bank_bytes(layout.density) / 16) <= addr,
        addr < (region + 1) * (bank_bytes(layout.density) / 16),
    ensures
        r matches Ok((_, locked)) ==> {
            let boot = 0 <= addr < layout.boot_size || bank_bytes(layout.density) <= addr
                < bank_bytes(layout.density) + layout.boot_size;
            &&& boot ==> (locked >> region) & 1 == 0
            &&& !boot ==> (locked >> region) & 1 == (live.runlock >> region) & 1
        },
{
    if let Ok((_, locked)) = r {
        lemma_locks(layout, live.runlock, locked, region, addr);
    }
}

proof fn lemma_locks(layout: Layout, runlock: u32, locked: u32, region: u32, addr: int)
    requires
        layout.wf(),
        crate::boot::locks_boot(layout, runlock, locked),
        region < 32,
        region * (bank_bytes(layout.density) / 16) <= addr,
        addr < (region + 1) * (bank_bytes(layout.density) / 16),
    ensures
        ({
            let boot = 0 <= addr < layout.boot_size || bank_bytes(layout.density) <= addr
                < bank_bytes(layout.density) + layout.boot_size;
            &&& boot ==> (locked >> region) & 1 == 0
            &&& !boot ==> (locked >> region) & 1 == (runlock >> region) & 1
        }),
{
    let flash = layout.density.spec_flash_size();
    let mask = choose|mask: u32|
        {
            &&& #[trigger] crate::consts::geometry::selects_boot_regions(
                mask,
                flash,
                layout.boot_size as int,
            )
            &&& forall|i: u32|
                i < 32 ==> (#[trigger] crate::consts::geometry::selects(locked, i)
                    <==> crate::consts::geometry::selects(runlock, i)
                    && !crate::consts::geometry::selects(mask, i))
        };
    crate::consts::geometry::masked_regions_are_the_boot_copies(
        flash,
        layout.boot_size as int,
        mask,
        region,
        addr,
    );
    assert(crate::consts::geometry::selects(locked, region)
        <==> crate::consts::geometry::selects(runlock, region)
        && !crate::consts::geometry::selects(mask, region));
    let (a, b) = (locked >> region, runlock >> region);
    assert((a & 1 == 0 || a & 1 == 1) && (b & 1 == 0 || b & 1 == 1)) by (bit_vector);
}

/// Re-locking a part's own BOOT says the same of every region as starting on
/// it does.
pub proof fn locking_boot_locks_both_copies(
    boot: Boot<Unverified>,
    runlock: u32,
    locked: u32,
    region: u32,
    addr: int,
)
    requires
        boot@.layout.wf(),
        call_ensures(Boot::<Unverified>::lock_boot_regions, (&boot, runlock), locked),
        region < 32,
        region * (bank_bytes(boot@.layout.density) / 16) <= addr,
        addr < (region + 1) * (bank_bytes(boot@.layout.density) / 16),
    ensures
        ({
            let bank = bank_bytes(boot@.layout.density);
            let copy = 0 <= addr < boot@.layout.boot_size || bank <= addr < bank
                + boot@.layout.boot_size;
            &&& copy ==> (locked >> region) & 1 == 0
            &&& !copy ==> (locked >> region) & 1 == (runlock >> region) & 1
        }),
{
    lemma_locks(boot@.layout, runlock, locked, region, addr);
}

/// The register code of a period.
pub open spec fn watchdog_code(t: WatchdogTimeout) -> u8 {
    match t {
        WatchdogTimeout::Cycles8 => 0,
        WatchdogTimeout::Cycles16 => 1,
        WatchdogTimeout::Cycles32 => 2,
        WatchdogTimeout::Cycles64 => 3,
        WatchdogTimeout::Cycles128 => 4,
        WatchdogTimeout::Cycles256 => 5,
        WatchdogTimeout::Cycles512 => 6,
        WatchdogTimeout::Cycles1K => 7,
        WatchdogTimeout::Cycles2K => 8,
        WatchdogTimeout::Cycles4K => 9,
        WatchdogTimeout::Cycles8K => 10,
        WatchdogTimeout::Cycles16K => 11,
    }
}

/// Every watchdog period is eight cycles doubled as often as its code says.
pub proof fn a_watchdog_code_is_its_period(t: WatchdogTimeout)
    ensures
        t.spec_code() == watchdog_code(t),
        8 * vstd::arithmetic::power2::pow2(t.spec_code() as nat) == (match t {
            WatchdogTimeout::Cycles8 => 8int,
            WatchdogTimeout::Cycles16 => 16,
            WatchdogTimeout::Cycles32 => 32,
            WatchdogTimeout::Cycles64 => 64,
            WatchdogTimeout::Cycles128 => 128,
            WatchdogTimeout::Cycles256 => 256,
            WatchdogTimeout::Cycles512 => 512,
            WatchdogTimeout::Cycles1K => 1024,
            WatchdogTimeout::Cycles2K => 2048,
            WatchdogTimeout::Cycles4K => 4096,
            WatchdogTimeout::Cycles8K => 8192,
            WatchdogTimeout::Cycles16K => 16384,
        }),
{
    vstd::arithmetic::power2::lemma2_to64();
}

// ── The slot ────────────────────────────────────────────────────────────

/// A slot verifies exactly when its manifest carries the magic, a layout this
/// build reads and a whole number of words that hold the manifest and fit the
/// region, and when the DSU finds both CRCs as claimed. The first of these
/// that is missed is the one reported.
pub proof fn what_makes_a_slot_good(
    parts: Parts,
    base: usize,
    m: AppManifest,
    dsu: spec_fn(u32, u32) -> Result<u32, DsuError>,
)
    requires
        parts.wf(),
        crate::boot::is_slot(parts, base),
    ensures
        ({
            let verdict = crate::boot::slot_verdict(parts, base, m, dsu);
            let begin = base + parts.layout.boot_size;
            let room = bank_bytes(parts.layout.density) - parts.layout.boot_size - 16_384
                * parts.see_sblk;
            let len = m.body.image_len as int;
            let sized = 0x460 <= len <= room && len % 4 == 0;
            let vectors = dsu(begin as u32, 0x400);
            let body = dsu((begin + 0x408) as u32, (len - 0x408) as u32);
            &&& m.body.magic != 0xa55a_f00b ==> verdict == Err::<(), _>(VerifyError::BadMagic)
            &&& m.body.magic == 0xa55a_f00b && m.body.fmt_version == 0 ==> verdict == Err::<(), _>(
                VerifyError::VersionMismatch,
            )
            &&& m.body.magic == 0xa55a_f00b && m.body.fmt_version >= 1 ==> {
                &&& !sized ==> verdict == Err::<(), _>(VerifyError::BadLen)
                &&& sized ==> match vectors {
                    Err(e) => verdict == Err::<(), _>(VerifyError::Dsu(e)),
                    Ok(crc) => if crc != m.head.crc32_vec_table {
                        verdict == Err::<(), _>(VerifyError::BadCrc)
                    } else {
                        match body {
                            Err(e) => verdict == Err::<(), _>(VerifyError::Dsu(e)),
                            Ok(crc) => if crc != m.head.crc32_image {
                                verdict == Err::<(), _>(VerifyError::BadCrc)
                            } else {
                                verdict == Ok::<(), VerifyError>(())
                            },
                        }
                    },
                }
            }
            &&& begin + 0x408 + (len - 0x408) <= u32::MAX || !sized
        }),
{
}

/// The two ranges of a slot lie on either side of the eight CRC bytes and
/// together make up the rest of the image.
pub proof fn the_ranges_surround_the_crcs(parts: Parts, base: usize, m: AppManifest)
    requires
        parts.wf(),
        crate::boot::is_slot(parts, base),
        0x460 <= m.body.image_len <= parts.region_len(),
    ensures
        ({
            let ranges = SlotRanges::of(parts, base, m);
            let begin = base + parts.layout.boot_size;
            &&& ranges.vec_table == (CrcRange {
                addr: begin as u32,
                len: 0x400,
                expected: m.head.crc32_vec_table,
            })
            &&& ranges.vec_table.addr == begin
            &&& ranges.image.addr == begin + 0x408
            &&& ranges.image.addr + ranges.image.len == begin + m.body.image_len
            &&& ranges.image.expected == m.head.crc32_image
        }),
{
}

/// After a swap the banks have changed places, and after two they are back.
pub proof fn a_swap_exchanges_the_banks(parts: Parts)
    ensures
        parts.inactive_bank() == opposite(parts.first_bank),
        parts.swapped().first_bank == opposite(parts.first_bank),
        parts.swapped().inactive_bank() == parts.first_bank,
        parts.swapped().swapped() == parts,
        parts.swapped().layout == parts.layout,
        parts.swapped().see_sblk == parts.see_sblk,
        parts.swapped().config == parts.config,
{
}

/// The slots of a part are its two banks: one at the base of flash, one half
/// way up.
pub proof fn the_slots_are_the_two_banks(parts: Parts, base: usize)
    ensures
        crate::boot::is_slot(parts, base) <==> base == 0 || base == bank_bytes(
            parts.layout.density,
        ),
{
}

} // verus!
