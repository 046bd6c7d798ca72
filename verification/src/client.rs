//! Application-side client for the bootloader's boot record.
//!
//! The application talks to BOOT through the same [`BootStorage`] the
//! bootloader keeps its record in: open that store with the same backend and
//! offset BOOT uses, wrap it with [`BootClient::new`], and then, early in
//! `main`, call [`BootClient::boot_state`] to read why the bootloader last
//! reverted an image, if it ever has, and [`BootClient::confirm`] to mark the
//! running image good and take the trial watchdog over. A trial image that
//! never confirms is reverted once the attempt budget or the watchdog runs
//! out.
//!
//! Afterwards [`BootClient::reject`] condemns the running image,
//! [`BootClient::request_update`] asks BOOT to enter download mode on the
//! next boot, and [`BootClient::banks`] reads what the record says about each
//! bank. Every write is a read-modify-write of the boot record.

use vstd::prelude::*;

pub mod laws;

use crate::boot::{Disposition, Parts, WatchdogTimeout};
use crate::persist::{
    BankState, BootStorage, BootStore, PhysicalBank, RevertReason, CONFIRM, REJECT, REQUEST,
};

verus! {

/// What [`BootClient::confirm`] calls for on the watchdog.
#[derive(Clone, Copy, PartialEq, Eq, Structural, Debug)]
pub enum WdtHandoff {
    /// Disable it and start it again at the period asked for.
    Reconfigured,
    /// Disable it.
    Disabled,
    /// `Wdt.CTRLA.ALWAYSON` is set: the watchdog can be neither disabled nor
    /// reconfigured, only fed. The period asked for is ignored, and the
    /// application must go on feeding at the period already in force.
    LockedByAlwaysOn,
}

/// Failure of a mailbox update, which reads the record before writing the
/// amended one back.
#[derive(PartialEq, Eq, Debug)]
pub enum ClientError<R, W> {
    Read(R),
    Write(W),
}

/// The last rollback the bootloader recorded, for upstream reporting.
#[derive(Clone, Copy, PartialEq, Eq, Debug)]
pub struct BootOutcome {
    /// Why the bootloader last reverted an image, if it ever has. The code
    /// is sticky: a revert writes it and only a promotion clears it, so a
    /// steady boot long after a rollback still reports the same reason.
    /// `None` is also what an unrecognised code reads as, which is what a
    /// record written by a newer BOOT looks like.
    pub revert_reason: Option<RevertReason>,
}

/// What the boot record says about each physical bank.
#[derive(Clone, Copy, PartialEq, Eq, Structural, Debug)]
pub struct Banks {
    /// The bank this image is running from.
    pub active: BankState,
    /// The other bank. [`BankState::Valid`] there is an image the bootloader
    /// would fall back to without verifying it first, so it is also the
    /// answer to whether this boot has anything behind it; anything else
    /// means it does not.
    pub inactive: BankState,
}

/// The application-side handle over the shared [`BootStorage`]: the
/// confirm/reject/update mailbox and the last boot's outcome.
pub struct BootClient<St> {
    pub store: St,
}

/// The record with one mailbox flag raised.
pub open spec fn flagged(record: BootStore, bit: u8) -> BootStore {
    BootStore { mailbox: record.mailbox.with(bit, true), ..record }
}

/// How raising a mailbox flag may end: the record could not be read, the
/// amended record was refused, or it was taken.
pub open spec fn raises<St: BootStorage>(
    pre: St,
    bit: u8,
    post: St,
    r: Result<(), ClientError<St::ReadErr, St::WriteErr>>,
) -> bool {
    match r {
        Err(ClientError::Read(e)) => crate::persist::storage::read_gives(
            pre,
            post,
            Err::<BootStore, St::ReadErr>(e),
        ),
        Err(ClientError::Write(e)) => exists|mid: St, record: BootStore|
            #[trigger] crate::persist::storage::read_gives(
                pre,
                mid,
                Ok::<BootStore, St::ReadErr>(record),
            ) && St::writes(mid, flagged(record, bit).sealed(), post, Err(e)),
        Ok(_) => exists|mid: St, record: BootStore|
            #[trigger] crate::persist::storage::read_gives(
                pre,
                mid,
                Ok::<BootStore, St::ReadErr>(record),
            ) && St::writes(mid, flagged(record, bit).sealed(), post, Ok(())),
    }
}

/// What a record says of the last rollback.
pub open spec fn outcome_in(record: BootStore) -> BootOutcome {
    BootOutcome { revert_reason: RevertReason::decode(record.boot_state.revert_reason) }
}

/// What a record says of each bank while `active` runs.
pub open spec fn banks_in(record: BootStore, active: PhysicalBank) -> Banks {
    Banks {
        active: record.boot_state.spec_bank(active),
        inactive: record.boot_state.spec_bank(active.spec_other()),
    }
}

/// What a confirmation calls for on the watchdog.
pub open spec fn handoff_for(always_on: bool, asked: bool) -> WdtHandoff {
    if always_on {
        WdtHandoff::LockedByAlwaysOn
    } else if asked {
        WdtHandoff::Reconfigured
    } else {
        WdtHandoff::Disabled
    }
}

impl<St: BootStorage> BootClient<St> {
    /// Wrap a store the application already opened.
    ///
    /// It must be the same backend, at the same offset, the bootloader keeps
    /// its record in, or the two do not see each other's writes.
    pub fn new(store: St) -> (client: BootClient<St>)
        ensures
            client.store == store,
    {
        BootClient { store }
    }

    /// Recover the wrapped store.
    pub fn free(self) -> (store: St)
        ensures
            store == self.store,
    {
        self.store
    }

    /// Raise the mailbox flag of `bit`, leaving the rest of the record as it
    /// is.
    fn set_flag(&mut self, bit: u8) -> (r: Result<(), ClientError<St::ReadErr, St::WriteErr>>)
        ensures
            raises(old(self).store, bit, final(self).store, r),
    {
        let mut record: BootStore = match self.store.read() {
            Ok(record) => record,
            Err(e) => return Err(ClientError::Read(e)),
        };
        let ghost mid = self.store;
        let ghost read = record;
        assert(crate::persist::storage::read_gives(
            old(self).store,
            mid,
            Ok::<BootStore, St::ReadErr>(read),
        ));
        record.mailbox.set(bit, true);
        match self.store.write(record) {
            Ok(()) => {
                assert(St::writes(mid, flagged(read, bit).sealed(), self.store, Ok(())));
                Ok(())
            },
            Err(e) => {
                assert(St::writes(mid, flagged(read, bit).sealed(), self.store, Err(e)));
                Err(ClientError::Write(e))
            },
        }
    }

    /// Read what the bootloader recorded on the way to this boot.
    pub fn boot_state(&mut self) -> (r: Result<BootOutcome, St::ReadErr>)
        ensures
            match r {
                Ok(outcome) => exists|record: BootStore| #[trigger]
                    crate::persist::storage::read_gives(
                        old(self).store,
                        final(self).store,
                        Ok::<BootStore, St::ReadErr>(record),
                    ) && outcome == outcome_in(record),
                Err(e) => crate::persist::storage::read_gives(
                    old(self).store,
                    final(self).store,
                    Err::<BootStore, St::ReadErr>(e),
                ),
            },
    {
        match self.store.read() {
            Ok(record) => {
                assert(crate::persist::storage::read_gives(
                    old(self).store,
                    self.store,
                    Ok::<BootStore, St::ReadErr>(record),
                ));
                Ok(BootOutcome { revert_reason: record.boot_state.reason() })
            },
            Err(e) => Err(e),
        }
    }

    /// Read what the bootloader's record says about each bank. `active` is
    /// the bank that is running.
    pub fn banks(&mut self, active: PhysicalBank) -> (r: Result<Banks, St::ReadErr>)
        ensures
            match r {
                Ok(banks) => exists|record: BootStore| #[trigger]
                    crate::persist::storage::read_gives(
                        old(self).store,
                        final(self).store,
                        Ok::<BootStore, St::ReadErr>(record),
                    ) && banks == banks_in(record, active),
                Err(e) => crate::persist::storage::read_gives(
                    old(self).store,
                    final(self).store,
                    Err::<BootStore, St::ReadErr>(e),
                ),
            },
    {
        let inactive: PhysicalBank = active.other();
        match self.store.read() {
            Ok(record) => {
                assert(crate::persist::storage::read_gives(
                    old(self).store,
                    self.store,
                    Ok::<BootStore, St::ReadErr>(record),
                ));
                Ok(
                    Banks {
                        active: record.boot_state.bank(&active),
                        inactive: record.boot_state.bank(&inactive),
                    },
                )
            },
            Err(e) => Err(e),
        }
    }

    /// Mark the running image good and say how to take the trial watchdog
    /// over.
    ///
    /// Call it early in init, with the watchdog freshly fed: the confirm
    /// flag is written before the watchdog is reconfigured, so a fault
    /// during the changeover is still covered. The bootloader promotes the
    /// image on the next boot. `always_on` is `Wdt.CTRLA.ALWAYSON`; see
    /// [`WdtHandoff`] for what it rules out.
    ///
    /// On an error the watchdog is to be left as the bootloader armed it,
    /// and the caller must go on feeding it.
    pub fn confirm(&mut self, always_on: bool, cfg: Option<WatchdogTimeout>) -> (r: Result<
        WdtHandoff,
        ClientError<St::ReadErr, St::WriteErr>,
    >)
        ensures
            match r {
                Ok(handoff) => raises(old(self).store, CONFIRM, final(self).store, Ok(()))
                    && handoff == handoff_for(always_on, cfg is Some),
                Err(e) => raises(old(self).store, CONFIRM, final(self).store, Err(e)),
            },
    {
        match self.set_flag(CONFIRM) {
            Ok(_) => {},
            Err(e) => return Err(e),
        }
        if always_on {
            Ok(WdtHandoff::LockedByAlwaysOn)
        } else if cfg.is_some() {
            Ok(WdtHandoff::Reconfigured)
        } else {
            Ok(WdtHandoff::Disabled)
        }
    }

    /// Condemn the running image. The bootloader reverts on the next boot.
    /// Safe to call from a panic handler as a fast path to revert; if the
    /// write cannot land, the trial watchdog and attempt counter remain the
    /// backstop.
    pub fn reject(&mut self) -> (r: Result<(), ClientError<St::ReadErr, St::WriteErr>>)
        ensures
            raises(old(self).store, REJECT, final(self).store, r),
    {
        self.set_flag(REJECT)
    }

    /// Ask the bootloader to enter download mode on the next boot.
    pub fn request_update(&mut self) -> (r: Result<(), ClientError<St::ReadErr, St::WriteErr>>)
        ensures
            raises(old(self).store, REQUEST, final(self).store, r),
    {
        self.set_flag(REQUEST)
    }
}

// ── Laws ────────────────────────────────────────────────────────────────

/// Raising a flag leaves the trial bookkeeping and the other flags alone.
pub proof fn a_flag_leaves_the_bookkeeping_alone(record: BootStore, bit: u8)
    requires
        bit == REQUEST || bit == CONFIRM || bit == REJECT,
    ensures
        flagged(record, bit).boot_state == record.boot_state,
        flagged(record, bit).rollback == record.rollback,
        flagged(record, bit).mailbox.has(bit),
        bit != REQUEST ==> flagged(record, bit).mailbox.has(REQUEST) == record.mailbox.has(REQUEST),
        bit != CONFIRM ==> flagged(record, bit).mailbox.has(CONFIRM) == record.mailbox.has(CONFIRM),
        bit != REJECT ==> flagged(record, bit).mailbox.has(REJECT) == record.mailbox.has(REJECT),
{
    crate::persist::mailbox_flags_are_independent(record.mailbox, true);
}

/// A trial image that confirms itself is promoted on the next boot, unless
/// it was also rejected.
pub proof fn a_confirmation_is_acted_on(parts: Parts, record: BootStore)
    requires
        record.boot_state.spec_bank(parts.first_bank) == BankState::New,
        record.boot_state.spec_bank(parts.inactive_bank()) != BankState::New,
        !record.mailbox.has(REJECT),
    ensures
        crate::boot::classify(parts, flagged(record, CONFIRM)) == Disposition::Promote,
{
    a_flag_leaves_the_bookkeeping_alone(record, CONFIRM);
}

/// A confirmation from an image that is not on trial changes nothing about
/// the next boot.
pub proof fn a_confirmation_outside_a_trial_is_left_alone(parts: Parts, record: BootStore)
    requires
        record.boot_state.spec_bank(parts.first_bank) != BankState::New,
    ensures
        crate::boot::classify(parts, flagged(record, CONFIRM)) == crate::boot::classify(
            parts,
            record,
        ),
{
    a_flag_leaves_the_bookkeeping_alone(record, CONFIRM);
}

/// A rejection is acted on whatever state the running image is in.
pub proof fn a_rejection_is_acted_on(parts: Parts, record: BootStore)
    requires
        record.boot_state.spec_bank(parts.inactive_bank()) != BankState::New,
    ensures
        crate::boot::classify(parts, flagged(record, REJECT)) == Disposition::Reject,
{
    a_flag_leaves_the_bookkeeping_alone(record, REJECT);
}

/// An update request is acted on unless a verdict about the running image is
/// pending, which goes first.
pub proof fn an_update_request_is_acted_on(parts: Parts, record: BootStore)
    requires
        record.boot_state.spec_bank(parts.inactive_bank()) != BankState::New,
        !record.mailbox.has(REJECT),
        !(record.boot_state.spec_bank(parts.first_bank) == BankState::New && record.mailbox.has(
            CONFIRM,
        )),
    ensures
        crate::boot::classify(parts, flagged(record, REQUEST)) == Disposition::UpdateRequested,
{
    a_flag_leaves_the_bookkeeping_alone(record, REQUEST);
}

} // verus!
