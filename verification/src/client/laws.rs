//! What the application's side of the record does to it.

use vstd::prelude::*;

use crate::client::{BootClient, ClientError};
use crate::persist::{BootStorage, BootStore, PhysicalBank, RevertReason};

verus! {

/// `after` is `before`, sealed, with flag `bit` raised and everything else in
/// it as it was.
pub open spec fn raised(before: BootStore, after: BootStore, bit: u8) -> bool {
    &&& after.valid()
    &&& after.boot_state == before.boot_state
    &&& after.rollback == before.rollback
    &&& after.mailbox.has(1) == (bit == 1 || before.mailbox.has(1))
    &&& after.mailbox.has(2) == (bit == 2 || before.mailbox.has(2))
    &&& after.mailbox.has(4) == (bit == 4 || before.mailbox.has(4))
    &&& after.mailbox.flags & 0xF8 == before.mailbox.flags & 0xF8
    &&& after.mailbox.reserved_a == before.mailbox.reserved_a
    &&& after.mailbox.reserved_b == before.mailbox.reserved_b
    &&& after.mailbox.reserved_c == before.mailbox.reserved_c
}

/// Raising a flag reads the record and writes it back with that flag set and
/// nothing else changed. It succeeds exactly if both did, and says which of
/// them failed.
pub proof fn a_flag_is_raised_in_the_record_that_is_there<St: BootStorage>(
    pre: St,
    bit: u8,
    post: St,
    r: Result<(), ClientError<St::ReadErr, St::WriteErr>>,
)
    requires
        bit == 1 || bit == 2 || bit == 4,
        crate::client::raises(pre, bit, post, r),
    ensures
        r matches Err(ClientError::Read(e)) ==> St::reads(pre, post, Err(e)),
        !(r matches Err(ClientError::Read(e))) ==> exists|
            mid: St,
            before: BootStore,
            after: BootStore,
        |
            {
                &&& #[trigger] crate::persist::storage::read_gives(
                    pre,
                    mid,
                    Ok::<BootStore, St::ReadErr>(before),
                )
                &&& #[trigger] raised(before, after, bit)
                &&& match r {
                    Ok(_) => St::writes(mid, after, post, Ok(())),
                    Err(ClientError::Write(e)) => St::writes(mid, after, post, Err(e)),
                    Err(ClientError::Read(_)) => false,
                }
            },
{
    assert forall|before: BootStore| #[trigger]
        raised(before, crate::client::flagged(before, bit).sealed(), bit) by {
        crate::persist::mailbox_flags_are_independent(before.mailbox, true);
        crate::persist::a_sealed_record_is_valid(crate::client::flagged(before, bit));
    }
    match r {
        Ok(_) => {
            let (mid, before) = choose|mid: St, before: BootStore|
                #[trigger] crate::persist::storage::read_gives(
                    pre,
                    mid,
                    Ok::<BootStore, St::ReadErr>(before),
                ) && St::writes(mid, crate::client::flagged(before, bit).sealed(), post, Ok(()));
            assert(raised(before, crate::client::flagged(before, bit).sealed(), bit));
        },
        Err(ClientError::Write(e)) => {
            let (mid, before) = choose|mid: St, before: BootStore|
                #[trigger] crate::persist::storage::read_gives(
                    pre,
                    mid,
                    Ok::<BootStore, St::ReadErr>(before),
                ) && St::writes(mid, crate::client::flagged(before, bit).sealed(), post, Err(e));
            assert(raised(before, crate::client::flagged(before, bit).sealed(), bit));
        },
        Err(ClientError::Read(e)) => {},
    }
}

/// The application is told the reason the record holds, if it is one of the
/// known ones; and of each bank what the record has on it, the running bank's
/// before the other's.
pub proof fn what_the_application_is_told(record: BootStore, active: PhysicalBank)
    ensures
        ({
            let code = record.boot_state.revert_reason;
            let reason = crate::client::outcome_in(record).revert_reason;
            &&& reason == Some(RevertReason::NoRevert) <==> code == 0
            &&& reason == Some(RevertReason::AttemptsExhausted) <==> code == 1
            &&& reason == Some(RevertReason::VerifyFailed) <==> code == 2
            &&& reason == Some(RevertReason::AppRejected) <==> code == 3
            &&& reason is None <==> code > 3
        }),
        ({
            let a = record.boot_state.spec_bank(PhysicalBank::A);
            let b = record.boot_state.spec_bank(PhysicalBank::B);
            let told = crate::client::banks_in(record, active);
            &&& active is A ==> told.active == a && told.inactive == b
            &&& active is B ==> told.active == b && told.inactive == a
        }),
{
}

/// A watchdog that cannot be turned off is left alone; otherwise it is
/// restarted exactly if a period was asked for.
pub proof fn what_a_confirmation_asks_of_the_watchdog(always_on: bool, asked: bool)
    ensures
        ({
            let handoff = crate::client::handoff_for(always_on, asked);
            &&& handoff is LockedByAlwaysOn <==> always_on
            &&& handoff is Reconfigured <==> !always_on && asked
            &&& handoff is Disabled <==> !always_on && !asked
        }),
{
}

/// The three requests have a flag each.
pub proof fn which_flag_is_which()
    ensures
        crate::persist::REQUEST == 1,
        crate::persist::CONFIRM == 2,
        crate::persist::REJECT == 4,
{
}

/// A client is its store and nothing besides.
pub proof fn a_client_keeps_its_store<St: BootStorage>(
    store: St,
    client: BootClient<St>,
    back: St,
)
    requires
        call_ensures(BootClient::<St>::new, (store,), client),
        call_ensures(BootClient::<St>::free, (client,), back),
    ensures
        back == store,
{
}

} // verus!
