//! Where boot records are kept.
//!
//! [`BootStorage`] is the seam a product implements over whatever
//! non-volatile memory it has. What a backend does is stated by two
//! relations it chooses itself, [`BootStorage::reads`] and
//! [`BootStorage::writes`], so that code over any backend can say which
//! record it handed over and what it does with each answer, and a backend
//! that fails is as well described as one that works. One that says nothing
//! of itself may do anything.

use vstd::prelude::*;

use core::convert::Infallible;

use crate::persist::BootStore;

verus! {

/// Implementation for storing and retrieving [`BootStore`] from whatever
/// persistent storage a system has.
///
/// Each 32-bit word of [`BootStore`] (one sub-struct) must be written
/// atomically with respect to power loss: a cut mid-write may leave any mix
/// of old and new *words*, never a torn word. No ordering between words is
/// promised or required.
pub trait BootStorage: Sized {
    type WriteErr;

    type ReadErr;

    /// A raw read of the backend in state `pre` may answer `r` and leave the
    /// backend in state `post`.
    open spec fn reads(pre: Self, post: Self, r: Result<BootStore, Self::ReadErr>) -> bool {
        true
    }

    /// A raw write of `val` to the backend in state `pre` may answer `r` and
    /// leave the backend in state `post`.
    open spec fn writes(
        pre: Self,
        val: BootStore,
        post: Self,
        r: Result<(), Self::WriteErr>,
    ) -> bool {
        true
    }

    /// Hand back the stored bytes as they are, checksum unexamined.
    fn read_raw(&mut self) -> (r: Result<BootStore, Self::ReadErr>)
        ensures
            Self::reads(*old(self), *final(self), r),
    ;

    /// Persist the record. Must honour the per-word power-atomicity of the
    /// trait: only whole words may change, never a torn one.
    fn write_raw(&mut self, val: BootStore) -> (r: Result<(), Self::WriteErr>)
        ensures
            Self::writes(*old(self), val, *final(self), r),
    ;

    /// Read the record, falling back to the fresh default when the stored
    /// bytes do not check out.
    ///
    /// This is the accessor to use; `read_raw` is the backend's hook.
    fn read(&mut self) -> (r: Result<BootStore, Self::ReadErr>)
        ensures
            match r {
                Ok(record) => exists|raw: BootStore|
                    #[trigger] Self::reads(*old(self), *final(self), Ok(raw)) && record
                        == raw.usable(),
                Err(e) => Self::reads(*old(self), *final(self), Err(e)),
            },
    {
        match self.read_raw() {
            Ok(raw) => match raw.validated() {
                Some(record) => Ok(record),
                None => Ok(BootStore::default()),
            },
            Err(e) => Err(e),
        }
    }

    /// Stamp the checksum and store the record.
    fn write(&mut self, val: BootStore) -> (r: Result<(), Self::WriteErr>)
        ensures
            match r {
                Ok(_) => Self::writes(*old(self), val.sealed(), *final(self), Ok(())),
                Err(e) => Self::writes(*old(self), val.sealed(), *final(self), Err(e)),
            },
    {
        let mut sealed: BootStore = val;
        sealed.seal();
        let r: Result<(), Self::WriteErr> = self.write_raw(sealed);
        assert(r matches Ok(done) ==> done == ());
        r
    }
}

/// What [`BootStorage::read`] answers: the stored record if it checks out,
/// the fresh default if it does not, the backend's error if it failed.
pub open spec fn read_gives<St: BootStorage>(
    pre: St,
    post: St,
    r: Result<BootStore, St::ReadErr>,
) -> bool {
    match r {
        Ok(record) => exists|raw: BootStore|
            #[trigger] St::reads(pre, post, Ok(raw)) && record == raw.usable(),
        Err(e) => St::reads(pre, post, Err(e)),
    }
}

/// Whatever a raw read of this backend answers, it is this record.
pub open spec fn holds<St: BootStorage>(st: St, record: BootStore) -> bool {
    forall|post: St, r: Result<BootStore, St::ReadErr>| #[trigger]
        St::reads(st, post, r) ==> r == Ok::<BootStore, St::ReadErr>(record)
}

/// This backend accepts this record, and holds it from then on.
pub open spec fn accepts<St: BootStorage>(st: St, record: BootStore) -> bool {
    forall|post: St, r: Result<(), St::WriteErr>| #[trigger]
        St::writes(st, record, post, r) ==> r is Ok && holds(post, record)
}

/// This backend refuses this record, and goes on holding what it held.
pub open spec fn refuses<St: BootStorage>(st: St, record: BootStore) -> bool {
    forall|post: St, r: Result<(), St::WriteErr>| #[trigger]
        St::writes(st, record, post, r) ==> r is Err && (forall|held: BootStore| #[trigger]
            holds(st, held) ==> holds(post, held))
}

/// [`BootStorage`] for targets without SmartEEPROM: reads zeroed books,
/// discards writes. Trial bookkeeping is inert; every boot takes the steady
/// verify-and-jump path.
pub struct NoStore;

impl BootStorage for NoStore {
    type WriteErr = Infallible;

    type ReadErr = Infallible;

    open spec fn reads(pre: Self, post: Self, r: Result<BootStore, Infallible>) -> bool {
        post == pre && r == Ok::<BootStore, Infallible>(BootStore::blank())
    }

    open spec fn writes(pre: Self, val: BootStore, post: Self, r: Result<(), Infallible>) -> bool {
        post == pre && r == Ok::<(), Infallible>(())
    }

    fn read_raw(&mut self) -> (r: Result<BootStore, Infallible>) {
        Ok(BootStore::default())
    }

    fn write_raw(&mut self, val: BootStore) -> (r: Result<(), Infallible>) {
        Ok(())
    }
}

/// A store that keeps tracking when its primary cannot be written.
///
/// Writes go to `primary`. One that fails goes to `spare` instead, which is
/// then the authority until a primary write lands again or the spare itself
/// is lost. Reads prefer the spare exactly when it holds a sealed record,
/// which is the case where the primary is behind.
///
/// The spare this exists for is backup RAM: it survives every reset, so a
/// trial keeps counting and can still revert, and it does *not* survive loss
/// of power, so it cannot outlive the fault it covers for. Without a spare, a
/// primary whose writes fail while an image is on trial leaves the
/// bootloader with nowhere to go, because installing a replacement needs a
/// write too.
pub struct Fallback<P, S> {
    pub primary: P,
    pub spare: S,
}

impl<P, S> Fallback<P, S> {
    pub fn new(primary: P, spare: S) -> (f: Fallback<P, S>)
        ensures
            f.primary == primary,
            f.spare == spare,
    {
        Fallback { primary, spare }
    }

    pub fn free(self) -> (parts: (P, S))
        ensures
            parts == (self.primary, self.spare),
    {
        (self.primary, self.spare)
    }
}

/// What a raw read of the pair answers, given what the spare answered.
pub open spec fn fallback_reads<P: BootStorage, S: BootStorage>(
    pre: Fallback<P, S>,
    post: Fallback<P, S>,
    spare: Result<BootStore, S::ReadErr>,
    r: Result<BootStore, P::ReadErr>,
) -> bool {
    if spare matches Ok(record) && record.valid() {
        post.primary == pre.primary && r == Ok::<BootStore, P::ReadErr>(spare->Ok_0)
    } else {
        P::reads(pre.primary, post.primary, r)
    }
}

/// What a raw write to the pair answers, given the spare once cleared and
/// what the primary answered.
pub open spec fn fallback_writes<P: BootStorage, S: BootStorage>(
    pre: Fallback<P, S>,
    val: BootStore,
    post: Fallback<P, S>,
    cleared: S,
    primary: Result<(), P::WriteErr>,
    r: Result<(), S::WriteErr>,
) -> bool {
    &&& P::writes(pre.primary, val, post.primary, primary)
    &&& match primary {
        Ok(_) => post.spare == cleared && r == Ok::<(), S::WriteErr>(()),
        Err(_) => S::writes(cleared, val, post.spare, r),
    }
}

impl<P: BootStorage, S: BootStorage> BootStorage for Fallback<P, S> {
    /// The spare's, because a write is only lost when the spare loses it too.
    type WriteErr = S::WriteErr;

    type ReadErr = P::ReadErr;

    open spec fn reads(pre: Self, post: Self, r: Result<BootStore, P::ReadErr>) -> bool {
        exists|spare: Result<BootStore, S::ReadErr>| #[trigger]
            S::reads(pre.spare, post.spare, spare) && fallback_reads(pre, post, spare, r)
    }

    open spec fn writes(pre: Self, val: BootStore, post: Self, r: Result<(), S::WriteErr>) -> bool {
        exists|cleared: S, clearing: Result<(), S::WriteErr>, primary: Result<(), P::WriteErr>|
            #[trigger] S::writes(pre.spare, BootStore::blank(), cleared, clearing)
                && #[trigger] fallback_writes(pre, val, post, cleared, primary, r)
    }

    fn read_raw(&mut self) -> (r: Result<BootStore, P::ReadErr>) {
        // A sealed spare means a primary write has failed since the last one
        // that landed. Validating here picks the source; `read` validates
        // again to decide whether to start from the fresh default, which is
        // a different question about a record already chosen.
        let spare: Result<BootStore, S::ReadErr> = self.spare.read_raw();
        let ghost answer = spare;
        assert(S::reads(old(self).spare, self.spare, answer));
        if let Ok(record) = spare {
            if record.validated().is_some() {
                assert(fallback_reads(*old(self), *self, answer, Ok(record)));
                return Ok(record);
            }
        }
        let r: Result<BootStore, P::ReadErr> = self.primary.read_raw();
        assert(S::reads(old(self).spare, self.spare, answer));
        assert(fallback_reads(*old(self), *self, answer, r));
        assert(Self::reads(*old(self), *self, r));
        r
    }

    fn write_raw(&mut self, val: BootStore) -> (r: Result<(), S::WriteErr>) {
        // Invalidate the spare first. Clearing it after a successful primary
        // write leaves a window in which a reset finds a spare that is older
        // than the primary and believes it. An unsealed record is what
        // "nothing here" looks like, so the default does the clearing.
        let clearing: Result<(), S::WriteErr> = self.spare.write_raw(BootStore::default());
        let ghost cleared = self.spare;
        let primary: Result<(), P::WriteErr> = self.primary.write_raw(val);
        match primary {
            Ok(_) => {
                assert(fallback_writes(*old(self), val, *self, cleared, primary, Ok(())));
                Ok(())
            },
            Err(_) => {
                let r: Result<(), S::WriteErr> = self.spare.write_raw(val);
                assert(fallback_writes(*old(self), val, *self, cleared, primary, r));
                r
            },
        }
    }
}

// ── Laws ────────────────────────────────────────────────────────────────

/// A spare that holds a sealed record is the authority, whatever the primary
/// holds.
pub proof fn a_sealed_spare_is_the_authority<P: BootStorage, S: BootStorage>(
    store: Fallback<P, S>,
    record: BootStore,
)
    requires
        holds(store.spare, record),
        record.valid(),
    ensures
        holds(store, record),
{
}

/// A spare that holds nothing sealed, because it was never needed, was
/// cleared or lost its power, defers to the primary.
pub proof fn an_unsealed_spare_defers_to_the_primary<P: BootStorage, S: BootStorage>(
    store: Fallback<P, S>,
    spare: BootStore,
    record: BootStore,
)
    requires
        holds(store.spare, spare),
        !spare.valid(),
        holds(store.primary, record),
    ensures
        holds(store, record),
{
}

/// A working primary takes every record, and the spare is left without one
/// behind it: what was written is what is read, and nothing in the spare can
/// outrank a later record. This covers the primary that recovers after the
/// spare stood in for it, and the spare that cannot be cleared because it
/// cannot be written but held nothing sealed to begin with.
pub proof fn a_working_primary_keeps_the_spare_empty<P: BootStorage, S: BootStorage>(
    pre: Fallback<P, S>,
    val: BootStore,
    left: BootStore,
    post: Fallback<P, S>,
    r: Result<(), S::WriteErr>,
)
    requires
        Fallback::<P, S>::writes(pre, val, post, r),
        accepts(pre.primary, val),
        forall|cleared: S, c: Result<(), S::WriteErr>| #[trigger]
            S::writes(pre.spare, BootStore::blank(), cleared, c) ==> holds(cleared, left),
        !left.valid(),
    ensures
        r is Ok,
        holds(post.primary, val),
        holds(post.spare, left),
        holds(post, val),
{
    assert(holds(post.spare, left));
    an_unsealed_spare_defers_to_the_primary(post, left, val);
}

/// What clears a spare is not a record: a spare that accepts the clearing
/// holds nothing sealed.
pub proof fn clearing_leaves_nothing_sealed<S: BootStorage>(
    spare: S,
    cleared: S,
    r: Result<(), S::WriteErr>,
)
    requires
        accepts(spare, BootStore::blank()),
        S::writes(spare, BootStore::blank(), cleared, r),
    ensures
        holds(cleared, BootStore::blank()),
        !BootStore::blank().valid(),
{
    crate::persist::unwritten_storage_is_not_a_record(BootStore::blank());
}

/// A primary that refuses a sealed record loses nothing: the record lands in
/// the spare and is what is read, while the primary goes on holding the one
/// before it.
pub proof fn a_refused_record_lands_in_the_spare<P: BootStorage, S: BootStorage>(
    pre: Fallback<P, S>,
    val: BootStore,
    before: BootStore,
    post: Fallback<P, S>,
    r: Result<(), S::WriteErr>,
)
    requires
        Fallback::<P, S>::writes(pre, val, post, r),
        val.valid(),
        refuses(pre.primary, val),
        holds(pre.primary, before),
        forall|cleared: S, c: Result<(), S::WriteErr>| #[trigger]
            S::writes(pre.spare, BootStore::blank(), cleared, c) ==> accepts(cleared, val),
    ensures
        r is Ok,
        holds(post.primary, before),
        holds(post.spare, val),
        holds(post, val),
{
    assert(holds(post.spare, val));
    a_sealed_spare_is_the_authority(post, val);
}

/// With neither backend taking the record the caller is told so.
pub proof fn a_record_neither_backend_takes_is_an_error<P: BootStorage, S: BootStorage>(
    pre: Fallback<P, S>,
    val: BootStore,
    post: Fallback<P, S>,
    r: Result<(), S::WriteErr>,
)
    requires
        Fallback::<P, S>::writes(pre, val, post, r),
        refuses(pre.primary, val),
        forall|cleared: S, c: Result<(), S::WriteErr>| #[trigger]
            S::writes(pre.spare, BootStore::blank(), cleared, c) ==> refuses(cleared, val),
    ensures
        r is Err,
{
}

/// A store that keeps nothing reads as a fresh one every time.
pub proof fn no_store_is_inert(st: NoStore)
    ensures
        holds(st, BootStore::blank()),
        BootStore::blank().usable() == BootStore::blank(),
{
}

} // verus!
