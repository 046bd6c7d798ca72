//! What a link does with what it hears.

use vstd::prelude::*;

use crate::link::{Link, Pong, Readiness, Recv, Transport};
use crate::proto::{Fed, Message, Wire};

verus! {

/// A message that has arrived is handed out first, deadline or not, and the
/// transport is left alone.
pub proof fn what_arrived_comes_before_the_deadline<T: Transport>(
    link: Link<T>,
    wire: Wire,
    held: Seq<u8>,
    rest: Seq<u8>,
    expired: bool,
    post: Link<T>,
    r: Result<Recv, T::Err>,
)
    requires
        link.receives(expired, post, r),
        crate::link::drained(link.decoder.held@, link.pending@) == (Some(wire), held, rest),
    ensures
        r matches Ok(Recv::Message(msg)) && msg@ == wire,
        post.pending@ == rest,
        post.decoder.held@ == held,
        post.transport == link.transport,
{
}

/// With no message pending, a deadline that has passed ends the wait without
/// touching the transport; before it, the transport is read once, for at most
/// 512 bytes, and what it gives is kept for the next round.
pub proof fn with_nothing_pending_the_transport_is_read<T: Transport>(
    link: Link<T>,
    expired: bool,
    post: Link<T>,
    r: Result<Recv, T::Err>,
)
    requires
        link.receives(expired, post, r),
        crate::link::drained(link.decoder.held@, link.pending@).0 is None,
    ensures
        expired ==> r == Ok::<Recv, T::Err>(Recv::TimedOut) && post.transport == link.transport
            && post.pending@.len() == 0,
        !expired ==> (r matches Ok(heard) ==> heard is Waiting && exists|bytes: Vec<u8>|
            {
                &&& #[trigger] T::reads(link.transport, 512, post.transport, Ok(bytes))
                &&& post.pending@ == bytes@
            }),
        !expired ==> (r matches Err(e) ==> T::reads(link.transport, 512, post.transport, Err(e))),
{
}

/// Frames come out of what is pending one after the other: the first that is
/// a message is handed out with what follows it left, and one that is not is
/// passed over.
pub proof fn pending_input_is_taken_frame_by_frame(held: Seq<u8>, pending: Seq<u8>)
    requires
        held.len() <= 32,
    ensures
        pending.len() == 0 ==> crate::link::drained(held, pending) == (None::<Wire>, held, pending),
        pending.len() > 0 ==> match crate::proto::fed(held, pending) {
            (Fed::Frame(wire), after, rest) => crate::link::drained(held, pending) == (
                Some(wire),
                after,
                rest,
            ),
            (_, after, rest) => crate::link::drained(held, pending) == crate::link::drained(
                after,
                rest,
            ),
        },
{
}

/// Only a `Pong` answers a ping, and with its own payload; only `Ready` lets
/// the image go, and an `UpdateResult` in its place refuses it.
pub proof fn each_wait_has_its_answer(heard: Recv)
    ensures
        crate::link::pong_in(heard) == (match heard {
            Recv::Message(Message::Pong(echo)) => Pong::Echo(echo),
            Recv::Message(_) => Pong::Waiting,
            Recv::Waiting => Pong::Waiting,
            Recv::TimedOut => Pong::NoReply,
        }),
        crate::link::readiness_in(heard) == (match heard {
            Recv::Message(Message::Ready) => Readiness::Ready,
            Recv::Message(Message::UpdateResult(status)) => Readiness::Refused(status),
            Recv::Message(_) => Readiness::Waiting,
            Recv::Waiting => Readiness::Waiting,
            Recv::TimedOut => Readiness::NoReply,
        }),
{
}

/// Asking reconnects, whatever comes of that, then drops what was heard, and
/// only then sends, once, exactly the frame of the question. It succeeds only
/// if the last two did.
pub proof fn a_question_follows_a_resync<T: Transport>(
    link: Link<T>,
    wire: Wire,
    post: T,
    r: Result<(), T::Err>,
)
    requires
        link.asks(wire, post, r),
    ensures
        r is Ok ==> exists|a: T, b: T, answer: Result<(), T::Err>|
            {
                &&& #[trigger] T::reconnects(link.transport, a, answer)
                &&& #[trigger] T::clears(a, b, Ok(()))
                &&& T::writes(b, crate::proto::frame_of(wire), post, r)
            },
        r is Err ==> exists|a: T, b: T, answer: Result<(), T::Err>, c: Result<(), T::Err>|
            {
                &&& #[trigger] T::reconnects(link.transport, a, answer)
                &&& #[trigger] T::clears(a, b, c)
                &&& (c is Err && post == b && c == r) || (c is Ok && T::writes(
                    b,
                    crate::proto::frame_of(wire),
                    post,
                    r,
                ))
            },
{
    if r is Err && link.resyncs(post, r) {
        let (a, answer) = choose|a: T, answer: Result<(), T::Err>| #[trigger]
            T::reconnects(link.transport, a, answer) && T::clears(a, post, r);
        assert(T::reconnects(link.transport, a, answer) && T::clears(a, post, r));
    } else {
        let b = choose|b: T| #[trigger]
            T::writes(b, crate::proto::frame_of(wire), post, r) && link.resyncs(b, Ok(()));
        let (a, answer) = choose|a: T, answer: Result<(), T::Err>| #[trigger]
            T::reconnects(link.transport, a, answer) && T::clears(a, b, Ok(()));
        assert(T::reconnects(link.transport, a, answer) && T::clears(a, b, Ok(())));
    }
}

/// A request drops what was heard and then sends, once, exactly its frame; it
/// does not reconnect.
pub proof fn a_request_follows_a_flush<T: Transport>(
    link: Link<T>,
    wire: Wire,
    post: T,
    r: Result<(), T::Err>,
)
    requires
        link.requests(wire, post, r),
    ensures
        r is Ok ==> exists|b: T|
            {
                &&& #[trigger] T::clears(link.transport, b, Ok(()))
                &&& T::writes(b, crate::proto::frame_of(wire), post, r)
            },
        r is Err ==> T::clears(link.transport, post, r) || exists|b: T|
            {
                &&& #[trigger] T::clears(link.transport, b, Ok(()))
                &&& T::writes(b, crate::proto::frame_of(wire), post, r)
            },
{
    if !(r is Err && T::clears(link.transport, post, r)) {
        let b = choose|b: T| #[trigger]
            T::writes(b, crate::proto::frame_of(wire), post, r) && T::clears(
                link.transport,
                b,
                Ok(()),
            );
        assert(T::clears(link.transport, b, Ok(())));
    }
}

/// A link starts with nothing heard.
pub proof fn a_link_starts_silent<T: Transport>(transport: T, link: Link<T>)
    requires
        call_ensures(Link::<T>::new, (transport,), link),
    ensures
        link.transport == transport,
        link.pending@.len() == 0,
        link.decoder.held@.len() == 0,
{
}

} // verus!
