//! The host end of the rig's protocol, over whichever transport it has.
//!
//! Framing is the same either way (see [`crate::proto`], with a raw image
//! body following a `BeginUpdate`), so it lives here once and the transports
//! only have to move bytes.
//!
//! Nothing here waits. A caller that has a deadline asks for one round at a
//! time and says whether the deadline has passed, so what is done with each
//! answer is decided here and the clock stays outside.

use vstd::prelude::*;

pub mod laws;

use crate::proto::{encode, Decoder, Feed, Message, Status, MAX_FRAME};

verus! {

/// Something that moves bytes to and from a device.
///
/// What a transport does is stated by the relations it chooses itself, so
/// that code over any transport can say what it handed over and what it does
/// with each answer. One that says nothing of itself may do anything.
pub trait Transport: Sized {
    type Err;

    /// A read of at most `max` bytes in state `pre` may answer `r` and leave
    /// the transport in state `post`.
    open spec fn reads(pre: Self, max: usize, post: Self, r: Result<Vec<u8>, Self::Err>) -> bool {
        true
    }

    /// A write of `bytes` in state `pre` may answer `r` and leave the
    /// transport in state `post`.
    open spec fn writes(pre: Self, bytes: Seq<u8>, post: Self, r: Result<(), Self::Err>) -> bool {
        true
    }

    /// Dropping the input in state `pre` may answer `r` and leave the
    /// transport in state `post`.
    open spec fn clears(pre: Self, post: Self, r: Result<(), Self::Err>) -> bool {
        true
    }

    /// Reconnecting in state `pre` may answer `r` and leave the transport in
    /// state `post`.
    open spec fn reconnects(pre: Self, post: Self, r: Result<(), Self::Err>) -> bool {
        true
    }

    /// The transport may call itself `name`.
    open spec fn names(self, name: Seq<char>) -> bool {
        true
    }

    /// Whatever has arrived since the last call, which may be nothing.
    fn read(&mut self, max: usize) -> (r: Result<Vec<u8>, Self::Err>)
        ensures
            Self::reads(*old(self), max, *final(self), r),
    ;

    fn write(&mut self, bytes: &[u8]) -> (r: Result<(), Self::Err>)
        ensures
            Self::writes(*old(self), bytes@, *final(self), r),
    ;

    /// Drop anything the device said before the current exchange started.
    fn clear_input(&mut self) -> (r: Result<(), Self::Err>)
        ensures
            Self::clears(*old(self), *final(self), r),
    ;

    /// Re-establish the link after the device resets. A serial port does not
    /// notice a reset; an RTT session does, because the control block is
    /// rebuilt by the firmware that comes up.
    fn reconnect(&mut self) -> (r: Result<(), Self::Err>)
        ensures
            Self::reconnects(*old(self), *final(self), r),
    ;

    fn describe(&self) -> (name: String)
        ensures
            self.names(name@),
    ;
}

/// How much one read asks a transport for.
pub const READ_MAX: usize = 512;

/// A transport plus the receive-side frame accumulator and any bytes that
/// arrived past a completed frame.
pub struct Link<T> {
    pub transport: T,
    pub decoder: Decoder,
    pub pending: Vec<u8>,
}

/// What one round of receiving came to.
pub enum Recv {
    /// A message arrived.
    Message(Message),
    /// Nothing had arrived by the deadline.
    TimedOut,
    /// Nothing yet; there may be more to decode in the next round.
    Waiting,
}

/// What one round of waiting for a `Pong` came to.
pub enum Pong {
    /// The payload the device echoed.
    Echo([u8; 8]),
    /// Nothing answered in time.
    NoReply,
    /// Nothing yet, or something other than a `Pong`.
    Waiting,
}

/// What one round of waiting for `Ready` came to.
#[derive(Clone, Copy, PartialEq, Eq, Structural, Debug)]
pub enum Readiness {
    /// The device takes the image body now.
    Ready,
    /// The device reported a failed install before taking any of the body.
    Refused(Status),
    /// The device never said it was ready.
    NoReply,
    /// Nothing yet, or something else.
    Waiting,
}

// ── Definition ──────────────────────────────────────────────────────────

/// The first message to come out of `pending` behind what a decoder already
/// holds, what the decoder holds then, and what is left. Frames that are
/// garbled or oversized are skipped.
pub open spec fn drained(held: Seq<u8>, pending: Seq<u8>) -> (
    Option<crate::proto::Wire>,
    Seq<u8>,
    Seq<u8>,
)
    decreases pending.len(), held.len(),
    when held.len() <= MAX_FRAME
    via drained_decreases
{
    if pending.len() == 0 {
        (None, held, pending)
    } else {
        match crate::proto::fed(held, pending) {
            (crate::proto::Fed::Frame(wire), after, rest) => (Some(wire), after, rest),
            (_, after, rest) => drained(after, rest),
        }
    }
}

#[via_fn]
proof fn drained_decreases(held: Seq<u8>, pending: Seq<u8>) {
    if pending.len() > 0 {
        lemma_fed_shrinks(held, pending);
    }
}

/// Feeding uses up input, or else clears what was held.
proof fn lemma_fed_shrinks(held: Seq<u8>, pending: Seq<u8>)
    requires
        pending.len() > 0,
        held.len() <= MAX_FRAME,
    ensures
        ({
            let (what, after, rest) = crate::proto::fed(held, pending);
            &&& after.len() <= MAX_FRAME
            &&& rest.len() < pending.len() || rest.len() == pending.len() && after.len()
                < held.len()
        }),
{
    crate::proto::lemma_end_bounds(pending, 0);
}

/// The `Pong` in what one round heard.
pub open spec fn pong_in(heard: Recv) -> Pong {
    match heard {
        Recv::Message(Message::Pong(echo)) => Pong::Echo(echo),
        Recv::TimedOut => Pong::NoReply,
        _ => Pong::Waiting,
    }
}

/// The answer to a `BeginUpdate` in what one round heard.
pub open spec fn readiness_in(heard: Recv) -> Readiness {
    match heard {
        Recv::Message(Message::Ready) => Readiness::Ready,
        Recv::Message(Message::UpdateResult(status)) => Readiness::Refused(status),
        Recv::TimedOut => Readiness::NoReply,
        _ => Readiness::Waiting,
    }
}

impl<T: Transport> Link<T> {
    /// The decoder holds something that may still become a frame.
    pub open spec fn wf(self) -> bool {
        self.decoder.wf()
    }

    /// Nothing received is left over.
    pub open spec fn is_clean(self) -> bool {
        self.decoder.held@ == Seq::<u8>::empty() && self.pending@ == Seq::<u8>::empty()
    }

    /// One round of receiving: what is pending comes first, then a deadline
    /// that has passed, then whatever the transport has.
    pub open spec fn receives(self, expired: bool, post: Link<T>, r: Result<Recv, T::Err>) -> bool {
        let (wire, held, rest) = drained(self.decoder.held@, self.pending@);
        &&& post.decoder.held@ == held
        &&& match wire {
            Some(wire) => {
                &&& r matches Ok(Recv::Message(msg)) && msg@ == wire
                &&& post.pending@ == rest
                &&& post.transport == self.transport
            },
            None => if expired {
                &&& r == Ok::<Recv, T::Err>(Recv::TimedOut)
                &&& post.pending@ == Seq::<u8>::empty()
                &&& post.transport == self.transport
            } else {
                match r {
                    Ok(Recv::Waiting) => exists|bytes: Vec<u8>|
                        #[trigger] T::reads(self.transport, READ_MAX, post.transport, Ok(bytes))
                            && post.pending@ == bytes@,
                    Ok(_) => false,
                    Err(e) => T::reads(self.transport, READ_MAX, post.transport, Err(e))
                        && post.pending@ == Seq::<u8>::empty(),
                }
            },
        }
    }

    /// The transport was reconnected, whatever it answered, and its input
    /// then dropped with answer `r`.
    pub open spec fn resyncs(self, post: T, r: Result<(), T::Err>) -> bool {
        exists|mid: T, answer: Result<(), T::Err>| #[trigger]
            T::reconnects(self.transport, mid, answer) && T::clears(mid, post, r)
    }

    /// `wire` was sent after a resync, or the resync failed.
    pub open spec fn asks(self, wire: crate::proto::Wire, post: T, r: Result<(), T::Err>) -> bool {
        ||| r is Err && self.resyncs(post, r)
        ||| exists|mid: T| #[trigger]
            T::writes(mid, crate::proto::frame_of(wire), post, r) && self.resyncs(mid, Ok(()))
    }

    /// `wire` was sent after dropping the input, or dropping it failed.
    pub open spec fn requests(
        self,
        wire: crate::proto::Wire,
        post: T,
        r: Result<(), T::Err>,
    ) -> bool {
        ||| r is Err && T::clears(self.transport, post, r)
        ||| exists|mid: T| #[trigger]
            T::writes(mid, crate::proto::frame_of(wire), post, r) && T::clears(
                self.transport,
                mid,
                Ok(()),
            )
    }

    pub fn new(transport: T) -> (link: Link<T>)
        ensures
            link.wf(),
            link.is_clean(),
            link.transport == transport,
    {
        Link { transport, decoder: Decoder::new(), pending: Vec::new() }
    }

    pub fn describe(&self) -> (name: String)
        ensures
            self.transport.names(name@),
    {
        self.transport.describe()
    }

    /// Drop everything received so far.
    pub fn flush_input(&mut self) -> (r: Result<(), T::Err>)
        ensures
            final(self).wf(),
            final(self).is_clean(),
            T::clears(old(self).transport, final(self).transport, r),
    {
        self.pending = Vec::new();
        self.decoder = Decoder::new();
        self.transport.clear_input()
    }

    /// Pick the link back up after a reset, discarding anything half-decoded
    /// from before it.
    pub fn reconnect(&mut self) -> (r: Result<(), T::Err>)
        ensures
            final(self).wf(),
            final(self).is_clean(),
            T::reconnects(old(self).transport, final(self).transport, r),
    {
        self.pending = Vec::new();
        self.decoder = Decoder::new();
        self.transport.reconnect()
    }

    /// Reconnect, then drop anything the device said before now.
    ///
    /// A failed reconnect is not itself an error here: the decoder reset
    /// still has to happen, and the device is most likely only mid-reset.
    pub fn resync(&mut self) -> (r: Result<(), T::Err>)
        ensures
            final(self).wf(),
            final(self).is_clean(),
            old(self).resyncs(final(self).transport, r),
    {
        let answer: Result<(), T::Err> = self.reconnect();
        let ghost mid = self.transport;
        let r: Result<(), T::Err> = self.flush_input();
        assert(T::reconnects(old(self).transport, mid, answer));
        r
    }

    /// Send one message as a frame. What was received is left alone.
    pub fn send(&mut self, msg: &Message) -> (r: Result<(), T::Err>)
        ensures
            final(self).decoder == old(self).decoder,
            final(self).pending == old(self).pending,
            T::writes(
                old(self).transport,
                crate::proto::frame_of(msg@),
                final(self).transport,
                r,
            ),
    {
        let mut buf: [u8; 32] = [0;32];
        match encode(msg, &mut buf) {
            Ok(frame) => self.transport.write(frame),
            Err(_) => {
                assert(false);
                Ok(())
            },
        }
    }

    /// Write bytes that are not a frame: the body of an image.
    pub fn write_raw(&mut self, bytes: &[u8]) -> (r: Result<(), T::Err>)
        ensures
            final(self).decoder == old(self).decoder,
            final(self).pending == old(self).pending,
            T::writes(old(self).transport, bytes@, final(self).transport, r),
    {
        self.transport.write(bytes)
    }

    /// Next decoded message, the deadline if it has passed, or else one more
    /// read of the transport.
    pub fn recv(&mut self, expired: bool) -> (r: Result<Recv, T::Err>)
        requires
            old(self).wf(),
        ensures
            final(self).wf(),
            old(self).receives(expired, *final(self), r),
    {
        let ghost before = *self;
        while self.pending.len() > 0
            invariant
                self.wf(),
                before == *old(self),
                before.wf(),
                self.transport == before.transport,
                drained(self.decoder.held@, self.pending@) == drained(
                    before.decoder.held@,
                    before.pending@,
                ),
            decreases self.pending@.len(), self.decoder.held@.len(),
        {
            let mut input: Vec<u8> = Vec::new();
            input.append(&mut self.pending);
            proof {
                lemma_fed_shrinks(self.decoder.held@, input@);
            }
            let remaining: Vec<u8> = match self.decoder.feed(input.as_slice()) {
                Feed::Consumed => Vec::new(),
                Feed::Frame { msg, remaining } => {
                    self.pending = copy(remaining);
                    return Ok(Recv::Message(msg));
                },
                Feed::DeserError { remaining } => copy(remaining),
                Feed::Overfull { remaining } => copy(remaining),
            };
            self.pending = remaining;
        }
        assert(self.pending@ =~= Seq::<u8>::empty());
        if expired {
            return Ok(Recv::TimedOut);
        }
        match self.transport.read(READ_MAX) {
            Ok(bytes) => {
                self.pending = bytes;
                assert(T::reads(before.transport, READ_MAX, self.transport, Ok(bytes)));
                Ok(Recv::Waiting)
            },
            Err(e) => Err(e),
        }
    }

    /// Reconnect, drop what was received and send one message.
    pub fn ask(&mut self, msg: &Message) -> (r: Result<(), T::Err>)
        ensures
            final(self).wf(),
            final(self).is_clean(),
            old(self).asks(msg@, final(self).transport, r),
    {
        match self.resync() {
            Ok(done) => {
                let ghost mid = self.transport;
                assert(done == ());
                let r: Result<(), T::Err> = self.send(msg);
                assert(T::writes(mid, crate::proto::frame_of(msg@), self.transport, r));
                r
            },
            Err(e) => Err(e),
        }
    }

    /// Send one message, with anything already buffered discarded first so
    /// the reply cannot be confused with a frame from a previous exchange.
    pub fn request(&mut self, msg: &Message) -> (r: Result<(), T::Err>)
        ensures
            final(self).wf(),
            final(self).is_clean(),
            old(self).requests(msg@, final(self).transport, r),
    {
        match self.flush_input() {
            Ok(done) => {
                let ghost mid = self.transport;
                assert(done == ());
                let r: Result<(), T::Err> = self.send(msg);
                assert(T::writes(mid, crate::proto::frame_of(msg@), self.transport, r));
                r
            },
            Err(e) => Err(e),
        }
    }

    /// Start a round trip of a `Ping`; [`Link::await_pong`] takes the answer.
    ///
    /// BOOT answers pings whether or not an application exists, so a reply
    /// proves only that something on the far end is alive.
    pub fn ping(&mut self, payload: [u8; 8]) -> (r: Result<(), T::Err>)
        ensures
            final(self).wf(),
            final(self).is_clean(),
            old(self).asks(crate::proto::Wire::Ping(payload@), final(self).transport, r),
    {
        self.ask(&Message::Ping(payload))
    }

    /// One round of waiting for the echo of a [`Link::ping`].
    pub fn await_pong(&mut self, expired: bool) -> (r: Result<Pong, T::Err>)
        requires
            old(self).wf(),
        ensures
            final(self).wf(),
            exists|heard: Result<Recv, T::Err>| #[trigger]
                old(self).receives(expired, *final(self), heard) && r == (match heard {
                    Ok(heard) => Ok(pong_in(heard)),
                    Err(e) => Err(e),
                }),
    {
        let heard: Result<Recv, T::Err> = self.recv(expired);
        let ghost h = heard;
        assert(old(self).receives(expired, *self, h));
        match heard {
            Ok(Recv::Message(Message::Pong(echo))) => Ok(Pong::Echo(echo)),
            Ok(Recv::TimedOut) => Ok(Pong::NoReply),
            Ok(_) => Ok(Pong::Waiting),
            Err(e) => Err(e),
        }
    }

    /// Announce an image of `len` bytes. The body is held back until
    /// [`Link::await_ready`] says the device takes it: bytes sent while it
    /// writes its boot record have nowhere to go but its receive buffer.
    pub fn begin_update(&mut self, len: u32) -> (r: Result<(), T::Err>)
        ensures
            final(self).wf(),
            final(self).is_clean(),
            old(self).requests(
                crate::proto::Wire::BeginUpdate(len as int),
                final(self).transport,
                r,
            ),
    {
        self.request(&Message::BeginUpdate { len })
    }

    /// One round of waiting for the device to take the body of an announced
    /// image.
    pub fn await_ready(&mut self, expired: bool) -> (r: Result<Readiness, T::Err>)
        requires
            old(self).wf(),
        ensures
            final(self).wf(),
            exists|heard: Result<Recv, T::Err>| #[trigger]
                old(self).receives(expired, *final(self), heard) && r == (match heard {
                    Ok(heard) => Ok(readiness_in(heard)),
                    Err(e) => Err(e),
                }),
    {
        let heard: Result<Recv, T::Err> = self.recv(expired);
        let ghost h = heard;
        assert(old(self).receives(expired, *self, h));
        match heard {
            Ok(Recv::Message(Message::Ready)) => Ok(Readiness::Ready),
            Ok(Recv::Message(Message::UpdateResult(status))) => Ok(Readiness::Refused(status)),
            Ok(Recv::TimedOut) => Ok(Readiness::NoReply),
            Ok(_) => Ok(Readiness::Waiting),
            Err(e) => Err(e),
        }
    }
}

/// A copy of some bytes.
fn copy(bytes: &[u8]) -> (v: Vec<u8>)
    ensures
        v@ == bytes@,
{
    let mut v: Vec<u8> = Vec::new();
    v.extend_from_slice(bytes);
    assert(v@ =~= bytes@);
    v
}

// ── Laws ────────────────────────────────────────────────────────────────

/// A frame that arrives on a clean link is the next message, and what
/// followed it is kept for the one after.
pub proof fn what_was_sent_is_received(
    frame: Seq<u8>,
    wire: crate::proto::Wire,
    tail: Seq<u8>,
)
    requires
        frame.len() <= MAX_FRAME,
        crate::proto::ends_at(frame, frame.len() - 1),
        crate::proto::message_in(frame) == Some(wire),
    ensures
        drained(Seq::empty(), frame + tail) == (Some(wire), Seq::<u8>::empty(), tail),
{
    let all = frame + tail;
    crate::proto::a_frame_comes_out_whole(frame, wire, tail, 0, all.len() as int);
    assert(all.subrange(0, all.len() as int) =~= all);
    assert(frame.subrange(0, 0) =~= Seq::<u8>::empty());
    assert(tail.subrange(0, tail.len() as int) =~= tail);
}

/// Noise costs nothing past its own delimiter: whatever arrives before a
/// frame and is no message itself, however long, is skipped and the frame
/// still comes out.
pub proof fn noise_is_skipped(
    noise: Seq<u8>,
    frame: Seq<u8>,
    wire: crate::proto::Wire,
    tail: Seq<u8>,
)
    requires
        crate::proto::unended(noise),
        crate::proto::message_in(noise.push(0)) is None,
        frame.len() <= MAX_FRAME,
        crate::proto::ends_at(frame, frame.len() - 1),
        crate::proto::message_in(frame) == Some(wire),
    ensures
        drained(Seq::empty(), noise.push(0) + (frame + tail)) == (
            Some(wire),
            Seq::<u8>::empty(),
            tail,
        ),
{
    let all = noise.push(0) + (frame + tail);
    let n = noise.len() as int;
    assert forall|i: int| 0 <= i < n implies all[i] != 0 by {
        assert(all[i] == noise[i]);
    }
    assert(all[n] == 0);
    crate::proto::lemma_end_is(all, 0, n);
    assert(Seq::<u8>::empty() + all.subrange(0, n + 1) =~= noise.push(0));
    assert(all.subrange(n + 1, all.len() as int) =~= frame + tail);
    what_was_sent_is_received(frame, wire, tail);
}

} // verus!
