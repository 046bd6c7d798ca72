//! Wire protocol between the bench host and the firmware.
//!
//! Control traffic is a single [`Message`], serialised positionally (the
//! variant's number and then its fields, integers wider than a byte as
//! variable-length groups of seven bits, low group first) and framed by
//! consistent overhead byte stuffing, so a `0x00` delimiter ends each frame.
//! After a [`Message::BeginUpdate`] frame the sender streams `len` raw image
//! bytes that are not a `Message`: whatever a frame leaves of the input
//! belongs to the next frame or to that image.
//!
//! Variants are positional on the wire: the enum only ever grows at the end,
//! since inserting one silently breaks every device already in the field.

pub mod laws;

use crate::boot::InstallError;
use crate::bytes::write_bytes;
use crate::flash_writer::FlashError;
use vstd::prelude::*;

verus! {

/// Upper bound on a single frame in bytes. The largest `Message` is
/// `Ping`/`Pong` at 9 serialised bytes; stuffing and the delimiter add two
/// more.
pub const MAX_FRAME: usize = 32;

/// Outcome of an install attempt, reported device to host.
#[derive(Debug, Clone, Copy, PartialEq, Eq, Structural)]
pub enum Status {
    /// The device never sends this: a successful install swaps banks and
    /// reboots, so success is signalled by silence.
    Installed,
    VerifyFailed,
    FlashError,
    TooLarge,
}

/// A single control message. Raw image bytes stream after a `BeginUpdate`
/// frame and are deliberately not represented here.
#[derive(Debug, Clone, Copy, PartialEq, Eq)]
pub enum Message {
    /// Host to device: liveness probe carrying an arbitrary payload.
    Ping([u8; 8]),
    /// Device to host: echoes the `Ping` payload.
    Pong([u8; 8]),
    /// Host to device: exactly `len` raw image bytes follow, once the device
    /// has answered `Ready`.
    BeginUpdate { len: u32 },
    /// Device to host.
    UpdateResult(Status),
    /// Host to application: flag an update request and reset, so BOOT waits
    /// for an image instead of booting.
    Update,
    /// Host to application: reset with no request flag, so BOOT takes its
    /// normal path. Used to spend trial attempts.
    Reset,
    /// Host to device; answered with `State`.
    GetState,
    /// Device to host: `app_version` is the running image's own build
    /// version, `revert_reason` is a stored revert-reason code recording the
    /// last rollback, carried raw so a code this build cannot decode still
    /// arrives, and `confirmed` says whether this image marked itself good
    /// on this boot.
    State { app_version: u16, revert_reason: u8, confirmed: bool },
    /// Host to application: condemn the running image and reset, so BOOT
    /// rolls back.
    Reject,
    /// Host to application; answered with `Banks`.
    GetBanks,
    /// Application to host: the stored state of each bank, as its two-bit
    /// code.
    Banks { active: u8, inactive: u8 },
    /// Device to host: the target bank is condemned and the image body may
    /// follow.
    Ready,
}

/// A frame does not fit the buffer it was to be written to.
#[derive(Debug, Clone, Copy, PartialEq, Eq, Structural)]
pub struct BufferFull;

/// Result of feeding a chunk of received bytes to a [`Decoder`].
///
/// `remaining` is the input tail past the frame boundary; after a `Frame` it
/// belongs to the next frame (or, following a `BeginUpdate`, to the raw image
/// stream).
pub enum Feed<'a> {
    /// No complete frame yet; all input was buffered.
    Consumed,
    /// A complete frame decoded into a [`Message`].
    Frame { msg: Message, remaining: &'a [u8] },
    /// A complete frame arrived but failed to decode; the decoder was reset.
    DeserError { remaining: &'a [u8] },
    /// A frame exceeded [`MAX_FRAME`] before its delimiter; the decoder was
    /// reset.
    Overfull { remaining: &'a [u8] },
}

/// Receive-side frame accumulator that yields decoded [`Message`]s.
///
/// Feed it whatever bytes arrive; it holds a partial frame across calls and
/// surfaces a [`Message`] the moment a delimiter completes one.
pub struct Decoder {
    pub held: Vec<u8>,
}

// ── Definition ──────────────────────────────────────────────────────────

/// A message as a value.
pub enum Wire {
    Ping(Seq<u8>),
    Pong(Seq<u8>),
    BeginUpdate(int),
    UpdateResult(Status),
    Update,
    Reset,
    GetState,
    State(int, u8, bool),
    Reject,
    GetBanks,
    Banks(u8, u8),
    Ready,
}

impl View for Message {
    type V = Wire;

    open spec fn view(&self) -> Wire {
        match *self {
            Message::Ping(p) => Wire::Ping(p@),
            Message::Pong(p) => Wire::Pong(p@),
            Message::BeginUpdate { len } => Wire::BeginUpdate(len as int),
            Message::UpdateResult(s) => Wire::UpdateResult(s),
            Message::Update => Wire::Update,
            Message::Reset => Wire::Reset,
            Message::GetState => Wire::GetState,
            Message::State { app_version, revert_reason, confirmed } => Wire::State(
                app_version as int,
                revert_reason,
                confirmed,
            ),
            Message::Reject => Wire::Reject,
            Message::GetBanks => Wire::GetBanks,
            Message::Banks { active, inactive } => Wire::Banks(active, inactive),
            Message::Ready => Wire::Ready,
        }
    }
}

impl Status {
    /// How a failed install is reported to the host. A store that could not
    /// be written is a flash fault to it.
    pub fn for_install<W>(error: &InstallError<W>) -> (status: Status)
        ensures
            status == (match *error {
                InstallError::Flash(FlashError::ImageTooLarge) => Status::TooLarge,
                InstallError::Flash(FlashError::Nvm(_)) => Status::FlashError,
                InstallError::Verify(_) => Status::VerifyFailed,
                InstallError::Write(_) => Status::FlashError,
            }),
    {
        match error {
            InstallError::Flash(FlashError::ImageTooLarge) => Status::TooLarge,
            InstallError::Flash(FlashError::Nvm(_)) => Status::FlashError,
            InstallError::Verify(_) => Status::VerifyFailed,
            InstallError::Write(_) => Status::FlashError,
        }
    }

    /// The number of a status.
    pub open spec fn spec_code(self) -> int {
        match self {
            Status::Installed => 0,
            Status::VerifyFailed => 1,
            Status::FlashError => 2,
            Status::TooLarge => 3,
        }
    }

    /// The status of a number.
    pub open spec fn decode(code: int) -> Option<Status> {
        if code == 0 {
            Some(Status::Installed)
        } else if code == 1 {
            Some(Status::VerifyFailed)
        } else if code == 2 {
            Some(Status::FlashError)
        } else if code == 3 {
            Some(Status::TooLarge)
        } else {
            None
        }
    }
}

/// A number in groups of seven bits, low group first, the top bit marking
/// that another group follows.
pub open spec fn varint(v: int) -> Seq<u8>
    decreases v,
{
    if v < 128 {
        seq![v as u8]
    } else {
        seq![(v % 128 + 128) as u8] + varint(v / 128)
    }
}

/// The number read from `at` on in at most `width` groups, the last of which
/// may hold at most `top`, and where it ends.
pub open spec fn take_varint(s: Seq<u8>, at: int, width: nat, top: int) -> Option<(int, int)>
    decreases width,
{
    if width == 0 || at >= s.len() {
        None
    } else if s[at] < 128 {
        if width == 1 && s[at] > top {
            None
        } else {
            Some((s[at] as int, at + 1))
        }
    } else {
        match take_varint(s, at + 1, (width - 1) as nat, top) {
            Some((high, end)) => Some((s[at] - 128 + 128 * high, end)),
            None => None,
        }
    }
}

/// A 32-bit number.
pub open spec fn take_u32(s: Seq<u8>, at: int) -> Option<(int, int)> {
    take_varint(s, at, 5, 15)
}

/// A 16-bit number.
pub open spec fn take_u16(s: Seq<u8>, at: int) -> Option<(int, int)> {
    take_varint(s, at, 3, 3)
}

/// What a message is serialised to.
pub open spec fn payload_of(m: Wire) -> Seq<u8> {
    match m {
        Wire::Ping(p) => seq![0u8] + p,
        Wire::Pong(p) => seq![1u8] + p,
        Wire::BeginUpdate(len) => seq![2u8] + varint(len),
        Wire::UpdateResult(s) => seq![3u8, s.spec_code() as u8],
        Wire::Update => seq![4u8],
        Wire::Reset => seq![5u8],
        Wire::GetState => seq![6u8],
        Wire::State(version, reason, confirmed) => seq![7u8] + varint(version) + seq![
            reason,
            if confirmed {
                1u8
            } else {
                0u8
            },
        ],
        Wire::Reject => seq![8u8],
        Wire::GetBanks => seq![9u8],
        Wire::Banks(active, inactive) => seq![10u8, active, inactive],
        Wire::Ready => seq![11u8],
    }
}

/// The frame a message is sent in.
pub open spec fn frame_of(m: Wire) -> Seq<u8> {
    stuffed(payload_of(m)).push(0)
}

/// The fields of variant `tag` from `at` on. What follows them is ignored.
pub open spec fn fields(tag: int, s: Seq<u8>, at: int) -> Option<Wire> {
    if tag == 0 || tag == 1 {
        if at + 8 > s.len() {
            None
        } else if tag == 0 {
            Some(Wire::Ping(s.subrange(at, at + 8)))
        } else {
            Some(Wire::Pong(s.subrange(at, at + 8)))
        }
    } else if tag == 2 {
        match take_u32(s, at) {
            Some((len, _)) => Some(Wire::BeginUpdate(len)),
            None => None,
        }
    } else if tag == 3 {
        match take_u32(s, at) {
            Some((code, _)) => match Status::decode(code) {
                Some(status) => Some(Wire::UpdateResult(status)),
                None => None,
            },
            None => None,
        }
    } else if tag == 4 {
        Some(Wire::Update)
    } else if tag == 5 {
        Some(Wire::Reset)
    } else if tag == 6 {
        Some(Wire::GetState)
    } else if tag == 7 {
        match take_u16(s, at) {
            Some((version, next)) => if next + 2 > s.len() || s[next + 1] > 1 {
                None
            } else {
                Some(Wire::State(version, s[next], s[next + 1] == 1))
            },
            None => None,
        }
    } else if tag == 8 {
        Some(Wire::Reject)
    } else if tag == 9 {
        Some(Wire::GetBanks)
    } else if tag == 10 {
        if at + 2 > s.len() {
            None
        } else {
            Some(Wire::Banks(s[at], s[at + 1]))
        }
    } else if tag == 11 {
        Some(Wire::Ready)
    } else {
        None
    }
}

/// The message a payload holds, if it holds one.
pub open spec fn parsed(s: Seq<u8>) -> Option<Wire> {
    match take_u32(s, 0) {
        Some((tag, at)) => fields(tag, s, at),
        None => None,
    }
}

/// The message in a frame, delimiter included, if there is one.
pub open spec fn message_in(frame: Seq<u8>) -> Option<Wire> {
    match unstuffed(frame) {
        Some(payload) => parsed(payload),
        None => None,
    }
}

/// Byte `n` is the first delimiter of `s`.
pub open spec fn ends_at(s: Seq<u8>, n: int) -> bool {
    0 <= n < s.len() && s[n] == 0 && forall|i: int| 0 <= i < n ==> s[i] != 0
}

/// There is no delimiter in `s`.
pub open spec fn unended(s: Seq<u8>) -> bool {
    forall|i: int| 0 <= i < s.len() ==> s[i] != 0
}

/// Where the first delimiter from `at` on stands; the end of `s` if there is
/// none.
pub open spec fn end_from(s: Seq<u8>, at: int) -> int
    decreases s.len() - at,
{
    if at >= s.len() {
        s.len() as int
    } else if s[at] == 0 {
        at
    } else {
        end_from(s, at + 1)
    }
}

/// What a chunk of input does to a decoder.
pub enum Fed {
    Consumed,
    Frame(Wire),
    Garbled,
    Overfull,
}

/// What feeding `input` to a decoder that holds `held` gives, what the
/// decoder holds afterwards, and what is left of the input.
pub open spec fn fed(held: Seq<u8>, input: Seq<u8>) -> (Fed, Seq<u8>, Seq<u8>) {
    let none = Seq::<u8>::empty();
    let n = end_from(input, 0);
    if n < input.len() {
        let rest = input.subrange(n + 1, input.len() as int);
        if held.len() + n + 1 > MAX_FRAME {
            (Fed::Overfull, none, rest)
        } else {
            match message_in(held + input.subrange(0, n + 1)) {
                Some(wire) => (Fed::Frame(wire), none, rest),
                None => (Fed::Garbled, none, rest),
            }
        }
    } else if held.len() + input.len() > MAX_FRAME {
        (Fed::Overfull, none, input.subrange(MAX_FRAME - held.len(), input.len() as int))
    } else {
        (Fed::Consumed, held + input, none)
    }
}

impl<'a> Feed<'a> {
    /// What happened, and what is left of the input.
    pub open spec fn outcome(self) -> (Fed, Seq<u8>) {
        match self {
            Feed::Consumed => (Fed::Consumed, Seq::<u8>::empty()),
            Feed::Frame { msg, remaining } => (Fed::Frame(msg@), remaining@),
            Feed::DeserError { remaining } => (Fed::Garbled, remaining@),
            Feed::Overfull { remaining } => (Fed::Overfull, remaining@),
        }
    }
}

// ── Byte stuffing, through cobs ─────────────────────────────────────────

/// What [`cobs::encode_vec`] makes of a payload.
pub uninterp spec fn stuffed(payload: Seq<u8>) -> Seq<u8>;

/// What [`cobs::decode_in_place`] makes of a frame, or `None` where it
/// reports an error.
pub uninterp spec fn unstuffed(frame: Seq<u8>) -> Option<Seq<u8>>;

/// [`cobs::encode_vec`]: byte-stuff a payload, without a delimiter.
///
/// Not proved, for payloads of 1 to 253 bytes: one byte longer than the
/// payload, no zero byte in it, and with a delimiter behind it
/// [`cobs::decode_in_place`] gives the payload back.
#[verifier::external_body]
fn stuff(payload: &[u8]) -> (r: Vec<u8>)
    requires
        0 < payload@.len() < 254,
    ensures
        r@ == stuffed(payload@),
        r@.len() == payload@.len() + 1,
        unended(r@),
        unstuffed(r@.push(0)) == Some(payload@),
{
    cobs::encode_vec(payload)
}

/// [`cobs::decode_in_place`] on a copy of a frame.
///
/// Not proved: that the bytes it hands back, or its refusal, depend on the
/// frame alone. Nothing is said of what it makes of a frame that was not
/// stuffed by [`stuff`].
#[verifier::external_body]
fn unstuff(frame: &[u8]) -> (r: Option<Vec<u8>>)
    ensures
        match r {
            Some(payload) => unstuffed(frame@) == Some(payload@),
            None => unstuffed(frame@) is None,
        },
{
    let mut buf: Vec<u8> = frame.to_vec();
    match cobs::decode_in_place(&mut buf) {
        Ok(n) => {
            buf.truncate(n);
            Some(buf)
        },
        Err(_) => None,
    }
}

// ── Lemmas ──────────────────────────────────────────────────────────────

/// The numbers that fit in `width` groups, the last at most `top`.
pub open spec fn cap(width: nat, top: int) -> int
    decreases width,
{
    if width == 0 {
        0
    } else if width == 1 {
        top + 1
    } else {
        128 * cap((width - 1) as nat, top)
    }
}

/// A number reads back from its groups, whatever stands around them.
proof fn lemma_varint_reads_back(v: int, s: Seq<u8>, at: int, width: nat, top: int)
    requires
        0 <= v < cap(width, top),
        width >= 1,
        0 <= top <= 127,
        0 <= at,
        at + varint(v).len() <= s.len(),
        s.subrange(at, at + varint(v).len()) == varint(v),
    ensures
        take_varint(s, at, width, top) == Some((v, at + varint(v).len())),
        0 < varint(v).len() <= width,
    decreases width,
{
    let groups = varint(v);
    assert(s[at] == s.subrange(at, at + groups.len())[0]);
    if v >= 128 {
        let rest = varint(v / 128);
        assert(groups.len() == rest.len() + 1);
        assert(s.subrange(at + 1, at + 1 + rest.len()) =~= rest) by {
            assert forall|i: int| 0 <= i < rest.len() implies s[at + 1 + i] == rest[i] by {
                assert(s.subrange(at, at + groups.len())[i + 1] == groups[i + 1]);
            }
        }
        assert(width >= 2);
        lemma_varint_reads_back(v / 128, s, at + 1, (width - 1) as nat, top);
        assert(v % 128 + 128 * (v / 128) == v);
    }
}

/// A number read fits the width it was read in.
proof fn lemma_taken_fits(s: Seq<u8>, at: int, width: nat, top: int)
    requires
        0 <= top <= 127,
        0 <= at,
    ensures
        take_varint(s, at, width, top) matches Some((v, end)) ==> 0 <= v < cap(width, top) && at
            < end <= s.len() && end <= at + width,
    decreases width,
{
    if width > 0 && at < s.len() && s[at] >= 128 {
        lemma_taken_fits(s, at + 1, (width - 1) as nat, top);
    } else if width > 1 {
        lemma_cap_grows(width, top);
    }
}

proof fn lemma_cap_grows(width: nat, top: int)
    requires
        width >= 2,
        0 <= top,
    ensures
        cap(width, top) >= 128,
    decreases width,
{
    reveal_with_fuel(cap, 2);
    if width > 2 {
        lemma_cap_grows((width - 1) as nat, top);
    }
}

/// The first delimiter is the only one with none before it.
pub proof fn lemma_end_is(s: Seq<u8>, at: int, n: int)
    requires
        0 <= at <= n <= s.len(),
        forall|i: int| at <= i < n ==> s[i] != 0,
        n < s.len() ==> s[n] == 0,
    ensures
        end_from(s, at) == n,
    decreases n - at,
{
    if at < n {
        lemma_end_is(s, at + 1, n);
    }
}

/// The first delimiter stands inside the input or at its end.
pub proof fn lemma_end_bounds(s: Seq<u8>, at: int)
    requires
        0 <= at <= s.len(),
    ensures
        at <= end_from(s, at) <= s.len(),
    decreases s.len() - at,
{
    if at < s.len() && s[at] != 0 {
        lemma_end_bounds(s, at + 1);
    }
}

proof fn lemma_caps()
    ensures
        cap(5, 15) == 0x1_0000_0000,
        cap(3, 3) == 0x1_0000,
{
    reveal_with_fuel(cap, 5);
}

/// Two messages with the same value are the same message.
pub proof fn a_message_is_its_value(a: Message, b: Message)
    requires
        a@ == b@,
    ensures
        a == b,
{
    match (a, b) {
        (Message::Ping(p), Message::Ping(q)) => {
            assert forall|i: int| 0 <= i < 8 implies p[i] == q[i] by {
                assert(p@[i] == q@[i]);
            }
            assert(p =~= q);
        },
        (Message::Pong(p), Message::Pong(q)) => {
            assert forall|i: int| 0 <= i < 8 implies p[i] == q[i] by {
                assert(p@[i] == q@[i]);
            }
            assert(p =~= q);
        },
        _ => {},
    }
}

/// Every message reads back from what it is serialised to.
pub proof fn every_message_reads_back(m: Message)
    ensures
        parsed(payload_of(m@)) == Some(m@),
        0 < payload_of(m@).len() <= 9,
{
    let s = payload_of(m@);
    lemma_caps();
    let tag = match m@ {
        Wire::Ping(_) => 0int,
        Wire::Pong(_) => 1,
        Wire::BeginUpdate(_) => 2,
        Wire::UpdateResult(_) => 3,
        Wire::Update => 4,
        Wire::Reset => 5,
        Wire::GetState => 6,
        Wire::State(_, _, _) => 7,
        Wire::Reject => 8,
        Wire::GetBanks => 9,
        Wire::Banks(_, _) => 10,
        Wire::Ready => 11,
    };
    assert(s[0] == tag);
    assert(take_u32(s, 0) == Some((tag, 1int)));
    match m@ {
        Wire::Ping(p) => {
            assert(s.subrange(1, 9) =~= p);
        },
        Wire::Pong(p) => {
            assert(s.subrange(1, 9) =~= p);
        },
        Wire::BeginUpdate(len) => {
            assert(s.subrange(1, 1int + varint(len).len()) =~= varint(len));
            lemma_varint_reads_back(len, s, 1, 5, 15);
        },
        Wire::State(version, reason, confirmed) => {
            assert(s.subrange(1, 1int + varint(version).len()) =~= varint(version));
            lemma_varint_reads_back(version, s, 1, 3, 3);
        },
        _ => {},
    }
}

// ── Functions ───────────────────────────────────────────────────────────

/// Append a number in groups of seven bits.
fn put_varint(out: &mut Vec<u8>, v: u32)
    ensures
        final(out)@ == old(out)@ + varint(v as int),
    decreases v,
{
    let ghost before = out@;
    if v < 128 {
        out.push(v as u8);
        assert(out@ =~= before + varint(v as int));
    } else {
        out.push((v % 128 + 128) as u8);
        put_varint(out, v / 128);
        assert(out@ =~= before + varint(v as int));
    }
}

/// Read a number of at most `width` groups, the last of which may hold at
/// most `top`.
fn get_varint(s: &[u8], at: usize, width: usize, top: u8) -> (r: Option<(u64, usize)>)
    requires
        at <= s@.len(),
        width <= 5,
        top <= 15,
    ensures
        match r {
            Some((v, end)) => take_varint(s@, at as int, width as nat, top as int) == Some(
                (v as int, end as int),
            ) && v < cap(width as nat, top as int) && end <= s@.len(),
            None => take_varint(s@, at as int, width as nat, top as int) is None,
        },
    decreases width,
{
    proof {
        lemma_taken_fits(s@, at as int, width as nat, top as int);
    }
    if width == 0 || at >= s.len() {
        return None;
    }
    let b: u8 = s[at];
    if b < 128 {
        if width == 1 && b > top {
            None
        } else {
            Some((b as u64, at + 1))
        }
    } else {
        proof {
            lemma_cap_bound((width - 1) as nat, top as int);
        }
        match get_varint(s, at + 1, width - 1, top) {
            Some((high, end)) => Some(((b - 128) as u64 + 128 * high, end)),
            None => None,
        }
    }
}

proof fn lemma_cap_bound(width: nat, top: int)
    requires
        width <= 5,
        0 <= top <= 15,
    ensures
        cap(width, top) <= 0x1_0000_0000,
{
    reveal_with_fuel(cap, 6);
}

/// Eight bytes of `s` from `at` on.
fn eight(s: &[u8], at: usize) -> (r: [u8; 8])
    requires
        at + 8 <= s@.len(),
    ensures
        r@ == s@.subrange(at as int, at + 8),
{
    let r: [u8; 8] = [
        s[at],
        s[at + 1],
        s[at + 2],
        s[at + 3],
        s[at + 4],
        s[at + 5],
        s[at + 6],
        s[at + 7],
    ];
    assert(r@ =~= s@.subrange(at as int, at + 8));
    r
}

/// Append eight bytes.
fn put_eight(out: &mut Vec<u8>, p: &[u8; 8])
    ensures
        final(out)@ == old(out)@ + p@,
{
    out.extend_from_slice(p.as_slice());
    assert(out@ =~= old(out)@ + p@);
}

/// Two payloads are the same.
pub fn same_payload(a: &[u8; 8], b: &[u8; 8]) -> (same: bool)
    ensures
        same == (a@ == b@),
{
    let mut i: usize = 0;
    while i < 8
        invariant
            i <= 8,
            forall|j: int| 0 <= j < i ==> a@[j] == b@[j],
        decreases 8 - i,
    {
        if a[i] != b[i] {
            assert(a@[i as int] != b@[i as int]);
            return false;
        }
        i = i + 1;
    }
    assert(a@ =~= b@);
    true
}

/// Serialise a message.
fn serialise(msg: &Message) -> (out: Vec<u8>)
    ensures
        out@ == payload_of(msg@),
{
    let mut out: Vec<u8> = Vec::new();
    match msg {
        Message::Ping(p) => {
            out.push(0);
            put_eight(&mut out, p);
        },
        Message::Pong(p) => {
            out.push(1);
            put_eight(&mut out, p);
        },
        Message::BeginUpdate { len } => {
            out.push(2);
            put_varint(&mut out, *len);
        },
        Message::UpdateResult(status) => {
            out.push(3);
            out.push(
                match status {
                    Status::Installed => 0,
                    Status::VerifyFailed => 1,
                    Status::FlashError => 2,
                    Status::TooLarge => 3,
                },
            );
        },
        Message::Update => out.push(4),
        Message::Reset => out.push(5),
        Message::GetState => out.push(6),
        Message::State { app_version, revert_reason, confirmed } => {
            out.push(7);
            put_varint(&mut out, *app_version as u32);
            out.push(*revert_reason);
            out.push(
                if *confirmed {
                    1
                } else {
                    0
                },
            );
        },
        Message::Reject => out.push(8),
        Message::GetBanks => out.push(9),
        Message::Banks { active, inactive } => {
            out.push(10);
            out.push(*active);
            out.push(*inactive);
        },
        Message::Ready => out.push(11),
    }
    assert(out@ =~= payload_of(msg@));
    out
}

/// The message a payload holds. What follows its fields is ignored.
pub fn parse(s: &[u8]) -> (r: Option<Message>)
    ensures
        match r {
            Some(msg) => parsed(s@) == Some(msg@),
            None => parsed(s@) is None,
        },
{
    proof {
        lemma_caps();
    }
    let len: usize = s.len();
    let (tag, at) = match get_varint(s, 0, 5, 15) {
        Some((tag, at)) => (tag, at),
        None => return None,
    };
    if tag == 0 || tag == 1 {
        if len - at < 8 {
            return None;
        }
        let p: [u8; 8] = eight(s, at);
        return if tag == 0 {
            Some(Message::Ping(p))
        } else {
            Some(Message::Pong(p))
        };
    }
    if tag == 2 {
        return match get_varint(s, at, 5, 15) {
            Some((n, _)) => Some(Message::BeginUpdate { len: n as u32 }),
            None => None,
        };
    }
    if tag == 3 {
        return match get_varint(s, at, 5, 15) {
            Some((code, _)) => match code {
                0 => Some(Message::UpdateResult(Status::Installed)),
                1 => Some(Message::UpdateResult(Status::VerifyFailed)),
                2 => Some(Message::UpdateResult(Status::FlashError)),
                3 => Some(Message::UpdateResult(Status::TooLarge)),
                _ => None,
            },
            None => None,
        };
    }
    if tag == 7 {
        let (version, next) = match get_varint(s, at, 3, 3) {
            Some((version, next)) => (version, next),
            None => return None,
        };
        if len - next < 2 || s[next + 1] > 1 {
            return None;
        }
        return Some(
            Message::State {
                app_version: version as u16,
                revert_reason: s[next],
                confirmed: s[next + 1] == 1,
            },
        );
    }
    if tag == 10 {
        if len - at < 2 {
            return None;
        }
        return Some(Message::Banks { active: s[at], inactive: s[at + 1] });
    }
    match tag {
        4 => Some(Message::Update),
        5 => Some(Message::Reset),
        6 => Some(Message::GetState),
        8 => Some(Message::Reject),
        9 => Some(Message::GetBanks),
        11 => Some(Message::Ready),
        _ => None,
    }
}

/// Serialise and frame `msg`, delimiter included.
fn frame(msg: &Message) -> (frame: Vec<u8>)
    ensures
        frame@ == frame_of(msg@),
        1 < frame@.len() <= MAX_FRAME,
        ends_at(frame@, frame@.len() - 1),
        message_in(frame@) == Some(msg@),
{
    proof {
        every_message_reads_back(*msg);
    }
    let payload: Vec<u8> = serialise(msg);
    let mut frame: Vec<u8> = stuff(payload.as_slice());
    let ghost body = frame@;
    frame.push(0);
    assert forall|i: int| 0 <= i < frame@.len() - 1 implies frame@[i] != 0 by {
        assert(frame@[i] == body[i]);
    }
    frame
}

/// Serialise and frame `msg` into `buf`, returning the used prefix.
///
/// `buf` should be at least [`MAX_FRAME`] bytes; one too small for the frame
/// is left alone and yields [`BufferFull`]. The frame's delimiter is its only
/// zero byte, and it decodes to the message it was made from.
pub fn encode<'a>(msg: &Message, buf: &'a mut [u8]) -> (r: Result<&'a [u8], BufferFull>)
    ensures
        final(buf)@.len() == old(buf)@.len(),
        match r {
            Ok(frame) => {
                &&& frame@ == frame_of(msg@)
                &&& frame@.len() <= old(buf)@.len()
                &&& final(buf)@ == frame@ + old(buf)@.skip(frame@.len() as int)
                &&& frame@.len() <= MAX_FRAME
                &&& ends_at(frame@, frame@.len() - 1)
                &&& message_in(frame@) == Some(msg@)
            },
            Err(_) => frame_of(msg@).len() > old(buf)@.len() && final(buf)@ == old(buf)@,
        },
        old(buf)@.len() >= MAX_FRAME ==> r is Ok,
{
    let frame: Vec<u8> = frame(msg);
    let n: usize = frame.len();
    if n > buf.len() {
        return Err(BufferFull);
    }
    write_bytes(buf, 0, frame.as_slice());
    assert(buf@ =~= frame@ + old(buf)@.skip(n as int));
    assert(buf@.subrange(0, n as int) =~= frame@);
    Ok(vstd::slice::slice_subrange(buf, 0, n))
}

impl Decoder {
    /// A partial frame that may still fit.
    pub open spec fn wf(self) -> bool {
        self.held@.len() <= MAX_FRAME && unended(self.held@)
    }

    pub fn new() -> (d: Decoder)
        ensures
            d.wf(),
            d.held@ == Seq::<u8>::empty(),
    {
        Decoder { held: Vec::new() }
    }

    /// Feed received bytes; see [`Feed`] for the outcomes.
    ///
    /// When `remaining` on the returned variant is non-empty, feed it back in
    /// (or, past a `BeginUpdate`, hand it to the raw image sink).
    pub fn feed<'a>(&mut self, input: &'a [u8]) -> (r: Feed<'a>)
        requires
            old(self).wf(),
        ensures
            final(self).wf(),
            ({
                let (what, held, rest) = fed(old(self).held@, input@);
                r.outcome() == (what, rest) && final(self).held@ == held
            }),
    {
        let len: usize = input.len();
        let mut n: usize = 0;
        while n < len && input[n] != 0
            invariant
                n <= len,
                len == input@.len(),
                forall|i: int| 0 <= i < n ==> input@[i] != 0,
            decreases len - n,
        {
            n = n + 1;
        }
        proof {
            lemma_end_is(input@, 0, n as int);
        }
        let held: usize = self.held.len();
        if n < len {
            let remaining: &'a [u8] = vstd::slice::slice_subrange(input, n + 1, len);
            if n + 1 <= MAX_FRAME - held {
                let ghost before = self.held@;
                let mut frame: Vec<u8> = Vec::new();
                frame.append(&mut self.held);
                assert(frame@ =~= before);
                frame.extend_from_slice(vstd::slice::slice_subrange(input, 0, n + 1));
                assert(frame@ =~= before + input@.subrange(0, n + 1));
                self.held = Vec::new();
                let msg: Option<Message> = match unstuff(frame.as_slice()) {
                    Some(payload) => parse(payload.as_slice()),
                    None => None,
                };
                match msg {
                    Some(msg) => Feed::Frame { msg, remaining },
                    None => Feed::DeserError { remaining },
                }
            } else {
                self.held = Vec::new();
                Feed::Overfull { remaining }
            }
        } else if len > MAX_FRAME - held {
            let remaining: &'a [u8] = vstd::slice::slice_subrange(input, MAX_FRAME - held, len);
            self.held = Vec::new();
            Feed::Overfull { remaining }
        } else {
            let ghost before = self.held@;
            self.held.extend_from_slice(input);
            assert(self.held@ =~= before + input@);
            Feed::Consumed
        }
    }
}

// ── Laws ────────────────────────────────────────────────────────────────

/// A frame cut anywhere comes out whole: until its delimiter arrives it is
/// held, and when it does the message comes out with exactly what followed
/// it, and nothing is held.
pub proof fn a_frame_comes_out_whole(frame: Seq<u8>, wire: Wire, tail: Seq<u8>, at: int, to: int)
    requires
        frame.len() <= MAX_FRAME,
        ends_at(frame, frame.len() - 1),
        message_in(frame) == Some(wire),
        0 <= at < frame.len(),
        at <= to <= frame.len() + tail.len(),
    ensures
        ({
            let chunk = (frame + tail).subrange(at, to);
            fed(frame.subrange(0, at), chunk) == if to < frame.len() {
                (Fed::Consumed, frame.subrange(0, to), Seq::<u8>::empty())
            } else {
                (Fed::Frame(wire), Seq::<u8>::empty(), tail.subrange(0, to - frame.len()))
            }
        }),
{
    let held = frame.subrange(0, at);
    let chunk = (frame + tail).subrange(at, to);
    let end = frame.len() - 1 - at;
    if to < frame.len() {
        assert forall|i: int| 0 <= i < chunk.len() implies chunk[i] != 0 by {
            assert(chunk[i] == frame[at + i]);
        }
        lemma_end_is(chunk, 0, chunk.len() as int);
        assert(held + chunk =~= frame.subrange(0, to));
    } else {
        assert forall|i: int| 0 <= i < end implies chunk[i] != 0 by {
            assert(chunk[i] == frame[at + i]);
        }
        assert(chunk[end] == frame[at + end]);
        lemma_end_is(chunk, 0, end);
        assert(held + chunk.subrange(0, end + 1) =~= frame);
        assert(chunk.subrange(end + 1, chunk.len() as int) =~= tail.subrange(
            0,
            to - frame.len(),
        ));
    }
}

} // verus!
