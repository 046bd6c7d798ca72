//! What is on the wire, byte by byte.
//!
//! Firmware in the field and the bench host are built apart, so what each
//! message looks like is stated here in numbers.

use vstd::prelude::*;

use crate::boot::InstallError;
use crate::flash_writer::FlashError;
use crate::proto::{Fed, Message, Status, Wire};

verus! {

// ── Numbers ─────────────────────────────────────────────────────────────

/// A number below 128 is one byte. A larger one starts with its low seven
/// bits, marked, and goes on with the rest.
pub proof fn a_number_is_sent_low_group_first(v: int)
    requires
        0 <= v,
    ensures
        v < 128 ==> crate::proto::varint(v) == seq![v as u8],
        v >= 128 ==> crate::proto::varint(v)[0] == v % 128 + 128 && crate::proto::varint(
            v,
        ).subrange(1, crate::proto::varint(v).len() as int) == crate::proto::varint(v / 128),
{
    if v >= 128 {
        let s = crate::proto::varint(v);
        assert(s.subrange(1, s.len() as int) =~= crate::proto::varint(v / 128));
    }
}

/// A 16-bit number is read from up to three bytes, of which the third holds
/// two bits; anything longer, larger or cut short is none.
pub proof fn how_a_16_bit_number_is_read(s: Seq<u8>, at: int)
    requires
        0 <= at,
    ensures
        ({
            let r = crate::proto::take_u16(s, at);
            let left = s.len() - at;
            &&& left <= 0 ==> r is None
            &&& left >= 1 && s[at] < 128 ==> r == Some((s[at] as int, at + 1))
            &&& left >= 1 && s[at] >= 128 ==> {
                &&& left == 1 ==> r is None
                &&& left >= 2 && s[at + 1] < 128 ==> r == Some(
                    (s[at] - 128 + 128 * s[at + 1], at + 2),
                )
                &&& left >= 2 && s[at + 1] >= 128 ==> {
                    &&& left == 2 ==> r is None
                    &&& left >= 3 && s[at + 2] > 3 ==> r is None
                    &&& left >= 3 && s[at + 2] <= 3 ==> r == Some(
                        (s[at] - 128 + 128 * (s[at + 1] - 128) + 16384 * s[at + 2], at + 3),
                    )
                }
            }
        }),
{
    reveal_with_fuel(crate::proto::take_varint, 4);
}

/// A 32-bit number is read from up to five bytes, of which the fifth holds
/// four bits.
pub proof fn how_a_32_bit_number_is_read(s: Seq<u8>, at: int)
    requires
        0 <= at,
    ensures
        ({
            let r = crate::proto::take_u32(s, at);
            let left = s.len() - at;
            &&& left <= 0 ==> r is None
            &&& left >= 1 && s[at] < 128 ==> r == Some((s[at] as int, at + 1))
            &&& left >= 1 && s[at] >= 128 ==> {
                &&& left == 1 ==> r is None
                &&& left >= 2 && s[at + 1] < 128 ==> r == Some(
                    (s[at] - 128 + 128 * s[at + 1], at + 2),
                )
                &&& left >= 2 && s[at + 1] >= 128 ==> {
                    let two = s[at] - 128 + 128 * (s[at + 1] - 128);
                    &&& left == 2 ==> r is None
                    &&& left >= 3 && s[at + 2] < 128 ==> r == Some(
                        (two + 16384 * s[at + 2], at + 3),
                    )
                    &&& left >= 3 && s[at + 2] >= 128 ==> {
                        let three = two + 16384 * (s[at + 2] - 128);
                        &&& left == 3 ==> r is None
                        &&& left >= 4 && s[at + 3] < 128 ==> r == Some(
                            (three + 2097152 * s[at + 3], at + 4),
                        )
                        &&& left >= 4 && s[at + 3] >= 128 ==> {
                            &&& left == 4 ==> r is None
                            &&& left >= 5 && s[at + 4] > 15 ==> r is None
                            &&& left >= 5 && s[at + 4] <= 15 ==> r == Some(
                                (
                                    three + 2097152 * (s[at + 3] - 128) + 268435456 * s[at + 4],
                                    at + 5,
                                ),
                            )
                        }
                    }
                }
            }
        }),
{
    reveal_with_fuel(crate::proto::take_varint, 6);
}

// ── Messages ────────────────────────────────────────────────────────────

/// A message is sent as the number of its kind, then its fields in order.
pub proof fn what_each_message_is_sent_as(m: Wire)
    ensures
        ({
            let s = crate::proto::payload_of(m);
            match m {
                Wire::Ping(p) => s == seq![0u8] + p,
                Wire::Pong(p) => s == seq![1u8] + p,
                Wire::BeginUpdate(len) => s == seq![2u8] + crate::proto::varint(len),
                Wire::UpdateResult(Status::Installed) => s == seq![3u8, 0u8],
                Wire::UpdateResult(Status::VerifyFailed) => s == seq![3u8, 1u8],
                Wire::UpdateResult(Status::FlashError) => s == seq![3u8, 2u8],
                Wire::UpdateResult(Status::TooLarge) => s == seq![3u8, 3u8],
                Wire::Update => s == seq![4u8],
                Wire::Reset => s == seq![5u8],
                Wire::GetState => s == seq![6u8],
                Wire::State(version, reason, confirmed) => s == seq![7u8] + crate::proto::varint(
                    version,
                ) + seq![
                    reason,
                    if confirmed {
                        1u8
                    } else {
                        0u8
                    },
                ],
                Wire::Reject => s == seq![8u8],
                Wire::GetBanks => s == seq![9u8],
                Wire::Banks(active, inactive) => s == seq![10u8, active, inactive],
                Wire::Ready => s == seq![11u8],
            }
        }),
        crate::proto::frame_of(m).last() == 0,
        crate::proto::frame_of(m).drop_last() == crate::proto::stuffed(crate::proto::payload_of(m)),
{
    let f = crate::proto::frame_of(m);
    assert(f.drop_last() =~= crate::proto::stuffed(crate::proto::payload_of(m)));
}

/// What a payload means, by its first byte. One that is cut short, of no known
/// kind, or holds no such status or truth value means nothing.
pub proof fn what_a_payload_means(s: Seq<u8>)
    requires
        s.len() > 0,
        s[0] < 128,
    ensures
        ({
            let r = crate::proto::parsed(s);
            let eight = s.subrange(1, 9);
            &&& s[0] == 0 ==> r == (if s.len() >= 9 {
                Some(Wire::Ping(eight))
            } else {
                None
            })
            &&& s[0] == 1 ==> r == (if s.len() >= 9 {
                Some(Wire::Pong(eight))
            } else {
                None
            })
            &&& s[0] == 2 ==> r == (match crate::proto::take_u32(s, 1) {
                Some((len, _)) => Some(Wire::BeginUpdate(len)),
                None => None,
            })
            &&& s[0] == 3 ==> match crate::proto::take_u32(s, 1) {
                Some((code, _)) => {
                    &&& code == 0 ==> r == Some(Wire::UpdateResult(Status::Installed))
                    &&& code == 1 ==> r == Some(Wire::UpdateResult(Status::VerifyFailed))
                    &&& code == 2 ==> r == Some(Wire::UpdateResult(Status::FlashError))
                    &&& code == 3 ==> r == Some(Wire::UpdateResult(Status::TooLarge))
                    &&& code > 3 ==> r is None
                },
                None => r is None,
            }
            &&& s[0] == 4 ==> r == Some(Wire::Update)
            &&& s[0] == 5 ==> r == Some(Wire::Reset)
            &&& s[0] == 6 ==> r == Some(Wire::GetState)
            &&& s[0] == 7 ==> match crate::proto::take_u16(s, 1) {
                Some((version, next)) => {
                    &&& next + 2 > s.len() || s[next + 1] > 1 ==> r is None
                    &&& next + 2 <= s.len() && s[next + 1] == 0 ==> r == Some(
                        Wire::State(version, s[next], false),
                    )
                    &&& next + 2 <= s.len() && s[next + 1] == 1 ==> r == Some(
                        Wire::State(version, s[next], true),
                    )
                },
                None => r is None,
            }
            &&& s[0] == 8 ==> r == Some(Wire::Reject)
            &&& s[0] == 9 ==> r == Some(Wire::GetBanks)
            &&& s[0] == 10 ==> r == (if s.len() >= 3 {
                Some(Wire::Banks(s[1], s[2]))
            } else {
                None
            })
            &&& s[0] == 11 ==> r == Some(Wire::Ready)
            &&& s[0] > 11 ==> r is None
        }),
{
    how_a_32_bit_number_is_read(s, 0);
}

/// The statuses are numbered from zero.
pub proof fn status_numbers(code: int)
    ensures
        Status::Installed.spec_code() == 0,
        Status::VerifyFailed.spec_code() == 1,
        Status::FlashError.spec_code() == 2,
        Status::TooLarge.spec_code() == 3,
        Status::decode(code) matches Some(status) ==> status.spec_code() == code,
        Status::decode(code) is Some <==> 0 <= code <= 3,
{
}

/// A failed install is told to the host by its cause: an image that does not
/// fit, one that does not verify, and everything else as a flash fault.
pub proof fn how_a_failed_install_is_told<W>(error: InstallError<W>, status: Status)
    requires
        call_ensures(Status::for_install::<W>, (&error,), status),
    ensures
        status == Status::TooLarge <==> error == InstallError::<W>::Flash(
            FlashError::ImageTooLarge,
        ),
        status == Status::VerifyFailed <==> error is Verify,
        status != Status::Installed,
{
}

/// A message keeps its fields as a value.
pub proof fn a_message_keeps_its_fields(m: Message)
    ensures
        match m {
            Message::Ping(p) => m@ == Wire::Ping(p@),
            Message::Pong(p) => m@ == Wire::Pong(p@),
            Message::BeginUpdate { len } => m@ == Wire::BeginUpdate(len as int),
            Message::UpdateResult(s) => m@ == Wire::UpdateResult(s),
            Message::State { app_version, revert_reason, confirmed } => m@ == Wire::State(
                app_version as int,
                revert_reason,
                confirmed,
            ),
            Message::Banks { active, inactive } => m@ == Wire::Banks(active, inactive),
            Message::Update => m@ == Wire::Update,
            Message::Reset => m@ == Wire::Reset,
            Message::GetState => m@ == Wire::GetState,
            Message::Reject => m@ == Wire::Reject,
            Message::GetBanks => m@ == Wire::GetBanks,
            Message::Ready => m@ == Wire::Ready,
        },
{
}

// ── Frames ──────────────────────────────────────────────────────────────

/// At the first delimiter the frame so far is done: with up to 32 bytes of it
/// it is the message in it, or garbled if there is none; with more it is
/// oversized. The decoder then holds nothing, and what follows is left.
pub proof fn a_delimiter_ends_a_frame(held: Seq<u8>, input: Seq<u8>, n: int)
    requires
        crate::proto::ends_at(input, n),
    ensures
        ({
            let (what, after, rest) = crate::proto::fed(held, input);
            let frame = held + input.subrange(0, n + 1);
            let inside = match crate::proto::unstuffed(frame) {
                Some(payload) => crate::proto::parsed(payload),
                None => None,
            };
            &&& after == Seq::<u8>::empty()
            &&& rest == input.subrange(n + 1, input.len() as int)
            &&& frame.len() > 32 ==> what == Fed::Overfull
            &&& frame.len() <= 32 && inside is None ==> what == Fed::Garbled
            &&& frame.len() <= 32 && inside is Some ==> what == Fed::Frame(inside->Some_0)
        }),
{
    crate::proto::lemma_end_is(input, 0, n);
}

/// Without a delimiter the input is held, up to 32 bytes in all; with more
/// everything held is dropped, and what did not fit is left.
pub proof fn input_without_a_delimiter_is_held(held: Seq<u8>, input: Seq<u8>)
    requires
        crate::proto::unended(input),
        held.len() <= 32,
    ensures
        held.len() + input.len() <= 32 ==> crate::proto::fed(held, input) == (
            Fed::Consumed,
            held + input,
            Seq::<u8>::empty(),
        ),
        held.len() + input.len() > 32 ==> crate::proto::fed(held, input) == (
            Fed::Overfull,
            Seq::<u8>::empty(),
            input.subrange(32 - held.len(), input.len() as int),
        ),
{
    crate::proto::lemma_end_is(input, 0, input.len() as int);
}

} // verus!
