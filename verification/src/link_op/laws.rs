//! What each operation by hand sends, and what it takes for an answer.

use vstd::prelude::*;

use crate::link_op::{Body, Installed, LinkOp, LinkOpError, Store};
use crate::proto::{Message, Status};

verus! {

/// Each operation sends its own message, and three of them wait for a reply.
pub proof fn what_each_operation_sends(op: LinkOp)
    ensures
        op matches LinkOp::Ping(payload) ==> op.spec_message() == Message::Ping(payload),
        op is State ==> op.spec_message() == Message::GetState,
        op is Banks ==> op.spec_message() == Message::GetBanks,
        op is Reboot ==> op.spec_message() == Message::Update,
        op is Reset ==> op.spec_message() == Message::Reset,
        op is Reject ==> op.spec_message() == Message::Reject,
        op.answered() <==> op is Ping || op is State || op is Banks,
{
}

/// An operation is answered by the one message it asks for, which it hands
/// out as it came. A `Pong` of another payload is its own failure, and so is
/// no reply; any other message is unexpected.
pub proof fn what_answers_each_operation(
    op: LinkOp,
    reply: Option<Message>,
    r: Result<Message, LinkOpError>,
)
    requires
        op.answered(),
        call_ensures(LinkOp::judge, (&op, reply), r),
    ensures
        match (op, reply) {
            (_, None) => r == Err::<Message, _>(LinkOpError::NoReply),
            (LinkOp::Ping(sent), Some(Message::Pong(got))) => if sent@ == got@ {
                r == Ok::<_, LinkOpError>(Message::Pong(got))
            } else {
                r == Err::<Message, _>(LinkOpError::EchoMismatch { sent, got })
            },
            (LinkOp::State, Some(Message::State { app_version, revert_reason, confirmed })) => r
                == Ok::<_, LinkOpError>(Message::State { app_version, revert_reason, confirmed }),
            (LinkOp::Banks, Some(Message::Banks { active, inactive })) => r == Ok::<_, LinkOpError>(
                Message::Banks { active, inactive },
            ),
            (_, Some(other)) => r == Err::<Message, _>(LinkOpError::Unexpected(other)),
        },
{
}

/// A ping carries the first eight bytes of its text, and zeros for want of
/// them.
pub proof fn what_a_ping_carries(text: &[u8], payload: [u8; 8], i: int)
    requires
        call_ensures(crate::link_op::ping_payload, (text,), payload),
        0 <= i < 8,
    ensures
        i < text@.len() ==> payload@[i] == text@[i],
        i >= text@.len() ==> payload@[i] == 0,
{
}

/// An image goes out as it is, or with exactly the byte in its middle
/// inverted, and then the tool says which.
pub proof fn what_is_sent_of_an_image(image: Vec<u8>, body: Body, r: (Vec<u8>, Option<usize>), i: int)
    requires
        image@.len() > 0,
        call_ensures(crate::link_op::prepare, (image, body), r),
        0 <= i < image@.len(),
    ensures
        r.0@.len() == image@.len(),
        body == Body::AsBuilt ==> r.0@[i] == image@[i] && r.1 is None,
        body == Body::Corrupted ==> r.1 == Some((image@.len() / 2) as usize) && r.0@[i] == (if i
            == image@.len() as int / 2 {
            !image@[i]
        } else {
            image@[i]
        }),
{
}

/// Silence after an image is an install, and so is the device saying so; any
/// other status rejects it, and any other message is unexpected.
pub proof fn what_ends_an_install(
    reply: Option<Message>,
    r: Result<Installed, LinkOpError>,
)
    requires
        call_ensures(crate::link_op::judge_install, (reply,), r),
    ensures
        r == Ok::<_, LinkOpError>(Installed::Silently) <==> reply is None,
        r == Ok::<_, LinkOpError>(Installed::Reported) <==> reply == Some(
            Message::UpdateResult(Status::Installed),
        ),
        (reply matches Some(Message::UpdateResult(s)) && s != Status::Installed) ==> r == Err::<
            Installed,
            _,
        >(LinkOpError::Rejected((reply->Some_0)->UpdateResult_0)),
        (reply matches Some(m) && !(m is UpdateResult)) ==> r == Err::<Installed, _>(
            LinkOpError::Unexpected(reply->Some_0),
        ),
{
}

/// A record is as far into its store as its offset says: backup RAM is at
/// `0x4700_0000`, SmartEEPROM at `0x4400_0000`.
pub proof fn where_a_record_is(store: Store, see: bool, offset: usize, addr: u64)
    requires
        call_ensures(Store::for_see, (see,), store),
        call_ensures(crate::link_op::record_addr, (store, offset), addr),
        0x4700_0000 + offset <= usize::MAX,
    ensures
        see ==> addr == 0x4400_0000 + offset,
        !see ==> addr == 0x4700_0000 + offset,
{
}

} // verus!
