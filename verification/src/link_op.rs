//! The ad-hoc link operations, for poking at a device by hand: what each one
//! sends, and what it makes of the reply.

use vstd::prelude::*;

pub mod laws;

use crate::consts::{BKUPRAM_ADDR, SEEPROM_ADDR};
use crate::image::corrupt_body;
use crate::proto::{same_payload, Message, Status};

verus! {

/// Where the demo firmware's boot record sits in the store it is built for.
pub const STORE_OFFSET: usize = 0;

/// Which store the firmware keeps its boot record in.
#[derive(Clone, Copy, PartialEq, Eq, Structural, Debug)]
pub enum Store {
    BackupRam,
    SmartEeprom,
}

impl Store {
    /// Where the store begins.
    pub open spec fn base(self) -> int {
        match self {
            Store::BackupRam => BKUPRAM_ADDR as int,
            Store::SmartEeprom => SEEPROM_ADDR as int,
        }
    }

    /// The store that was asked for.
    pub fn for_see(see: bool) -> (store: Store)
        ensures
            store == if see {
                Store::SmartEeprom
            } else {
                Store::BackupRam
            },
    {
        if see {
            Store::SmartEeprom
        } else {
            Store::BackupRam
        }
    }
}

/// Where the rig's firmware keeps its boot record.
pub fn record_addr(store: Store, store_offset: usize) -> (addr: u64)
    requires
        store.base() + store_offset <= usize::MAX,
    ensures
        addr == store.base() + store_offset,
{
    let base: usize = match store {
        Store::BackupRam => BKUPRAM_ADDR,
        Store::SmartEeprom => SEEPROM_ADDR,
    };
    (base + store_offset) as u64
}

/// One message to a device that is already running.
#[derive(Clone, Copy, PartialEq, Eq)]
pub enum LinkOp {
    /// Liveness probe, answered by BOOT and by the application.
    Ping([u8; 8]),
    /// Ask the application what it is running.
    State,
    /// Ask the application what the record says about each bank.
    Banks,
    /// Application flags an update request, then resets.
    Reboot,
    /// Application resets without flagging a request.
    Reset,
    /// Application condemns the running image and resets.
    Reject,
}

/// Why an operation failed.
#[derive(Clone, Copy, PartialEq, Eq)]
pub enum LinkOpError {
    EchoMismatch { sent: [u8; 8], got: [u8; 8] },
    Unexpected(Message),
    NoReply,
    /// The device rejected the image.
    Rejected(Status),
}

/// The payload of a `Ping`: the first eight bytes of the text, zeros after
/// it.
pub open spec fn padded(text: Seq<u8>) -> Seq<u8> {
    Seq::new(
        8,
        |i: int|
            if i < text.len() {
                text[i]
            } else {
                0u8
            },
    )
}

/// The payload of a `Ping`: the first eight bytes of the text, zeros after
/// it.
pub fn ping_payload(text: &[u8]) -> (payload: [u8; 8])
    ensures
        payload@ == padded(text@),
{
    let mut payload: [u8; 8] = [0;8];
    let mut i: usize = 0;
    while i < 8 && i < text.len()
        invariant
            i <= 8,
            i <= text@.len(),
            forall|j: int| 0 <= j < 8 ==> payload@[j] == if j < i {
                text@[j]
            } else {
                0u8
            },
        decreases 8 - i,
    {
        payload[i] = text[i];
        i = i + 1;
    }
    assert(payload@ =~= padded(text@));
    payload
}

impl LinkOp {
    /// What the operation sends.
    pub open spec fn spec_message(self) -> Message {
        match self {
            LinkOp::Ping(payload) => Message::Ping(payload),
            LinkOp::State => Message::GetState,
            LinkOp::Banks => Message::GetBanks,
            LinkOp::Reboot => Message::Update,
            LinkOp::Reset => Message::Reset,
            LinkOp::Reject => Message::Reject,
        }
    }

    /// The device answers; otherwise it just resets.
    pub open spec fn answered(self) -> bool {
        self is Ping || self is State || self is Banks
    }

    /// The reply is what the operation asked for.
    pub open spec fn wants(self, reply: Message) -> bool {
        match (self, reply) {
            (LinkOp::Ping(payload), Message::Pong(echo)) => echo@ == payload@,
            (LinkOp::State, Message::State { .. }) => true,
            (LinkOp::Banks, Message::Banks { .. }) => true,
            _ => false,
        }
    }

    /// What the operation sends.
    pub fn message(&self) -> (msg: Message)
        ensures
            msg == self.spec_message(),
    {
        match self {
            LinkOp::Ping(payload) => Message::Ping(*payload),
            LinkOp::State => Message::GetState,
            LinkOp::Banks => Message::GetBanks,
            LinkOp::Reboot => Message::Update,
            LinkOp::Reset => Message::Reset,
            LinkOp::Reject => Message::Reject,
        }
    }

    /// Whether there is a reply to wait for.
    pub fn expects_reply(&self) -> (expects: bool)
        ensures
            expects == self.answered(),
    {
        match self {
            LinkOp::Ping(_) | LinkOp::State | LinkOp::Banks => true,
            _ => false,
        }
    }

    /// What the operation makes of the first message to come back, or of
    /// none coming back in time.
    pub fn judge(&self, reply: Option<Message>) -> (r: Result<Message, LinkOpError>)
        requires
            self.answered(),
        ensures
            match reply {
                None => r == Err::<Message, LinkOpError>(LinkOpError::NoReply),
                Some(msg) => if self.wants(msg) {
                    r == Ok::<Message, LinkOpError>(msg)
                } else {
                    r == Err::<Message, LinkOpError>(
                        match (*self, msg) {
                            (
                                LinkOp::Ping(sent),
                                Message::Pong(got),
                            ) => LinkOpError::EchoMismatch { sent, got },
                            _ => LinkOpError::Unexpected(msg),
                        },
                    )
                },
            },
    {
        let msg: Message = match reply {
            Some(msg) => msg,
            None => return Err(LinkOpError::NoReply),
        };
        match (*self, msg) {
            (LinkOp::Ping(sent), Message::Pong(got)) => if same_payload(&sent, &got) {
                Ok(msg)
            } else {
                Err(LinkOpError::EchoMismatch { sent, got })
            },
            (LinkOp::State, Message::State { .. }) => Ok(msg),
            (LinkOp::Banks, Message::Banks { .. }) => Ok(msg),
            _ => Err(LinkOpError::Unexpected(msg)),
        }
    }
}

/// How an image is sent.
#[derive(Clone, Copy, PartialEq, Eq, Structural, Debug)]
pub enum Body {
    AsBuilt,
    /// With one body byte inverted, to drive the verify path.
    Corrupted,
}

/// The bytes to send, and which of them was inverted.
pub fn prepare(image: Vec<u8>, body: Body) -> (r: (Vec<u8>, Option<usize>))
    requires
        body is Corrupted ==> image@.len() > 0,
    ensures
        match body {
            Body::AsBuilt => r.0 == image && r.1 is None,
            Body::Corrupted => {
                let at = image@.len() / 2;
                r.0@ == image@.update(at as int, !image@[at as int]) && r.1 == Some(at as usize)
            },
        },
{
    match body {
        Body::AsBuilt => (image, None),
        Body::Corrupted => {
            let mut image: Vec<u8> = image;
            let at: usize = corrupt_body(image.as_mut_slice());
            (image, Some(at))
        },
    }
}

/// How an install ended.
#[derive(Clone, Copy, PartialEq, Eq, Structural, Debug)]
pub enum Installed {
    /// The device said so.
    Reported,
    /// No reply: the device swapped and rebooted.
    Silently,
}

/// What the first message after an image, or none in time, says of the
/// install.
pub fn judge_install(reply: Option<Message>) -> (r: Result<Installed, LinkOpError>)
    ensures
        r == match reply {
            Some(Message::UpdateResult(Status::Installed)) => Ok::<Installed, LinkOpError>(
                Installed::Reported,
            ),
            Some(Message::UpdateResult(status)) => Err(LinkOpError::Rejected(status)),
            Some(other) => Err(LinkOpError::Unexpected(other)),
            None => Ok(Installed::Silently),
        },
{
    match reply {
        Some(Message::UpdateResult(Status::Installed)) => Ok(Installed::Reported),
        Some(Message::UpdateResult(status)) => Err(LinkOpError::Rejected(status)),
        Some(other) => Err(LinkOpError::Unexpected(other)),
        None => Ok(Installed::Silently),
    }
}

// ── Laws ────────────────────────────────────────────────────────────────

/// A device that echoes satisfies a ping, and no reply to it but its own
/// payload does.
pub proof fn only_the_echo_answers_a_ping(payload: [u8; 8], reply: Message)
    ensures
        LinkOp::Ping(payload).wants(reply) <==> reply == Message::Pong(payload),
{
    if LinkOp::Ping(payload).wants(reply) {
        crate::proto::a_message_is_its_value(reply, Message::Pong(payload));
    }
}

} // verus!
