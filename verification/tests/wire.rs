//! The wire protocol and the link over it.

use samd5_boot::boot::{InstallError, VerifyError};
use samd5_boot::flash_writer::{FlashError, NvmError};
use samd5_boot::link::{Link, Pong, Readiness, Recv, Transport};
use samd5_boot::proto::{encode, parse, BufferFull, Decoder, Feed, Message, Status, MAX_FRAME};

fn roundtrip(msg: Message) {
    let mut buf = [0u8; MAX_FRAME];
    let frame = encode(&msg, &mut buf).unwrap();
    let mut dec = Decoder::new();
    match dec.feed(frame) {
        Feed::Frame { msg: got, remaining } => {
            assert_eq!(got, msg);
            assert!(remaining.is_empty());
        }
        _ => panic!("expected a frame"),
    }
}

#[test]
fn every_variant_roundtrips() {
    roundtrip(Message::Ping([1, 2, 3, 4, 5, 6, 7, 8]));
    roundtrip(Message::Pong([9, 10, 11, 12, 13, 14, 15, 16]));
    roundtrip(Message::BeginUpdate { len: 0xDEAD_BEEF });
    roundtrip(Message::UpdateResult(Status::VerifyFailed));
    roundtrip(Message::Update);
    roundtrip(Message::Reset);
    roundtrip(Message::GetState);
    roundtrip(Message::State {
        app_version: 0x1234,
        revert_reason: 3,
        confirmed: true,
    });
    roundtrip(Message::Reject);
    roundtrip(Message::GetBanks);
    roundtrip(Message::Banks { active: 1, inactive: 3 });
    roundtrip(Message::Ready);
    roundtrip(Message::Ping([0; 8]));
}

#[test]
fn frame_boundary_surfaces_trailing_raw_bytes() {
    // A BeginUpdate frame immediately followed by raw image bytes in the
    // same chunk: the raw tail must come back as `remaining`.
    let mut buf = [0u8; MAX_FRAME];
    let frame = encode(&Message::BeginUpdate { len: 4 }, &mut buf).unwrap();
    let mut wire = frame.to_vec();
    wire.extend_from_slice(&[0xAA, 0xBB, 0xCC, 0xDD]);

    let mut dec = Decoder::new();
    match dec.feed(&wire) {
        Feed::Frame { msg, remaining } => {
            assert_eq!(msg, Message::BeginUpdate { len: 4 });
            assert_eq!(remaining, &[0xAA, 0xBB, 0xCC, 0xDD]);
        }
        _ => panic!("expected a frame"),
    }
}

#[test]
fn split_frame_accumulates_across_feeds() {
    let mut buf = [0u8; MAX_FRAME];
    let frame = encode(&Message::Ping([7; 8]), &mut buf).unwrap().to_vec();
    let (a, b) = frame.split_at(3);

    let mut dec = Decoder::new();
    assert!(matches!(dec.feed(a), Feed::Consumed));
    match dec.feed(b) {
        Feed::Frame { msg, .. } => assert_eq!(msg, Message::Ping([7; 8])),
        _ => panic!("expected a frame"),
    }
}

/// The bytes on the wire are those of postcard in a COBS frame.
#[test]
fn frames_are_postcard_in_cobs() {
    fn framed(msg: Message) -> Vec<u8> {
        let mut buf = [0u8; MAX_FRAME];
        encode(&msg, &mut buf).unwrap().to_vec()
    }
    let state = Message::State { app_version: 300, revert_reason: 0, confirmed: true };
    assert_eq!(framed(state), postcard::to_allocvec_cobs(&(7u8, 300u16, 0u8, true)).unwrap());
    for len in [0u32, 1, 127, 128, 16_383, 16_384, 0xDEAD_BEEF, u32::MAX] {
        assert_eq!(
            framed(Message::BeginUpdate { len }),
            postcard::to_allocvec_cobs(&(2u8, len)).unwrap()
        );
    }
    assert_eq!(
        framed(Message::Ping([0, 1, 0, 2, 0, 3, 0, 4])),
        postcard::to_allocvec_cobs(&(0u8, [0u8, 1, 0, 2, 0, 3, 0, 4])).unwrap()
    );
    assert_eq!(framed(Message::UpdateResult(Status::TooLarge)), [3, 3, 3, 0]);
    assert_eq!(framed(Message::Reject), [2, 8, 0]);
    assert_eq!(framed(Message::Banks { active: 0, inactive: 3 }), [2, 10, 2, 3, 0]);
}

#[test]
fn a_small_buffer_is_left_alone() {
    let mut buf = [0xEE; 4];
    assert_eq!(encode(&Message::Ping([1; 8]), &mut buf), Err(BufferFull));
    assert_eq!(buf, [0xEE; 4]);
    assert_eq!(encode(&Message::Ready, &mut buf), Ok(&[2u8, 11, 0][..]));
    assert_eq!(buf, [2, 11, 0, 0xEE]);
}

#[test]
fn payloads_are_parsed_as_postcard_does() {
    assert_eq!(parse(&[4]), Some(Message::Update));
    assert_eq!(parse(&[4, 99]), Some(Message::Update));
    // A number may be longer than it needs to be, but not too wide.
    assert_eq!(parse(&[0x84, 0x00]), Some(Message::Update));
    assert_eq!(parse(&[2, 0xFF, 0xFF, 0xFF, 0xFF, 0x0F]), Some(Message::BeginUpdate { len: u32::MAX }));
    assert_eq!(parse(&[2, 0xFF, 0xFF, 0xFF, 0xFF, 0x10]), None);
    assert_eq!(parse(&[7, 0xFF, 0xFF, 0x03, 1, 0]), Some(Message::State {
        app_version: 0xFFFF,
        revert_reason: 1,
        confirmed: false,
    }));
    assert_eq!(parse(&[7, 0xFF, 0xFF, 0x04, 1, 0]), None);
    assert_eq!(parse(&[7, 1, 1, 2]), None);
    assert_eq!(parse(&[3, 4]), None);
    assert_eq!(parse(&[12]), None);
    assert_eq!(parse(&[0, 1, 2, 3, 4, 5, 6, 7]), None);
    assert_eq!(parse(&[]), None);
}

#[test]
fn bad_frames_are_skipped() {
    let mut dec = Decoder::new();
    // Not a frame: the group is longer than what follows.
    assert!(matches!(dec.feed(&[9, 1, 0, 5]), Feed::DeserError { remaining: &[5] }));
    // Nothing but a delimiter.
    assert!(matches!(dec.feed(&[0]), Feed::DeserError { remaining: &[] }));
    // Too long before its delimiter, and too long without one.
    let mut long = vec![1u8; 40];
    long.push(0);
    long.push(7);
    assert!(matches!(dec.feed(&long), Feed::Overfull { remaining: &[7] }));
    assert!(matches!(dec.feed(&[1; 34]), Feed::Overfull { remaining: &[1, 1] }));
    assert!(matches!(dec.feed(&[1; 32]), Feed::Consumed));
    assert!(matches!(dec.feed(&[0]), Feed::Overfull { remaining: &[] }));
    assert!(matches!(dec.feed(&[]), Feed::Consumed));
}

/// A transport that says what it was given to say and keeps what it is told.
struct Script {
    says: Vec<Vec<u8>>,
    heard: Vec<u8>,
    cleared: usize,
    reconnected: usize,
    broken: bool,
}

impl Transport for Script {
    type Err = ();

    fn read(&mut self, _max: usize) -> Result<Vec<u8>, ()> {
        if self.broken {
            return Err(());
        }
        if self.says.is_empty() {
            return Ok(Vec::new());
        }
        Ok(self.says.remove(0))
    }

    fn write(&mut self, bytes: &[u8]) -> Result<(), ()> {
        self.heard.extend_from_slice(bytes);
        Ok(())
    }

    fn clear_input(&mut self) -> Result<(), ()> {
        self.cleared += 1;
        Ok(())
    }

    fn reconnect(&mut self) -> Result<(), ()> {
        self.reconnected += 1;
        Err(())
    }

    fn describe(&self) -> String {
        "a script".to_string()
    }
}

fn script(says: Vec<Vec<u8>>) -> Link<Script> {
    Link::new(Script { says, heard: Vec::new(), cleared: 0, reconnected: 0, broken: false })
}

fn frame_of(msg: Message) -> Vec<u8> {
    let mut buf = [0u8; MAX_FRAME];
    encode(&msg, &mut buf).unwrap().to_vec()
}

fn next(link: &mut Link<Script>) -> Option<Message> {
    for _ in 0..100 {
        match link.recv(false) {
            Ok(Recv::Message(msg)) => return Some(msg),
            Ok(_) => {}
            Err(()) => return None,
        }
    }
    None
}

#[test]
fn messages_come_out_in_order_however_they_are_cut() {
    let mut stream = vec![9u8, 9, 0];
    stream.extend(frame_of(Message::GetState));
    stream.extend(frame_of(Message::Ping([3; 8])));
    stream.extend(vec![200u8; 50]);
    stream.push(0);
    stream.extend(frame_of(Message::Reset));
    for size in [1usize, 2, 5, 13, 500] {
        let chunks = stream.chunks(size).map(|c| c.to_vec()).collect();
        let mut link = script(chunks);
        assert_eq!(next(&mut link), Some(Message::GetState));
        assert_eq!(next(&mut link), Some(Message::Ping([3; 8])));
        assert_eq!(next(&mut link), Some(Message::Reset));
        assert!(matches!(link.recv(true), Ok(Recv::TimedOut)));
    }
}

#[test]
fn a_broken_transport_is_reported() {
    let mut link = script(Vec::new());
    link.transport.broken = true;
    assert!(link.recv(false).is_err());
    assert!(matches!(link.recv(true), Ok(Recv::TimedOut)));
    assert_eq!(link.describe(), "a script");
}

#[test]
fn a_ping_is_answered_by_its_pong() {
    let mut link = script(vec![frame_of(Message::Ready), frame_of(Message::Pong([5; 8]))]);
    link.ping([5; 8]).unwrap();
    assert_eq!(link.transport.heard, frame_of(Message::Ping([5; 8])));
    // A failed reconnect does not stop it.
    assert_eq!((link.transport.reconnected, link.transport.cleared), (1, 1));
    let mut rounds = 0;
    loop {
        match link.await_pong(false).unwrap() {
            Pong::Echo(echo) => {
                assert_eq!(echo, [5; 8]);
                break;
            }
            Pong::Waiting => rounds += 1,
            Pong::NoReply => panic!("not expired"),
        }
    }
    assert_eq!(rounds, 3);
    assert!(matches!(link.await_pong(true), Ok(Pong::NoReply)));
}

#[test]
fn an_image_waits_for_ready() {
    let mut link = script(vec![frame_of(Message::Ready)]);
    link.begin_update(600).unwrap();
    assert_eq!(link.transport.heard, frame_of(Message::BeginUpdate { len: 600 }));
    assert_eq!((link.transport.reconnected, link.transport.cleared), (0, 1));
    assert_eq!(link.await_ready(false), Ok(Readiness::Waiting));
    assert_eq!(link.await_ready(false), Ok(Readiness::Ready));
    link.write_raw(&[1, 2, 3]).unwrap();
    assert!(link.transport.heard.ends_with(&[1, 2, 3]));
    assert_eq!(link.await_ready(true), Ok(Readiness::NoReply));

    let mut link = script(vec![frame_of(Message::UpdateResult(Status::FlashError))]);
    link.begin_update(1).unwrap();
    let _ = link.await_ready(false);
    assert_eq!(link.await_ready(false), Ok(Readiness::Refused(Status::FlashError)));
}

#[test]
fn a_resync_drops_what_was_half_received() {
    let mut link = script(vec![frame_of(Message::Ping([1; 8]))[..4].to_vec()]);
    let _ = link.recv(false);
    let _ = link.recv(false);
    assert_eq!(link.decoder.held.len(), 4);
    link.resync().unwrap();
    assert!(link.decoder.held.is_empty() && link.pending.is_empty());
    link.reconnect().unwrap_err();
    link.flush_input().unwrap();
    link.request(&Message::Reset).unwrap();
    link.ask(&Message::Update).unwrap();
    link.send(&Message::Reject).unwrap();
}

#[test]
fn a_failed_install_is_reported_by_its_cause() {
    let of = |e: InstallError<u8>| Status::for_install(&e);
    assert_eq!(of(InstallError::Flash(FlashError::ImageTooLarge)), Status::TooLarge);
    assert_eq!(of(InstallError::Flash(FlashError::Nvm(NvmError::Protected))), Status::FlashError);
    assert_eq!(of(InstallError::Verify(VerifyError::BadCrc)), Status::VerifyFailed);
    assert_eq!(of(InstallError::Write(7)), Status::FlashError);
}
