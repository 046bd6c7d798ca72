//! The self-test, the ad-hoc operations and the RTT link, against a device
//! that behaves and devices that do not.

use samd5_boot::link::Recv;
use samd5_boot::link_op::{
    judge_install, ping_payload, prepare, record_addr, Body, Installed, LinkOp, LinkOpError, Store,
    STORE_OFFSET,
};
use samd5_boot::manifest::stamp;
use samd5_boot::proto::{Message, Status};
use samd5_boot::rtt::{
    block_is_live, is_rig_block, published_ptr, wrote, Log, Reconnect, WriteStep, RTT_POINTER_ADDR,
    RTT_POINTER_MAGIC,
};
use samd5_boot::selftest::{
    awaited, image_len, wait_for_app, wait_for_banks, BanksWait, Action, AppState, AppWait, Awaited, BootWait, BootWaitStep,
    Check, Event, Heard, Image, NotTestable, Report, SelfTest, Why, GREETING, RESETS,
};
use samd5_boot::persist::RevertReason;

fn image(version: u16) -> Vec<u8> {
    let mut image = vec![0x77u8; 0x500];
    stamp(&mut image, version).unwrap();
    image
}

fn test() -> SelfTest {
    SelfTest::new(image(1), image(2)).unwrap_or_else(|_| panic!())
}

/// A device that does what it should.
struct Device {
    running: u16,
    confirmed: bool,
    reason: u8,
    attempts: u8,
    inactive: u8,
}

impl Device {
    fn answer(&mut self, test: &SelfTest, action: Action) -> Event {
        match action {
            Action::Ping => Event::Echo(GREETING),
            Action::Reboot | Action::WaitForBoot => Event::Done,
            Action::Send(image) => {
                let body = test.body(image);
                if body == test.good {
                    self.running = 1;
                    self.confirmed = true;
                    self.reason = 0;
                    Event::Answer(None)
                } else if body == test.noconfirm {
                    self.running = 2;
                    self.confirmed = false;
                    self.attempts = 0;
                    Event::Answer(None)
                } else {
                    self.inactive = 3;
                    Event::Answer(Some(Status::VerifyFailed))
                }
            }
            Action::Reject => {
                self.running = 1;
                self.confirmed = true;
                self.reason = 3;
                Event::Done
            }
            Action::PlainReset => {
                self.attempts += 1;
                if self.attempts == 3 {
                    self.running = 1;
                    self.confirmed = true;
                    self.reason = 1;
                }
                Event::Done
            }
            Action::WaitForApp => Event::State(AppState {
                version: self.running,
                revert_reason: self.reason,
                confirmed: self.confirmed,
            }),
            Action::GetBanks => Event::Banks { active: 1, inactive: self.inactive },
        }
    }
}

fn device() -> Device {
    Device { running: 1, confirmed: true, reason: 0, attempts: 0, inactive: 1 }
}

fn run(mut answer: impl FnMut(&SelfTest, Action) -> Event) -> (SelfTest, Vec<(Check, Result<(), Why>)>) {
    let mut test = test();
    let mut lines = Vec::new();
    while let Some(action) = test.action() {
        let event = answer(&test, action);
        if let Some(line) = test.step(event) {
            lines.push(line);
        }
    }
    (test, lines)
}

#[test]
fn a_device_that_behaves_passes_every_check() {
    let mut d = device();
    let (test, lines) = run(|t, a| d.answer(t, a));
    assert!(test.all_passed());
    assert_eq!(test.report, Report { passed: 11, failed: 0 });
    assert!(lines.iter().all(|(_, r)| r.is_ok()));
    let names: Vec<&str> = lines.iter().map(|(c, _)| c.name()).collect();
    assert_eq!(names[0], "link: Ping is answered");
    assert_eq!(names[4], "trial: an unconfirmed image boots and reports confirmed=false");
    assert_eq!(names[10], "install: a failed download leaves its target bank condemned");
}

#[test]
fn a_device_that_never_answers_fails_every_check() {
    let (test, lines) = run(|_, _| Event::Failed);
    assert_eq!(test.report, Report { passed: 0, failed: 11 });
    assert!(!test.all_passed());
    assert_eq!(lines[0], (Check::Ping, Err(Why::Link)));
}

#[test]
fn failures_are_told_apart() {
    let outcome = |check: Check, mut answer: Box<dyn FnMut(Action) -> Option<Event>>| {
        let mut d = device();
        let (_, lines) = run(|t, a| {
            let usual = d.answer(t, a);
            if t.check == Some(check) { answer(a).unwrap_or(usual) } else { usual }
        });
        lines.into_iter().find(|(c, _)| *c == check).unwrap().1
    };
    let state = |version, revert_reason, confirmed| {
        Some(Event::State(AppState { version, revert_reason, confirmed }))
    };
    let says = |event: Option<Event>| -> Box<dyn FnMut(Action) -> Option<Event>> {
        Box::new(move |a| if a == Action::WaitForApp { event } else { None })
    };
    assert_eq!(
        outcome(Check::Ping, Box::new(|_| Some(Event::Echo([0; 8])))),
        Err(Why::NoEcho)
    );
    assert_eq!(
        outcome(Check::Install, Box::new(|a| match a {
            Action::Send(_) => Some(Event::Answer(Some(Status::TooLarge))),
            _ => None,
        })),
        Err(Why::Answered(Status::TooLarge))
    );
    assert_eq!(outcome(Check::Install, says(state(2, 0, true))), Err(Why::Version(2)));
    assert_eq!(outcome(Check::Install, says(state(1, 0, false))), Err(Why::NotConfirmed));
    assert_eq!(
        outcome(Check::Empty, Box::new(|a| match a {
            Action::Send(_) => Some(Event::Answer(None)),
            _ => None,
        })),
        Err(Why::Accepted)
    );
    assert_eq!(outcome(Check::Trial, says(state(2, 0, true))), Err(Why::Confirmed));
    assert_eq!(
        outcome(Check::Rejects, says(state(1, 9, true))),
        Err(Why::Reason(None))
    );
    assert_eq!(
        outcome(Check::Window, says(state(1, 2, true))),
        Err(Why::Reason(Some(RevertReason::VerifyFailed)))
    );
    assert_eq!(outcome(Check::Exhausts, says(state(2, 0, false))), Err(Why::NoRollback));
    assert_eq!(
        outcome(Check::Condemned, Box::new(|_| Some(Event::Banks { active: 1, inactive: 1 }))),
        Err(Why::Bank(1))
    );
}

#[test]
fn a_rollback_may_take_as_many_resets_as_there_are() {
    for good_after in 1..=RESETS {
        let mut resets = 0;
        let mut d = device();
        let (_, lines) = run(|t, a| {
            let usual = d.answer(t, a);
            if t.check != Some(Check::Exhausts) {
                return usual;
            }
            if a == Action::PlainReset {
                resets += 1;
            }
            if a == Action::WaitForApp && resets > 0 {
                if resets < good_after {
                    return Event::Failed;
                }
                return Event::State(AppState { version: 1, revert_reason: 1, confirmed: true });
            }
            usual
        });
        assert_eq!(lines[6], (Check::Exhausts, Ok(())));
        assert_eq!(resets, good_after);
    }
}

#[test]
fn two_different_stamped_images_are_needed() {
    assert_eq!(SelfTest::new(vec![0; 0x500], image(2)).err(), Some(NotTestable::GoodUnstamped));
    assert_eq!(SelfTest::new(image(1), vec![]).err(), Some(NotTestable::NoconfirmUnstamped));
    assert_eq!(SelfTest::new(image(4), image(4)).err(), Some(NotTestable::SameVersion(4)));
}

#[test]
fn the_images_are_what_they_are_called() {
    let t = test();
    assert_eq!(t.body(Image::Good), image(1));
    assert_eq!(t.body(Image::Noconfirm), image(2));
    assert_eq!(t.body(Image::Empty), Vec::<u8>::new());
    let corrupted = t.body(Image::Corrupted);
    assert_eq!(corrupted[0x280], !0x77);
    assert_eq!(corrupted.iter().zip(image(1)).filter(|(a, b)| *a != b).count(), 1);
    assert_eq!(image_len(&corrupted), Some(0x500));
}

#[test]
fn polling_asks_until_the_application_answers() {
    let state = Message::State { app_version: 5, revert_reason: 1, confirmed: true };
    assert_eq!(wait_for_app(&Heard::Start, false), AppWait::Ask);
    assert_eq!(wait_for_app(&Heard::SendFailed, false), AppWait::Ask);
    assert_eq!(wait_for_app(&Heard::Message(Message::Ready), true), AppWait::Listen);
    assert_eq!(wait_for_app(&Heard::Silence, true), AppWait::GaveUp);
    let AppWait::Found(found) = wait_for_app(&Heard::Message(state), true) else { panic!() };
    assert_eq!(found.version, 5);
    assert_eq!(found.reason(), Some(RevertReason::AttemptsExhausted));
}

#[test]
fn boot_has_the_link_once_the_application_is_silent() {
    let state = Heard::Message(Message::State { app_version: 5, revert_reason: 1, confirmed: true });
    let mut wait = BootWait::new();
    assert_eq!(wait.step(&Heard::Start, false), BootWaitStep::Ask);
    assert_eq!(wait.step(&state, false), BootWaitStep::Listen);
    // It answered, so its silence afterwards says nothing.
    assert_eq!(wait.step(&Heard::Silence, false), BootWaitStep::Ask);
    assert_eq!(wait.step(&Heard::Message(Message::Ready), false), BootWaitStep::Listen);
    assert_eq!(wait.step(&Heard::Silence, false), BootWaitStep::Gone);
    assert_eq!(wait.step(&state, false), BootWaitStep::Listen);
    assert_eq!(wait.step(&Heard::Silence, true), BootWaitStep::GaveUp);
}

#[test]
fn silence_after_an_image_is_success() {
    assert_eq!(awaited(&Recv::TimedOut), Awaited::NoReply);
    assert_eq!(awaited(&Recv::Waiting), Awaited::Waiting);
    assert_eq!(awaited(&Recv::Message(Message::Ready)), Awaited::Waiting);
    assert_eq!(
        awaited(&Recv::Message(Message::UpdateResult(Status::FlashError))),
        Awaited::Answered(Status::FlashError)
    );
}

#[test]
fn operations_send_and_judge() {
    let ping = LinkOp::Ping(ping_payload(b"hi"));
    assert!(ping.message() == Message::Ping([104, 105, 0, 0, 0, 0, 0, 0]));
    assert_eq!(ping_payload(b"0123456789"), *b"01234567");
    let pong = Message::Pong([104, 105, 0, 0, 0, 0, 0, 0]);
    assert!(ping.judge(Some(pong)) == Ok(pong));
    let other = Message::Pong([0; 8]);
    assert!(
        ping.judge(Some(other))
            == Err(LinkOpError::EchoMismatch { sent: ping_payload(b"hi"), got: [0; 8] })
    );
    assert!(ping.judge(Some(Message::Ready)) == Err(LinkOpError::Unexpected(Message::Ready)));
    assert!(LinkOp::State.judge(None) == Err(LinkOpError::NoReply));
    let banks = Message::Banks { active: 1, inactive: 0 };
    assert!(LinkOp::Banks.judge(Some(banks)) == Ok(banks));
    assert!(LinkOp::Banks.message() == Message::GetBanks && LinkOp::Banks.expects_reply());
    assert!(LinkOp::State.message() == Message::GetState);
    assert!(LinkOp::Reboot.message() == Message::Update && !LinkOp::Reboot.expects_reply());
    assert!(LinkOp::Reset.message() == Message::Reset);
    assert!(LinkOp::Reject.message() == Message::Reject);
}

#[test]
fn installs_are_judged() {
    assert!(judge_install(None) == Ok(Installed::Silently));
    let ok = Message::UpdateResult(Status::Installed);
    assert!(judge_install(Some(ok)) == Ok(Installed::Reported));
    let bad = Message::UpdateResult(Status::VerifyFailed);
    assert!(judge_install(Some(bad)) == Err(LinkOpError::Rejected(Status::VerifyFailed)));
    assert!(judge_install(Some(Message::Ready)) == Err(LinkOpError::Unexpected(Message::Ready)));
    assert_eq!(prepare(vec![1, 2, 3], Body::AsBuilt), (vec![1, 2, 3], None));
    assert_eq!(prepare(vec![1, 2, 3], Body::Corrupted), (vec![1, 0xFD, 3], Some(1)));
    assert_eq!(record_addr(Store::for_see(false), STORE_OFFSET), 0x4700_0000);
    assert_eq!(record_addr(Store::for_see(true), 16), 0x4400_0010);
}

#[test]
fn a_publication_carries_its_magic() {
    assert_eq!(RTT_POINTER_ADDR, 0x4700_0010);
    assert_eq!(RTT_POINTER_MAGIC.to_be_bytes(), *b"rttp");
    assert_eq!(published_ptr([RTT_POINTER_MAGIC, 0x2000_1234]), Some(0x2000_1234));
    assert_eq!(published_ptr([0, 0x2000_1234]), None);
    assert!(block_is_live(b"SEGGER RTT\0\0\0\0\0\0"));
    assert!(!block_is_live(&[0; 16]) && !block_is_live(b"SEGGER"));
    let names = |list: &[&str]| list.iter().map(|s| s.to_string()).collect::<Vec<_>>();
    assert!(is_rig_block(&names(&["Terminal", "samd5-boot"])));
    assert!(!is_rig_block(&names(&["Terminal"])));
    assert!(!is_rig_block(&names(&["samd5-boot", "Terminal"])));
}

#[test]
fn reconnecting_tries_the_cheap_things_first() {
    let walk = |answers: &[bool]| {
        answers.iter().fold(Reconnect::ProbeCore, |step, &worked| step.next(worked))
    };
    assert_eq!(walk(&[true, true]), Reconnect::Attached);
    assert_eq!(walk(&[true, false, true]), Reconnect::Kept);
    assert_eq!(walk(&[true, false, false, true]), Reconnect::Attached);
    assert_eq!(walk(&[false, true, false, false, false]), Reconnect::NotYet);
    assert_eq!(walk(&[false, false, true]), Reconnect::Lost);
}

#[test]
fn only_a_write_that_takes_nothing_can_stall() {
    assert_eq!(wrote(10, 10, true), WriteStep::Done);
    assert_eq!(wrote(10, 3, true), WriteStep::Again);
    assert_eq!(wrote(10, 0, false), WriteStep::Again);
    assert_eq!(wrote(10, 0, true), WriteStep::Stalled);
}

#[test]
fn log_lines_come_out_whole() {
    let mut log = Log::new();
    assert!(log.push(b"boot: st").is_empty());
    assert_eq!(log.push(b"art\r\nboot: fu\n\r\n"), vec![
        b"boot: start".to_vec(),
        b"boot: fu".to_vec(),
        b"".to_vec(),
    ]);
    log.push(b"half");
    log.clear();
    assert_eq!(log.push(b"whole\n"), vec![b"whole".to_vec()]);
}

#[test]
fn only_banks_answer_a_question_about_banks() {
    assert_eq!(wait_for_banks(&Recv::TimedOut), BanksWait::NoReply);
    assert_eq!(wait_for_banks(&Recv::Waiting), BanksWait::Waiting);
    assert_eq!(wait_for_banks(&Recv::Message(Message::Ready)), BanksWait::Waiting);
    assert_eq!(
        wait_for_banks(&Recv::Message(Message::Banks { active: 1, inactive: 3 })),
        BanksWait::Found { active: 1, inactive: 3 }
    );
}
