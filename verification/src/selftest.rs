//! The rig's self-test: drives every call path of the bootloader over the
//! link and comes to one PASS or FAIL per path.
//!
//! Two application images are needed. The normal build confirms itself on
//! boot (so it is promoted out of trial); the `noconfirm` build never does,
//! which is what lets the rollback paths be exercised. They report different
//! `app_version` values, so the host can always tell which one a device came
//! back running.
//!
//! The test is a machine. [`SelfTest::action`] says what to do to the rig
//! next, and [`SelfTest::step`] takes what came of it. Polling for an answer
//! is decided one answer at a time, by [`wait_for_app`], [`BootWait::step`],
//! [`awaited`] and [`wait_for_banks`].

use vstd::prelude::*;

pub mod laws;

use crate::image::corrupt_body;
use crate::link::Recv;
use crate::manifest::read_version;
use crate::persist::{BankState, RevertReason};
use crate::proto::{same_payload, Message, Status};

verus! {

/// Each reset spends one trial attempt; more than any budget the rig's BOOT
/// is built with.
pub const RESETS: usize = 6;

/// What the link test sends.
pub const GREETING: [u8; 8] = [115, 101, 108, 102, 116, 101, 115, 116];

/// What a running application says of itself.
#[derive(Clone, Copy, PartialEq, Eq, Structural, Debug)]
pub struct AppState {
    pub version: u16,
    pub revert_reason: u8,
    pub confirmed: bool,
}

impl AppState {
    /// Why the last rollback happened, if this build knows the code.
    pub fn reason(&self) -> (reason: Option<RevertReason>)
        ensures
            reason == RevertReason::decode(self.revert_reason),
    {
        RevertReason::from_u8(self.revert_reason)
    }
}

/// How the checks so far came out.
#[derive(Clone, Copy, PartialEq, Eq, Structural, Debug)]
pub struct Report {
    pub passed: usize,
    pub failed: usize,
}

impl Report {
    pub open spec fn counting(self, passed: bool) -> Report {
        if passed {
            Report { passed: (self.passed + 1) as usize, ..self }
        } else {
            Report { failed: (self.failed + 1) as usize, ..self }
        }
    }

    /// Count one check.
    pub fn check(&mut self, passed: bool)
        requires
            old(self).passed < usize::MAX,
            old(self).failed < usize::MAX,
        ensures
            *final(self) == old(self).counting(passed),
    {
        if passed {
            self.passed = self.passed + 1;
        } else {
            self.failed = self.failed + 1;
        }
    }
}

// ── Polling ─────────────────────────────────────────────────────────────

/// What one round of polling heard.
pub enum Heard {
    /// Nothing has been asked yet.
    Start,
    /// The question could not be sent.
    SendFailed,
    Message(Message),
    /// Nothing more before the reply was due, or the link failed.
    Silence,
}

/// What to do next while waiting for the application.
#[derive(Clone, Copy, PartialEq, Eq, Structural, Debug)]
pub enum AppWait {
    /// Resynchronise and send `GetState`.
    Ask,
    /// Keep listening for the reply.
    Listen,
    Found(AppState),
    /// No application answered in time.
    GaveUp,
}

/// What polling for the application makes of what was heard.
pub open spec fn app_wait(heard: Heard, expired: bool) -> AppWait {
    match heard {
        Heard::Message(Message::State { app_version, revert_reason, confirmed }) => AppWait::Found(
            AppState { version: app_version, revert_reason, confirmed },
        ),
        Heard::Message(_) => AppWait::Listen,
        _ => if expired {
            AppWait::GaveUp
        } else {
            AppWait::Ask
        },
    }
}

/// Poll `GetState` until the application answers.
///
/// `State` comes from the application alone, which is what makes it the
/// signal that a boot has actually completed. The image that answers may not
/// be the one that was running when this started, so each attempt
/// resynchronises the link first. An attempt is started only before the
/// deadline.
pub fn wait_for_app(heard: &Heard, expired: bool) -> (step: AppWait)
    ensures
        step == app_wait(*heard, expired),
{
    match heard {
        Heard::Message(Message::State { app_version, revert_reason, confirmed }) => AppWait::Found(
            AppState {
                version: *app_version,
                revert_reason: *revert_reason,
                confirmed: *confirmed,
            },
        ),
        Heard::Message(_) => AppWait::Listen,
        _ => if expired {
            AppWait::GaveUp
        } else {
            AppWait::Ask
        },
    }
}

/// Waiting until the application has gone, so BOOT owns the link.
///
/// BOOT waits for an image without a deadline, so there is no window to
/// race: the only thing to establish is that the application is no longer
/// the one answering. `GetState` is answered by the application alone, which
/// makes its silence the signal.
#[derive(Clone, Copy, PartialEq, Eq, Structural, Debug)]
pub struct BootWait {
    /// The application answered the question that is open.
    pub app_answered: bool,
}

/// What to do next while waiting for BOOT.
#[derive(Clone, Copy, PartialEq, Eq, Structural, Debug)]
pub enum BootWaitStep {
    /// Resynchronise and send `GetState`.
    Ask,
    /// Keep listening until the reply is overdue.
    Listen,
    /// The application has gone.
    Gone,
    /// It never stopped answering.
    GaveUp,
}

impl BootWait {
    /// The next state of a wait, and what to do.
    pub open spec fn after(self, heard: Heard, expired: bool) -> (BootWait, BootWaitStep) {
        match heard {
            Heard::Message(Message::State { .. }) => (
                BootWait { app_answered: true },
                BootWaitStep::Listen,
            ),
            Heard::Message(_) => (self, BootWaitStep::Listen),
            Heard::Silence if !self.app_answered => (self, BootWaitStep::Gone),
            _ => (
                BootWait { app_answered: false },
                if expired {
                    BootWaitStep::GaveUp
                } else {
                    BootWaitStep::Ask
                },
            ),
        }
    }

    pub fn new() -> (wait: BootWait)
        ensures
            !wait.app_answered,
    {
        BootWait { app_answered: false }
    }

    pub fn step(&mut self, heard: &Heard, expired: bool) -> (step: BootWaitStep)
        ensures
            (*final(self), step) == old(self).after(*heard, expired),
    {
        match heard {
            Heard::Message(Message::State { .. }) => {
                self.app_answered = true;
                BootWaitStep::Listen
            },
            Heard::Message(_) => BootWaitStep::Listen,
            Heard::Silence if !self.app_answered => BootWaitStep::Gone,
            _ => {
                self.app_answered = false;
                if expired {
                    BootWaitStep::GaveUp
                } else {
                    BootWaitStep::Ask
                }
            },
        }
    }
}

/// What came of an image that was sent.
#[derive(Clone, Copy, PartialEq, Eq, Structural, Debug)]
pub enum Awaited {
    /// The device answered.
    Answered(Status),
    /// The device never answered, which is the success case: an install
    /// swaps and reboots rather than replying.
    NoReply,
    /// Nothing yet, or something else.
    Waiting,
}

/// What one round of waiting says about an image that was sent.
pub open spec fn answer_in(heard: Recv) -> Awaited {
    match heard {
        Recv::Message(Message::UpdateResult(status)) => Awaited::Answered(status),
        Recv::TimedOut => Awaited::NoReply,
        _ => Awaited::Waiting,
    }
}

/// Wait for what the device says of the image it was sent.
pub fn awaited(heard: &Recv) -> (r: Awaited)
    ensures
        r == answer_in(*heard),
{
    match heard {
        Recv::Message(Message::UpdateResult(status)) => Awaited::Answered(*status),
        Recv::TimedOut => Awaited::NoReply,
        _ => Awaited::Waiting,
    }
}

/// What came of asking BOOT about its banks.
#[derive(Clone, Copy, PartialEq, Eq, Structural, Debug)]
pub enum BanksWait {
    /// BOOT answered with what its record says of each bank.
    Found { active: u8, inactive: u8 },
    /// BOOT never answered.
    NoReply,
    /// Nothing yet, or something else.
    Waiting,
}

/// What one round of waiting says about the banks.
pub open spec fn banks_in(heard: Recv) -> BanksWait {
    match heard {
        Recv::Message(Message::Banks { active, inactive }) => BanksWait::Found { active, inactive },
        Recv::TimedOut => BanksWait::NoReply,
        _ => BanksWait::Waiting,
    }
}

/// Wait for the answer to a `GetBanks`.
pub fn wait_for_banks(heard: &Recv) -> (r: BanksWait)
    ensures
        r == banks_in(*heard),
{
    match heard {
        Recv::Message(Message::Banks { active, inactive }) => BanksWait::Found {
            active: *active,
            inactive: *inactive,
        },
        Recv::TimedOut => BanksWait::NoReply,
        _ => BanksWait::Waiting,
    }
}

/// The length an image is announced with, if a `BeginUpdate` can carry it.
pub fn image_len(image: &[u8]) -> (len: Option<u32>)
    ensures
        len == if image@.len() <= u32::MAX {
            Some(image@.len() as u32)
        } else {
            None
        },
{
    let len: usize = image.len();
    if len as u64 <= 0xFFFF_FFFF {
        Some(len as u32)
    } else {
        None
    }
}

// ── The script ──────────────────────────────────────────────────────────

/// One line of the report.
#[derive(Clone, Copy, PartialEq, Eq, Structural, Debug)]
pub enum Check {
    /// The link itself, and BOOT's own liveness.
    Ping,
    /// Install, verify, swap, boot: the whole happy path, ending in an image
    /// that confirms itself and so leaves trial.
    Install,
    /// A corrupted image must be refused by CRC ...
    Corrupted,
    /// ... and must not displace the image already installed.
    SurvivesCorrupted,
    /// An image that never confirms stays on trial.
    Trial,
    /// The application condemning itself rolls the device straight back.
    Rejects,
    /// Left to run, an unconfirmed image is rolled back once its trial
    /// attempts are spent.
    Exhausts,
    /// Back to a clean, confirmed baseline, which also re-exercises the
    /// application-requested update and leaves a verified image in the bank
    /// the next download targets.
    Window,
    /// A download that delivers nothing must be refused, whatever image the
    /// target bank still holds ...
    Empty,
    /// ... must not displace the running image ...
    SurvivesEmpty,
    /// ... and must not leave its target recorded as bootable.
    Condemned,
}

/// Which image to send.
#[derive(Clone, Copy, PartialEq, Eq, Structural, Debug)]
pub enum Image {
    Good,
    Noconfirm,
    /// The good image with one body byte inverted.
    Corrupted,
    /// No bytes at all.
    Empty,
}

/// What to do to the rig.
#[derive(Clone, Copy, PartialEq, Eq, Structural, Debug)]
pub enum Action {
    /// Round-trip a `Ping` of [`GREETING`].
    Ping,
    /// Resynchronise and send `Update`: the application requests an update
    /// and resets, so BOOT waits for the host rather than booting on.
    Reboot,
    /// Poll until the application has gone.
    WaitForBoot,
    /// Announce the image, wait for `Ready`, send it and wait for an answer.
    Send(Image),
    /// Poll until an application answers.
    WaitForApp,
    /// Resynchronise and send `Reset`, which spends one trial attempt.
    PlainReset,
    /// Resynchronise and send `Reject`.
    Reject,
    /// Resynchronise, send `GetBanks` and wait for the answer.
    GetBanks,
}

/// What came of an action.
#[derive(Clone, Copy, PartialEq, Eq)]
pub enum Event {
    /// It could not be done, or was not answered in time.
    Failed,
    Done,
    Echo([u8; 8]),
    /// What the device said of an image; `None` if it never answered.
    Answer(Option<Status>),
    State(AppState),
    Banks { active: u8, inactive: u8 },
}

/// Why a check failed.
#[derive(Clone, Copy, PartialEq, Eq, Debug)]
pub enum Why {
    /// An action failed, or came to something it cannot come to.
    Link,
    /// The payload did not echo.
    NoEcho,
    /// The device rejected the image, or said something else of it than was
    /// expected.
    Answered(Status),
    /// The device accepted an image it should have refused.
    Accepted,
    /// The device came back running this version.
    Version(u16),
    NotConfirmed,
    Confirmed,
    Reason(Option<RevertReason>),
    /// The device never rolled back.
    NoRollback,
    /// The record's code for the bank that was downloaded to.
    Bank(u8),
}

/// What an event says about the check it came in.
#[derive(Clone, Copy, PartialEq, Eq, Debug)]
pub enum Verdict {
    /// Go on with the next action of the check.
    Carry,
    Pass,
    Fail(Why),
}

impl Check {
    /// The checks that come before this one.
    pub open spec fn index(self) -> nat {
        match self {
            Check::Ping => 0,
            Check::Install => 1,
            Check::Corrupted => 2,
            Check::SurvivesCorrupted => 3,
            Check::Trial => 4,
            Check::Rejects => 5,
            Check::Exhausts => 6,
            Check::Window => 7,
            Check::Empty => 8,
            Check::SurvivesEmpty => 9,
            Check::Condemned => 10,
        }
    }

    /// The check after this one.
    pub open spec fn following(self) -> Option<Check> {
        match self {
            Check::Ping => Some(Check::Install),
            Check::Install => Some(Check::Corrupted),
            Check::Corrupted => Some(Check::SurvivesCorrupted),
            Check::SurvivesCorrupted => Some(Check::Trial),
            Check::Trial => Some(Check::Rejects),
            Check::Rejects => Some(Check::Exhausts),
            Check::Exhausts => Some(Check::Window),
            Check::Window => Some(Check::Empty),
            Check::Empty => Some(Check::SurvivesEmpty),
            Check::SurvivesEmpty => Some(Check::Condemned),
            Check::Condemned => None,
        }
    }

    /// Everything the check does to the rig if nothing settles it earlier.
    pub open spec fn script(self) -> Seq<Action> {
        match self {
            Check::Ping => seq![Action::Ping],
            Check::Install => installing(Image::Good),
            Check::Corrupted => sending(Image::Corrupted),
            Check::SurvivesCorrupted => seq![Action::WaitForApp],
            Check::Trial => installing(Image::Noconfirm),
            Check::Rejects => seq![Action::Reject, Action::WaitForApp],
            Check::Exhausts => installing(Image::Noconfirm) + Seq::new(
                (2 * RESETS) as nat,
                |i: int|
                    if i % 2 == 0 {
                        Action::PlainReset
                    } else {
                        Action::WaitForApp
                    },
            ),
            Check::Window => installing(Image::Good),
            Check::Empty => sending(Image::Empty),
            Check::SurvivesEmpty => seq![Action::WaitForApp],
            Check::Condemned => seq![Action::GetBanks],
        }
    }

    /// What a check is called in the report.
    pub open spec fn spec_name(self) -> Seq<char> {
        match self {
            Check::Ping => "link: Ping is answered"@,
            Check::Install => "install: a good image is accepted, booted, and confirms itself"@,
            Check::Corrupted => "verify: a corrupted image is rejected as VerifyFailed"@,
            Check::SurvivesCorrupted => "verify: the running image survives a rejected update"@,
            Check::Trial => "trial: an unconfirmed image boots and reports confirmed=false"@,
            Check::Rejects => "revert: an application that rejects itself is rolled back"@,
            Check::Exhausts =>
                "revert: an unconfirmed image is rolled back once attempts run out"@,
            Check::Window => "window: an application-requested reboot accepts a new image"@,
            Check::Empty => "verify: a download that delivers no bytes is rejected"@,
            Check::SurvivesEmpty =>
                "verify: the running image survives a download that delivers no bytes"@,
            Check::Condemned => "install: a failed download leaves its target bank condemned"@,
        }
    }

    /// What a check is called in the report.
    pub fn name(self) -> (name: &'static str)
        ensures
            name@ == self.spec_name(),
    {
        match self {
            Check::Ping => "link: Ping is answered",
            Check::Install => "install: a good image is accepted, booted, and confirms itself",
            Check::Corrupted => "verify: a corrupted image is rejected as VerifyFailed",
            Check::SurvivesCorrupted => "verify: the running image survives a rejected update",
            Check::Trial => "trial: an unconfirmed image boots and reports confirmed=false",
            Check::Rejects => "revert: an application that rejects itself is rolled back",
            Check::Exhausts => "revert: an unconfirmed image is rolled back once attempts run out",
            Check::Window => "window: an application-requested reboot accepts a new image",
            Check::Empty => "verify: a download that delivers no bytes is rejected",
            Check::SurvivesEmpty =>
                "verify: the running image survives a download that delivers no bytes",
            Check::Condemned => "install: a failed download leaves its target bank condemned",
        }
    }

    /// The check after this one.
    pub fn next(self) -> (next: Option<Check>)
        ensures
            next == self.following(),
            match next {
                Some(check) => check.index() == self.index() + 1,
                None => self.index() == 10,
            },
    {
        match self {
            Check::Ping => Some(Check::Install),
            Check::Install => Some(Check::Corrupted),
            Check::Corrupted => Some(Check::SurvivesCorrupted),
            Check::SurvivesCorrupted => Some(Check::Trial),
            Check::Trial => Some(Check::Rejects),
            Check::Rejects => Some(Check::Exhausts),
            Check::Exhausts => Some(Check::Window),
            Check::Window => Some(Check::Empty),
            Check::Empty => Some(Check::SurvivesEmpty),
            Check::SurvivesEmpty => Some(Check::Condemned),
            Check::Condemned => None,
        }
    }
}

/// Get an image to the device: ask for an update, wait for BOOT, send.
pub open spec fn sending(image: Image) -> Seq<Action> {
    seq![Action::Reboot, Action::WaitForBoot, Action::Send(image)]
}

/// Install an image and wait for the application to come back up.
pub open spec fn installing(image: Image) -> Seq<Action> {
    sending(image).push(Action::WaitForApp)
}

// ── The verdicts ────────────────────────────────────────────────────────

/// What a device that was sent an image to install may say.
pub open spec fn taken(event: Event) -> Verdict {
    match event {
        Event::Answer(None) => Verdict::Carry,
        Event::Answer(Some(status)) => Verdict::Fail(Why::Answered(status)),
        _ => Verdict::Fail(Why::Link),
    }
}

/// What a device that was sent something that is no image must say.
pub open spec fn refused(event: Event) -> Verdict {
    match event {
        Event::Answer(Some(Status::VerifyFailed)) => Verdict::Pass,
        Event::Answer(Some(status)) => Verdict::Fail(Why::Answered(status)),
        Event::Answer(None) => Verdict::Fail(Why::Accepted),
        _ => Verdict::Fail(Why::Link),
    }
}

/// What the check's last word is on the application that came back up.
pub open spec fn came_back(check: Check, state: AppState, good: u16, noconfirm: u16) -> Verdict {
    let reason = RevertReason::decode(state.revert_reason);
    match check {
        Check::Install => if state.version != good {
            Verdict::Fail(Why::Version(state.version))
        } else if !state.confirmed {
            Verdict::Fail(Why::NotConfirmed)
        } else {
            Verdict::Pass
        },
        Check::Trial => if state.version != noconfirm {
            Verdict::Fail(Why::Version(state.version))
        } else if state.confirmed {
            Verdict::Fail(Why::Confirmed)
        } else {
            Verdict::Pass
        },
        Check::Rejects => if state.version != good {
            Verdict::Fail(Why::Version(state.version))
        } else if reason != Some(RevertReason::AppRejected) {
            Verdict::Fail(Why::Reason(reason))
        } else {
            Verdict::Pass
        },
        Check::Window => if state.version != good {
            Verdict::Fail(Why::Version(state.version))
        } else if reason != Some(RevertReason::NoRevert) {
            Verdict::Fail(Why::Reason(reason))
        } else if !state.confirmed {
            Verdict::Fail(Why::NotConfirmed)
        } else {
            Verdict::Pass
        },
        _ => if state.version != good {
            Verdict::Fail(Why::Version(state.version))
        } else {
            Verdict::Pass
        },
    }
}

/// What the application that came back up says while trial attempts are
/// being spent, in reset number `nth`.
pub open spec fn spending(event: Event, nth: int, good: u16) -> Verdict {
    match event {
        Event::State(state) if state.version == good => {
            let reason = RevertReason::decode(state.revert_reason);
            if reason == Some(RevertReason::AttemptsExhausted) {
                Verdict::Pass
            } else {
                Verdict::Fail(Why::Reason(reason))
            }
        },
        _ => if nth + 1 < RESETS {
            Verdict::Carry
        } else {
            Verdict::Fail(Why::NoRollback)
        },
    }
}

/// What `event` says about `check` when it is what came of action `at` of
/// its script.
pub open spec fn verdict(check: Check, at: int, event: Event, good: u16, noconfirm: u16) -> Verdict {
    match check.script()[at] {
        Action::Ping => match event {
            Event::Echo(echo) => if echo@ == GREETING@ {
                Verdict::Pass
            } else {
                Verdict::Fail(Why::NoEcho)
            },
            _ => Verdict::Fail(Why::Link),
        },
        Action::Reboot | Action::WaitForBoot | Action::Reject => if event == Event::Done {
            Verdict::Carry
        } else {
            Verdict::Fail(Why::Link)
        },
        // The link going away stops the resets; what it hides is a rollback
        // that was never seen.
        Action::PlainReset => if event == Event::Done {
            Verdict::Carry
        } else {
            Verdict::Fail(Why::NoRollback)
        },
        Action::Send(Image::Corrupted) | Action::Send(Image::Empty) => refused(event),
        Action::Send(_) => taken(event),
        Action::WaitForApp => if check == Check::Exhausts && at > 3 {
            spending(event, (at - 4) / 2, good)
        } else {
            match event {
                Event::State(state) => if check == Check::Exhausts {
                    if state.version == noconfirm {
                        Verdict::Carry
                    } else {
                        Verdict::Fail(Why::Version(state.version))
                    }
                } else {
                    came_back(check, state, good, noconfirm)
                },
                _ => Verdict::Fail(Why::Link),
            }
        },
        Action::GetBanks => match event {
            Event::Banks { active: _, inactive } => if inactive
                == BankState::Invalid.spec_code() {
                Verdict::Pass
            } else {
                Verdict::Fail(Why::Bank(inactive))
            },
            _ => Verdict::Fail(Why::Link),
        },
    }
}

/// A test that stopped before it started.
#[derive(Clone, Copy, PartialEq, Eq, Structural, Debug)]
pub enum NotTestable {
    /// The good image carries no manifest: it has not been stamped.
    GoodUnstamped,
    /// Nor does the one that does not confirm.
    NoconfirmUnstamped,
    /// Both images report this version, so the rollback paths cannot be told
    /// apart: the second must be the no-confirm build.
    SameVersion(u16),
}

/// The self-test under way.
pub struct SelfTest {
    pub good: Vec<u8>,
    pub noconfirm: Vec<u8>,
    pub good_version: u16,
    pub noconfirm_version: u16,
    /// The check being made; `None` once all have been.
    pub check: Option<Check>,
    /// The action of its script that is due.
    pub at: usize,
    pub report: Report,
}

/// The action `at` of a check's script.
fn scripted(check: Check, at: usize) -> (action: Action)
    requires
        at < check.script().len(),
    ensures
        action == check.script()[at as int],
{
    let image: Image = match check {
        Check::Ping => return Action::Ping,
        Check::SurvivesCorrupted | Check::SurvivesEmpty => return Action::WaitForApp,
        Check::Condemned => return Action::GetBanks,
        Check::Rejects => {
            return if at == 0 {
                Action::Reject
            } else {
                Action::WaitForApp
            };
        },
        Check::Install | Check::Window => Image::Good,
        Check::Trial | Check::Exhausts => Image::Noconfirm,
        Check::Corrupted => Image::Corrupted,
        Check::Empty => Image::Empty,
    };
    if at == 0 {
        Action::Reboot
    } else if at == 1 {
        Action::WaitForBoot
    } else if at == 2 {
        Action::Send(image)
    } else if at % 2 == 0 {
        Action::PlainReset
    } else {
        Action::WaitForApp
    }
}

/// The last word on the application that came back up.
fn judge_app(check: Check, state: AppState, good: u16, noconfirm: u16) -> (v: Verdict)
    ensures
        v == came_back(check, state, good, noconfirm),
{
    let expected: u16 = match check {
        Check::Trial => noconfirm,
        _ => good,
    };
    if state.version != expected {
        return Verdict::Fail(Why::Version(state.version));
    }
    let reason: Option<RevertReason> = state.reason();
    match check {
        Check::Install => if state.confirmed {
            Verdict::Pass
        } else {
            Verdict::Fail(Why::NotConfirmed)
        },
        Check::Trial => if state.confirmed {
            Verdict::Fail(Why::Confirmed)
        } else {
            Verdict::Pass
        },
        Check::Rejects => match reason {
            Some(RevertReason::AppRejected) => Verdict::Pass,
            other => Verdict::Fail(Why::Reason(other)),
        },
        Check::Window => match reason {
            Some(RevertReason::NoRevert) => if state.confirmed {
                Verdict::Pass
            } else {
                Verdict::Fail(Why::NotConfirmed)
            },
            other => Verdict::Fail(Why::Reason(other)),
        },
        _ => Verdict::Pass,
    }
}

/// What came of one action of a check.
fn judge(check: Check, at: usize, event: Event, good: u16, noconfirm: u16) -> (v: Verdict)
    requires
        at < check.script().len(),
    ensures
        v == verdict(check, at as int, event, good, noconfirm),
{
    match scripted(check, at) {
        Action::Ping => match event {
            Event::Echo(echo) => if same_payload(&echo, &GREETING) {
                Verdict::Pass
            } else {
                Verdict::Fail(Why::NoEcho)
            },
            _ => Verdict::Fail(Why::Link),
        },
        Action::Reboot | Action::WaitForBoot | Action::Reject => match event {
            Event::Done => Verdict::Carry,
            _ => Verdict::Fail(Why::Link),
        },
        Action::PlainReset => match event {
            Event::Done => Verdict::Carry,
            _ => Verdict::Fail(Why::NoRollback),
        },
        Action::Send(Image::Corrupted) | Action::Send(Image::Empty) => match event {
            Event::Answer(Some(Status::VerifyFailed)) => Verdict::Pass,
            Event::Answer(Some(status)) => Verdict::Fail(Why::Answered(status)),
            Event::Answer(None) => Verdict::Fail(Why::Accepted),
            _ => Verdict::Fail(Why::Link),
        },
        Action::Send(_) => match event {
            Event::Answer(None) => Verdict::Carry,
            Event::Answer(Some(status)) => Verdict::Fail(Why::Answered(status)),
            _ => Verdict::Fail(Why::Link),
        },
        Action::WaitForApp => match (check, event) {
            (Check::Exhausts, event) if at > 3 => match event {
                Event::State(state) if state.version == good => match state.reason() {
                    Some(RevertReason::AttemptsExhausted) => Verdict::Pass,
                    other => Verdict::Fail(Why::Reason(other)),
                },
                _ => if (at - 4) / 2 + 1 < RESETS {
                    Verdict::Carry
                } else {
                    Verdict::Fail(Why::NoRollback)
                },
            },
            (Check::Exhausts, Event::State(state)) => if state.version == noconfirm {
                Verdict::Carry
            } else {
                Verdict::Fail(Why::Version(state.version))
            },
            (check, Event::State(state)) => judge_app(check, state, good, noconfirm),
            _ => Verdict::Fail(Why::Link),
        },
        Action::GetBanks => match event {
            Event::Banks { active: _, inactive } => if inactive == BankState::Invalid.code() {
                Verdict::Pass
            } else {
                Verdict::Fail(Why::Bank(inactive))
            },
            _ => Verdict::Fail(Why::Link),
        },
    }
}

impl SelfTest {
    /// A check is under way inside its script, and every one before it has
    /// been counted.
    pub open spec fn wf(self) -> bool {
        &&& self.good@.len() > 0
        &&& match self.check {
            Some(check) => {
                &&& self.at < check.script().len()
                &&& self.report.passed + self.report.failed == check.index()
            },
            None => self.report.passed + self.report.failed == 11,
        }
    }

    /// The bytes an image stands for.
    pub open spec fn spec_body(self, image: Image) -> Seq<u8> {
        match image {
            Image::Good => self.good@,
            Image::Noconfirm => self.noconfirm@,
            Image::Corrupted => {
                let at = self.good@.len() / 2;
                self.good@.update(at as int, !self.good@[at as int])
            },
            Image::Empty => Seq::empty(),
        }
    }

    /// Set up a test of two stamped images.
    ///
    /// Each image announces its own version on the wire, and it is stamped
    /// into the manifest the device verifies, so it is read from the file
    /// rather than restated.
    pub fn new(good: Vec<u8>, noconfirm: Vec<u8>) -> (r: Result<SelfTest, NotTestable>)
        ensures
            match (
                crate::manifest::version_of(good@),
                crate::manifest::version_of(noconfirm@),
            ) {
                (None, _) => r == Err::<SelfTest, NotTestable>(NotTestable::GoodUnstamped),
                (Some(_), None) => r == Err::<SelfTest, NotTestable>(
                    NotTestable::NoconfirmUnstamped,
                ),
                (Some(g), Some(n)) => if g == n {
                    r == Err::<SelfTest, NotTestable>(NotTestable::SameVersion(g))
                } else {
                    r matches Ok(test) && test.wf() && test.good == good && test.noconfirm
                        == noconfirm && test.good_version == g && test.noconfirm_version == n
                        && test.check == Some(Check::Ping) && test.at == 0 && test.report
                        == (Report { passed: 0, failed: 0 })
                },
            },
    {
        let good_version: u16 = match read_version(good.as_slice()) {
            Some(version) => version,
            None => return Err(NotTestable::GoodUnstamped),
        };
        let noconfirm_version: u16 = match read_version(noconfirm.as_slice()) {
            Some(version) => version,
            None => return Err(NotTestable::NoconfirmUnstamped),
        };
        if good_version == noconfirm_version {
            return Err(NotTestable::SameVersion(good_version));
        }
        Ok(
            SelfTest {
                good,
                noconfirm,
                good_version,
                noconfirm_version,
                check: Some(Check::Ping),
                at: 0,
                report: Report { passed: 0, failed: 0 },
            },
        )
    }

    /// What to do to the rig next; `None` once every check has been made.
    pub fn action(&self) -> (action: Option<Action>)
        requires
            self.wf(),
        ensures
            match self.check {
                Some(check) => action == Some(check.script()[self.at as int]),
                None => action is None,
            },
    {
        match self.check {
            Some(check) => Some(scripted(check, self.at)),
            None => None,
        }
    }

    /// The bytes to send for an image.
    pub fn body(&self, image: Image) -> (bytes: Vec<u8>)
        requires
            self.wf(),
        ensures
            bytes@ == self.spec_body(image),
    {
        let mut bytes: Vec<u8> = Vec::new();
        match image {
            Image::Good => bytes.extend_from_slice(self.good.as_slice()),
            Image::Noconfirm => bytes.extend_from_slice(self.noconfirm.as_slice()),
            Image::Corrupted => {
                bytes.extend_from_slice(self.good.as_slice());
                assert(bytes@ =~= self.good@);
                corrupt_body(bytes.as_mut_slice());
            },
            Image::Empty => {},
        }
        assert(bytes@ =~= self.spec_body(image));
        bytes
    }

    /// Take what came of the action that was due. What is returned is the
    /// check that this settled, if it settled one.
    pub fn step(&mut self, event: Event) -> (settled: Option<(Check, Result<(), Why>)>)
        requires
            old(self).wf(),
        ensures
            final(self).wf(),
            old(self).takes(event, *final(self), settled),
    {
        let check: Check = match self.check {
            Some(check) => check,
            None => return None,
        };
        let v: Verdict = judge(
            check,
            self.at,
            event,
            self.good_version,
            self.noconfirm_version,
        );
        let outcome: Result<(), Why> = match v {
            Verdict::Carry => {
                proof {
                    a_script_is_settled_by_its_end(
                        check,
                        self.at as int,
                        event,
                        self.good_version,
                        self.noconfirm_version,
                    );
                }
                self.at = self.at + 1;
                return None;
            },
            Verdict::Pass => Ok(()),
            Verdict::Fail(why) => Err(why),
        };
        self.report.check(outcome.is_ok());
        self.check = check.next();
        self.at = 0;
        Some((check, outcome))
    }

    /// Nothing failed.
    pub fn all_passed(&self) -> (passed: bool)
        ensures
            passed == (self.report.failed == 0),
    {
        self.report.failed == 0
    }

    /// What an event leads to while an action is due: the next action of the
    /// check, or the check settled and counted.
    pub open spec fn takes(
        self,
        event: Event,
        post: SelfTest,
        settled: Option<(Check, Result<(), Why>)>,
    ) -> bool {
        &&& post.good == self.good
        &&& post.noconfirm == self.noconfirm
        &&& post.good_version == self.good_version
        &&& post.noconfirm_version == self.noconfirm_version
        &&& match self.check {
            Some(check) => match verdict(
                check,
                self.at as int,
                event,
                self.good_version,
                self.noconfirm_version,
            ) {
                Verdict::Carry => {
                    &&& settled is None
                    &&& post.check == self.check
                    &&& post.at == self.at + 1
                    &&& post.report == self.report
                },
                Verdict::Pass => {
                    &&& settled == Some((check, Ok::<(), Why>(())))
                    &&& post.moved_on(check, true, self.report)
                },
                Verdict::Fail(why) => {
                    &&& settled == Some((check, Err::<(), Why>(why)))
                    &&& post.moved_on(check, false, self.report)
                },
            },
            None => settled is None && post == self,
        }
    }

    /// `check` has been counted and the one after it is due.
    pub open spec fn moved_on(self, check: Check, passed: bool, before: Report) -> bool {
        self.check == check.following() && self.at == 0 && self.report == before.counting(passed)
    }
}

// ── Laws ────────────────────────────────────────────────────────────────

/// A check is settled at the latest by the last action of its script, so a
/// test always comes to an end.
pub proof fn a_script_is_settled_by_its_end(
    check: Check,
    at: int,
    event: Event,
    good: u16,
    noconfirm: u16,
)
    requires
        0 <= at < check.script().len(),
    ensures
        verdict(check, at, event, good, noconfirm) is Carry ==> at + 1 < check.script().len(),
{
}

/// Silence never passes: an action that fails carries no check to a pass,
/// and only while trial attempts are being spent does it leave the check
/// open.
pub proof fn silence_never_passes(check: Check, at: int, good: u16, noconfirm: u16)
    requires
        0 <= at < check.script().len(),
    ensures
        !(verdict(check, at, Event::Failed, good, noconfirm) is Pass),
        verdict(check, at, Event::Failed, good, noconfirm) is Carry ==> check == Check::Exhausts
            && at > 3,
{
}

/// A check that passes on what the application says of itself passes only
/// with the image running that the check expects.
pub proof fn the_wrong_image_never_passes(
    check: Check,
    at: int,
    state: AppState,
    good: u16,
    noconfirm: u16,
)
    requires
        0 <= at < check.script().len(),
        verdict(check, at, Event::State(state), good, noconfirm) is Pass,
    ensures
        state.version == if check == Check::Trial {
            noconfirm
        } else {
            good
        },
{
}

/// An image that should be refused passes only on the device's own word that
/// it did not verify.
pub proof fn a_bad_image_must_be_refused(event: Event, good: u16, noconfirm: u16)
    ensures
        verdict(Check::Corrupted, 2, event, good, noconfirm) is Pass <==> event == Event::Answer(
            Some(Status::VerifyFailed),
        ),
        verdict(Check::Empty, 2, event, good, noconfirm) is Pass <==> event == Event::Answer(
            Some(Status::VerifyFailed),
        ),
{
}

} // verus!
