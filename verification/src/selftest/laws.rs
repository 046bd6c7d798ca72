//! What each check of the self-test asks of the rig.
//!
//! A check is only worth its PASS if nothing but the behaviour it is named
//! after gets it one, and only worth its FAIL if that behaviour never does.
//! Each law says both, over everything the rig can answer.

use vstd::prelude::*;

use crate::link::Recv;
use crate::proto::{Message, Status};
use crate::selftest::{
    Action, AppState, AppWait, Awaited, BanksWait, BootWait, BootWaitStep, Check, Event, Heard,
    Image, NotTestable, Report, SelfTest, Verdict, Why,
};
use crate::persist::RevertReason;

verus! {

// ── What a check does ───────────────────────────────────────────────────

/// A script gets an image to the device by asking for an update, waiting for
/// BOOT and sending it.
pub open spec fn delivers(script: Seq<Action>, image: Image) -> bool {
    &&& script.len() >= 3
    &&& script[0] == Action::Reboot
    &&& script[1] == Action::WaitForBoot
    &&& script[2] == Action::Send(image)
}

/// What is done to the rig in each check, action by action.
pub proof fn what_each_check_does(nth: int)
    ensures
        Check::Ping.script().len() == 1 && Check::Ping.script()[0] == Action::Ping,
        delivers(Check::Install.script(), Image::Good) && Check::Install.script().len() == 4
            && Check::Install.script()[3] == Action::WaitForApp,
        delivers(Check::Corrupted.script(), Image::Corrupted) && Check::Corrupted.script().len()
            == 3,
        Check::SurvivesCorrupted.script().len() == 1 && Check::SurvivesCorrupted.script()[0]
            == Action::WaitForApp,
        delivers(Check::Trial.script(), Image::Noconfirm) && Check::Trial.script().len() == 4
            && Check::Trial.script()[3] == Action::WaitForApp,
        Check::Rejects.script().len() == 2 && Check::Rejects.script()[0] == Action::Reject
            && Check::Rejects.script()[1] == Action::WaitForApp,
        delivers(Check::Exhausts.script(), Image::Noconfirm) && Check::Exhausts.script().len() == 16
            && Check::Exhausts.script()[3] == Action::WaitForApp,
        0 <= nth < 6 ==> Check::Exhausts.script()[4 + 2 * nth] == Action::PlainReset
            && Check::Exhausts.script()[5 + 2 * nth] == Action::WaitForApp,
        delivers(Check::Window.script(), Image::Good) && Check::Window.script().len() == 4
            && Check::Window.script()[3] == Action::WaitForApp,
        delivers(Check::Empty.script(), Image::Empty) && Check::Empty.script().len() == 3,
        Check::SurvivesEmpty.script().len() == 1 && Check::SurvivesEmpty.script()[0]
            == Action::WaitForApp,
        Check::Condemned.script().len() == 1 && Check::Condemned.script()[0] == Action::GetBanks,
{
}

/// The checks are made in one order, each once, and a failed one does not
/// stop the next.
pub proof fn checks_are_made_in_order(check: Check)
    ensures
        Check::Ping.following() == Some(Check::Install),
        Check::Install.following() == Some(Check::Corrupted),
        Check::Corrupted.following() == Some(Check::SurvivesCorrupted),
        Check::SurvivesCorrupted.following() == Some(Check::Trial),
        Check::Trial.following() == Some(Check::Rejects),
        Check::Rejects.following() == Some(Check::Exhausts),
        Check::Exhausts.following() == Some(Check::Window),
        Check::Window.following() == Some(Check::Empty),
        Check::Empty.following() == Some(Check::SurvivesEmpty),
        Check::SurvivesEmpty.following() == Some(Check::Condemned),
        Check::Condemned.following() is None,
        check.following() matches Some(next) ==> next.index() == check.index() + 1,
{
}

/// A check adds one to what passed or to what failed, and leaves the other.
pub proof fn a_check_counts_once(report: Report, passed: bool, test: SelfTest, check: Check)
    requires
        report.passed < usize::MAX,
        report.failed < usize::MAX,
        test.moved_on(check, passed, report),
    ensures
        test.report.passed == report.passed + (if passed {
            1int
        } else {
            0
        }),
        test.report.failed == report.failed + (if passed {
            0int
        } else {
            1
        }),
        test.check == check.following(),
        test.at == 0,
{
}

/// A step that settles its check reports it as it counts it, and the next
/// check starts from its first action. One that does not leaves the count
/// alone and the next action of the same check due.
pub proof fn a_step_reports_what_it_counts(
    pre: SelfTest,
    event: Event,
    post: SelfTest,
    settled: Option<(Check, Result<(), Why>)>,
)
    requires
        pre.wf(),
        pre.takes(event, post, settled),
    ensures
        pre.check is None ==> settled is None && post == pre,
        (settled is None && pre.check is Some) ==> {
            &&& post.check == pre.check
            &&& post.at == pre.at + 1
            &&& post.report == pre.report
        },
        settled matches Some((check, outcome)) ==> {
            let v = crate::selftest::verdict(
                check,
                pre.at as int,
                event,
                pre.good_version,
                pre.noconfirm_version,
            );
            &&& pre.check == Some(check)
            &&& post.check == check.following()
            &&& post.at == 0
            &&& outcome is Ok <==> v is Pass
            &&& outcome is Ok <==> post.report.passed == pre.report.passed + 1
            &&& outcome is Ok <==> post.report.failed == pre.report.failed
            &&& outcome is Err <==> post.report.failed == pre.report.failed + 1
            &&& outcome is Err <==> post.report.passed == pre.report.passed
            &&& outcome matches Err(why) ==> v == Verdict::Fail(why)
        },
        post.good == pre.good && post.noconfirm == pre.noconfirm,
        post.good_version == pre.good_version && post.noconfirm_version == pre.noconfirm_version,
{
}

/// The rig is greeted with the word `selftest`, and a test is passed exactly
/// if nothing in it failed.
pub proof fn what_a_test_is(test: SelfTest, passed: bool, action: Option<Action>)
    requires
        test.wf(),
        call_ensures(SelfTest::all_passed, (&test,), passed),
        call_ensures(SelfTest::action, (&test,), action),
    ensures
        passed <==> test.report.failed == 0,
        action is None <==> test.check is None,
        (action is None && passed) ==> test.report.passed == 11,
        crate::selftest::GREETING@ == seq![115u8, 101u8, 108u8, 102u8, 116u8, 101u8, 115u8, 116u8],
        crate::selftest::RESETS == 6,
{
}

// ── What it takes to pass ───────────────────────────────────────────────

/// The link passes on an echo of exactly what was sent.
pub proof fn a_ping_passes_on_its_echo(event: Event, good: u16, noconfirm: u16)
    ensures
        ({
            let v = crate::selftest::verdict(Check::Ping, 0, event, good, noconfirm);
            &&& v == Verdict::Pass <==> (event matches Event::Echo(echo) && echo@
                == crate::selftest::GREETING@)
            &&& (event matches Event::Echo(echo) && echo@ != crate::selftest::GREETING@) ==> v
                == Verdict::Fail(Why::NoEcho)
            &&& !(event is Echo) ==> v == Verdict::Fail(Why::Link)
        }),
{
}

/// Installing passes on the good image up and confirmed; the wrong image is
/// named first.
pub proof fn an_install_passes_on_a_confirmed_image(event: Event, good: u16, noconfirm: u16)
    ensures
        ({
            let v = crate::selftest::verdict(Check::Install, 3, event, good, noconfirm);
            match event {
                Event::State(s) => {
                    &&& s.version == good && s.confirmed ==> v == Verdict::Pass
                    &&& s.version == good && !s.confirmed ==> v == Verdict::Fail(Why::NotConfirmed)
                    &&& s.version != good ==> v == Verdict::Fail(Why::Version(s.version))
                },
                _ => v == Verdict::Fail(Why::Link),
            }
        }),
{
}

/// The trial passes on the unconfirming image up and unconfirmed.
pub proof fn a_trial_passes_unconfirmed(event: Event, good: u16, noconfirm: u16)
    ensures
        ({
            let v = crate::selftest::verdict(Check::Trial, 3, event, good, noconfirm);
            match event {
                Event::State(s) => {
                    &&& s.version == noconfirm && !s.confirmed ==> v == Verdict::Pass
                    &&& s.version == noconfirm && s.confirmed ==> v == Verdict::Fail(Why::Confirmed)
                    &&& s.version != noconfirm ==> v == Verdict::Fail(Why::Version(s.version))
                },
                _ => v == Verdict::Fail(Why::Link),
            }
        }),
{
}

/// A rejection passes on the good image back up with the rejection, and
/// nothing else, on record as the reason.
pub proof fn a_rejection_passes_on_its_own_reason(event: Event, good: u16, noconfirm: u16)
    ensures
        ({
            let v = crate::selftest::verdict(Check::Rejects, 1, event, good, noconfirm);
            match event {
                Event::State(s) => {
                    &&& s.version == good && s.revert_reason == 3 ==> v == Verdict::Pass
                    &&& s.version == good && s.revert_reason != 3 ==> (
                    v matches Verdict::Fail(Why::Reason(seen)) && names(seen, s.revert_reason))
                    &&& s.version != good ==> v == Verdict::Fail(Why::Version(s.version))
                },
                _ => v == Verdict::Fail(Why::Link),
            }
        }),
{
}

/// The reason that a byte stands for; none if it is no known one.
pub open spec fn names(reason: Option<RevertReason>, code: u8) -> bool {
    match reason {
        Some(RevertReason::NoRevert) => code == 0,
        Some(RevertReason::AttemptsExhausted) => code == 1,
        Some(RevertReason::VerifyFailed) => code == 2,
        Some(RevertReason::AppRejected) => code == 3,
        None => code > 3,
    }
}

/// A requested update passes on the good image up, confirmed, and with no
/// revert on record; the wrong image is named first, then the reason.
pub proof fn a_window_passes_on_a_clean_slate(event: Event, good: u16, noconfirm: u16)
    ensures
        ({
            let v = crate::selftest::verdict(Check::Window, 3, event, good, noconfirm);
            match event {
                Event::State(s) => {
                    &&& s.version == good && s.revert_reason == 0 && s.confirmed ==> v
                        == Verdict::Pass
                    &&& s.version == good && s.revert_reason == 0 && !s.confirmed ==> v
                        == Verdict::Fail(Why::NotConfirmed)
                    &&& s.version == good && s.revert_reason != 0 ==> (
                    v matches Verdict::Fail(Why::Reason(seen)) && names(seen, s.revert_reason))
                    &&& s.version != good ==> v == Verdict::Fail(Why::Version(s.version))
                },
                _ => v == Verdict::Fail(Why::Link),
            }
        }),
{
}

/// Surviving a refused update, or one of no bytes, passes on the good image
/// still running, whatever else it says of itself.
pub proof fn survival_passes_on_the_good_image(check: Check, event: Event, good: u16, noconfirm: u16)
    requires
        check == Check::SurvivesCorrupted || check == Check::SurvivesEmpty,
    ensures
        ({
            let v = crate::selftest::verdict(check, 0, event, good, noconfirm);
            match event {
                Event::State(s) => {
                    &&& s.version == good ==> v == Verdict::Pass
                    &&& s.version != good ==> v == Verdict::Fail(Why::Version(s.version))
                },
                _ => v == Verdict::Fail(Why::Link),
            }
        }),
{
}

/// An image that must be refused is, only by the device saying that it did
/// not verify: accepting it in silence, or any other word, fails.
pub proof fn a_refusal_is_a_failed_verification(
    check: Check,
    event: Event,
    good: u16,
    noconfirm: u16,
)
    requires
        check == Check::Corrupted || check == Check::Empty,
    ensures
        ({
            let v = crate::selftest::verdict(check, 2, event, good, noconfirm);
            match event {
                Event::Answer(Some(s)) => {
                    &&& s == Status::VerifyFailed ==> v == Verdict::Pass
                    &&& s != Status::VerifyFailed ==> v == Verdict::Fail(Why::Answered(s))
                },
                Event::Answer(None) => v == Verdict::Fail(Why::Accepted),
                _ => v == Verdict::Fail(Why::Link),
            }
        }),
{
}

/// Spending the attempts passes on the good image back up because they ran
/// out. Any other reason fails at once, and never seeing the good image fails
/// with the sixth reset.
pub proof fn exhaustion_passes_on_its_own_reason(
    nth: int,
    event: Event,
    good: u16,
    noconfirm: u16,
)
    requires
        0 <= nth < 6,
    ensures
        ({
            let v = crate::selftest::verdict(Check::Exhausts, 5 + 2 * nth, event, good, noconfirm);
            let back = event matches Event::State(s) && s.version == good;
            &&& (back && event->State_0.revert_reason == 1) ==> v == Verdict::Pass
            &&& (back && event->State_0.revert_reason != 1) ==> (
            v matches Verdict::Fail(Why::Reason(seen)) && names(
                seen,
                event->State_0.revert_reason,
            ))
            &&& !back && nth < 5 ==> v == Verdict::Carry
            &&& !back && nth == 5 ==> v == Verdict::Fail(Why::NoRollback)
        }),
{
}

/// Spending starts only with the unconfirming image up, and a reset that
/// cannot be sent ends it without a rollback seen.
pub proof fn spending_starts_on_trial(nth: int, event: Event, good: u16, noconfirm: u16)
    requires
        0 <= nth < 6,
    ensures
        ({
            let v = crate::selftest::verdict(Check::Exhausts, 3, event, good, noconfirm);
            match event {
                Event::State(s) => {
                    &&& s.version == noconfirm ==> v == Verdict::Carry
                    &&& s.version != noconfirm ==> v == Verdict::Fail(Why::Version(s.version))
                },
                _ => v == Verdict::Fail(Why::Link),
            }
        }),
        ({
            let v = crate::selftest::verdict(Check::Exhausts, 4 + 2 * nth, event, good, noconfirm);
            v == (if event == Event::Done {
                Verdict::Carry
            } else {
                Verdict::Fail(Why::NoRollback)
            })
        }),
{
}

/// A failed download passes on its target recorded as condemned.
pub proof fn a_target_passes_condemned(event: Event, good: u16, noconfirm: u16)
    ensures
        ({
            let v = crate::selftest::verdict(Check::Condemned, 0, event, good, noconfirm);
            match event {
                Event::Banks { active: _, inactive } => v == (if inactive == 3 {
                    Verdict::Pass
                } else {
                    Verdict::Fail(Why::Bank(inactive))
                }),
                _ => v == Verdict::Fail(Why::Link),
            }
        }),
{
}

/// Getting an image to the device goes on as long as each action is done; an
/// image to be installed goes on only in silence, and a word from the device
/// is why it failed.
pub proof fn delivery_goes_on_or_fails(
    check: Check,
    at: int,
    event: Event,
    good: u16,
    noconfirm: u16,
)
    requires
        check == Check::Install || check == Check::Corrupted || check == Check::Trial || check
            == Check::Exhausts || check == Check::Window || check == Check::Empty,
        at == 0 || at == 1 || (at == 2 && check != Check::Corrupted && check != Check::Empty),
    ensures
        ({
            let v = crate::selftest::verdict(check, at, event, good, noconfirm);
            if at < 2 {
                v == (if event == Event::Done {
                    Verdict::Carry
                } else {
                    Verdict::Fail(Why::Link)
                })
            } else {
                match event {
                    Event::Answer(None) => v == Verdict::Carry,
                    Event::Answer(Some(s)) => v == Verdict::Fail(Why::Answered(s)),
                    _ => v == Verdict::Fail(Why::Link),
                }
            }
        }),
{
}

/// A rejection is waited out only once it has been sent.
pub proof fn a_rejection_is_sent_first(event: Event, good: u16, noconfirm: u16)
    ensures
        crate::selftest::verdict(Check::Rejects, 0, event, good, noconfirm) == (if event
            == Event::Done {
            Verdict::Carry
        } else {
            Verdict::Fail(Why::Link)
        }),
{
}

// ── The images ──────────────────────────────────────────────────────────

/// The images are what they are called: the two files as they are, the good
/// one with exactly the byte in its middle inverted, and nothing.
pub proof fn what_each_image_is(test: SelfTest, i: int)
    requires
        test.good@.len() > 0,
        0 <= i < test.good@.len(),
    ensures
        test.spec_body(Image::Good) == test.good@,
        test.spec_body(Image::Noconfirm) == test.noconfirm@,
        test.spec_body(Image::Empty).len() == 0,
        test.spec_body(Image::Corrupted).len() == test.good@.len(),
        test.spec_body(Image::Corrupted)[i] == (if i == test.good@.len() as int / 2 {
            !test.good@[i]
        } else {
            test.good@[i]
        }),
{
}

/// Two images can be tested exactly when both are stamped and their versions
/// differ; the test then starts at the first check with nothing counted.
pub proof fn what_can_be_tested(
    good: Vec<u8>,
    noconfirm: Vec<u8>,
    r: Result<SelfTest, NotTestable>,
)
    requires
        call_ensures(SelfTest::new, (good, noconfirm), r),
    ensures
        ({
            let g = crate::manifest::version_of(good@);
            let n = crate::manifest::version_of(noconfirm@);
            &&& r is Ok <==> g is Some && n is Some && g != n
            &&& g is None ==> r == Err::<SelfTest, _>(NotTestable::GoodUnstamped)
            &&& g is Some && n is None ==> r == Err::<SelfTest, _>(NotTestable::NoconfirmUnstamped)
            &&& g is Some && g == n ==> r == Err::<SelfTest, _>(NotTestable::SameVersion(g->Some_0))
            &&& r matches Ok(test) ==> {
                &&& test.good@ == good@
                &&& test.noconfirm@ == noconfirm@
                &&& g == Some(test.good_version)
                &&& n == Some(test.noconfirm_version)
                &&& test.check == Some(Check::Ping)
                &&& test.at == 0
                &&& test.report.passed == 0
                &&& test.report.failed == 0
            }
        }),
{
}

// ── Polling ─────────────────────────────────────────────────────────────

/// The application is found by its `State` alone, deadline or not, and as
/// what it says it is. Anything else it says is listened past; only with
/// nothing more to hear is it asked again, or given up on in time.
pub proof fn the_application_is_found_by_its_state(heard: Heard, expired: bool)
    ensures
        ({
            let step = crate::selftest::app_wait(heard, expired);
            match heard {
                Heard::Message(Message::State { app_version, revert_reason, confirmed }) => step
                    == AppWait::Found(
                    AppState { version: app_version, revert_reason, confirmed },
                ),
                Heard::Message(_) => step == AppWait::Listen,
                _ => {
                    &&& expired ==> step == AppWait::GaveUp
                    &&& !expired ==> step == AppWait::Ask
                },
            }
        }),
{
}

/// BOOT has the link once a question goes unanswered by the application, and
/// not before; while it answers it is asked again until time is up.
pub proof fn boot_is_reached_by_silence(wait: BootWait, heard: Heard, expired: bool)
    ensures
        ({
            let (after, step) = wait.after(heard, expired);
            &&& step == BootWaitStep::Gone <==> heard is Silence && !wait.app_answered
            &&& heard is Message ==> step == BootWaitStep::Listen
            &&& (heard matches Heard::Message(Message::State { .. })) ==> after.app_answered
            &&& (heard is Message && !(heard matches Heard::Message(Message::State { .. }))) ==> after
                == wait
            &&& (!(heard is Message) && step != BootWaitStep::Gone) ==> !after.app_answered && step
                == (if expired {
                BootWaitStep::GaveUp
            } else {
                BootWaitStep::Ask
            })
        }),
{
}

/// An image is answered by an `UpdateResult`, the banks by `Banks`; nothing
/// else is an answer, and no answer in time is its own outcome.
pub proof fn each_question_has_its_answer(heard: Recv)
    ensures
        crate::selftest::answer_in(heard) == (match heard {
            Recv::Message(Message::UpdateResult(status)) => Awaited::Answered(status),
            Recv::Message(_) => Awaited::Waiting,
            Recv::Waiting => Awaited::Waiting,
            Recv::TimedOut => Awaited::NoReply,
        }),
        crate::selftest::banks_in(heard) == (match heard {
            Recv::Message(Message::Banks { active, inactive }) => BanksWait::Found {
                active,
                inactive,
            },
            Recv::Message(_) => BanksWait::Waiting,
            Recv::Waiting => BanksWait::Waiting,
            Recv::TimedOut => BanksWait::NoReply,
        }),
{
}

} // verus!
