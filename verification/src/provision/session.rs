//! One provisioning run, step by step: read the user page, plan the change,
//! keep what is there, write, read back, reset, read again, and compare what
//! latched.
//!
//! [`Session::next`] takes what came of a step and says which comes next, so
//! that what has to happen before the erase has happened, and nothing is
//! called provisioned that was not read back on both sides of a reset.

use vstd::prelude::*;

use crate::probe::{Mode, Status};
use crate::provision::{
    backup, check_kept, check_latched, check_written, target, todo, write_page, Backup, PageOp,
    ProvisionError, Request, Todo, UserPage,
};

verus! {

/// Where a run stands.
#[derive(Clone, Copy, PartialEq, Eq, Structural, Debug)]
pub enum Stage {
    /// The page is being read, to plan against what the part actually holds.
    Planning,
    /// The operations are being printed, none issued.
    Rehearsing,
    /// An earlier backup is being looked for.
    Looking,
    Saving,
    Writing,
    ReadingBack,
    /// The part is being reset, so that NVMCTRL re-latches the fuses.
    Resetting,
    ReadingAgain,
    Latching,
    Over,
}

/// What to do next.
pub enum Step {
    ReadPage,
    /// Print these operations, issue none.
    Rehearse(Vec<PageOp>),
    LookForBackup,
    SaveBackup(Vec<u8>),
    CarryOut(Vec<PageOp>),
    Reset,
    /// Read `STATUS` and `RUNLOCK`.
    ReadLatches,
    Stop(Outcome),
}

/// How a run ended.
#[derive(Clone, Copy, PartialEq, Eq, Debug)]
pub enum Outcome {
    /// The page already held what was asked for.
    Unchanged,
    /// A dry run: nothing was written.
    Rehearsed,
    Provisioned,
    /// `erased` says that the page was erased before this failed and is not
    /// known to have been written, so the part may have no fuses. Without an
    /// error the step itself could not be done.
    Failed { error: Option<ProvisionError>, erased: bool },
}

/// What came of a step.
pub enum Came {
    Page(UserPage),
    /// Whether there is an earlier backup.
    Found(bool),
    Done,
    Latched { status: Status, runlock: u32 },
    /// The step could not be done.
    Failed,
}

/// A provisioning run.
pub struct Session {
    pub req: Request,
    pub flash_size: usize,
    pub mode: Mode,
    /// The page as it was read.
    pub before: UserPage,
    /// The page that is wanted.
    pub after: UserPage,
    /// A backup holds an earlier page.
    pub kept: bool,
    pub stage: Stage,
}

// ── Definition ──────────────────────────────────────────────────────────

/// The request can be held against this part at all.
pub open spec fn plannable(req: Request, flash_size: usize) -> bool {
    req matches crate::provision::Request::Fuses(f) ==> flash_size >= 32 || f.boot_size == 0
        || f.boot_size >= flash_size / 2
}

/// Why a request is refused, if it is.
pub open spec fn refusal(req: Request, flash_size: usize) -> Option<ProvisionError> {
    match req {
        Request::Restore(bytes) => if bytes@.len() != 512 {
            Some(ProvisionError::PageSize { len: bytes@.len() as usize })
        } else {
            None
        },
        Request::Fuses(f) => crate::provision::fuses_error(f, flash_size),
    }
}

/// `after` is the page `req` asks for where `before` is there now.
pub open spec fn asked(req: Request, before: Seq<u32>, after: Seq<u32>, flash_size: usize) -> bool {
    refusal(req, flash_size) is None && match req {
        Request::Restore(bytes) => crate::provision::page_bytes(after) == bytes@,
        Request::Fuses(f) => exists|regions: u32| #[trigger]
            crate::consts::geometry::selects_boot_regions(
                regions,
                flash_size as int,
                f.boot_size as int,
            ) && after == crate::provision::planned(before, f, regions),
    }
}

/// The operations that write a page.
pub open spec fn writing(page: Seq<u32>) -> Seq<PageOp> {
    crate::provision::write_ops(page, 32)
}

/// Word `word` is the first in which two pages differ.
pub open spec fn differs(a: Seq<u32>, b: Seq<u32>, word: int) -> bool {
    0 <= word < 128 && a[word] != b[word] && forall|i: int| 0 <= i < word ==> a[i] == b[i]
}

/// What latched is not what was asked for, and how.
pub open spec fn unlatched(
    req: Request,
    after: Seq<u32>,
    flash_size: usize,
    status: Status,
    runlock: u32,
    error: ProvisionError,
) -> bool {
    match error {
        ProvisionError::Bootprot { latched, expected } => {
            &&& latched == status.bootprot
            &&& expected == crate::provision::bootprot_in(after[0])
            &&& latched != expected
        },
        ProvisionError::Locks { runlock: l, regions } => {
            &&& status.bootprot == crate::provision::bootprot_in(after[0])
            &&& req matches Request::Fuses(f) && f.lock_boot
                && crate::consts::geometry::selects_boot_regions(
                regions,
                flash_size as int,
                f.boot_size as int,
            )
            &&& l == runlock
            &&& runlock & regions != 0
        },
        _ => false,
    }
}

/// What latched is what was asked for.
pub open spec fn latched(
    req: Request,
    after: Seq<u32>,
    flash_size: usize,
    status: Status,
    runlock: u32,
) -> bool {
    &&& status.bootprot == crate::provision::bootprot_in(after[0])
    &&& (req matches Request::Fuses(f) && f.lock_boot) ==> exists|regions: u32| #[trigger]
        crate::consts::geometry::selects_boot_regions(
            regions,
            flash_size as int,
            (req->Fuses_0).boot_size as int,
        ) && runlock & regions == 0
}

impl Stage {
    /// How far a run has come.
    pub open spec fn order(self) -> nat {
        match self {
            Stage::Planning => 0,
            Stage::Rehearsing => 1,
            Stage::Looking => 1,
            Stage::Saving => 2,
            Stage::Writing => 3,
            Stage::ReadingBack => 4,
            Stage::Resetting => 5,
            Stage::ReadingAgain => 6,
            Stage::Latching => 7,
            Stage::Over => 8,
        }
    }

    /// The erase has been issued and the write not yet been found good.
    pub open spec fn spec_erased(self) -> bool {
        3 <= self.order() <= 6
    }

    fn erased(self) -> (r: bool)
        ensures
            r == self.spec_erased(),
    {
        match self {
            Stage::Writing | Stage::ReadingBack | Stage::Resetting | Stage::ReadingAgain => true,
            _ => false,
        }
    }
}

impl Session {
    /// Between planning and the end, the wanted page is the one asked for and
    /// not the one that is there; past the backup, this is no rehearsal, and
    /// what is there was kept or was not worth keeping.
    pub open spec fn wf(self) -> bool {
        &&& plannable(self.req, self.flash_size)
        &&& 1 <= self.stage.order() <= 7 ==> {
            &&& asked(self.req, self.before.words@, self.after.words@, self.flash_size)
            &&& self.before.words@ != self.after.words@
        }
        &&& self.stage == Stage::Rehearsing ==> self.mode == Mode::DryRun
        &&& (1 <= self.stage.order() <= 7 && self.stage != Stage::Rehearsing) ==> self.mode
            == Mode::Run
        &&& 3 <= self.stage.order() <= 7 ==> self.kept || crate::provision::blank(
            self.before.words@,
        )
    }

    /// Everything but the stage and what is kept is as in `other`.
    pub open spec fn same_run(self, other: Session) -> bool {
        &&& self.req == other.req
        &&& self.flash_size == other.flash_size
        &&& self.mode == other.mode
        &&& self.before == other.before
        &&& self.after == other.after
    }

    /// The run is over.
    pub open spec fn stops(self, step: Step, outcome: Outcome) -> bool {
        self.stage == Stage::Over && step == Step::Stop(outcome)
    }

    /// The run goes on at `stage` with nothing newly kept.
    pub open spec fn goes_on(self, pre: Session, stage: Stage) -> bool {
        self.same_run(pre) && self.kept == pre.kept && self.stage == stage
    }

    /// The run goes on to the write, with a backup or without.
    pub open spec fn goes_to_write(self, pre: Session, kept: bool, step: Step) -> bool {
        &&& self.same_run(pre) && self.kept == kept && self.stage == Stage::Writing
        &&& step matches Step::CarryOut(ops) && ops@ == writing(self.after.words@)
    }

    /// What planning against the page `page` comes to.
    pub open spec fn plans(self, page: Seq<u32>, post: Session, step: Step) -> bool {
        match refusal(self.req, self.flash_size) {
            Some(e) => post.stops(step, Outcome::Failed { error: Some(e), erased: false }),
            None => {
                &&& post.before.words@ == page
                &&& asked(post.req, page, post.after.words@, post.flash_size)
                &&& if post.after.words@ == page {
                    post.stops(step, Outcome::Unchanged)
                } else if post.mode == Mode::Run {
                    post.stage == Stage::Looking && step == Step::LookForBackup
                } else {
                    &&& post.stage == Stage::Rehearsing
                    &&& step matches Step::Rehearse(ops)
                    &&& ops@ == writing(post.after.words@)
                }
            },
        }
    }

    /// What one step leads to.
    pub open spec fn leads(self, came: Came, post: Session, step: Step) -> bool {
        match (self.stage, came) {
            (Stage::Planning, Came::Page(page)) => {
                &&& post.req == self.req && post.flash_size == self.flash_size && post.mode
                    == self.mode && post.kept == self.kept
                &&& self.plans(page.words@, post, step)
            },
            (Stage::Rehearsing, Came::Done) => post.stops(step, Outcome::Rehearsed),
            (Stage::Looking, Came::Found(exists)) => if exists {
                post.goes_to_write(self, true, step)
            } else if crate::provision::blank(self.before.words@) {
                post.goes_to_write(self, self.kept, step)
            } else {
                &&& post.goes_on(self, Stage::Saving)
                &&& step matches Step::SaveBackup(bytes) && bytes@ == crate::provision::page_bytes(
                    self.before.words@,
                )
            },
            (Stage::Saving, Came::Done) => post.goes_to_write(self, true, step),
            (Stage::Writing, Came::Done) => post.goes_on(self, Stage::ReadingBack) && step
                == Step::ReadPage,
            (Stage::ReadingBack, Came::Page(page)) => if page.words@ == self.after.words@ {
                post.goes_on(self, Stage::Resetting) && step == Step::Reset
            } else {
                exists|word: int| #[trigger]
                    differs(page.words@, self.after.words@, word) && post.stops(
                        step,
                        Outcome::Failed {
                            error: Some(
                                ProvisionError::NotWritten {
                                    word: word as usize,
                                    reads: page.words@[word],
                                    want: self.after.words@[word],
                                },
                            ),
                            erased: true,
                        },
                    )
            },
            (Stage::Resetting, Came::Done) => post.goes_on(self, Stage::ReadingAgain) && step
                == Step::ReadPage,
            (Stage::ReadingAgain, Came::Page(page)) => if page.words@ == self.after.words@ {
                post.goes_on(self, Stage::Latching) && step == Step::ReadLatches
            } else {
                exists|word: int| #[trigger]
                    differs(page.words@, self.after.words@, word) && post.stops(
                        step,
                        Outcome::Failed {
                            error: Some(
                                ProvisionError::NotKept {
                                    word: word as usize,
                                    reads: page.words@[word],
                                    want: self.after.words@[word],
                                },
                            ),
                            erased: true,
                        },
                    )
            },
            (Stage::Latching, Came::Latched { status, runlock }) => {
                ||| post.stops(step, Outcome::Provisioned) && latched(
                    self.req,
                    self.after.words@,
                    self.flash_size,
                    status,
                    runlock,
                )
                ||| exists|e: ProvisionError| #[trigger]
                    unlatched(
                        self.req,
                        self.after.words@,
                        self.flash_size,
                        status,
                        runlock,
                        e,
                    ) && post.stops(step, Outcome::Failed { error: Some(e), erased: false })
            },
            _ => post.stops(
                step,
                Outcome::Failed { error: None, erased: self.stage.spec_erased() },
            ),
        }
    }

    // ── Functions ───────────────────────────────────────────────────────

    /// Start a run against a part with this much flash.
    pub fn start(req: Request, flash_size: usize, mode: Mode) -> (r: (Session, Step))
        requires
            plannable(req, flash_size),
        ensures
            r.0.wf(),
            r.0.req == req,
            r.0.flash_size == flash_size,
            r.0.mode == mode,
            !r.0.kept,
            r.0.stage == Stage::Planning,
            r.1 == Step::ReadPage,
    {
        let session: Session = Session {
            req,
            flash_size,
            mode,
            before: UserPage { words: [0xFFFF_FFFF;128] },
            after: UserPage { words: [0xFFFF_FFFF;128] },
            kept: false,
            stage: Stage::Planning,
        };
        (session, Step::ReadPage)
    }

    /// The run ends here.
    fn stop(&mut self, outcome: Outcome) -> (step: Step)
        ensures
            final(self).stops(step, outcome),
            final(self).same_run(*old(self)),
            final(self).kept == old(self).kept,
    {
        self.stage = Stage::Over;
        Step::Stop(outcome)
    }

    /// Nothing stands against the erase any more.
    fn write(&mut self) -> (step: Step)
        ensures
            final(self).goes_to_write(*old(self), old(self).kept, step),
    {
        self.stage = Stage::Writing;
        Step::CarryOut(write_page(&self.after))
    }

    /// Plan against the page that was read.
    fn plan_for(&mut self, page: UserPage) -> (step: Step)
        requires
            old(self).wf(),
        ensures
            final(self).wf(),
            final(self).req == old(self).req,
            final(self).flash_size == old(self).flash_size,
            final(self).mode == old(self).mode,
            final(self).kept == old(self).kept,
            old(self).plans(page.words@, *final(self), step),
    {
        self.after = match target(&page, &self.req, self.flash_size) {
            Ok(after) => after,
            Err(e) => return self.stop(Outcome::Failed { error: Some(e), erased: false }),
        };
        self.before = page;
        assert(crate::provision::page_bytes(self.after.words@).len() == 512);
        match todo(&self.before, &self.after, self.mode) {
            Todo::Nothing => self.stop(Outcome::Unchanged),
            Todo::Rehearse(ops) => {
                self.stage = Stage::Rehearsing;
                Step::Rehearse(ops)
            },
            Todo::Write(_) => {
                self.stage = Stage::Looking;
                Step::LookForBackup
            },
        }
    }

    /// Take what came of a step and say which comes next.
    pub fn next(&mut self, came: Came) -> (step: Step)
        requires
            old(self).wf(),
            old(self).stage != Stage::Over,
        ensures
            final(self).wf(),
            old(self).leads(came, *final(self), step),
    {
        match (self.stage, came) {
            (Stage::Planning, Came::Page(page)) => self.plan_for(page),
            (Stage::Rehearsing, Came::Done) => self.stop(Outcome::Rehearsed),
            (Stage::Looking, Came::Found(exists)) => match backup(exists, &self.before) {
                Backup::KeepExisting => {
                    self.kept = true;
                    self.write()
                },
                Backup::SkipBlank => self.write(),
                Backup::Save(bytes) => {
                    self.stage = Stage::Saving;
                    Step::SaveBackup(bytes)
                },
            },
            (Stage::Saving, Came::Done) => {
                self.kept = true;
                self.write()
            },
            (Stage::Writing, Came::Done) => {
                self.stage = Stage::ReadingBack;
                Step::ReadPage
            },
            (Stage::ReadingBack, Came::Page(page)) => match check_written(&page, &self.after) {
                Ok(_) => {
                    self.stage = Stage::Resetting;
                    Step::Reset
                },
                Err(e) => {
                    assert(e matches ProvisionError::NotWritten { word, .. } && differs(
                        page.words@,
                        self.after.words@,
                        word as int,
                    ));
                    self.stop(Outcome::Failed { error: Some(e), erased: true })
                },
            },
            (Stage::Resetting, Came::Done) => {
                self.stage = Stage::ReadingAgain;
                Step::ReadPage
            },
            (Stage::ReadingAgain, Came::Page(page)) => match check_kept(&page, &self.after) {
                Ok(_) => {
                    self.stage = Stage::Latching;
                    Step::ReadLatches
                },
                Err(e) => {
                    assert(e matches ProvisionError::NotKept { word, .. } && differs(
                        page.words@,
                        self.after.words@,
                        word as int,
                    ));
                    self.stop(Outcome::Failed { error: Some(e), erased: true })
                },
            },
            (Stage::Latching, Came::Latched { status, runlock }) => {
                match check_latched(&self.after, &self.req, self.flash_size, &status, runlock) {
                    Ok(_) => self.stop(Outcome::Provisioned),
                    Err(e) => {
                        assert(unlatched(
                            self.req,
                            self.after.words@,
                            self.flash_size,
                            status,
                            runlock,
                            e,
                        ));
                        self.stop(Outcome::Failed { error: Some(e), erased: false })
                    },
                }
            },
            _ => {
                let erased: bool = self.stage.erased();
                self.stop(Outcome::Failed { error: None, erased })
            },
        }
    }
}

// ── Laws ────────────────────────────────────────────────────────────────

/// Nothing is erased that was not kept: the operations that erase the page
/// are only handed out with a backup of an earlier page at hand, or where
/// the page was blank.
pub proof fn nothing_is_erased_unkept(pre: Session, came: Came, post: Session, step: Step)
    requires
        pre.wf(),
        pre.leads(came, post, step),
        step is CarryOut,
    ensures
        post.kept || crate::provision::blank(post.before.words@),
        pre.stage == Stage::Looking || pre.stage == Stage::Saving,
{
}

/// A dry run writes nothing: it hands out no operation to carry out, no
/// backup to save and no reset.
pub proof fn a_dry_run_writes_nothing(pre: Session, came: Came, post: Session, step: Step)
    requires
        pre.wf(),
        pre.mode == Mode::DryRun,
        pre.leads(came, post, step),
    ensures
        !(step is CarryOut),
        !(step is SaveBackup),
        !(step is Reset),
{
}

/// A run comes to an end: every step takes it further.
pub proof fn a_run_comes_to_an_end(pre: Session, came: Came, post: Session, step: Step)
    requires
        pre.stage != Stage::Over,
        pre.leads(came, post, step),
    ensures
        pre.stage.order() < post.stage.order() <= 8,
        post.stage == Stage::Over <==> step is Stop,
{
}

/// A part is called provisioned only by what it latched after the reset, and
/// the way there leads through a page read back as written on both sides of
/// that reset.
pub proof fn provisioned_means_read_back_twice(pre: Session, came: Came, post: Session, step: Step)
    requires
        pre.leads(came, post, step),
    ensures
        step == Step::Stop(Outcome::Provisioned) ==> pre.stage == Stage::Latching,
        post.stage == Stage::Latching ==> pre.stage == Stage::ReadingAgain && (
        came matches Came::Page(page) && page.words@ == post.after.words@),
        post.stage == Stage::ReadingAgain ==> pre.stage == Stage::Resetting,
        post.stage == Stage::Resetting ==> pre.stage == Stage::ReadingBack && (
        came matches Came::Page(page) && page.words@ == post.after.words@),
        post.stage == Stage::ReadingBack ==> pre.stage == Stage::Writing,
{
}

} // verus!
