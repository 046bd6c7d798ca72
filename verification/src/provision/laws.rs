//! What provisioning makes of a part, in the numbers of its fuses.
//!
//! A wrong fuse is found out late and may not be undone, so what is planned,
//! written and accepted is stated here by digits, regions and addresses.

use vstd::prelude::*;

use crate::probe::{Cmd, Mode, Status};
use crate::provision::session::{Came, Outcome, Session, Stage, Step};
use crate::provision::{
    backup, check_kept, check_latched, check_written, Backup, Fuses, PageOp, ProvisionError, Request,
    Todo, UserPage,
};

verus! {

// ── The fuses ───────────────────────────────────────────────────────────

/// BOOTPROT is bits 29:26 of the first word of the page, SEE SBLK bits 3:0 of
/// the second.
pub proof fn where_the_fuses_are(w: u32)
    ensures
        crate::provision::bootprot_in(w) == (w / 67_108_864) % 16,
        crate::provision::sblk_in(w) == w % 16,
{
    crate::bytes::fields_are_digits(0, 0, w);
}

/// A BOOT size that a part can protect and lock: a whole number of 8 KiB
/// granules and of its lock regions, 120 KiB at most and less than a bank.
pub open spec fn protectable(flash_size: usize, boot_size: usize) -> bool {
    &&& 0 < boot_size <= 122_880
    &&& boot_size < flash_size / 2
    &&& boot_size % 8192 == 0
    &&& boot_size as int % (flash_size as int / 32) == 0
}

/// Lock region `i` holds a copy of BOOT.
pub open spec fn boot_region(flash_size: usize, boot_size: usize, i: u32) -> bool {
    let start = i * (flash_size as int / 32);
    0 <= start < boot_size || flash_size / 2 <= start < flash_size / 2 + boot_size
}

/// A page that `fuses` make of `before`: BOOTPROT protects the BOOT size, SEE
/// SBLK is what was asked for or what it was, the BOOT regions are locked or
/// open as asked, and every other bit is as it was.
pub open spec fn made_of(before: Seq<u32>, after: Seq<u32>, fuses: Fuses, flash_size: usize) -> bool {
    &&& after.len() == before.len()
    &&& (15 - (after[0] / 67_108_864) % 16) * 8192 == fuses.boot_size
    &&& after[0] & !(0xFu32 << 26) == before[0] & !(0xFu32 << 26)
    &&& after[1] % 16 == (match fuses.see_sblk {
        Some(blocks) => blocks as u32,
        None => before[1] % 16,
    })
    &&& after[1] & !0xFu32 == before[1] & !0xFu32
    &&& forall|i: u32|
        #![trigger after[2] >> i]
        i < 32 ==> (after[2] >> i) & 1 == (if boot_region(flash_size, fuses.boot_size, i) {
            if fuses.lock_boot {
                0u32
            } else {
                1u32
            }
        } else {
            (before[2] >> i) & 1
        })
    &&& forall|i: int| 3 <= i < after.len() ==> after[i] == before[i]
}

/// Every request for a BOOT size the part can protect, with a number of
/// SmartEEPROM blocks up to ten or none given, is planned; a plan is refused
/// for nothing else, and the BOOT size comes first.
pub proof fn every_usable_request_is_planned(
    before: UserPage,
    fuses: Fuses,
    flash_size: usize,
    r: Result<UserPage, ProvisionError>,
)
    requires
        flash_size >= 32,
        call_ensures(crate::provision::plan, (&before, &fuses, flash_size), r),
    ensures
        ({
            let usable = protectable(flash_size, fuses.boot_size);
            let blocks = fuses.see_sblk matches Some(n) ==> n <= 10;
            &&& r is Ok <==> usable && blocks
            &&& !usable ==> r == Err::<UserPage, _>(
                ProvisionError::BootSize { boot_size: fuses.boot_size, flash_size },
            )
            &&& usable && !blocks ==> r == Err::<UserPage, _>(
                ProvisionError::Sblk { sblk: fuses.see_sblk->Some_0 },
            )
        }),
        (r matches Ok(after) && flash_size % 32 == 0) ==> made_of(
            before.words@,
            r->Ok_0.words@,
            fuses,
            flash_size,
        ),
{
    if let Ok(after) = r {
        if flash_size % 32 == 0 {
            let regions = choose|regions: u32|
                {
                    &&& #[trigger] crate::consts::geometry::selects_boot_regions(
                        regions,
                        flash_size as int,
                        fuses.boot_size as int,
                    )
                    &&& after.words@ == crate::provision::planned(before.words@, fuses, regions)
                };
            lemma_made_of(before.words@, fuses, flash_size, regions);
        }
    }
}

proof fn lemma_made_of(before: Seq<u32>, fuses: Fuses, flash_size: usize, regions: u32)
    requires
        before.len() == 128,
        protectable(flash_size, fuses.boot_size),
        flash_size % 32 == 0,
        fuses.see_sblk matches Some(n) ==> n <= 10,
        crate::consts::geometry::selects_boot_regions(
            regions,
            flash_size as int,
            fuses.boot_size as int,
        ),
    ensures
        made_of(before, crate::provision::planned(before, fuses, regions), fuses, flash_size),
{
    let after = crate::provision::planned(before, fuses, regions);
    crate::provision::a_plan_changes_only_what_was_asked_for(before, fuses, regions);
    where_the_fuses_are(after[0]);
    where_the_fuses_are(after[1]);
    where_the_fuses_are(before[1]);
    assert forall|i: u32|
        #![trigger after[2] >> i]
        i < 32 implies (after[2] >> i) & 1 == (if boot_region(flash_size, fuses.boot_size, i) {
        if fuses.lock_boot {
            0u32
        } else {
            1u32
        }
    } else {
        (before[2] >> i) & 1
    }) by {
        lemma_region(flash_size, fuses.boot_size, regions, i);
        lemma_bits(regions, before[2], i);
    }
}

/// A mask of the BOOT regions has exactly their bits.
proof fn lemma_region(flash_size: usize, boot_size: usize, regions: u32, i: u32)
    requires
        protectable(flash_size, boot_size),
        flash_size % 32 == 0,
        crate::consts::geometry::selects_boot_regions(
            regions,
            flash_size as int,
            boot_size as int,
        ),
        i < 32,
    ensures
        crate::consts::geometry::selects(regions, i) <==> boot_region(flash_size, boot_size, i),
{
    let region = flash_size as int / 32;
    assert(i * region < (i + 1) * region) by (nonlinear_arith)
        requires
            region > 0,
    ;
    crate::consts::geometry::masked_regions_are_the_boot_copies(
        flash_size as int,
        boot_size as int,
        regions,
        i,
        i * region,
    );
}

/// Clearing, setting and testing under a mask, bit by bit.
proof fn lemma_bits(a: u32, r: u32, i: u32)
    requires
        i < 32,
    ensures
        ((r & !a) >> i) & 1 == (if (a >> i) & 1 == 1 {
            0u32
        } else {
            (r >> i) & 1
        }),
        ((r | a) >> i) & 1 == (if (a >> i) & 1 == 1 {
            1u32
        } else {
            (r >> i) & 1
        }),
        r & a == 0 && (a >> i) & 1 == 1 ==> (r >> i) & 1 == 0,
        r & a != 0 ==> exists|k: u32| k < 32 && #[trigger] (a >> k) & 1 == 1 && (r >> k) & 1 == 1,
{
    assert(((r & !a) >> i) & 1 == (if (a >> i) & 1 == 1 {
        0u32
    } else {
        (r >> i) & 1
    }) && ((r | a) >> i) & 1 == (if (a >> i) & 1 == 1 {
        1u32
    } else {
        (r >> i) & 1
    }) && (r & a == 0 && (a >> i) & 1 == 1 ==> (r >> i) & 1 == 0) && (r & a != 0 ==> ((a >> 0u32) & 1 == 1 && (r >> 0u32) & 1 == 1)
        || ((a >> 1u32) & 1 == 1 && (r >> 1u32) & 1 == 1)
        || ((a >> 2u32) & 1 == 1 && (r >> 2u32) & 1 == 1)
        || ((a >> 3u32) & 1 == 1 && (r >> 3u32) & 1 == 1)
        || ((a >> 4u32) & 1 == 1 && (r >> 4u32) & 1 == 1)
        || ((a >> 5u32) & 1 == 1 && (r >> 5u32) & 1 == 1)
        || ((a >> 6u32) & 1 == 1 && (r >> 6u32) & 1 == 1)
        || ((a >> 7u32) & 1 == 1 && (r >> 7u32) & 1 == 1)
        || ((a >> 8u32) & 1 == 1 && (r >> 8u32) & 1 == 1)
        || ((a >> 9u32) & 1 == 1 && (r >> 9u32) & 1 == 1)
        || ((a >> 10u32) & 1 == 1 && (r >> 10u32) & 1 == 1)
        || ((a >> 11u32) & 1 == 1 && (r >> 11u32) & 1 == 1)
        || ((a >> 12u32) & 1 == 1 && (r >> 12u32) & 1 == 1)
        || ((a >> 13u32) & 1 == 1 && (r >> 13u32) & 1 == 1)
        || ((a >> 14u32) & 1 == 1 && (r >> 14u32) & 1 == 1)
        || ((a >> 15u32) & 1 == 1 && (r >> 15u32) & 1 == 1)
        || ((a >> 16u32) & 1 == 1 && (r >> 16u32) & 1 == 1)
        || ((a >> 17u32) & 1 == 1 && (r >> 17u32) & 1 == 1)
        || ((a >> 18u32) & 1 == 1 && (r >> 18u32) & 1 == 1)
        || ((a >> 19u32) & 1 == 1 && (r >> 19u32) & 1 == 1)
        || ((a >> 20u32) & 1 == 1 && (r >> 20u32) & 1 == 1)
        || ((a >> 21u32) & 1 == 1 && (r >> 21u32) & 1 == 1)
        || ((a >> 22u32) & 1 == 1 && (r >> 22u32) & 1 == 1)
        || ((a >> 23u32) & 1 == 1 && (r >> 23u32) & 1 == 1)
        || ((a >> 24u32) & 1 == 1 && (r >> 24u32) & 1 == 1)
        || ((a >> 25u32) & 1 == 1 && (r >> 25u32) & 1 == 1)
        || ((a >> 26u32) & 1 == 1 && (r >> 26u32) & 1 == 1)
        || ((a >> 27u32) & 1 == 1 && (r >> 27u32) & 1 == 1)
        || ((a >> 28u32) & 1 == 1 && (r >> 28u32) & 1 == 1)
        || ((a >> 29u32) & 1 == 1 && (r >> 29u32) & 1 == 1)
        || ((a >> 30u32) & 1 == 1 && (r >> 30u32) & 1 == 1)
        || ((a >> 31u32) & 1 == 1 && (r >> 31u32) & 1 == 1)))
        by (bit_vector)
        requires
            i < 32,
    ;
}

/// A saved page of the right size is taken byte for byte, and one of any
/// other size is refused; fuses are planned.
pub proof fn what_a_request_asks_for(
    before: UserPage,
    req: Request,
    flash_size: usize,
    r: Result<UserPage, ProvisionError>,
    i: int,
)
    requires
        flash_size >= 32,
        call_ensures(crate::provision::target, (&before, &req, flash_size), r),
    ensures
        match req {
            Request::Restore(bytes) => {
                &&& r is Ok <==> bytes@.len() == 512
                &&& r matches Err(e) ==> e == (ProvisionError::PageSize {
                    len: bytes@.len() as usize,
                })
                &&& (r matches Ok(page) && 0 <= i < 128) ==> r->Ok_0.words@[i] == bytes@[4 * i] + 256
                    * bytes@[4 * i + 1] + 65536 * bytes@[4 * i + 2] + 16777216 * bytes@[4 * i + 3]
            },
            Request::Fuses(fuses) => {
                &&& r is Ok <==> protectable(flash_size, fuses.boot_size) && (
                fuses.see_sblk matches Some(n) ==> n <= 10)
                &&& (r matches Ok(page) && flash_size % 32 == 0) ==> made_of(
                    before.words@,
                    r->Ok_0.words@,
                    fuses,
                    flash_size,
                )
            },
        },
{
    match req {
        Request::Restore(bytes) => {
            if let Ok(page) = r {
                let s = crate::provision::page_bytes(page.words@);
                assert(s.len() == 512);
                if 0 <= i < 128 {
                    lemma_page_word(page.words@, i);
                }
            }
        },
        Request::Fuses(fuses) => {
            if r is Ok && flash_size % 32 == 0 {
                let after = r->Ok_0.words@;
                let regions = choose|regions: u32|
                    {
                        &&& #[trigger] crate::consts::geometry::selects_boot_regions(
                            regions,
                            flash_size as int,
                            fuses.boot_size as int,
                        )
                        &&& after == crate::provision::planned(before.words@, fuses, regions)
                    };
                lemma_made_of(before.words@, fuses, flash_size, regions);
            }
        },
    }
}

proof fn lemma_page_word(words: Seq<u32>, i: int)
    requires
        words.len() == 128,
        0 <= i < 128,
    ensures
        ({
            let s = crate::provision::page_bytes(words);
            words[i] == s[4 * i] + 256 * s[4 * i + 1] + 65536 * s[4 * i + 2] + 16777216 * s[4 * i
                + 3]
        }),
{
    let s = crate::provision::page_bytes(words);
    crate::bytes::fields_are_little_endian(s, 4 * i, 0, words[i]);
    assert(s[4 * i] == crate::bytes::le32(words[i])[0]);
    assert(s[4 * i + 1] == crate::bytes::le32(words[i])[1]);
    assert(s[4 * i + 2] == crate::bytes::le32(words[i])[2]);
    assert(s[4 * i + 3] == crate::bytes::le32(words[i])[3]);
}

/// The bytes of a page, low byte of each word first.
pub proof fn a_page_is_saved_word_by_word(page: UserPage, bytes: Vec<u8>, i: int)
    requires
        call_ensures(UserPage::to_bytes, (&page,), bytes),
        0 <= i < 128,
    ensures
        bytes@.len() == 512,
        page.words@[i] == bytes@[4 * i] + 256 * bytes@[4 * i + 1] + 65536 * bytes@[4 * i + 2]
            + 16777216 * bytes@[4 * i + 3],
{
    lemma_page_word(page.words@, i);
}

// ── The write ───────────────────────────────────────────────────────────

/// A page is erased once, before anything is written, and no operation
/// reaches outside it; a commit acts where its fill went.
pub proof fn a_page_write_keeps_to_the_page(words: Seq<u32>, quads: nat, i: int)
    requires
        words.len() == 128,
        quads <= 32,
        0 <= i < crate::provision::write_ops(words, quads).len(),
    ensures
        ({
            let ops = crate::provision::write_ops(words, quads);
            &&& ops.len() >= 2
            &&& ops[0] == PageOp::SetAddr { addr: 0x0080_4000 }
            &&& ops[1] == PageOp::Command { cmd: Cmd::Ep }
            &&& ops[i] == (PageOp::Command { cmd: Cmd::Ep }) <==> i == 1
            &&& ops[i] != (PageOp::Command { cmd: Cmd::Bkswrst })
            &&& ops[i] matches PageOp::SetAddr { addr } ==> 0x0080_4000 <= addr < 0x0080_4200
            &&& ops[i] matches PageOp::Fill { addr, .. } ==> 0x0080_4000 <= addr <= 0x0080_41F0
                && i + 2 < ops.len() && ops[i - 1] == (PageOp::Command { cmd: Cmd::Pbc }) && ops[i
                + 1] == (PageOp::SetAddr { addr }) && ops[i + 2] == (PageOp::Command {
                cmd: Cmd::Wqw,
            })
        }),
    decreases quads,
{
    if quads > 0 {
        let prior = crate::provision::write_ops(words, (quads - 1) as nat);
        let step = crate::provision::quad_ops(words, quads - 1);
        assert(step.len() == 0 || step.len() == 4);
        lemma_erase_comes_first(words, (quads - 1) as nat);
        if i < prior.len() {
            a_page_write_keeps_to_the_page(words, (quads - 1) as nat, i);
        }
    }
}

proof fn lemma_erase_comes_first(words: Seq<u32>, quads: nat)
    ensures
        ({
            let ops = crate::provision::write_ops(words, quads);
            &&& ops.len() >= 2
            &&& ops[0] == PageOp::SetAddr { addr: 0x0080_4000 }
            &&& ops[1] == PageOp::Command { cmd: Cmd::Ep }
        }),
    decreases quads,
{
    if quads > 0 {
        lemma_erase_comes_first(words, (quads - 1) as nat);
    }
}

/// A quad word that the erase already left as wanted takes no operation, and
/// any other takes exactly one commit.
pub proof fn an_erased_quad_is_not_programmed(words: Seq<u32>, quad: int)
    requires
        words.len() == 128,
        0 <= quad < 32,
    ensures
        ({
            let erased = words[4 * quad] == 0xFFFF_FFFF && words[4 * quad + 1] == 0xFFFF_FFFF
                && words[4 * quad + 2] == 0xFFFF_FFFF && words[4 * quad + 3] == 0xFFFF_FFFF;
            let ops = crate::provision::quad_ops(words, quad);
            &&& erased ==> ops.len() == 0
            &&& !erased ==> ops.len() == 4 && ops[1] == (PageOp::Fill {
                addr: (0x0080_4000 + 16 * quad) as u32,
                w0: words[4 * quad],
                w1: words[4 * quad + 1],
                w2: words[4 * quad + 2],
                w3: words[4 * quad + 3],
            }) && ops[3] == (PageOp::Command { cmd: Cmd::Wqw })
        }),
{
    let q = words.subrange(4 * quad, 4 * quad + 4);
    assert(q[0] == words[4 * quad] && q[1] == words[4 * quad + 1] && q[2] == words[4 * quad + 2]
        && q[3] == words[4 * quad + 3]);
}

// ── The run ─────────────────────────────────────────────────────────────

/// Reading the page settles what the run is about: a request that cannot be
/// met is refused with the page untouched, one that is met already is left at
/// that, and otherwise a dry run rehearses the write and a real one looks for
/// a backup.
pub proof fn a_run_is_planned_against_the_page(
    pre: Session,
    page: UserPage,
    post: Session,
    step: Step,
)
    requires
        pre.wf(),
        pre.stage == Stage::Planning,
        pre.flash_size >= 32,
        pre.flash_size % 32 == 0,
        pre.leads(Came::Page(page), post, step),
    ensures
        ({
            let refused = match pre.req {
                Request::Restore(bytes) => if bytes@.len() != 512 {
                    Some(ProvisionError::PageSize { len: bytes@.len() as usize })
                } else {
                    None
                },
                Request::Fuses(f) => if !protectable(pre.flash_size, f.boot_size) {
                    Some(
                        ProvisionError::BootSize {
                            boot_size: f.boot_size,
                            flash_size: pre.flash_size,
                        },
                    )
                } else {
                    match f.see_sblk {
                        Some(n) => if n > 10 {
                            Some(ProvisionError::Sblk { sblk: n })
                        } else {
                            None
                        },
                        None => None,
                    }
                },
            };
            match refused {
                Some(e) => step == Step::Stop(Outcome::Failed { error: Some(e), erased: false }),
                None => {
                    &&& post.before.words@ == page.words@
                    &&& match pre.req {
                        Request::Restore(bytes) => crate::provision::page_bytes(post.after.words@)
                            == bytes@,
                        Request::Fuses(f) => made_of(
                            page.words@,
                            post.after.words@,
                            f,
                            pre.flash_size,
                        ),
                    }
                    &&& if post.after.words@ == page.words@ {
                        step == Step::Stop(Outcome::Unchanged)
                    } else if pre.mode == Mode::Run {
                        step == Step::LookForBackup && post.stage == Stage::Looking
                    } else {
                        &&& post.stage == Stage::Rehearsing
                        &&& step matches Step::Rehearse(ops)
                        &&& ops@ == crate::provision::write_ops(post.after.words@, 32)
                    }
                },
            }
        }),
        post.req == pre.req && post.flash_size == pre.flash_size && post.mode == pre.mode
            && post.kept == pre.kept,
{
    if let Request::Fuses(f) = pre.req {
        if protectable(pre.flash_size, f.boot_size) && (f.see_sblk matches Some(n) ==> n <= 10) {
            let regions = choose|regions: u32| #[trigger]
                crate::consts::geometry::selects_boot_regions(
                    regions,
                    pre.flash_size as int,
                    f.boot_size as int,
                ) && post.after.words@ == crate::provision::planned(page.words@, f, regions);
            lemma_made_of(page.words@, f, pre.flash_size, regions);
        }
    }
}

/// What is there is kept before it is erased: an earlier backup stands, a
/// blank page needs none, and any other is saved whole and only then
/// overwritten.
pub proof fn a_page_is_kept_before_it_is_erased(
    pre: Session,
    found: bool,
    post: Session,
    step: Step,
)
    requires
        pre.wf(),
        pre.stage == Stage::Looking,
        pre.leads(Came::Found(found), post, step),
    ensures
        ({
            let blank = forall|i: int| 0 <= i < 128 ==> pre.before.words@[i] == 0xFFFF_FFFF;
            if found || blank {
                &&& post.stage == Stage::Writing
                &&& step matches Step::CarryOut(ops)
                &&& ops@ == crate::provision::write_ops(pre.after.words@, 32)
            } else {
                &&& post.stage == Stage::Saving
                &&& step matches Step::SaveBackup(bytes)
                &&& bytes@ == crate::provision::page_bytes(pre.before.words@)
            }
        }),
        post.before == pre.before && post.after == pre.after && post.req == pre.req && post.mode
            == pre.mode && post.flash_size == pre.flash_size,
{
    assert(pre.before.words@.len() == 128);
    assert(crate::provision::blank(pre.before.words@) <==> forall|i: int|
        0 <= i < 128 ==> pre.before.words@[i] == 0xFFFF_FFFF);
}

/// Once saved, written, or reset, the run goes on to the next step with
/// nothing else changed.
pub proof fn a_step_done_leads_to_the_next(pre: Session, post: Session, step: Step)
    requires
        pre.wf(),
        pre.leads(Came::Done, post, step),
    ensures
        pre.stage == Stage::Saving ==> post.stage == Stage::Writing && post.kept && (
        step matches Step::CarryOut(ops) && ops@ == crate::provision::write_ops(
            pre.after.words@,
            32,
        )),
        pre.stage == Stage::Writing ==> post.stage == Stage::ReadingBack && step == Step::ReadPage,
        pre.stage == Stage::Resetting ==> post.stage == Stage::ReadingAgain && step
            == Step::ReadPage,
        pre.stage == Stage::Rehearsing ==> step == Step::Stop(Outcome::Rehearsed),
        pre.stage == Stage::Saving || pre.stage == Stage::Writing || pre.stage == Stage::Resetting
            ==> post.before == pre.before && post.after == pre.after && post.req == pre.req
            && post.mode == pre.mode,
{
}

/// A page that reads back as wanted is reset and read again, and then its
/// latches are; one that does not is reported by its first wrong word, and as
/// erased.
pub proof fn a_page_must_read_back(pre: Session, page: UserPage, post: Session, step: Step)
    requires
        pre.wf(),
        pre.stage == Stage::ReadingBack || pre.stage == Stage::ReadingAgain,
        pre.leads(Came::Page(page), post, step),
    ensures
        page.words@ == pre.after.words@ && pre.stage == Stage::ReadingBack ==> post.stage
            == Stage::Resetting && step == Step::Reset,
        page.words@ == pre.after.words@ && pre.stage == Stage::ReadingAgain ==> post.stage
            == Stage::Latching && step == Step::ReadLatches,
        page.words@ == pre.after.words@ ==> post.after == pre.after && post.req == pre.req
            && post.flash_size == pre.flash_size,
        page.words@ != pre.after.words@ ==> exists|word: usize|
            {
                &&& word < 128
                &&& page.words@[word as int] != pre.after.words@[word as int]
                &&& forall|i: int| 0 <= i < word ==> page.words@[i] == pre.after.words@[i]
                &&& step == #[trigger] stopped_at(pre.stage, word, page.words@, pre.after.words@)
            },
{
    if page.words@ != pre.after.words@ {
        let at = choose|at: int| #[trigger]
            crate::provision::session::differs(page.words@, pre.after.words@, at)
                && step is Stop && (pre.stage == Stage::ReadingBack ==> step == Step::Stop(
                Outcome::Failed {
                    error: Some(
                        ProvisionError::NotWritten {
                            word: at as usize,
                            reads: page.words@[at],
                            want: pre.after.words@[at],
                        },
                    ),
                    erased: true,
                },
            )) && (pre.stage == Stage::ReadingAgain ==> step == Step::Stop(
                Outcome::Failed {
                    error: Some(
                        ProvisionError::NotKept {
                            word: at as usize,
                            reads: page.words@[at],
                            want: pre.after.words@[at],
                        },
                    ),
                    erased: true,
                },
            ));
        let word = at as usize;
        assert(step == stopped_at(pre.stage, word, page.words@, pre.after.words@));
    }
}

/// The end of a run whose page read wrong, before the reset or after it.
pub open spec fn stopped_at(stage: Stage, word: usize, page: Seq<u32>, wanted: Seq<u32>) -> Step {
    let (reads, want) = (page[word as int], wanted[word as int]);
    Step::Stop(
        Outcome::Failed {
            error: Some(
                if stage == Stage::ReadingBack {
                    ProvisionError::NotWritten { word, reads, want }
                } else {
                    ProvisionError::NotKept { word, reads, want }
                },
            ),
            erased: true,
        },
    )
}

/// A part is provisioned exactly when it latched the BOOTPROT that was
/// written and, where BOOT was to be locked, every region of both copies. A
/// wrong BOOTPROT is reported first, and neither is reported as erased.
pub proof fn a_part_is_provisioned_by_what_it_latched(
    pre: Session,
    status: Status,
    runlock: u32,
    post: Session,
    step: Step,
)
    requires
        pre.wf(),
        pre.stage == Stage::Latching,
        pre.flash_size % 32 == 0,
        pre.leads(Came::Latched { status, runlock }, post, step),
    ensures
        ({
            let want = (pre.after.words@[0] / 67_108_864) % 16;
            let open = pre.req matches Request::Fuses(f) && f.lock_boot && exists|i: u32|
                i < 32 && #[trigger] boot_region(pre.flash_size, f.boot_size, i) && (runlock >> i)
                    & 1 == 1;
            &&& step == Step::Stop(Outcome::Provisioned) <==> status.bootprot == want && !open
            &&& status.bootprot != want ==> step == Step::Stop(
                Outcome::Failed {
                    error: Some(
                        ProvisionError::Bootprot { latched: status.bootprot, expected: want as u8 },
                    ),
                    erased: false,
                },
            )
            &&& (status.bootprot == want && open) ==> (step matches Step::Stop(
                Outcome::Failed {
                    error: Some(ProvisionError::Locks { runlock: l, regions }),
                    erased,
                },
            ) && l == runlock && !erased && forall|i: u32|
                i < 32 ==> ((#[trigger] (regions >> i)) & 1 == 1 <==> boot_region(
                    pre.flash_size,
                    (pre.req->Fuses_0).boot_size,
                    i,
                )))
        }),
{
    where_the_fuses_are(pre.after.words@[0]);
    let size = pre.flash_size;
    if let Request::Fuses(f) = pre.req {
        assert(protectable(size, f.boot_size));
        assert forall|mask: u32| #[trigger]
            crate::consts::geometry::selects_boot_regions(
                mask,
                size as int,
                f.boot_size as int,
            ) implies {
            &&& forall|i: u32|
                i < 32 ==> ((#[trigger] (mask >> i)) & 1 == 1 <==> boot_region(
                    size,
                    f.boot_size,
                    i,
                ))
            &&& runlock & mask != 0 <==> exists|i: u32|
                i < 32 && #[trigger] boot_region(size, f.boot_size, i) && (runlock >> i) & 1 == 1
        } by {
            lemma_bits(mask, runlock, 0);
            assert forall|i: u32| i < 32 implies ((#[trigger] (mask >> i)) & 1 == 1 <==> boot_region(
                size,
                f.boot_size,
                i,
            )) by {
                lemma_region(size, f.boot_size, mask, i);
            }
            if runlock & mask != 0 {
                let k = choose|k: u32|
                    k < 32 && #[trigger] (mask >> k) & 1 == 1 && (runlock >> k) & 1 == 1;
                assert(boot_region(size, f.boot_size, k));
            } else {
                assert forall|i: u32| i < 32 && #[trigger] boot_region(size, f.boot_size, i) implies (
                runlock >> i) & 1 != 1 by {
                    assert((mask >> i) & 1 == 1);
                    lemma_bits(mask, runlock, i);
                }
            }
        }
    }
}

/// A step that could not be done ends the run, and so does an answer to
/// another step; the page counts as erased from the write on until it has
/// been found good after the reset.
pub proof fn a_step_that_fails_ends_the_run(pre: Session, post: Session, step: Step)
    requires
        pre.stage != Stage::Over,
        pre.leads(Came::Failed, post, step),
    ensures
        step == Step::Stop(
            Outcome::Failed {
                error: None,
                erased: pre.stage == Stage::Writing || pre.stage == Stage::ReadingBack || pre.stage
                    == Stage::Resetting || pre.stage == Stage::ReadingAgain,
            },
        ),
        post.stage == Stage::Over,
{
}

/// A page that is as wanted calls for nothing; any other calls for the write,
/// in earnest only on a run that may write.
pub proof fn what_a_plan_calls_for(before: UserPage, after: UserPage, mode: Mode, r: Todo)
    requires
        call_ensures(crate::provision::todo, (&before, &after, mode), r),
    ensures
        r is Nothing <==> after.words@ == before.words@,
        r is Write <==> after.words@ != before.words@ && mode == Mode::Run,
        r is Rehearse <==> after.words@ != before.words@ && mode == Mode::DryRun,
        r matches Todo::Write(ops) ==> ops@ == crate::provision::write_ops(after.words@, 32),
        r matches Todo::Rehearse(ops) ==> ops@ == crate::provision::write_ops(after.words@, 32),
{
}

/// An update request sets that flag in the record that is there, or in a
/// fresh one where none is, and reseals it; everything else in it stays.
pub proof fn an_update_request_amends_the_record(
    raw: [u32; 4],
    amended: bool,
    words: [u32; 4],
    stored: crate::persist::BootStore,
    after: crate::persist::BootStore,
)
    requires
        call_ensures(crate::provision::request_update, (raw,), (amended, words)),
        stored.words() == raw@,
        after.words() == words@,
    ensures
        amended == stored.valid(),
        after.valid(),
        after.mailbox.has(1),
        amended ==> {
            &&& after.boot_state == stored.boot_state
            &&& after.rollback == stored.rollback
            &&& after.mailbox.has(2) == stored.mailbox.has(2)
            &&& after.mailbox.has(4) == stored.mailbox.has(4)
            &&& after.mailbox.flags & 0xF8 == stored.mailbox.flags & 0xF8
            &&& after.mailbox.reserved_a == stored.mailbox.reserved_a
            &&& after.mailbox.reserved_b == stored.mailbox.reserved_b
            &&& after.mailbox.reserved_c == stored.mailbox.reserved_c
        },
        !amended ==> {
            &&& after.boot_state == crate::persist::BootStore::blank().boot_state
            &&& after.rollback == crate::persist::BootStore::blank().rollback
            &&& !after.mailbox.has(2)
            &&& !after.mailbox.has(4)
        },
{
    let read = choose|read: crate::persist::BootStore|
        {
            &&& #[trigger] read.words() == raw@
            &&& amended == read.valid()
            &&& words@ == crate::client::flagged(
                read.usable(),
                crate::persist::REQUEST,
            ).sealed().words()
        };
    crate::persist::a_stored_record_reads_back(read, stored);
    let flagged = crate::client::flagged(stored.usable(), crate::persist::REQUEST);
    crate::persist::a_stored_record_reads_back(after, flagged.sealed());
    crate::persist::a_sealed_record_is_valid(flagged);
    crate::persist::mailbox_flags_are_independent(stored.usable().mailbox, true);
    crate::bytes::fields_are_digits(0, 0, 0);
}

// ── Checks on their own ─────────────────────────────────────────────────

/// A backup that is there is kept; without one, a page that holds anything is
/// saved whole.
pub proof fn what_is_saved_of_a_page(found: bool, page: UserPage, r: Backup)
    requires
        call_ensures(backup, (found, &page), r),
        page.words@.len() == 128,
    ensures
        ({
            let erased = forall|i: int| 0 <= i < 128 ==> page.words@[i] == 0xFFFF_FFFF;
            &&& r is KeepExisting <==> found
            &&& r is SkipBlank <==> !found && erased
            &&& r is Save <==> !found && !erased
            &&& r matches Backup::Save(bytes) ==> bytes@ == crate::provision::page_bytes(
                page.words@,
            )
        }),
{
    assert(crate::provision::blank(page.words@) <==> forall|i: int|
        0 <= i < 128 ==> page.words@[i] == 0xFFFF_FFFF);
}

/// A page passes exactly if it reads back word for word, and otherwise the
/// first word that does not is named, with what it reads and what it should.
pub proof fn a_page_passes_word_for_word(
    stored: UserPage,
    want: UserPage,
    written: Result<(), ProvisionError>,
    kept: Result<(), ProvisionError>,
)
    requires
        call_ensures(check_written, (&stored, &want), written),
        call_ensures(check_kept, (&stored, &want), kept),
    ensures
        written is Ok <==> stored.words@ == want.words@,
        kept is Ok <==> stored.words@ == want.words@,
        written is Err ==> (written matches Err(ProvisionError::NotWritten { word, reads, want: w })
            && first_unlike(stored.words@, want.words@, word as int, reads, w)),
        kept is Err ==> (kept matches Err(ProvisionError::NotKept { word, reads, want: w })
            && first_unlike(stored.words@, want.words@, word as int, reads, w)),
{
}

/// The pages are alike up to `word`, where one reads `reads` and the other
/// should be `want`.
pub open spec fn first_unlike(
    stored: Seq<u32>,
    wanted: Seq<u32>,
    word: int,
    reads: u32,
    want: u32,
) -> bool {
    &&& 0 <= word < 128
    &&& stored[word] == reads
    &&& wanted[word] == want
    &&& reads != want
    &&& forall|i: int| 0 <= i < word ==> stored[i] == wanted[i]
}

/// What was latched at reset passes exactly if BOOTPROT is the page's and,
/// where BOOT was to be locked, none of its regions is open.
pub proof fn what_must_be_latched(
    after: UserPage,
    req: Request,
    flash_size: usize,
    status: Status,
    runlock: u32,
    r: Result<(), ProvisionError>,
)
    requires
        req matches Request::Fuses(f) ==> protectable(flash_size, f.boot_size),
        call_ensures(check_latched, (&after, &req, flash_size, &status, runlock), r),
    ensures
        ({
            let expected = (after.words@[0] as int / 67_108_864) % 16;
            &&& status.bootprot != expected <==> (r matches Err(
                ProvisionError::Bootprot { latched, expected: e },
            ) && latched == status.bootprot && e == expected)
            &&& status.bootprot == expected && !(req matches Request::Fuses(f) && f.lock_boot)
                ==> r is Ok
            &&& r is Err ==> r->Err_0 is Bootprot || r->Err_0 is Locks
            &&& r matches Err(ProvisionError::Locks { runlock: l, regions }) ==> l == runlock
                && runlock & regions != 0 && (req matches Request::Fuses(f) && f.lock_boot)
        }),
{
    where_the_fuses_are(after.words@[0]);
}

} // verus!
