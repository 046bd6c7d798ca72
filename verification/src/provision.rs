//! Fuse provisioning: the user-page write that decides what BOOTPROT
//! protects and which flash regions are locked.
//!
//! The page is one erase-and-rewrite unit, so every field in it is read,
//! patched and written back together. Fields not asked for are preserved
//! word for word, which matters because the page also carries the BOD
//! levels, the watchdog fuses and the SmartEEPROM configuration.
//!
//! Field positions are those of the NVM User Page Mapping table in
//! DS60001507 section 25: BOOTPROT at bits 29:26, SEE SBLK at 35:32, and NVM
//! LOCKS at 95:64, where a *clear* bit locks the region.
//!
//! Between the page erase and the last quad-word commit the part has no
//! fuses at all: an erased page reads 0xFF everywhere, which decodes as
//! BOOTPROT 15 (nothing protected) and SEE SBLK 15 (a reserved value that
//! the bootloader rejects). Nothing is destroyed, since the page can simply
//! be written again, but the contents have to come from somewhere. So the
//! page is saved before the erase.
//!
//! A run is: read the page, [`target`], [`todo`], [`backup`], carry the
//! operations out, [`check_written`], reset, [`check_kept`],
//! [`check_latched`].

use vstd::prelude::*;

pub mod laws;
pub mod session;

use crate::bytes::{read_u32, word_bytes};
use crate::consts::geometry::{boot_region_mask, boot_size_valid, bootprot_value};
use crate::consts::{USER_PAGE_ADDR, USER_PAGE_SIZE};
use crate::persist::BootStore;
use crate::probe::{Cmd, Mode, Status};

verus! {

/// Words in the user page.
pub const PAGE_WORDS: usize = 128;

/// Quad words in the user page.
pub const PAGE_QUADS: usize = 32;

/// The user page as stored, with accessors for the fields that are touched
/// here. Held as words because the page buffer takes word-wide writes and
/// nothing narrower.
#[derive(Clone, Copy)]
pub struct UserPage {
    pub words: [u32; 128],
}

/// The fuse settings a page is computed from.
#[derive(Clone, Copy, PartialEq, Eq, Debug)]
pub struct Fuses {
    /// BOOT region size in bytes, one that is usable on the part.
    pub boot_size: usize,
    /// Lock the BOOT regions of both banks, so neither copy can be erased
    /// or written after reset.
    pub lock_boot: bool,
    /// SmartEEPROM blocks, 0..=10. `None` leaves the field as it is.
    pub see_sblk: Option<u8>,
}

/// What is to be written: a page computed from [`Fuses`], or the bytes of a
/// saved page put back word for word.
#[derive(Debug)]
pub enum Request {
    Fuses(Fuses),
    Restore(Vec<u8>),
}

/// Why provisioning stopped.
#[derive(Clone, Copy, PartialEq, Eq, Structural, Debug)]
pub enum ProvisionError {
    /// A saved page is not the size of a user page.
    PageSize { len: usize },
    /// The BOOT size cannot be protected on this part.
    BootSize { boot_size: usize, flash_size: usize },
    /// SEE SBLK must be 0..=10.
    Sblk { sblk: u8 },
    /// The page does not read back as written.
    NotWritten { word: usize, reads: u32, want: u32 },
    /// The page changed across the reset.
    NotKept { word: usize, reads: u32, want: u32 },
    /// BOOTPROT did not latch.
    Bootprot { latched: u8, expected: u8 },
    /// BOOT regions did not latch as locked.
    Locks { runlock: u32, regions: u32 },
}

/// One NVMCTRL operation of a page write.
#[derive(Clone, Copy, PartialEq, Eq, Structural, Debug)]
pub enum PageOp {
    /// Set `ADDR`, the byte address the next command acts on.
    SetAddr { addr: u32 },
    Command { cmd: Cmd },
    /// Fill a quad word of the page buffer: a plain write to the destination
    /// address, which the buffer shadows until a commit command runs. Words
    /// only; the buffer drops anything narrower.
    Fill { addr: u32, w0: u32, w1: u32, w2: u32, w3: u32 },
}

/// What a planned page calls for.
#[derive(Debug)]
pub enum Todo {
    /// The page already holds it.
    Nothing,
    /// Print the operations, issue none.
    Rehearse(Vec<PageOp>),
    /// Save the page, then carry the operations out.
    Write(Vec<PageOp>),
}

/// What becomes of the page's contents before it is erased.
#[derive(Debug)]
pub enum Backup {
    /// An earlier backup is there and is kept: a second failed run must not
    /// overwrite the good capture with the blank page the first one left
    /// behind.
    KeepExisting,
    /// A blank page holds nothing worth keeping.
    SkipBlank,
    /// Save these bytes.
    Save(Vec<u8>),
}

// ── Definition ──────────────────────────────────────────────────────────

/// BOOTPROT in the page's first word.
pub open spec fn bootprot_in(w: u32) -> u8 {
    ((w >> 26) & 0xF) as u8
}

/// The page's first word with BOOTPROT replaced.
pub open spec fn with_bootprot(w: u32, value: u8) -> u32 {
    (w & !(0xFu32 << 26)) | (((value as u32) & 0xF) << 26)
}

/// SEE SBLK in the page's second word.
pub open spec fn sblk_in(w: u32) -> u8 {
    (w & 0xF) as u8
}

/// The page's second word with SEE SBLK replaced.
pub open spec fn with_sblk(w: u32, blocks: u8) -> u32 {
    (w & !0xFu32) | ((blocks as u32) & 0xF)
}

/// Every word erased.
pub open spec fn blank(words: Seq<u32>) -> bool {
    forall|i: int| 0 <= i < words.len() ==> words[i] == 0xFFFF_FFFF
}

/// The bytes of a page.
pub open spec fn page_bytes(words: Seq<u32>) -> Seq<u8> {
    Seq::new(words.len() * 4, |k: int| crate::bytes::le32(words[k / 4])[k % 4])
}

/// The page the fuses make of `before`, given the mask of BOOT regions.
pub open spec fn planned(before: Seq<u32>, req: Fuses, regions: u32) -> Seq<u32> {
    let w0 = with_bootprot(before[0], (15 - req.boot_size / 8192) as u8);
    let w1 = match req.see_sblk {
        Some(sblk) => with_sblk(before[1], sblk),
        None => before[1],
    };
    let w2 = if req.lock_boot {
        before[2] & !regions
    } else {
        before[2] | regions
    };
    before.update(0, w0).update(1, w1).update(2, w2)
}

/// Why fuses cannot be planned for a part, if they cannot.
pub open spec fn fuses_error(req: Fuses, flash_size: usize) -> Option<ProvisionError> {
    if !crate::consts::geometry::valid_boot_size(flash_size as int, req.boot_size as int) {
        Some(ProvisionError::BootSize { boot_size: req.boot_size, flash_size })
    } else {
        match req.see_sblk {
            Some(sblk) => if sblk > 10 {
                Some(ProvisionError::Sblk { sblk })
            } else {
                None
            },
            None => None,
        }
    }
}

/// The address of a quad word of the page.
pub open spec fn quad_addr(quad: int) -> u32 {
    (USER_PAGE_ADDR + quad * 16) as u32
}

/// The operations one quad word takes: none if the erase already left it in
/// its final state.
pub open spec fn quad_ops(words: Seq<u32>, quad: int) -> Seq<PageOp> {
    if blank(words.subrange(4 * quad, 4 * quad + 4)) {
        Seq::empty()
    } else {
        seq![
            PageOp::Command { cmd: Cmd::Pbc },
            PageOp::Fill {
                addr: quad_addr(quad),
                w0: words[4 * quad],
                w1: words[4 * quad + 1],
                w2: words[4 * quad + 2],
                w3: words[4 * quad + 3],
            },
            PageOp::SetAddr { addr: quad_addr(quad) },
            PageOp::Command { cmd: Cmd::Wqw },
        ]
    }
}

/// The operations that erase the page and write its first `quads` quad
/// words.
pub open spec fn write_ops(words: Seq<u32>, quads: nat) -> Seq<PageOp>
    decreases quads,
{
    if quads == 0 {
        seq![
            PageOp::SetAddr { addr: USER_PAGE_ADDR as u32 },
            PageOp::Command { cmd: Cmd::Ep },
        ]
    } else {
        write_ops(words, (quads - 1) as nat) + quad_ops(words, quads - 1)
    }
}

// ── The user page ───────────────────────────────────────────────────────

impl UserPage {
    pub fn bootprot(&self) -> (value: u8)
        ensures
            value == bootprot_in(self.words@[0]),
            value <= 15,
    {
        proof {
            lemma_fields(self.words@[0], 0);
        }
        ((self.words[0] >> 26) & 0xF) as u8
    }

    /// Set BOOTPROT; the rest of its word and the other words stay.
    pub fn set_bootprot(&mut self, value: u8)
        ensures
            final(self).words@ == old(self).words@.update(
                0,
                with_bootprot(old(self).words@[0], value),
            ),
    {
        self.words[0] = (self.words[0] & !(0xFu32 << 26)) | (((value as u32) & 0xF) << 26);
    }

    pub fn see_sblk(&self) -> (blocks: u8)
        ensures
            blocks == sblk_in(self.words@[1]),
            blocks <= 15,
    {
        proof {
            lemma_fields(self.words@[1], 0);
        }
        (self.words[1] & 0xF) as u8
    }

    /// Set SEE SBLK; the rest of its word and the other words stay.
    pub fn set_see_sblk(&mut self, blocks: u8)
        ensures
            final(self).words@ == old(self).words@.update(1, with_sblk(old(self).words@[1], blocks)),
    {
        self.words[1] = (self.words[1] & !0xFu32) | ((blocks as u32) & 0xF);
    }

    /// One bit per flash region; a clear bit locks that region.
    pub fn locks(&self) -> (locks: u32)
        ensures
            locks == self.words@[2],
    {
        self.words[2]
    }

    pub fn set_locks(&mut self, locks: u32)
        ensures
            final(self).words@ == old(self).words@.update(2, locks),
    {
        self.words[2] = locks;
    }

    /// Whether the page is erased.
    pub fn is_blank(&self) -> (r: bool)
        ensures
            r == blank(self.words@),
    {
        let mut i: usize = 0;
        while i < 128
            invariant
                i <= 128,
                forall|j: int| 0 <= j < i ==> self.words@[j] == 0xFFFF_FFFF,
            decreases 128 - i,
        {
            if self.words[i] != 0xFFFF_FFFF {
                return false;
            }
            i = i + 1;
        }
        true
    }

    /// Quad word `i` of the page.
    pub fn quad(&self, i: usize) -> (quad: &[u32])
        requires
            i < PAGE_QUADS,
        ensures
            quad@ == self.words@.subrange(4 * i, 4 * i + 4),
    {
        vstd::slice::slice_subrange(self.words.as_slice(), 4 * i, 4 * i + 4)
    }

    /// The page as bytes, for a backup.
    pub fn to_bytes(&self) -> (bytes: Vec<u8>)
        ensures
            bytes@ == page_bytes(self.words@),
    {
        let mut bytes: Vec<u8> = Vec::new();
        let mut i: usize = 0;
        while i < 128
            invariant
                i <= 128,
                bytes@ == page_bytes(self.words@).subrange(0, 4 * i),
            decreases 128 - i,
        {
            let ghost before = bytes@;
            let mut word: Vec<u8> = word_bytes(self.words[i]);
            bytes.append(&mut word);
            assert(bytes@ =~= page_bytes(self.words@).subrange(0, 4 * i + 4)) by {
                let all = page_bytes(self.words@);
                assert forall|k: int| 0 <= k < 4 * i + 4 implies bytes@[k] == all[k] by {
                    if k >= 4 * i {
                        assert(k / 4 == i && k % 4 == k - 4 * i);
                    } else {
                        assert(before[k] == all.subrange(0, 4 * i)[k]);
                    }
                }
            }
            i = i + 1;
        }
        assert(page_bytes(self.words@).subrange(0, 512) =~= page_bytes(self.words@));
        bytes
    }

    /// The page in a backup.
    pub fn from_bytes(bytes: &[u8]) -> (r: Result<UserPage, ProvisionError>)
        ensures
            match r {
                Ok(page) => bytes@.len() == USER_PAGE_SIZE && page_bytes(page.words@) == bytes@,
                Err(e) => bytes@.len() != USER_PAGE_SIZE && e == (ProvisionError::PageSize {
                    len: bytes@.len() as usize,
                }),
            },
    {
        let len: usize = bytes.len();
        if len != USER_PAGE_SIZE {
            return Err(ProvisionError::PageSize { len });
        }
        let mut words: [u32; 128] = [0u32; 128];
        let mut i: usize = 0;
        while i < 128
            invariant
                i <= 128,
                bytes@.len() == 512,
                forall|j: int| 0 <= j < i ==> words@[j] == crate::bytes::u32_at(bytes@, 4 * j),
            decreases 128 - i,
        {
            words[i] = read_u32(bytes, 4 * i);
            i = i + 1;
        }
        let page: UserPage = UserPage { words };
        assert(page_bytes(page.words@) =~= bytes@) by {
            assert forall|k: int| 0 <= k < 512 implies page_bytes(page.words@)[k] == bytes@[k] by {
                crate::bytes::word_bytes_round_trip(bytes@, 4 * (k / 4));
                assert(bytes@.subrange(4 * (k / 4), 4 * (k / 4) + 4)[k % 4] == bytes@[k]);
            }
        }
        Ok(page)
    }

    /// Where this page first differs from another, for reporting a failed
    /// verification as something specific rather than "differs".
    pub fn first_difference(&self, other: &UserPage) -> (r: Option<usize>)
        ensures
            match r {
                Some(w) => {
                    &&& w < PAGE_WORDS
                    &&& self.words@[w as int] != other.words@[w as int]
                    &&& forall|i: int| 0 <= i < w ==> self.words@[i] == other.words@[i]
                },
                None => self.words@ == other.words@,
            },
    {
        let mut i: usize = 0;
        while i < 128
            invariant
                i <= 128,
                forall|j: int| 0 <= j < i ==> self.words@[j] == other.words@[j],
            decreases 128 - i,
        {
            if self.words[i] != other.words[i] {
                return Some(i);
            }
            i = i + 1;
        }
        assert(self.words@ =~= other.words@);
        None
    }
}

/// Fields fit, and setting one reaches nothing else in its word.
proof fn lemma_fields(w: u32, v: u8)
    ensures
        bootprot_in(w) <= 15,
        sblk_in(w) <= 15,
        bootprot_in(with_bootprot(w, v)) == v & 0xF,
        with_bootprot(w, v) & !(0xFu32 << 26) == w & !(0xFu32 << 26),
        sblk_in(with_sblk(w, v)) == v & 0xF,
        with_sblk(w, v) & !0xFu32 == w & !0xFu32,
{
    let p = (w & !(0xFu32 << 26)) | (((v as u32) & 0xF) << 26);
    let s = (w & !0xFu32) | ((v as u32) & 0xF);
    assert(((w >> 26) & 0xF) as u8 <= 15 && (w & 0xF) as u8 <= 15 && ((p >> 26) & 0xF) as u8 == v
        & 0xF && p & !(0xFu32 << 26) == w & !(0xFu32 << 26) && (s & 0xF) as u8 == v & 0xF && s
        & !0xFu32 == w & !0xFu32) by (bit_vector)
        requires
            p == (w & !(0xFu32 << 26)) | (((v as u32) & 0xF) << 26),
            s == (w & !0xFu32) | ((v as u32) & 0xF),
    ;
}

// ── A run ───────────────────────────────────────────────────────────────

/// What the requested fuses make of the page that is there now.
pub fn plan(before: &UserPage, req: &Fuses, flash_size: usize) -> (r: Result<
    UserPage,
    ProvisionError,
>)
    requires
        flash_size >= 32 || req.boot_size == 0 || req.boot_size >= flash_size / 2,
    ensures
        match r {
            Err(e) => fuses_error(*req, flash_size) == Some(e),
            Ok(after) => fuses_error(*req, flash_size) is None && exists|regions: u32|
                {
                    &&& #[trigger] crate::consts::geometry::selects_boot_regions(
                        regions,
                        flash_size as int,
                        req.boot_size as int,
                    )
                    &&& after.words@ == planned(before.words@, *req, regions)
                },
        },
{
    if !boot_size_valid(flash_size, req.boot_size) {
        return Err(ProvisionError::BootSize { boot_size: req.boot_size, flash_size });
    }
    proof {
        crate::consts::geometry::lemma_mask_fits(flash_size as int, req.boot_size as int);
    }
    let mut after: UserPage = UserPage { words: before.words };
    after.set_bootprot(bootprot_value(req.boot_size));
    let regions: u32 = boot_region_mask(flash_size, req.boot_size);
    let locks: u32 = if req.lock_boot {
        before.locks() & !regions
    } else {
        before.locks() | regions
    };
    after.set_locks(locks);
    if let Some(sblk) = req.see_sblk {
        if sblk > 10 {
            return Err(ProvisionError::Sblk { sblk });
        }
        after.set_see_sblk(sblk);
    }
    assert(after.words@ =~= planned(before.words@, *req, regions));
    Ok(after)
}

/// The page a request asks for, given the one that is there now.
pub fn target(before: &UserPage, req: &Request, flash_size: usize) -> (r: Result<
    UserPage,
    ProvisionError,
>)
    requires
        req matches Request::Fuses(f) ==> flash_size >= 32 || f.boot_size == 0 || f.boot_size
            >= flash_size / 2,
    ensures
        match req {
            Request::Restore(bytes) => match r {
                Ok(page) => page_bytes(page.words@) == bytes@,
                Err(e) => bytes@.len() != USER_PAGE_SIZE && e == (ProvisionError::PageSize {
                    len: bytes@.len() as usize,
                }),
            },
            Request::Fuses(f) => match r {
                Err(e) => fuses_error(*f, flash_size) == Some(e),
                Ok(after) => fuses_error(*f, flash_size) is None && exists|regions: u32|
                    {
                        &&& #[trigger] crate::consts::geometry::selects_boot_regions(
                            regions,
                            flash_size as int,
                            f.boot_size as int,
                        )
                        &&& after.words@ == planned(before.words@, *f, regions)
                    },
            },
        },
{
    match req {
        Request::Restore(bytes) => UserPage::from_bytes(bytes.as_slice()),
        Request::Fuses(fuses) => plan(before, fuses, flash_size),
    }
}

/// The operations that erase the user page and write `page` back into it.
///
/// They have to be carried out against one halted core inside one attach,
/// with the NVM cache off, so the volatile page buffer survives from fill to
/// commit and nothing else drives NVMCTRL in between.
pub fn write_page(page: &UserPage) -> (ops: Vec<PageOp>)
    ensures
        ops@ == write_ops(page.words@, PAGE_QUADS as nat),
{
    let mut ops: Vec<PageOp> = Vec::new();
    ops.push(PageOp::SetAddr { addr: USER_PAGE_ADDR as u32 });
    ops.push(PageOp::Command { cmd: Cmd::Ep });
    assert(ops@ =~= write_ops(page.words@, 0));
    let mut quad: usize = 0;
    while quad < PAGE_QUADS
        invariant
            quad <= PAGE_QUADS,
            ops@ == write_ops(page.words@, quad as nat),
        decreases PAGE_QUADS - quad,
    {
        let words: &[u32] = page.quad(quad);
        let ghost before = ops@;
        let ghost q = page.words@.subrange(4 * quad, 4 * quad + 4);
        assert(q[0] == page.words@[4 * quad] && q[1] == page.words@[4 * quad + 1] && q[2]
            == page.words@[4 * quad + 2] && q[3] == page.words@[4 * quad + 3]);
        // The erase left every quad word at 0xFF, so one that is already
        // 0xFF is in its final state; programming it would only spend
        // endurance.
        if words[0] == 0xFFFF_FFFF && words[1] == 0xFFFF_FFFF && words[2] == 0xFFFF_FFFF && words[3]
            == 0xFFFF_FFFF {
            assert(blank(q));
            assert(before + Seq::<PageOp>::empty() =~= before);
        } else {
            assert(!blank(q));
            let addr: u32 = (USER_PAGE_ADDR + quad * 16) as u32;
            ops.push(PageOp::Command { cmd: Cmd::Pbc });
            ops.push(
                PageOp::Fill { addr, w0: words[0], w1: words[1], w2: words[2], w3: words[3] },
            );
            // Explicit, because a page-buffer write advances ADDR by itself
            // and WQW commits whatever ADDR points at.
            ops.push(PageOp::SetAddr { addr });
            ops.push(PageOp::Command { cmd: Cmd::Wqw });
            assert(ops@ =~= before + quad_ops(page.words@, quad as int));
        }
        quad = quad + 1;
    }
    ops
}

/// What a planned page calls for.
pub fn todo(before: &UserPage, after: &UserPage, mode: Mode) -> (r: Todo)
    ensures
        match r {
            Todo::Nothing => after.words@ == before.words@,
            Todo::Rehearse(ops) => after.words@ != before.words@ && mode == Mode::DryRun && ops@
                == write_ops(after.words@, PAGE_QUADS as nat),
            Todo::Write(ops) => after.words@ != before.words@ && mode == Mode::Run && ops@
                == write_ops(after.words@, PAGE_QUADS as nat),
        },
{
    if after.first_difference(before).is_none() {
        return Todo::Nothing;
    }
    let ops: Vec<PageOp> = write_page(after);
    if mode.writes() {
        Todo::Write(ops)
    } else {
        Todo::Rehearse(ops)
    }
}

/// What becomes of the page's contents before it is erased, given whether a
/// backup is already there.
pub fn backup(exists: bool, page: &UserPage) -> (r: Backup)
    ensures
        match r {
            Backup::KeepExisting => exists,
            Backup::SkipBlank => !exists && blank(page.words@),
            Backup::Save(bytes) => !exists && !blank(page.words@) && bytes@ == page_bytes(
                page.words@,
            ),
        },
{
    if exists {
        Backup::KeepExisting
    } else if page.is_blank() {
        Backup::SkipBlank
    } else {
        Backup::Save(page.to_bytes())
    }
}

/// Check the write landed.
pub fn check_written(stored: &UserPage, want: &UserPage) -> (r: Result<(), ProvisionError>)
    ensures
        match r {
            Ok(_) => stored.words@ == want.words@,
            Err(ProvisionError::NotWritten { word, reads, want: w }) => {
                &&& word < PAGE_WORDS
                &&& reads == stored.words@[word as int]
                &&& w == want.words@[word as int]
                &&& reads != w
                &&& forall|i: int| 0 <= i < word ==> stored.words@[i] == want.words@[i]
            },
            Err(_) => false,
        },
{
    match stored.first_difference(want) {
        Some(word) => Err(
            ProvisionError::NotWritten { word, reads: stored.words[word], want: want.words[word] },
        ),
        None => Ok(()),
    }
}

/// Check the page survived the reset that re-latches the fuses.
pub fn check_kept(stored: &UserPage, want: &UserPage) -> (r: Result<(), ProvisionError>)
    ensures
        match r {
            Ok(_) => stored.words@ == want.words@,
            Err(ProvisionError::NotKept { word, reads, want: w }) => {
                &&& word < PAGE_WORDS
                &&& reads == stored.words@[word as int]
                &&& w == want.words@[word as int]
                &&& reads != w
                &&& forall|i: int| 0 <= i < word ==> stored.words@[i] == want.words@[i]
            },
            Err(_) => false,
        },
{
    match stored.first_difference(want) {
        Some(word) => Err(
            ProvisionError::NotKept { word, reads: stored.words[word], want: want.words[word] },
        ),
        None => Ok(()),
    }
}

/// Compare what NVMCTRL latched at reset against what was asked for: the
/// page's BOOTPROT, and the locks of the BOOT regions if those were asked
/// for.
pub fn check_latched(
    after: &UserPage,
    req: &Request,
    flash_size: usize,
    status: &Status,
    runlock: u32,
) -> (r: Result<(), ProvisionError>)
    requires
        req matches Request::Fuses(f) ==> crate::consts::geometry::valid_boot_size(
            flash_size as int,
            f.boot_size as int,
        ),
    ensures
        match r {
            Ok(_) => {
                &&& status.bootprot == bootprot_in(after.words@[0])
                &&& (req matches Request::Fuses(f) && f.lock_boot) ==> exists|regions: u32|
                    {
                        &&& #[trigger] crate::consts::geometry::selects_boot_regions(
                            regions,
                            flash_size as int,
                            (req->Fuses_0).boot_size as int,
                        )
                        &&& runlock & regions == 0
                    }
            },
            Err(ProvisionError::Bootprot { latched, expected }) => {
                &&& latched == status.bootprot
                &&& expected == bootprot_in(after.words@[0])
                &&& latched != expected
            },
            Err(ProvisionError::Locks { runlock: l, regions }) => {
                &&& status.bootprot == bootprot_in(after.words@[0])
                &&& req matches Request::Fuses(f) && f.lock_boot
                    && crate::consts::geometry::selects_boot_regions(
                    regions,
                    flash_size as int,
                    f.boot_size as int,
                )
                &&& l == runlock
                &&& runlock & regions != 0
            },
            Err(_) => false,
        },
{
    if status.bootprot != after.bootprot() {
        return Err(
            ProvisionError::Bootprot { latched: status.bootprot, expected: after.bootprot() },
        );
    }
    if let Request::Fuses(fuses) = req {
        if fuses.lock_boot {
            proof {
                crate::consts::geometry::lemma_mask_fits(flash_size as int, fuses.boot_size as int);
            }
            let regions: u32 = boot_region_mask(flash_size, fuses.boot_size);
            if runlock & regions != 0 {
                return Err(ProvisionError::Locks { runlock, regions });
            }
        }
    }
    Ok(())
}

/// Set the update request in a boot record read through the debugger, so
/// BOOT waits for an image instead of booting the application.
///
/// The record is amended and resealed rather than replaced, so the trial
/// bookkeeping already in it survives; bytes that do not check out, the
/// normal state of backup RAM on a cold part, start from a fresh one. Says
/// which it was, and hands back the words to write.
pub fn request_update(raw: [u32; 4]) -> (r: (bool, [u32; 4]))
    ensures
        exists|stored: BootStore|
            {
                &&& #[trigger] stored.words() == raw@
                &&& r.0 == stored.valid()
                &&& r.1@ == crate::client::flagged(
                    stored.usable(),
                    crate::persist::REQUEST,
                ).sealed().words()
            },
{
    let stored: BootStore = BootStore::from_words(raw);
    let (amended, record) = match stored.validated() {
        Some(record) => (true, record),
        None => (false, BootStore::default()),
    };
    let mut record: BootStore = record;
    record.mailbox.set_request_update(true);
    record.seal();
    let words: [u32; 4] = record.to_words();
    assert(stored.words() == raw@);
    (amended, words)
}

// ── Laws ────────────────────────────────────────────────────────────────

/// A plan holds what was asked for and preserves everything else, bit for
/// bit.
pub proof fn a_plan_changes_only_what_was_asked_for(before: Seq<u32>, req: Fuses, regions: u32)
    requires
        before.len() == PAGE_WORDS,
        req.boot_size / 8192 <= 15,
        req.see_sblk matches Some(s) ==> s <= 10,
    ensures
        ({
            let after = planned(before, req, regions);
            &&& after.len() == PAGE_WORDS
            &&& bootprot_in(after[0]) == 15 - req.boot_size / 8192
            &&& after[0] & !(0xFu32 << 26) == before[0] & !(0xFu32 << 26)
            &&& req.see_sblk matches Some(s) ==> sblk_in(after[1]) == s
            &&& req.see_sblk is None ==> after[1] == before[1]
            &&& after[1] & !0xFu32 == before[1] & !0xFu32
            &&& after[2] & !regions == before[2] & !regions
            &&& after[2] & regions == (if req.lock_boot {
                0u32
            } else {
                regions
            })
            &&& forall|i: int| 3 <= i < PAGE_WORDS ==> after[i] == before[i]
        }),
{
    let value = (15 - req.boot_size / 8192) as u8;
    lemma_fields(before[0], value);
    assert(value <= 15);
    if let Some(s) = req.see_sblk {
        lemma_fields(before[1], s);
        assert(value & 0xF == value && s & 0xF == s) by (bit_vector)
            requires
                value <= 15,
                s <= 10,
        ;
    }
    let locks = before[2];
    assert(value & 0xF == value && (locks & !regions) & !regions == locks & !regions && (locks
        & !regions) & regions == 0 && (locks | regions) & !regions == locks & !regions && (locks
        | regions) & regions == regions) by (bit_vector)
        requires
            value <= 15,
    ;
}

/// A saved page restores word for word: the bytes of a page determine it.
pub proof fn a_saved_page_restores_verbatim(a: Seq<u32>, b: Seq<u32>)
    requires
        a.len() == PAGE_WORDS,
        b.len() == PAGE_WORDS,
        page_bytes(a) == page_bytes(b),
    ensures
        a == b,
{
    assert forall|i: int| 0 <= i < 128 implies a[i] == b[i] by {
        let (s, t) = (page_bytes(a), page_bytes(b));
        assert(s.subrange(4 * i, 4 * i + 4) =~= crate::bytes::le32(a[i]));
        assert(t.subrange(4 * i, 4 * i + 4) =~= crate::bytes::le32(b[i]));
        crate::bytes::u32_round_trips(a[i], s, 4 * i);
        crate::bytes::u32_round_trips(b[i], t, 4 * i);
    }
    assert(a =~= b);
}

/// An erased page protects nothing and reserves a SmartEEPROM that the
/// bootloader rejects.
pub proof fn an_erased_page_has_no_fuses(words: Seq<u32>)
    requires
        words.len() == PAGE_WORDS,
        blank(words),
    ensures
        bootprot_in(words[0]) == 15,
        sblk_in(words[1]) == 15,
{
    assert(((0xFFFF_FFFFu32 >> 26) & 0xF) as u8 == 15 && (0xFFFF_FFFFu32 & 0xF) as u8 == 15)
        by (bit_vector);
}

/// The page controller while a page is written: what the page holds, what
/// the page buffer holds, and where `ADDR` points.
pub struct Controller {
    pub page: Seq<u32>,
    pub buffer: Seq<u32>,
    pub addr: int,
}

/// The controller after one operation. An erase sets the page to ones, a
/// fill goes to the buffer and advances `ADDR`, a commit clears the page's
/// bits that are zero in the buffer's quad word at `ADDR`.
pub open spec fn apply(c: Controller, op: PageOp) -> Controller {
    let quad = (c.addr - USER_PAGE_ADDR) / 16;
    match op {
        PageOp::SetAddr { addr } => Controller { addr: addr as int, ..c },
        PageOp::Command { cmd: Cmd::Ep } => Controller {
            page: Seq::new(c.page.len(), |i: int| 0xFFFF_FFFFu32),
            ..c
        },
        PageOp::Command { cmd: Cmd::Pbc } => Controller {
            buffer: Seq::new(c.buffer.len(), |i: int| 0xFFFF_FFFFu32),
            ..c
        },
        PageOp::Command { cmd: Cmd::Wqw } => Controller {
            page: Seq::new(
                c.page.len(),
                |i: int|
                    if i / 4 == quad {
                        c.page[i] & c.buffer[i]
                    } else {
                        c.page[i]
                    },
            ),
            ..c
        },
        PageOp::Command { cmd: Cmd::Bkswrst } => c,
        PageOp::Fill { addr, w0, w1, w2, w3 } => {
            let at = (addr - USER_PAGE_ADDR) / 4;
            Controller {
                buffer: c.buffer.update(at, w0).update(at + 1, w1).update(at + 2, w2).update(
                    at + 3,
                    w3,
                ),
                addr: addr + 16,
                ..c
            }
        },
    }
}

/// The controller after some operations, in order.
pub open spec fn apply_all(c: Controller, ops: Seq<PageOp>) -> Controller
    decreases ops.len(),
{
    if ops.len() == 0 {
        c
    } else {
        apply(apply_all(c, ops.drop_last()), ops.last())
    }
}

proof fn lemma_apply_append(c: Controller, a: Seq<PageOp>, b: Seq<PageOp>)
    ensures
        apply_all(c, a + b) == apply_all(apply_all(c, a), b),
    decreases b.len(),
{
    if b.len() == 0 {
        assert(a + b =~= a);
    } else {
        assert((a + b).drop_last() =~= a + b.drop_last());
        lemma_apply_append(c, a, b.drop_last());
    }
}

proof fn lemma_four_ops(c: Controller, a: PageOp, b: PageOp, d: PageOp, e: PageOp)
    ensures
        apply_all(c, seq![a, b, d, e]) == apply(apply(apply(apply(c, a), b), d), e),
{
    reveal_with_fuel(apply_all, 5);
    let ops = seq![a, b, d, e];
    assert(ops.drop_last() =~= seq![a, b, d]);
    assert(seq![a, b, d].drop_last() =~= seq![a, b]);
    assert(seq![a, b].drop_last() =~= seq![a]);
    assert(seq![a].drop_last() =~= Seq::<PageOp>::empty());
}

/// The operations of a page write leave the page holding exactly what was
/// asked for, whatever it and the page buffer held before.
pub proof fn a_page_write_leaves_the_page(c: Controller, words: Seq<u32>, quads: nat)
    requires
        words.len() == PAGE_WORDS,
        c.page.len() == PAGE_WORDS,
        c.buffer.len() == PAGE_WORDS,
        quads <= PAGE_QUADS,
    ensures
        ({
            let after = apply_all(c, write_ops(words, quads));
            &&& after.page.len() == PAGE_WORDS
            &&& after.buffer.len() == PAGE_WORDS
            &&& forall|i: int|
                0 <= i < PAGE_WORDS ==> #[trigger] after.page[i] == (if i < 4 * quads {
                    words[i]
                } else {
                    0xFFFF_FFFFu32
                })
            &&& quads == PAGE_QUADS ==> after.page == words
        }),
    decreases quads,
{
    let after = apply_all(c, write_ops(words, quads));
    if quads == 0 {
        reveal_with_fuel(apply_all, 3);
        let ops = write_ops(words, 0);
        assert(ops.drop_last() =~= seq![ops[0]]);
        assert(ops.drop_last().drop_last() =~= Seq::<PageOp>::empty());
    } else {
        let q = quads - 1;
        a_page_write_leaves_the_page(c, words, q as nat);
        let mid = apply_all(c, write_ops(words, q as nat));
        let step = quad_ops(words, q);
        lemma_apply_append(c, write_ops(words, q as nat), step);
        let quad = words.subrange(4 * q, 4 * q + 4);
        assert(quad[0] == words[4 * q] && quad[1] == words[4 * q + 1] && quad[2] == words[4 * q + 2]
            && quad[3] == words[4 * q + 3]);
        if blank(quad) {
            assert(after == mid);
        } else {
            lemma_four_ops(mid, step[0], step[1], step[2], step[3]);
            assert(step =~= seq![step[0], step[1], step[2], step[3]]);
            let committed = apply(apply(apply(apply(mid, step[0]), step[1]), step[2]), step[3]);
            let (a, b, d, e) = (
                words[4 * q],
                words[4 * q + 1],
                words[4 * q + 2],
                words[4 * q + 3],
            );
            assert(0xFFFF_FFFFu32 & a == a && 0xFFFF_FFFFu32 & b == b && 0xFFFF_FFFFu32 & d == d
                && 0xFFFF_FFFFu32 & e == e) by (bit_vector);
            assert forall|i: int| 0 <= i < 128 implies #[trigger] committed.page[i] == (if i < 4
                * quads {
                words[i]
            } else {
                0xFFFF_FFFFu32
            }) by {
                if i / 4 == q {
                    assert(i == 4 * q || i == 4 * q + 1 || i == 4 * q + 2 || i == 4 * q + 3);
                }
            }
        }
    }
    if quads == PAGE_QUADS {
        assert(after.page =~= words);
    }
}

/// A part provisioned for a layout passes the bootloader's BOOTPROT check
/// for that layout.
pub proof fn a_provisioned_part_is_accepted(
    before: Seq<u32>,
    req: Fuses,
    regions: u32,
    layout: crate::consts::Layout,
    live: crate::boot::LiveFuses,
)
    requires
        before.len() == PAGE_WORDS,
        layout.wf(),
        req.boot_size == layout.boot_size,
        req.see_sblk matches Some(s) ==> s <= 10,
        live.bootprot == bootprot_in(planned(before, req, regions)[0]),
    ensures
        crate::boot::config_error(layout, live) != Some(
            crate::boot::BootConfigError::BootprotMisconfigured,
        ),
{
    a_plan_changes_only_what_was_asked_for(before, req, regions);
}

} // verus!
