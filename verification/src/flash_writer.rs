//! Streaming writer for the inactive slot.
//!
//! [`words`] and [`pages`] re-chunk an image (little-endian words,
//! 0xFF-padded tails, a page only exists once a real byte arrived);
//! [`FlashWriter::write`] turns the pages into NVM operations, the first
//! page of each 16-page block erasing it ahead so no separate erase pass is
//! needed. Only whole pages are ever written, so a write that stops early
//! stops on a page boundary. [`Stream`] does the same for an image that
//! arrives a page at a time and is never held whole.
//!
//! Carrying the operations out is the firmware's business. What they make of
//! flash is stated by [`apply`] and proved at the end of this module.

use vstd::prelude::*;

pub mod laws;

use crate::consts::{ERASED, PAGES_PER_BLOCK, PAGE_SIZE};

verus! {

/// One flash page.
pub type Page = [u32; 128];

/// What the NVM controller, or the driver in front of it, refused an erase
/// or program command for.
#[derive(Clone, Copy, PartialEq, Eq, Structural, Debug)]
pub enum NvmError {
    /// Address range outside of flash.
    NonFlash,
    /// Target sector is protected.
    Protected,
    /// Memory region is used by SmartEEPROM.
    SmartEepromArea,
    /// The controller reported a fault.
    Peripheral,
    /// The DSU failed in some way.
    Dsu,
    /// An alignment requirement was not fulfilled.
    Alignment,
    /// A fault the driver has no name for here.
    Other,
}

/// A failure while writing an image into the inactive slot.
#[derive(Clone, Copy, PartialEq, Eq, Structural, Debug)]
pub enum FlashError {
    /// An erase or program command failed.
    Nvm(NvmError),
    /// The image ran past the end of the destination region: the inactive
    /// slot's application area, less the live SmartEEPROM reserve.
    ImageTooLarge,
}

impl From<NvmError> for FlashError {
    fn from(e: NvmError) -> (r: FlashError) {
        FlashError::Nvm(e)
    }
}

impl vstd::std_specs::convert::FromSpecImpl<NvmError> for FlashError {
    open spec fn obeys_from_spec() -> bool {
        true
    }

    open spec fn from_spec(e: NvmError) -> FlashError {
        FlashError::Nvm(e)
    }
}

/// One NVM operation.
#[derive(Clone, Copy, PartialEq, Eq, Debug)]
pub enum FlashOp {
    /// Erase the block at `addr`.
    EraseBlock { addr: usize },
    /// Program the page at `addr`.
    WritePage { addr: usize, page: Page },
}

// ── Definition ──────────────────────────────────────────────────────────

/// Byte `k` of an image, or the erased byte behind its end.
pub open spec fn byte_or_erased(image: Seq<u8>, k: int) -> u8 {
    if k < image.len() {
        image[k]
    } else {
        0xFF
    }
}

/// Word `i` of an image.
pub open spec fn word_of(image: Seq<u8>, i: int) -> u32 {
    (byte_or_erased(image, 4 * i) as u32) | ((byte_or_erased(image, 4 * i + 1) as u32) << 8) | ((
    byte_or_erased(image, 4 * i + 2) as u32) << 16) | ((byte_or_erased(image, 4 * i + 3) as u32)
        << 24)
}

/// The words of an image: as many as its bytes start.
pub open spec fn words_of(image: Seq<u8>) -> Seq<u32> {
    Seq::new(((image.len() + 3) / 4) as nat, |i: int| word_of(image, i))
}

/// Page `i` of a word stream.
pub open spec fn page_of(words: Seq<u32>, i: int) -> Seq<u32> {
    Seq::new(
        128,
        |j: int|
            if 128 * i + j < words.len() {
                words[128 * i + j]
            } else {
                ERASED
            },
    )
}

/// The pages of a word stream: as many as its words start.
pub open spec fn pages_of(words: Seq<u32>) -> Seq<Seq<u32>> {
    Seq::new(((words.len() + 127) / 128) as nat, |i: int| page_of(words, i))
}

/// The contents of pages.
pub open spec fn page_views(pages: Seq<Page>) -> Seq<Seq<u32>> {
    Seq::new(pages.len(), |i: int| pages[i]@)
}

/// Byte `k` of a page.
pub open spec fn page_byte(page: Seq<u32>, k: int) -> u8 {
    crate::bytes::le32(page[k / 4])[k % 4]
}

/// The operations page `index` takes: erase its block ahead if it is the
/// first of one, then program it.
pub open spec fn page_ops(begin: int, index: int, page: Page) -> Seq<FlashOp> {
    let addr = (begin + index * PAGE_SIZE) as usize;
    if index % PAGES_PER_BLOCK as int == 0 {
        seq![FlashOp::EraseBlock { addr }, FlashOp::WritePage { addr, page }]
    } else {
        seq![FlashOp::WritePage { addr, page }]
    }
}

/// The operations the first `n` pages take.
pub open spec fn ops_of(begin: int, pages: Seq<Page>, n: nat) -> Seq<FlashOp>
    decreases n,
{
    if n == 0 {
        Seq::empty()
    } else {
        ops_of(begin, pages, (n - 1) as nat) + page_ops(begin, n - 1, pages[n - 1])
    }
}

/// Flash after one operation: an erase sets a block to ones, a program
/// clears the bits that are zero in the page.
pub open spec fn apply(flash: Seq<u8>, op: FlashOp) -> Seq<u8> {
    match op {
        FlashOp::EraseBlock { addr } => Seq::new(
            flash.len(),
            |a: int|
                if addr <= a < addr + 8192 {
                    0xFF
                } else {
                    flash[a]
                },
        ),
        FlashOp::WritePage { addr, page } => Seq::new(
            flash.len(),
            |a: int|
                if addr <= a < addr + 512 {
                    flash[a] & page_byte(page@, a - addr)
                } else {
                    flash[a]
                },
        ),
    }
}

/// Flash after some operations, in order.
pub open spec fn apply_all(flash: Seq<u8>, ops: Seq<FlashOp>) -> Seq<u8>
    decreases ops.len(),
{
    if ops.len() == 0 {
        flash
    } else {
        apply(apply_all(flash, ops.drop_last()), ops.last())
    }
}

// ── Functions ───────────────────────────────────────────────────────────

/// Re-chunk an image into little-endian words, 0xFF-padding a short tail.
pub fn words(bytes: &[u8]) -> (words: Vec<u32>)
    ensures
        words@ == words_of(bytes@),
{
    let len: usize = bytes.len();
    let mut words: Vec<u32> = Vec::new();
    let mut i: usize = 0;
    while i < len
        invariant
            len == bytes@.len(),
            i <= len + 3,
            i == 4 * words@.len(),
            words@ == Seq::new(words@.len(), |k: int| word_of(bytes@, k)),
        decreases len + 3 - i,
    {
        let left: usize = len - i;
        let b0: u32 = bytes[i] as u32;
        let b1: u32 = if left > 1 {
            bytes[i + 1] as u32
        } else {
            0xFF
        };
        let b2: u32 = if left > 2 {
            bytes[i + 2] as u32
        } else {
            0xFF
        };
        let b3: u32 = if left > 3 {
            bytes[i + 3] as u32
        } else {
            0xFF
        };
        let ghost before = words@;
        words.push(b0 | (b1 << 8) | (b2 << 16) | (b3 << 24));
        assert(words@ =~= Seq::new((before.len() + 1) as nat, |k: int| word_of(bytes@, k)));
        if left < 4 {
            assert(words@ =~= words_of(bytes@));
            return words;
        }
        i = i + 4;
    }
    assert(words@ =~= words_of(bytes@));
    words
}

/// Re-chunk words into whole pages, 0xFF-padding the last one.
pub fn pages(words: &[u32]) -> (pages: Vec<Page>)
    ensures
        page_views(pages@) == pages_of(words@),
{
    let len: usize = words.len();
    let mut pages: Vec<Page> = Vec::new();
    let mut i: usize = 0;
    while i < len
        invariant
            len == words@.len(),
            i <= len,
            i == 128 * pages@.len(),
            page_views(pages@) == Seq::new(pages@.len(), |k: int| page_of(words@, k)),
        decreases len - i,
    {
        let left: usize = len - i;
        let mut page: Page = [ERASED; 128];
        let mut j: usize = 0;
        while j < 128 && j < left
            invariant
                j <= 128,
                j <= left,
                left == len - i,
                len == words@.len(),
                i <= len,
                forall|k: int| 0 <= k < j ==> page@[k] == words@[i + k],
                forall|k: int| j <= k < 128 ==> page@[k] == ERASED,
            decreases 128 - j,
        {
            page[j] = words[i + j];
            j = j + 1;
        }
        let ghost before = pages@;
        assert(page@ =~= page_of(words@, before.len() as int));
        pages.push(page);
        assert(page_views(pages@) =~= page_views(before).push(page@));
        assert(page_views(pages@) =~= Seq::new(
            (before.len() + 1) as nat,
            |k: int| page_of(words@, k),
        ));
        if left <= 128 {
            assert(page_views(pages@) =~= pages_of(words@));
            return pages;
        }
        i = i + 128;
    }
    assert(page_views(pages@) =~= pages_of(words@));
    pages
}

/// Page-at-a-time writer for one flash region, erasing a block ahead of the
/// first page of each.
///
/// While its operations run the NVM cache has to be disabled (errata
/// 2.14.1).
#[derive(Clone, Copy, PartialEq, Eq, Structural, Debug)]
pub struct FlashWriter {
    pub begin: usize,
    pub end: usize,
}

impl FlashWriter {
    /// `begin` and `end` are block-aligned and addressable.
    pub open spec fn wf(self) -> bool {
        &&& self.begin % 8192 == 0
        &&& self.end % 8192 == 0
        &&& self.begin <= self.end
        &&& self.end + PAGE_SIZE <= usize::MAX
    }

    /// Page `index` ends inside the region.
    pub open spec fn fits(self, index: int) -> bool {
        self.begin + (index + 1) * PAGE_SIZE <= self.end
    }

    /// `begin` and `end` are absolute flash addresses, `end` exclusive. Both
    /// must be block-aligned: the erase-ahead erases a whole block at a time
    /// and is not bounded by `end`, so an `end` inside a block destroys the
    /// rest of that block as well. `begin..end` must be valid to erase and
    /// program and must hold no currently executing code; the erase-ahead
    /// destroys it.
    pub fn new(begin: usize, end: usize) -> (writer: FlashWriter)
        requires
            begin % 8192 == 0,
            end % 8192 == 0,
            begin <= end,
            end + PAGE_SIZE <= usize::MAX,
        ensures
            writer == (FlashWriter { begin, end }),
            writer.wf(),
    {
        FlashWriter { begin, end }
    }

    /// The operations page `index` takes, or `ImageTooLarge` if it ends past
    /// the region.
    pub fn write_page(&self, index: usize, page: &Page) -> (r: Result<Vec<FlashOp>, FlashError>)
        requires
            self.wf(),
            self.begin + index * PAGE_SIZE <= self.end,
        ensures
            r is Ok <==> self.fits(index as int),
            r matches Ok(ops) ==> ops@ == page_ops(self.begin as int, index as int, *page),
            r matches Err(e) ==> e == FlashError::ImageTooLarge,
    {
        let addr: usize = self.begin + index * PAGE_SIZE;
        if addr + PAGE_SIZE > self.end {
            return Err(FlashError::ImageTooLarge);
        }
        let mut ops: Vec<FlashOp> = Vec::new();
        // A block is 16 pages: the first page of each erases it ahead.
        if index % PAGES_PER_BLOCK == 0 {
            ops.push(FlashOp::EraseBlock { addr });
        }
        ops.push(FlashOp::WritePage { addr, page: *page });
        assert(ops@ =~= page_ops(self.begin as int, index as int, *page));
        Ok(ops)
    }

    /// The operations a page stream takes, up to the first page that does
    /// not fit, and whether there was one.
    pub fn write(&self, pages: &[Page]) -> (r: (Vec<FlashOp>, Result<(), FlashError>))
        requires
            self.wf(),
        ensures
            r.1 matches Err(e) ==> e == FlashError::ImageTooLarge,
            r.1 is Ok <==> self.begin + pages@.len() * PAGE_SIZE <= self.end,
            r.1 is Ok ==> r.0@ == ops_of(self.begin as int, pages@, pages@.len()),
            r.1 is Err ==> r.0@ == ops_of(
                self.begin as int,
                pages@,
                ((self.end - self.begin) / PAGE_SIZE as int) as nat,
            ),
    {
        let mut ops: Vec<FlashOp> = Vec::new();
        let mut i: usize = 0;
        while i < pages.len()
            invariant
                self.wf(),
                i <= pages@.len(),
                self.begin + i * PAGE_SIZE <= self.end,
                ops@ == ops_of(self.begin as int, pages@, i as nat),
            decreases pages@.len() - i,
        {
            match self.write_page(i, &pages[i]) {
                Ok(step) => {
                    let mut step: Vec<FlashOp> = step;
                    ops.append(&mut step);
                },
                Err(e) => {
                    assert(i == (self.end - self.begin) / PAGE_SIZE as int);
                    return (ops, Err(e));
                },
            }
            i = i + 1;
        }
        (ops, Ok(()))
    }
}

/// An image being written through a single page buffer.
///
/// Feed it the image a page's worth at a time, with [`Stream::take`], and
/// carry the operations out; one that fails goes to [`Stream::fail`]. It
/// ends with the first chunk of no bytes or the first error.
#[derive(Clone, Copy, PartialEq, Eq, Debug)]
pub struct Stream {
    pub writer: FlashWriter,
    /// The page that comes next.
    pub index: usize,
    /// Bytes the source has given so far.
    pub delivered: usize,
    /// How it ended, once it has.
    pub outcome: Option<Result<(), FlashError>>,
}

impl Stream {
    /// Every page so far lies inside the region and was given some bytes.
    pub open spec fn wf(self) -> bool {
        &&& self.writer.wf()
        &&& self.writer.begin + self.index * PAGE_SIZE <= self.writer.end
        &&& self.delivered <= self.index * PAGE_SIZE + PAGE_SIZE
        &&& self.outcome is None ==> self.delivered <= self.index * PAGE_SIZE
    }

    /// What a chunk of the image leads to.
    pub open spec fn takes(self, chunk: Seq<u8>, post: Stream, ops: Seq<FlashOp>) -> bool {
        &&& post.writer == self.writer
        &&& post.delivered == self.delivered + chunk.len()
        &&& if chunk.len() == 0 {
            &&& post.outcome == Some(Ok::<(), FlashError>(()))
            &&& post.index == self.index
            &&& ops == Seq::<FlashOp>::empty()
        } else if !self.writer.fits(self.index as int) {
            &&& post.outcome == Some(Err::<(), FlashError>(FlashError::ImageTooLarge))
            &&& post.index == self.index
            &&& ops == Seq::<FlashOp>::empty()
        } else {
            &&& post.outcome is None
            &&& post.index == self.index + 1
            &&& exists|page: Page|
                {
                    &&& page@ == pages_of(words_of(chunk))[0]
                    &&& ops == #[trigger] page_ops(
                        self.writer.begin as int,
                        self.index as int,
                        page,
                    )
                }
        }
    }

    /// Start at the first page of a region.
    pub fn new(writer: FlashWriter) -> (stream: Stream)
        requires
            writer.wf(),
        ensures
            stream == (Stream { writer, index: 0, delivered: 0, outcome: None }),
            stream.wf(),
    {
        Stream { writer, index: 0, delivered: 0, outcome: None }
    }

    /// Take the next page's worth of the image, less only at its end, and
    /// say what to do to flash for it.
    pub fn take(&mut self, chunk: &[u8]) -> (ops: Vec<FlashOp>)
        requires
            old(self).wf(),
            old(self).outcome is None,
            chunk@.len() <= PAGE_SIZE,
        ensures
            final(self).wf(),
            old(self).takes(chunk@, *final(self), ops@),
    {
        self.delivered = self.delivered + chunk.len();
        if chunk.len() == 0 {
            self.outcome = Some(Ok(()));
            return Vec::new();
        }
        let words: Vec<u32> = words(chunk);
        let image: Vec<Page> = pages(words.as_slice());
        proof {
            assert(page_views(image@).len() == image@.len());
            assert(page_views(image@)[0] == image@[0]@);
        }
        match self.writer.write_page(self.index, &image[0]) {
            Ok(ops) => {
                self.index = self.index + 1;
                ops
            },
            Err(e) => {
                self.outcome = Some(Err(e));
                Vec::new()
            },
        }
    }

    /// An operation failed: nothing more is written.
    pub fn fail(&mut self, e: FlashError)
        requires
            old(self).wf(),
            old(self).outcome is None,
        ensures
            final(self).wf(),
            *final(self) == (Stream { outcome: Some(Err(e)), ..*old(self) }),
    {
        self.outcome = Some(Err(e));
    }
}

// ── Laws ────────────────────────────────────────────────────────────────

proof fn lemma_apply_append(flash: Seq<u8>, a: Seq<FlashOp>, b: Seq<FlashOp>)
    ensures
        apply_all(flash, a + b) == apply_all(apply_all(flash, a), b),
    decreases b.len(),
{
    if b.len() == 0 {
        assert(a + b =~= a);
    } else {
        assert((a + b).drop_last() =~= a + b.drop_last());
        lemma_apply_append(flash, a, b.drop_last());
    }
}

/// Flash after one page: its block erased first if it opens one, its bytes
/// programmed, everything else as it was.
proof fn lemma_one_page(flash: Seq<u8>, begin: int, index: int, page: Page)
    requires
        0 <= begin,
        0 <= index,
        begin + index * 512 <= usize::MAX,
    ensures
        ({
            let addr = begin + index * 512;
            let after = apply_all(flash, page_ops(begin, index, page));
            &&& after.len() == flash.len()
            &&& forall|a: int|
                0 <= a < flash.len() ==> #[trigger] after[a] == {
                    let base = if index % 16 == 0 && addr <= a < addr + 8192 {
                        0xFFu8
                    } else {
                        flash[a]
                    };
                    if addr <= a < addr + 512 {
                        base & page_byte(page@, a - addr)
                    } else {
                        base
                    }
                }
        }),
{
    reveal_with_fuel(apply_all, 3);
    let ops = page_ops(begin, index, page);
    if index % 16 == 0 {
        assert(ops.drop_last() =~= seq![ops[0]]);
        assert(ops.drop_last().drop_last() =~= Seq::<FlashOp>::empty());
    } else {
        assert(ops.drop_last() =~= Seq::<FlashOp>::empty());
    }
}

/// The first `n` pages written from `begin` on: each page holds its bytes,
/// the rest of the last erased block reads erased, and nothing else is
/// touched.
pub proof fn written_pages_are_what_flash_holds(
    flash: Seq<u8>,
    begin: int,
    pages: Seq<Page>,
    n: nat,
    a: int,
)
    requires
        0 <= begin,
        n <= pages.len(),
        begin + n * 512 <= usize::MAX,
        0 <= a < flash.len(),
    ensures
        apply_all(flash, ops_of(begin, pages, n)).len() == flash.len(),
        apply_all(flash, ops_of(begin, pages, n))[a] == (if begin <= a < begin + n * 512 {
            page_byte(pages[(a - begin) / 512]@, (a - begin) % 512)
        } else if begin <= a < begin + ((n + 15) / 16) * 8192 {
            0xFF
        } else {
            flash[a]
        }),
    decreases n,
{
    if n > 0 {
        let m = (n - 1) as nat;
        written_pages_are_what_flash_holds(flash, begin, pages, m, a);
        let prior = ops_of(begin, pages, m);
        lemma_apply_append(flash, prior, page_ops(begin, m as int, pages[m as int]));
        let mid = apply_all(flash, prior);
        lemma_one_page(mid, begin, m as int, pages[m as int]);
        let after = apply_all(flash, ops_of(begin, pages, n));
        let addr = begin + m * 512;
        let block = m as int / 16;
        if m % 16 == 0 {
            assert((m + 15) / 16 == block && (n + 15) / 16 == block + 1 && addr == begin + block
                * 8192);
        } else {
            assert((m + 15) / 16 == block + 1 && (n + 15) / 16 == block + 1 && addr + 512 <= begin
                + (block + 1) * 8192);
        }
        if addr <= a < addr + 512 {
            let b = page_byte(pages[m as int]@, a - addr);
            assert(after[a] == 0xFFu8 & b);
            assert(0xFFu8 & b == b) by (bit_vector);
            assert((a - begin) / 512 == m && (a - begin) % 512 == a - addr);
        } else if addr <= a < begin + (block + 1) * 8192 {
            assert(after[a] == 0xFF);
        } else {
            assert(after[a] == mid[a]);
        }
    }
}

/// Byte `k` of the pages of an image is byte `k` of the image, or the erased
/// byte behind its end.
pub proof fn pages_carry_the_image(image: Seq<u8>, k: int)
    requires
        0 <= k < pages_of(words_of(image)).len() * 512,
    ensures
        page_byte(pages_of(words_of(image))[k / 512], k % 512) == byte_or_erased(image, k),
{
    let words = words_of(image);
    let page = page_of(words, k / 512);
    let i = k / 4;
    let q = k % 4;
    assert(128 * (k / 512) + (k % 512) / 4 == i);
    assert((k % 512) % 4 == q);
    let w = page[(k % 512) / 4];
    let (b0, b1, b2, b3) = (
        byte_or_erased(image, 4 * i),
        byte_or_erased(image, 4 * i + 1),
        byte_or_erased(image, 4 * i + 2),
        byte_or_erased(image, 4 * i + 3),
    );
    if i < words.len() {
        assert(w == word_of(image, i));
    } else {
        assert(4 * i >= image.len());
        assert(ERASED == (0xFFu32 | (0xFFu32 << 8) | (0xFFu32 << 16) | (0xFFu32 << 24)))
            by (bit_vector);
        assert(w == word_of(image, i));
    }
    assert((w & 0xFF) as u8 == b0 && ((w >> 8) & 0xFF) as u8 == b1 && ((w >> 16) & 0xFF) as u8 == b2
        && ((w >> 24) & 0xFF) as u8 == b3) by (bit_vector)
        requires
            w == (b0 as u32) | ((b1 as u32) << 8) | ((b2 as u32) << 16) | ((b3 as u32) << 24),
    ;
}

/// An image that fits is what the region holds once its operations have been
/// carried out, erased behind its end up to the end of the last page, and
/// nothing outside the region has been touched.
pub proof fn a_written_image_is_what_the_region_holds(
    flash: Seq<u8>,
    writer: FlashWriter,
    image: Seq<u8>,
    pages: Seq<Page>,
    a: int,
)
    requires
        writer.wf(),
        writer.end <= flash.len(),
        page_views(pages) == pages_of(words_of(image)),
        writer.begin + pages.len() * PAGE_SIZE <= writer.end,
        0 <= a < flash.len(),
    ensures
        ({
            let after = apply_all(flash, ops_of(writer.begin as int, pages, pages.len()));
            &&& after.len() == flash.len()
            &&& writer.begin <= a < writer.begin + pages.len() * PAGE_SIZE ==> after[a]
                == byte_or_erased(image, a - writer.begin)
            &&& !(writer.begin <= a < writer.end) ==> after[a] == flash[a]
        }),
{
    let begin = writer.begin as int;
    let n = pages.len();
    written_pages_are_what_flash_holds(flash, begin, pages, n, a);
    assert(n == pages_of(words_of(image)).len()) by {
        assert(page_views(pages).len() == n);
    }
    if begin <= a < begin + n * 512 {
        let k = a - begin;
        pages_carry_the_image(image, k);
        assert(page_views(pages)[k / 512] == pages[k / 512]@);
    }
    assert(((n + 15) / 16) * 8192 <= writer.end - begin) by {
        assert(n * 512 <= writer.end - begin);
        assert((writer.end - begin) % 8192 == 0);
    }
}

/// An image that does not fit is stopped at the last page that does: nothing
/// past the region is touched.
pub proof fn an_oversized_image_stays_inside_the_region(
    flash: Seq<u8>,
    writer: FlashWriter,
    pages: Seq<Page>,
    a: int,
)
    requires
        writer.wf(),
        writer.begin + pages.len() * PAGE_SIZE > writer.end,
        0 <= a < flash.len(),
        !(writer.begin <= a < writer.end),
    ensures
        apply_all(
            flash,
            ops_of(
                writer.begin as int,
                pages,
                ((writer.end - writer.begin) / PAGE_SIZE as int) as nat,
            ),
        )[a] == flash[a],
{
    let begin = writer.begin as int;
    let n = ((writer.end - begin) / 512) as nat;
    written_pages_are_what_flash_holds(flash, begin, pages, n, a);
    assert((writer.end - begin) % 8192 == 0);
}

/// However far a write gets, it touches nothing below its region: whichever
/// operation it is cut off after, every byte below is as it was.
pub proof fn an_interrupted_write_touches_nothing_below(
    flash: Seq<u8>,
    begin: int,
    pages: Seq<Page>,
    n: nat,
    done: int,
    a: int,
)
    requires
        n <= pages.len(),
        begin + n * 512 <= usize::MAX,
        0 <= done <= ops_of(begin, pages, n).len(),
        0 <= a < begin,
        a < flash.len(),
    ensures
        apply_all(flash, ops_of(begin, pages, n).take(done)).len() == flash.len(),
        apply_all(flash, ops_of(begin, pages, n).take(done))[a] == flash[a],
    decreases done,
{
    if done > 0 {
        let ops = ops_of(begin, pages, n);
        an_interrupted_write_touches_nothing_below(flash, begin, pages, n, done - 1, a);
        assert(ops.take(done).drop_last() =~= ops.take(done - 1));
        no_operation_leaves_its_blocks(begin, pages, n, done - 1);
    }
}

/// Every operation stays inside the blocks that the pages start.
pub proof fn no_operation_leaves_its_blocks(begin: int, pages: Seq<Page>, n: nat, i: int)
    requires
        0 <= begin,
        n <= pages.len(),
        begin + n * 512 <= usize::MAX,
        0 <= i < ops_of(begin, pages, n).len(),
    ensures
        match ops_of(begin, pages, n)[i] {
            FlashOp::EraseBlock { addr } => begin <= addr && addr + 8192 <= begin + ((n + 15) / 16)
                * 8192,
            FlashOp::WritePage { addr, page: _ } => begin <= addr && addr + 512 <= begin + n * 512,
        },
    decreases n,
{
    if n > 0 {
        let prior = ops_of(begin, pages, (n - 1) as nat);
        if i < prior.len() {
            no_operation_leaves_its_blocks(begin, pages, (n - 1) as nat, i);
        }
    }
}

/// The bytes of page `i` of an image, fewer than a page's worth at its end
/// and none behind it.
pub open spec fn chunk_of(image: Seq<u8>, i: int) -> Seq<u8> {
    image.subrange(reached(image, i), reached(image, i + 1))
}

/// How many bytes of an image its first `n` pages hold.
pub open spec fn reached(image: Seq<u8>, n: int) -> int {
    if 512 * n <= image.len() {
        512 * n
    } else {
        image.len() as int
    }
}

/// An image can be written through a single page buffer: it has a page for
/// every 512 bytes it starts, and each page is the one page its own bytes
/// make, whatever comes before or after them.
pub proof fn a_page_needs_its_own_bytes_only(image: Seq<u8>, i: int)
    requires
        0 <= i < pages_of(words_of(image)).len(),
    ensures
        pages_of(words_of(image)).len() == (image.len() + 511) / 512,
        0 < chunk_of(image, i).len() <= 512,
        pages_of(words_of(chunk_of(image, i))).len() == 1,
        pages_of(words_of(chunk_of(image, i)))[0] == pages_of(words_of(image))[i],
{
    let chunk = chunk_of(image, i);
    let whole = words_of(image);
    let part = words_of(chunk);
    assert forall|j: int| 0 <= j < 128 implies page_of(part, 0)[j] == page_of(whole, i)[j] by {
        assert(j < part.len() <==> 128 * i + j < whole.len());
        assert(forall|k: int|
            0 <= k < 512 ==> byte_or_erased(chunk, k) == #[trigger] byte_or_erased(
                image,
                512 * i + k,
            ));
        if j < part.len() {
            assert(byte_or_erased(image, 512 * i + 4 * j) == byte_or_erased(chunk, 4 * j));
            assert(byte_or_erased(image, 512 * i + (4 * j + 1)) == byte_or_erased(chunk, 4 * j + 1));
            assert(byte_or_erased(image, 512 * i + (4 * j + 2)) == byte_or_erased(chunk, 4 * j + 2));
            assert(byte_or_erased(image, 512 * i + (4 * j + 3)) == byte_or_erased(chunk, 4 * j + 3));
            assert(word_of(chunk, j) == word_of(image, 128 * i + j));
        }
    }
    assert(page_of(part, 0) =~= page_of(whole, i));
}

/// Lists of operations, one after the other.
pub open spec fn in_order(lists: Seq<Seq<FlashOp>>) -> Seq<FlashOp>
    decreases lists.len(),
{
    if lists.len() == 0 {
        Seq::empty()
    } else {
        in_order(lists.drop_last()) + lists.last()
    }
}

/// The stream was fed an image from its first byte on, and has passed
/// through these states and asked for these operations.
pub open spec fn fed(image: Seq<u8>, states: Seq<Stream>, lists: Seq<Seq<FlashOp>>) -> bool {
    &&& states.len() == lists.len() + 1
    &&& states[0] == Stream {
        writer: states[0].writer,
        index: 0,
        delivered: 0,
        outcome: None,
    }
    &&& states[0].wf()
    &&& forall|k: int|
        0 <= k < lists.len() ==> (#[trigger] states[k]).outcome is None && states[k].takes(
            chunk_of(image, k),
            states[k + 1],
            lists[k],
        )
}

/// What `n` chunks of an image have come to: the operations of the pages so
/// far, of all pages, or of those that fit.
pub open spec fn comes_to(
    image: Seq<u8>,
    pages: Seq<Page>,
    n: nat,
    last: Stream,
    ops: Seq<FlashOp>,
) -> bool {
    let begin = last.writer.begin as int;
    let end = last.writer.end as int;
    match last.outcome {
        None => {
            &&& last.index == n <= pages.len()
            &&& begin + n * PAGE_SIZE <= end
            &&& last.delivered == reached(image, n as int)
            &&& ops == ops_of(begin, pages, n)
        },
        Some(Ok(_)) => {
            &&& begin + pages.len() * PAGE_SIZE <= end
            &&& last.delivered == image.len()
            &&& ops == ops_of(begin, pages, pages.len())
        },
        Some(Err(e)) => {
            &&& e == FlashError::ImageTooLarge
            &&& begin + pages.len() * PAGE_SIZE > end
            &&& ops == ops_of(begin, pages, ((end - begin) / PAGE_SIZE as int) as nat)
        },
    }
}

/// Streaming an image comes to what [`FlashWriter::write`] makes of it
/// whole: the same operations in the same order, and the same end, once
/// every byte has been delivered or a page does not fit.
pub proof fn a_stream_is_the_whole_write(
    image: Seq<u8>,
    pages: Seq<Page>,
    states: Seq<Stream>,
    lists: Seq<Seq<FlashOp>>,
)
    requires
        fed(image, states, lists),
        page_views(pages) == pages_of(words_of(image)),
    ensures
        states.last().writer == states[0].writer,
        comes_to(image, pages, lists.len(), states.last(), in_order(lists)),
    decreases lists.len(),
{
    let n = lists.len();
    if n > 0 {
        assert(states[n - 1].outcome is None);
        assert(fed(image, states.drop_last(), lists.drop_last())) by {
            assert forall|k: int| 0 <= k < n - 1 implies (
            #[trigger] states.drop_last()[k]).outcome is None && states.drop_last()[k].takes(
                chunk_of(image, k),
                states.drop_last()[k + 1],
                lists.drop_last()[k],
            ) by {
                assert(states[k].outcome is None);
            }
        }
        a_stream_is_the_whole_write(image, pages, states.drop_last(), lists.drop_last());
        lemma_one_chunk(
            image,
            pages,
            (n - 1) as nat,
            states[n - 1],
            states[n as int],
            in_order(lists.drop_last()),
            lists[n - 1],
        );
    }
}

proof fn lemma_one_chunk(
    image: Seq<u8>,
    pages: Seq<Page>,
    n: nat,
    before: Stream,
    after: Stream,
    ops: Seq<FlashOp>,
    step: Seq<FlashOp>,
)
    requires
        page_views(pages) == pages_of(words_of(image)),
        before.outcome is None,
        comes_to(image, pages, n, before, ops),
        before.takes(chunk_of(image, n as int), after, step),
    ensures
        comes_to(image, pages, n + 1, after, ops + step),
{
    let begin = before.writer.begin as int;
    let chunk = chunk_of(image, n as int);
    assert(page_views(pages).len() == pages.len());
    assert(pages.len() == (image.len() + 511) / 512);
    assert(chunk.len() == reached(image, 1 + n as int) - reached(image, n as int));
    if chunk.len() == 0 {
        assert(n == pages.len());
        assert(ops + step =~= ops);
    } else {
        assert(n < pages.len());
        if before.writer.fits(n as int) {
            a_page_needs_its_own_bytes_only(image, n as int);
            let page = choose|page: Page|
                page@ == pages_of(words_of(chunk))[0] && step == #[trigger] page_ops(
                    begin,
                    n as int,
                    page,
                );
            assert(page_views(pages)[n as int] == pages[n as int]@);
            assert(page =~= pages[n as int]);
        } else {
            assert(ops + step =~= ops);
            assert(n == (before.writer.end - begin) / 512);
        }
    }
}

/// Nothing is written, and nothing erased, for an image of no bytes.
pub proof fn an_empty_image_touches_nothing(begin: int, pages: Seq<Page>)
    requires
        page_views(pages) == pages_of(words_of(Seq::<u8>::empty())),
    ensures
        ops_of(begin, pages, pages.len()) == Seq::<FlashOp>::empty(),
{
    assert(page_views(pages).len() == 0);
}

} // verus!
