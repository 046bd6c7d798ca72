//! How an image is cut up, and what each page takes.

use vstd::prelude::*;

use crate::flash_writer::{
    pages, words, FlashError, FlashOp, FlashWriter, Page, Stream,
};

verus! {

/// The byte at `k`, or an erased one past the end.
pub open spec fn filled(s: Seq<u8>, k: int) -> int {
    if k < s.len() {
        s[k] as int
    } else {
        255
    }
}

/// Four bytes make a word, the first the least; a last word that is short is
/// filled up with erased bytes.
pub proof fn four_bytes_make_a_word(bytes: &[u8], w: Vec<u32>, i: int)
    requires
        call_ensures(words, (bytes,), w),
    ensures
        4 * w@.len() >= bytes@.len(),
        4 * w@.len() < bytes@.len() + 4,
        0 <= i < w@.len() ==> w@[i] == filled(bytes@, 4 * i) + 256 * filled(bytes@, 4 * i + 1)
            + 65536 * filled(bytes@, 4 * i + 2) + 16777216 * filled(bytes@, 4 * i + 3),
{
    let s = Seq::new(
        (bytes@.len() + 4) as nat,
        |k: int| crate::flash_writer::byte_or_erased(bytes@, k),
    );
    if 0 <= i < w@.len() {
        crate::bytes::fields_are_little_endian(s, 4 * i, 0, 0);
        assert(crate::bytes::u32_at(s, 4 * i) == crate::flash_writer::word_of(bytes@, i));
    }
}

/// 128 words make a page; a last page that is short is filled up with erased
/// words.
pub proof fn words_make_pages(w: &[u32], p: Vec<Page>, i: int, j: int)
    requires
        call_ensures(pages, (w,), p),
    ensures
        128 * p@.len() >= w@.len(),
        128 * p@.len() < w@.len() + 128,
        0 <= i < p@.len() && 0 <= j < 128 ==> p@[i]@[j] == (if 128 * i + j < w@.len() {
            w@[128 * i + j]
        } else {
            0xFFFF_FFFF
        }),
{
    let views = crate::flash_writer::page_views(p@);
    assert(views.len() == p@.len());
    if 0 <= i < p@.len() && 0 <= j < 128 {
        assert(views[i] == p@[i]@);
        assert(views[i][j] == crate::flash_writer::page_of(w@, i)[j]);
    }
}

/// A page that ends inside the region is programmed in its place, behind an
/// erase of its block if it is the first of the sixteen in it; any other is
/// too much.
pub proof fn what_a_page_takes(
    writer: FlashWriter,
    index: usize,
    page: Page,
    r: Result<Vec<FlashOp>, FlashError>,
)
    requires
        writer.wf(),
        writer.begin + index * 512 <= writer.end,
        call_ensures(FlashWriter::write_page, (&writer, index, &page), r),
    ensures
        r is Ok <==> writer.begin + 512 * index + 512 <= writer.end,
        r is Err ==> r == Err::<Vec<FlashOp>, FlashError>(FlashError::ImageTooLarge),
        r matches Ok(ops) ==> {
            let addr = (writer.begin + 512 * index) as usize;
            &&& addr == writer.begin + 512 * index
            &&& ops@.len() == (if index % 16 == 0 {
                2int
            } else {
                1int
            })
            &&& ops@.last() == (FlashOp::WritePage { addr, page })
            &&& index % 16 == 0 ==> ops@[0] == (FlashOp::EraseBlock { addr })
        },
{
}

/// Pages are written exactly if they all end inside the region.
pub proof fn when_pages_fit(
    writer: FlashWriter,
    p: &[Page],
    r: (Vec<FlashOp>, Result<(), FlashError>),
)
    requires
        writer.wf(),
        call_ensures(FlashWriter::write, (&writer, p), r),
    ensures
        r.1 is Ok <==> writer.begin + 512 * p@.len() <= writer.end,
        r.1 is Err ==> r.1 == Err::<(), FlashError>(FlashError::ImageTooLarge),
{
}

/// A writer keeps to the region it was given.
pub proof fn a_writer_is_its_region(begin: usize, end: usize, writer: FlashWriter)
    requires
        begin % 8192 == 0,
        end % 8192 == 0,
        begin <= end,
        end + 512 <= usize::MAX,
        call_ensures(FlashWriter::new, (begin, end), writer),
    ensures
        writer.begin == begin,
        writer.end == end,
{
}

/// A stream ends well with the first empty chunk and badly with the first one
/// that does not fit, writing nothing for either. Any other chunk is one page,
/// filled up with erased words, in the next place; every byte counts as
/// delivered.
pub proof fn what_a_chunk_leads_to(
    stream: Stream,
    chunk: Seq<u8>,
    post: Stream,
    ops: Seq<FlashOp>,
)
    requires
        stream.wf(),
        stream.outcome is None,
        chunk.len() <= 512,
        stream.takes(chunk, post, ops),
    ensures
        ({
            let addr = stream.writer.begin + 512 * stream.index;
            let fits = addr + 512 <= stream.writer.end;
            &&& post.writer == stream.writer
            &&& post.delivered == stream.delivered + chunk.len()
            &&& chunk.len() == 0 || !fits ==> ops.len() == 0 && post.index == stream.index
            &&& chunk.len() == 0 <==> post.outcome == Some(Ok::<(), FlashError>(()))
            &&& chunk.len() > 0 && !fits <==> post.outcome == Some(
                Err::<(), FlashError>(FlashError::ImageTooLarge),
            )
            &&& chunk.len() > 0 && fits <==> post.outcome is None
            &&& chunk.len() > 0 && fits ==> {
                &&& post.index == stream.index + 1
                &&& ops.len() == (if stream.index % 16 == 0 {
                    2int
                } else {
                    1int
                })
                &&& stream.index % 16 == 0 ==> ops[0] == (FlashOp::EraseBlock {
                    addr: addr as usize,
                })
                &&& ops.last() matches FlashOp::WritePage { addr: at, page } && at == addr
                    && forall|k: int|
                    0 <= k < 512 ==> #[trigger] crate::flash_writer::page_byte(page@, k) == filled(
                        chunk,
                        k,
                    )
            }
        }),
{
    if chunk.len() > 0 && stream.writer.fits(stream.index as int) {
        let page = choose|page: Page|
            {
                &&& page@ == crate::flash_writer::pages_of(crate::flash_writer::words_of(chunk))[0]
                &&& ops == #[trigger] crate::flash_writer::page_ops(
                    stream.writer.begin as int,
                    stream.index as int,
                    page,
                )
            };
        assert(ops.last() == (FlashOp::WritePage {
            addr: (stream.writer.begin + 512 * stream.index) as usize,
            page,
        }));
        assert forall|k: int| 0 <= k < 512 implies #[trigger] crate::flash_writer::page_byte(
            page@,
            k,
        ) == filled(chunk, k) by {
            crate::flash_writer::pages_carry_the_image(chunk, k);
        }
    }
}

} // verus!
