//! What the RTT transport decides: where the device's control block is,
//! whether the one in hand is still the live one, and how its log comes out
//! in lines.
//!
//! Every reset hands the link from BOOT to the application or back, and
//! their control blocks are at different addresses. The firmware publishes
//! the address in a fixed backup-RAM slot, and the slot is single-use: the
//! host clears the magic once it has used the address, so a magic that is
//! present means firmware has come up and published since anyone last
//! looked.

use vstd::prelude::*;

pub mod laws;

use crate::consts::BKUPRAM_ADDR;
use crate::link_op::STORE_OFFSET;
use crate::persist::STORE_SIZE;
use crate::text::same;

verus! {

/// The slot comes right behind the boot record.
pub const RTT_POINTER_OFFSET: usize = STORE_OFFSET + STORE_SIZE;

pub const RTT_POINTER_ADDR: usize = BKUPRAM_ADDR + RTT_POINTER_OFFSET;

/// ASCII `rttp`.
pub const RTT_POINTER_MAGIC: u32 = 0x7274_7470;

/// Channel 0 up is the log terminal; the protocol has its own.
pub const LOG: usize = 0;

pub const UP: usize = 1;

pub const DOWN: usize = 0;

/// The address in the rig's backup-RAM slot, if it holds an unread one.
pub fn published_ptr(slot: [u32; 2]) -> (addr: Option<u64>)
    ensures
        addr == if slot@[0] == RTT_POINTER_MAGIC {
            Some(slot@[1] as u64)
        } else {
            None
        },
{
    if slot[0] == RTT_POINTER_MAGIC {
        Some(slot[1] as u64)
    } else {
        None
    }
}

/// What a control block starts with: ASCII `SEGGER RTT`.
pub open spec fn block_id() -> Seq<u8> {
    seq![83u8, 69u8, 71u8, 71u8, 69u8, 82u8, 32u8, 82u8, 84u8, 84u8]
}

/// Whether a control block still carries its ID. The image that comes up
/// after a reset zeroes it, so the ID going away is how a handover is
/// noticed.
pub fn block_is_live(id: &[u8]) -> (live: bool)
    ensures
        live == block_id().is_prefix_of(id@),
{
    let expected: [u8; 10] = [83, 69, 71, 71, 69, 82, 32, 82, 84, 84];
    assert(expected@ =~= block_id());
    if id.len() < 10 {
        return false;
    }
    let mut i: usize = 0;
    while i < 10
        invariant
            i <= 10,
            id@.len() >= 10,
            expected@ == block_id(),
            forall|j: int| 0 <= j < i ==> id@[j] == expected@[j],
        decreases 10 - i,
    {
        if id[i] != expected[i] {
            assert(id@.subrange(0, 10)[i as int] != expected@[i as int]);
            return false;
        }
        i = i + 1;
    }
    assert(id@.subrange(0, 10) =~= block_id());
    true
}

/// Whether a control block is the rig's: its protocol channel has the name
/// the firmware gives it, so attaching to some other firmware's block is an
/// error rather than a silent timeout.
pub fn is_rig_block(up_channels: &Vec<String>) -> (ours: bool)
    ensures
        ours == (up_channels@.len() > UP && up_channels@[UP as int]@ == "samd5-boot"@),
{
    up_channels.len() > UP && same(up_channels[UP].as_str(), "samd5-boot")
}

// ── Writing ─────────────────────────────────────────────────────────────

/// How a write into the target's ring stands.
#[derive(Clone, Copy, PartialEq, Eq, Structural, Debug)]
pub enum WriteStep {
    /// Everything is in the ring.
    Done,
    /// A short write means the target has not drained the ring yet, and
    /// trying again costs nothing.
    Again,
    /// The target stopped draining the ring.
    Stalled,
}

/// How a write stands once `n` of `left` bytes were taken. Only a write that
/// takes nothing can run out of time.
pub fn wrote(left: usize, n: usize, expired: bool) -> (step: WriteStep)
    requires
        n <= left,
    ensures
        step == if n == left {
            WriteStep::Done
        } else if n == 0 && expired {
            WriteStep::Stalled
        } else {
            WriteStep::Again
        },
{
    if n == left {
        WriteStep::Done
    } else if n == 0 && expired {
        WriteStep::Stalled
    } else {
        WriteStep::Again
    }
}

// ── Reconnecting ────────────────────────────────────────────────────────

/// What to try next to pick the link back up.
#[derive(Clone, Copy, PartialEq, Eq, Structural, Debug)]
pub enum Reconnect {
    /// See whether the core still answers.
    ProbeCore,
    /// Drop the debug session and build a new one.
    Rebuild,
    /// Attach at the address the firmware published, if it has.
    AttachPublished,
    /// See whether the block in hand still carries its ID.
    CheckBlock,
    /// Forget the partial log line and search RAM.
    Scan,
    /// The link is in hand as it was.
    Kept,
    /// The link was attached anew; the partial log line is another image's.
    Attached,
    /// No block was found, which is normal mid-reset; the caller polls.
    NotYet,
    /// The session could not be rebuilt.
    Lost,
}

impl Reconnect {
    /// What follows a step that worked or did not.
    ///
    /// A publication wins over whatever is attached: the new image's block
    /// can be somewhere else while the old one is briefly still intact. Only
    /// a handover with nothing published falls through to a search.
    pub open spec fn following(self, worked: bool) -> Reconnect {
        match (self, worked) {
            (Reconnect::ProbeCore, true) => Reconnect::AttachPublished,
            (Reconnect::ProbeCore, false) => Reconnect::Rebuild,
            (Reconnect::Rebuild, true) => Reconnect::AttachPublished,
            (Reconnect::Rebuild, false) => Reconnect::Lost,
            (Reconnect::AttachPublished, true) => Reconnect::Attached,
            (Reconnect::AttachPublished, false) => Reconnect::CheckBlock,
            (Reconnect::CheckBlock, true) => Reconnect::Kept,
            (Reconnect::CheckBlock, false) => Reconnect::Scan,
            (Reconnect::Scan, true) => Reconnect::Attached,
            (Reconnect::Scan, false) => Reconnect::NotYet,
            (done, _) => done,
        }
    }

    /// Nothing is left to try.
    pub open spec fn settled(self) -> bool {
        self is Kept || self is Attached || self is NotYet || self is Lost
    }

    /// How many steps are left at most.
    pub open spec fn left(self) -> nat {
        match self {
            Reconnect::ProbeCore => 5,
            Reconnect::Rebuild => 4,
            Reconnect::AttachPublished => 3,
            Reconnect::CheckBlock => 2,
            Reconnect::Scan => 1,
            _ => 0,
        }
    }

    /// What follows a step that worked or did not.
    pub fn next(self, worked: bool) -> (next: Reconnect)
        ensures
            next == self.following(worked),
    {
        match (self, worked) {
            (Reconnect::ProbeCore, false) => Reconnect::Rebuild,
            (Reconnect::ProbeCore, true) | (Reconnect::Rebuild, true) => Reconnect::AttachPublished,
            (Reconnect::Rebuild, false) => Reconnect::Lost,
            (Reconnect::AttachPublished, true) | (Reconnect::Scan, true) => Reconnect::Attached,
            (Reconnect::AttachPublished, false) => Reconnect::CheckBlock,
            (Reconnect::CheckBlock, true) => Reconnect::Kept,
            (Reconnect::CheckBlock, false) => Reconnect::Scan,
            (Reconnect::Scan, false) => Reconnect::NotYet,
            (done, _) => done,
        }
    }
}

/// Reconnecting comes to an end, whatever works and whatever does not.
pub proof fn reconnecting_settles(step: Reconnect, worked: bool)
    ensures
        step.settled() <==> step.left() == 0,
        !step.settled() ==> step.following(worked).left() < step.left(),
        step.settled() ==> step.following(worked) == step,
{
}

// ── The log ─────────────────────────────────────────────────────────────

/// Where the first newline from `at` on stands; the end of `s` if there is
/// none.
pub open spec fn newline_from(s: Seq<u8>, at: int) -> int
    decreases s.len() - at,
{
    if at >= s.len() {
        s.len() as int
    } else if s[at] == 10 {
        at
    } else {
        newline_from(s, at + 1)
    }
}

/// A line without the carriage returns and newlines it ends in.
pub open spec fn chomped(line: Seq<u8>) -> Seq<u8>
    decreases line.len(),
{
    if line.len() > 0 && (line.last() == 10 || line.last() == 13) {
        chomped(line.drop_last())
    } else {
        line
    }
}

/// The whole lines in `s`, and the partial one behind them.
pub open spec fn lines(s: Seq<u8>) -> (Seq<Seq<u8>>, Seq<u8>)
    decreases s.len(),
    via lines_decreases
{
    let n = newline_from(s, 0);
    if n >= s.len() {
        (Seq::empty(), s)
    } else {
        let (rest, partial) = lines(s.subrange(n + 1, s.len() as int));
        (seq![chomped(s.subrange(0, n + 1))] + rest, partial)
    }
}

#[via_fn]
proof fn lines_decreases(s: Seq<u8>) {
    lemma_newline_bounds(s, 0);
}

proof fn lemma_newline_bounds(s: Seq<u8>, at: int)
    requires
        0 <= at <= s.len(),
    ensures
        at <= newline_from(s, at) <= s.len(),
        forall|i: int| at <= i < newline_from(s, at) ==> s[i] != 10,
        newline_from(s, at) < s.len() ==> s[newline_from(s, at)] == 10,
    decreases s.len() - at,
{
    if at < s.len() && s[at] != 10 {
        lemma_newline_bounds(s, at + 1);
    }
}

/// The first newline is where nothing before it is one.
pub proof fn lemma_newline_is(s: Seq<u8>, at: int, n: int)
    requires
        0 <= at <= n <= s.len(),
        forall|i: int| at <= i < n ==> s[i] != 10,
        n < s.len() ==> s[n] == 10,
    ensures
        newline_from(s, at) == n,
    decreases n - at,
{
    if at < n {
        lemma_newline_is(s, at + 1, n);
    }
}

/// The device's log as it arrives, with a partial line held back so that a
/// line split across two reads is not printed as two.
pub struct Log {
    pub partial: Vec<u8>,
}

/// The views of some lines.
pub open spec fn views(lines: Seq<Vec<u8>>) -> Seq<Seq<u8>> {
    lines.map_values(|line: Vec<u8>| line@)
}

/// A line without the carriage returns and newlines it ends in.
fn chomp(line: &mut Vec<u8>)
    ensures
        final(line)@ == chomped(old(line)@),
{
    let ghost before = line@;
    while line.len() > 0 && (line[line.len() - 1] == 10 || line[line.len() - 1] == 13)
        invariant
            chomped(line@) == chomped(before),
        decreases line@.len(),
    {
        let ghost whole = line@;
        line.pop();
        assert(line@ =~= whole.drop_last());
    }
}

impl Log {
    pub fn new() -> (log: Log)
        ensures
            log.partial@ == Seq::<u8>::empty(),
    {
        Log { partial: Vec::new() }
    }

    /// Forget the partial line: it was another image's.
    pub fn clear(&mut self)
        ensures
            final(self).partial@ == Seq::<u8>::empty(),
    {
        self.partial = Vec::new();
    }

    /// Take what arrived and hand out the lines it completes.
    pub fn push(&mut self, bytes: &[u8]) -> (out: Vec<Vec<u8>>)
        ensures
            ({
                let (whole, partial) = lines(old(self).partial@ + bytes@);
                views(out@) == whole && final(self).partial@ == partial
            }),
    {
        let ghost all = self.partial@ + bytes@;
        let mut rest: Vec<u8> = Vec::new();
        rest.append(&mut self.partial);
        rest.extend_from_slice(bytes);
        assert(rest@ =~= all);
        let mut out: Vec<Vec<u8>> = Vec::new();
        assert(views(out@) + lines(rest@).0 =~= lines(all).0);
        loop
            invariant
                views(out@) + lines(rest@).0 == lines(all).0,
                lines(rest@).1 == lines(all).1,
            ensures
                views(out@) == lines(all).0,
                rest@ == lines(all).1,
            decreases rest@.len(),
        {
            let len: usize = rest.len();
            let mut n: usize = 0;
            while n < len && rest[n] != 10
                invariant
                    n <= len,
                    len == rest@.len(),
                    forall|i: int| 0 <= i < n ==> rest@[i] != 10,
                decreases len - n,
            {
                n = n + 1;
            }
            proof {
                lemma_newline_is(rest@, 0, n as int);
            }
            if n == len {
                assert(views(out@) + lines(rest@).0 =~= views(out@));
                break;
            }
            let ghost before = rest@;
            let ghost printed = views(out@);
            let mut line: Vec<u8> = rest;
            rest = line.split_off(n + 1);
            assert(line@ =~= before.subrange(0, n + 1));
            assert(rest@ =~= before.subrange(n + 1, len as int));
            chomp(&mut line);
            let ghost chomped_line = line@;
            out.push(line);
            assert(views(out@) =~= printed.push(chomped_line));
            assert(views(out@) + lines(rest@).0 =~= printed + lines(before).0);
        }
        self.partial = rest;
        out
    }
}

/// A log comes out in the same lines however its bytes were cut into reads.
pub proof fn a_split_line_is_one_line(a: Seq<u8>, b: Seq<u8>)
    ensures
        lines(a + b).0 == lines(a).0 + lines(lines(a).1 + b).0,
        lines(a + b).1 == lines(lines(a).1 + b).1,
    decreases a.len(),
{
    let n = newline_from(a, 0);
    lemma_newline_bounds(a, 0);
    if n >= a.len() {
        assert(lines(a).0 + lines(a + b).0 =~= lines(a + b).0);
    } else {
        let rest = a.subrange(n + 1, a.len() as int);
        let all = a + b;
        lemma_newline_is(all, 0, n);
        assert(all.subrange(n + 1, all.len() as int) =~= rest + b);
        assert(all.subrange(0, n + 1) =~= a.subrange(0, n + 1));
        a_split_line_is_one_line(rest, b);
        assert(lines(all).0 =~= lines(a).0 + lines(lines(a).1 + b).0);
    }
}

} // verus!
