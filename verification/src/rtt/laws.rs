//! How an RTT link is found, kept and read.

use vstd::prelude::*;

use crate::rtt::{is_rig_block, Reconnect, WriteStep};

verus! {

/// Reconnecting tries what costs least first. A core that answers, or a
/// session that could be rebuilt, leads to what the firmware published; that
/// wins over the block in hand, and only without either is RAM searched.
pub proof fn what_reconnecting_tries_in_turn(step: Reconnect, worked: bool)
    ensures
        step is ProbeCore ==> step.following(worked) == (if worked {
            Reconnect::AttachPublished
        } else {
            Reconnect::Rebuild
        }),
        step is Rebuild ==> step.following(worked) == (if worked {
            Reconnect::AttachPublished
        } else {
            Reconnect::Lost
        }),
        step is AttachPublished ==> step.following(worked) == (if worked {
            Reconnect::Attached
        } else {
            Reconnect::CheckBlock
        }),
        step is CheckBlock ==> step.following(worked) == (if worked {
            Reconnect::Kept
        } else {
            Reconnect::Scan
        }),
        step is Scan ==> step.following(worked) == (if worked {
            Reconnect::Attached
        } else {
            Reconnect::NotYet
        }),
        step is Kept || step is Attached || step is NotYet || step is Lost ==> step.following(
            worked,
        ) == step,
{
}

/// A published address counts only with its magic in front of it, which reads
/// `rttp`, and the slot comes right behind a record of sixteen bytes.
pub proof fn what_firmware_publishes(slot: [u32; 2], addr: Option<u64>)
    requires
        call_ensures(crate::rtt::published_ptr, (slot,), addr),
    ensures
        addr is Some <==> slot@[0] == 0x7274_7470,
        addr matches Some(a) ==> a == slot@[1],
        crate::rtt::RTT_POINTER_ADDR == 0x4700_0010,
{
}

/// A block is live exactly while its first ten bytes spell `SEGGER RTT`.
pub proof fn what_a_live_block_starts_with(id: &[u8], live: bool)
    requires
        call_ensures(crate::rtt::block_is_live, (id,), live),
    ensures
        live <==> id@.len() >= 10 && id@[0] == 83 && id@[1] == 69 && id@[2] == 71 && id@[3] == 71
            && id@[4] == 69 && id@[5] == 82 && id@[6] == 32 && id@[7] == 82 && id@[8] == 84 && id@[9]
            == 84,
{
    let b = crate::rtt::block_id();
    if live {
        assert(b =~= id@.subrange(0, 10));
        assert(b[0] == id@.subrange(0, 10)[0] && b[1] == id@.subrange(0, 10)[1] && b[2]
            == id@.subrange(0, 10)[2] && b[3] == id@.subrange(0, 10)[3] && b[4] == id@.subrange(
            0,
            10,
        )[4] && b[5] == id@.subrange(0, 10)[5] && b[6] == id@.subrange(0, 10)[6] && b[7]
            == id@.subrange(0, 10)[7] && b[8] == id@.subrange(0, 10)[8] && b[9] == id@.subrange(
            0,
            10,
        )[9]);
    } else if id@.len() >= 10 {
        assert(b != id@.subrange(0, 10));
        if id@[0] == 83 && id@[1] == 69 && id@[2] == 71 && id@[3] == 71 && id@[4] == 69 && id@[5]
            == 82 && id@[6] == 32 && id@[7] == 82 && id@[8] == 84 && id@[9] == 84 {
            assert(b =~= id@.subrange(0, 10));
        }
    }
}

/// A write is done once everything was taken. One that took nothing stalls
/// when its time is up; any other is tried again.
pub proof fn how_a_write_stands(left: usize, n: usize, expired: bool, step: WriteStep)
    requires
        n <= left,
        call_ensures(crate::rtt::wrote, (left, n, expired), step),
    ensures
        step == WriteStep::Done <==> n == left,
        step == WriteStep::Stalled <==> n == 0 && left > 0 && expired,
        step == WriteStep::Again <==> n < left && (n > 0 || !expired),
{
}

/// A newline ends a line: what is in front of the first one is the first
/// line, without it, and the rest is lines of its own.
pub proof fn a_newline_ends_a_line(line: Seq<u8>, rest: Seq<u8>)
    requires
        forall|i: int| 0 <= i < line.len() ==> line[i] != 10,
    ensures
        crate::rtt::lines(line.push(10) + rest).0 == seq![crate::rtt::chomped(line)]
            + crate::rtt::lines(rest).0,
        crate::rtt::lines(line.push(10) + rest).1 == crate::rtt::lines(rest).1,
        crate::rtt::lines(line).0 == Seq::<Seq<u8>>::empty(),
        crate::rtt::lines(line).1 == line,
{
    let s = line.push(10) + rest;
    let n = line.len() as int;
    assert forall|i: int| 0 <= i < n implies s[i] != 10 by {
        assert(s[i] == line[i]);
    }
    assert(s[n] == 10);
    crate::rtt::lemma_newline_is(s, 0, n);
    crate::rtt::lemma_newline_is(line, 0, n);
    assert(s.subrange(0, n + 1) =~= line.push(10));
    assert(s.subrange(n + 1, s.len() as int) =~= rest);
    assert(line.push(10).drop_last() =~= line);
}

/// A line loses the carriage returns and newlines at its end, and nothing in
/// front of them.
pub proof fn a_line_loses_its_ending_only(core: Seq<u8>, ending: Seq<u8>)
    requires
        core.len() > 0 ==> core.last() != 10 && core.last() != 13,
        forall|i: int| 0 <= i < ending.len() ==> ending[i] == 10 || ending[i] == 13,
    ensures
        crate::rtt::chomped(core + ending) == core,
    decreases ending.len(),
{
    let s = core + ending;
    if ending.len() == 0 {
        assert(s =~= core);
    } else {
        assert(s.last() == ending.last());
        assert(s.drop_last() =~= core + ending.drop_last());
        a_line_loses_its_ending_only(core, ending.drop_last());
    }
}

/// A block is the rig's exactly if its second channel up has the rig's name,
/// whatever its other channels are called.
pub proof fn which_block_is_the_rigs(up_channels: Vec<String>, ours: bool)
    requires
        call_ensures(is_rig_block, (&up_channels,), ours),
    ensures
        ours <==> up_channels@.len() >= 2 && up_channels@[1]@ == "samd5-boot"@,
{
}

/// The protocol has the second channel up and the first one down, beside the
/// log on the first one up.
pub proof fn which_channel_is_which()
    ensures
        crate::rtt::LOG == 0,
        crate::rtt::UP == 1,
        crate::rtt::DOWN == 0,
{
}

} // verus!
