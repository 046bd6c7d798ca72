//! The order in which BOOT is placed.

use vstd::prelude::*;

use crate::flash::{place, swap, verify, HeadMismatch, HeadStep, SwapProgress};
use crate::probe::Status;

verus! {

/// A step changes what the part holds or which bank is low.
pub open spec fn disturbs(step: HeadStep) -> bool {
    step is Write || step is Swap
}

/// The part is let go last and only then, and both heads have been read back
/// after the last write or swap: no head goes unchecked.
pub proof fn the_part_runs_only_after_both_heads_were_checked(
    status: Status,
    inactive: usize,
    steps: Vec<HeadStep>,
    i: int,
)
    requires
        call_ensures(place, (&status, inactive), steps),
        0 <= i < steps@.len(),
    ensures
        steps@[i] is Release <==> i == steps@.len() - 1,
        disturbs(steps@[i]) ==> i < steps@.len() - 3,
        steps@.len() >= 3,
        steps@[steps@.len() - 3] == (HeadStep::Verify { base: 0 }),
        steps@[steps@.len() - 2] == (HeadStep::Verify { base: inactive }),
{
}

/// On a part whose head is protected only the upper head is ever written, once
/// before and once after a swap, and a second swap undoes the first. On any
/// other part both heads are written in place, and nothing is swapped.
pub proof fn a_protected_head_is_written_from_above(
    status: Status,
    inactive: usize,
    steps: Vec<HeadStep>,
    i: int,
)
    requires
        call_ensures(place, (&status, inactive), steps),
        0 <= i < steps@.len(),
    ensures
        status.bootprot != 15 && !status.bpdis ==> {
            &&& steps@.len() == 7
            &&& steps@[i] is Swap <==> i == 1 || i == 3
            &&& steps@[i] is Write <==> i == 0 || i == 2
            &&& steps@[i] is Write ==> steps@[i]->Write_base == inactive
        },
        status.bootprot == 15 || status.bpdis ==> {
            &&& steps@.len() == 5
            &&& !(steps@[i] is Swap)
            &&& steps@[i] is Write <==> i == 0 || i == 1
            &&& steps@[0]->Write_base == 0
            &&& steps@[1]->Write_base == inactive
        },
{
}

/// A core that halts is back, however late; time alone gives up.
pub proof fn a_halted_core_is_back(halted: bool, expired: bool, p: SwapProgress)
    requires
        call_ensures(swap, (halted, expired), p),
    ensures
        p == SwapProgress::Back <==> halted,
        p == SwapProgress::GaveUp <==> !halted && expired,
        p == SwapProgress::Waiting <==> !halted && !expired,
{
}

/// A head passes exactly if it holds the image, and otherwise the first byte
/// that differs is named, the part's before the file's.
pub proof fn a_head_must_hold_the_image(
    read: &[u8],
    image: &[u8],
    r: Result<(), HeadMismatch>,
)
    requires
        read@.len() == image@.len(),
        call_ensures(verify, (read, image), r),
    ensures
        r is Ok <==> read@ == image@,
        r matches Err(m) ==> m.on_part != m.in_file && m.on_part == read@[m.at as int] && m.in_file
            == image@[m.at as int] && m.at < image@.len() && read@.take(m.at as int) == image@.take(
            m.at as int,
        ),
{
    if r is Err {
        let at = (r->Err_0).at as int;
        assert(read@.take(at) =~= image@.take(at));
    }
}

} // verus!
