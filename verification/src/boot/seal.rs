//! Keeps [`SlotState`](crate::boot::SlotState) to the two states it has.

use vstd::prelude::*;

verus! {

pub trait Sealed {

}

} // verus!
