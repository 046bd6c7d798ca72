//! Placing BOOT at the head of both banks.
//!
//! BOOTPROT protects only the head of the *active* bank, so on a part whose
//! BOOTPROT is set one of the two copies cannot be written where it sits.
//! The way round is the swap: write the inactive head, `BKSWRST`, write the
//! head that is now inactive, swap back. Two swaps leave the same bank
//! active as before, so the application that was running is still the one
//! that will run. With BOOTPROT at 15 or `STATUS.BPDIS` set, both heads are
//! written where they are.
//!
//! `BKSWRST` also resets the part, which hands control to the BOOT at the
//! head that is now active. That BOOT reads the boot record and acts on it,
//! and one of the things it can decide is to swap straight back. So the swap
//! is made with the reset vector catch armed and the core held halted until
//! both heads are written and read back.

use vstd::prelude::*;

pub mod laws;

use crate::persist::PhysicalBank;
use crate::probe::Status;

verus! {

/// One step of placing BOOT.
#[derive(Clone, Copy, PartialEq, Eq, Structural, Debug)]
pub enum HeadStep {
    /// Write the image at this address.
    Write { base: usize },
    /// Swap the banks and hold the core at its reset vector.
    Swap,
    /// Read the head at this address back, with the NVM cache off, and
    /// compare it with the image.
    Verify { base: usize },
    /// Put the part back on its feet: reset catch off, core running.
    Release,
}

/// How a swap stands.
#[derive(Clone, Copy, PartialEq, Eq, Structural, Debug)]
pub enum SwapProgress {
    /// The part is back, halted.
    Back,
    /// The part did not come back halted in time.
    GaveUp,
    /// Try to halt it again.
    Waiting,
}

/// Where a head first differs from the image, and both bytes there.
#[derive(Clone, Copy, PartialEq, Eq, Structural, Debug)]
pub struct HeadMismatch {
    pub at: usize,
    pub on_part: u8,
    pub in_file: u8,
}

/// The steps that place BOOT on a part whose upper bank starts at
/// `inactive`.
pub open spec fn steps(status: Status, inactive: usize) -> Seq<HeadStep> {
    (if status.bootprot != 15 && !status.bpdis {
        seq![
            HeadStep::Write { base: inactive },
            HeadStep::Swap,
            HeadStep::Write { base: inactive },
            HeadStep::Swap,
        ]
    } else {
        seq![HeadStep::Write { base: 0 }, HeadStep::Write { base: inactive }]
    }) + seq![
        HeadStep::Verify { base: 0 },
        HeadStep::Verify { base: inactive },
        HeadStep::Release,
    ]
}

/// The steps that place BOOT at the head of both banks, read both back and
/// only then let the part run again.
pub fn place(status: &Status, inactive: usize) -> (r: Vec<HeadStep>)
    ensures
        r@ == steps(*status, inactive),
{
    let mut r: Vec<HeadStep> = Vec::new();
    if status.protected() {
        r.push(HeadStep::Write { base: inactive });
        r.push(HeadStep::Swap);
        r.push(HeadStep::Write { base: inactive });
        r.push(HeadStep::Swap);
    } else {
        r.push(HeadStep::Write { base: 0 });
        r.push(HeadStep::Write { base: inactive });
    }
    r.push(HeadStep::Verify { base: 0 });
    r.push(HeadStep::Verify { base: inactive });
    r.push(HeadStep::Release);
    assert(r@ =~= steps(*status, inactive));
    r
}

/// How a swap stands, from whether the core could be halted and whether its
/// time is up.
pub fn swap(halted: bool, expired: bool) -> (p: SwapProgress)
    ensures
        p == (if halted {
            SwapProgress::Back
        } else if expired {
            SwapProgress::GaveUp
        } else {
            SwapProgress::Waiting
        }),
{
    if halted {
        SwapProgress::Back
    } else if expired {
        SwapProgress::GaveUp
    } else {
        SwapProgress::Waiting
    }
}

/// Compare a head read back from the part against the image.
pub fn verify(read: &[u8], image: &[u8]) -> (r: Result<(), HeadMismatch>)
    requires
        read@.len() == image@.len(),
    ensures
        match r {
            Ok(_) => read@ == image@,
            Err(m) => {
                &&& m.at < image@.len()
                &&& m.on_part == read@[m.at as int]
                &&& m.in_file == image@[m.at as int]
                &&& m.on_part != m.in_file
                &&& forall|i: int| 0 <= i < m.at ==> read@[i] == image@[i]
            },
        },
{
    let mut i: usize = 0;
    while i < image.len()
        invariant
            i <= image@.len(),
            read@.len() == image@.len(),
            forall|j: int| 0 <= j < i ==> read@[j] == image@[j],
        decreases image@.len() - i,
    {
        if read[i] != image[i] {
            return Err(HeadMismatch { at: i, on_part: read[i], in_file: image[i] });
        }
        i = i + 1;
    }
    assert(read@ =~= image@);
    Ok(())
}

// ── Laws ────────────────────────────────────────────────────────────────

/// A part while BOOT is being placed: which bank is mapped low, whether the
/// head of that bank refuses writes, and what the heads hold.
pub struct Heads {
    pub first: PhysicalBank,
    pub protected: bool,
    pub a: Seq<u8>,
    pub b: Seq<u8>,
    /// A write to a protected head was attempted.
    pub refused: bool,
    /// A head was read back that did not hold the image.
    pub mismatched: bool,
}

impl Heads {
    /// `bank` holds `image`; the other head as it was.
    pub open spec fn with(self, bank: PhysicalBank, image: Seq<u8>) -> Heads {
        match bank {
            PhysicalBank::A => Heads { a: image, ..self },
            PhysicalBank::B => Heads { b: image, ..self },
        }
    }

    /// What the head of a bank holds.
    pub open spec fn head(self, bank: PhysicalBank) -> Seq<u8> {
        match bank {
            PhysicalBank::A => self.a,
            PhysicalBank::B => self.b,
        }
    }
}

/// The part after one step. BOOTPROT protects the head of whichever bank is
/// active.
pub open spec fn apply(h: Heads, step: HeadStep, inactive: usize, image: Seq<u8>) -> Heads {
    match step {
        HeadStep::Swap => Heads { first: h.first.spec_other(), ..h },
        HeadStep::Write { base } => if base == inactive {
            h.with(h.first.spec_other(), image)
        } else if h.protected {
            Heads { refused: true, ..h }
        } else {
            h.with(h.first, image)
        },
        HeadStep::Verify { base } => {
            let bank = if base == inactive {
                h.first.spec_other()
            } else {
                h.first
            };
            Heads { mismatched: h.mismatched || h.head(bank) != image, ..h }
        },
        HeadStep::Release => h,
    }
}

/// The part after some steps, in order.
pub open spec fn apply_all(
    h: Heads,
    steps: Seq<HeadStep>,
    inactive: usize,
    image: Seq<u8>,
) -> Heads
    decreases steps.len(),
{
    if steps.len() == 0 {
        h
    } else {
        apply(apply_all(h, steps.drop_last(), inactive, image), steps.last(), inactive, image)
    }
}

/// Placing BOOT writes both heads, never a protected one, finds both good
/// when it reads them back, and leaves the same bank active as before.
pub proof fn both_heads_carry_boot(h: Heads, status: Status, inactive: usize, image: Seq<u8>)
    requires
        inactive > 0,
        h.protected == (status.bootprot != 15 && !status.bpdis),
        !h.refused,
        !h.mismatched,
    ensures
        ({
            let after = apply_all(h, steps(status, inactive), inactive, image);
            &&& after.a == image
            &&& after.b == image
            &&& after.first == h.first
            &&& !after.refused
            &&& !after.mismatched
        }),
{
    let all = steps(status, inactive);
    lemma_one_more_step(h, all, 1, inactive, image);
    lemma_one_more_step(h, all, 2, inactive, image);
    lemma_one_more_step(h, all, 3, inactive, image);
    lemma_one_more_step(h, all, 4, inactive, image);
    lemma_one_more_step(h, all, 5, inactive, image);
    assert(apply_all(h, all.take(0), inactive, image) == h);
    if h.protected {
        lemma_one_more_step(h, all, 6, inactive, image);
        lemma_one_more_step(h, all, 7, inactive, image);
        let written = apply_all(h, all.take(4), inactive, image);
        assert(written.a == image && written.b == image && written.first == h.first);
        assert(all.take(7) =~= all);
    } else {
        let written = apply_all(h, all.take(2), inactive, image);
        assert(written.a == image && written.b == image);
        assert(all.take(5) =~= all);
    }
}

proof fn lemma_one_more_step(
    h: Heads,
    steps: Seq<HeadStep>,
    n: int,
    inactive: usize,
    image: Seq<u8>,
)
    requires
        0 < n <= steps.len(),
    ensures
        apply_all(h, steps.take(n), inactive, image) == apply(
            apply_all(h, steps.take(n - 1), inactive, image),
            steps[n - 1],
            inactive,
            image,
        ),
{
    assert(steps.take(n).drop_last() =~= steps.take(n - 1));
}

} // verus!
