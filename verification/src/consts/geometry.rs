//! The derivations from a flash size and a BOOT size, whatever the part.
//!
//! Firmware binds them to its part; bench tooling applies them to a part it
//! has just read the parameters of, so a fuse encoding has exactly one
//! definition.

use vstd::prelude::*;

use crate::consts::{BOOTPROT_GRANULE, BOOTPROT_MAX, FLASH_ADDR, LOCK_REGION_COUNT, PAGE_SIZE};

verus! {

// ── Definition ──────────────────────────────────────────────────────────

/// Bytes in one of the lock regions flash is divided into.
pub open spec fn region_size(flash_size: int) -> int {
    flash_size / LOCK_REGION_COUNT as int
}

/// Lock regions in one copy of BOOT.
pub open spec fn regions_per_boot(flash_size: int, boot_size: int) -> int {
    boot_size / region_size(flash_size)
}

/// The first lock region of the upper bank.
pub open spec fn inactive_first(flash_size: int) -> int {
    (flash_size / 2) / region_size(flash_size)
}

/// Bit `i` of `mask` is set.
pub open spec fn selects(mask: u32, i: u32) -> bool {
    (mask >> i) & 1 == 1
}

/// `mask` selects exactly the lock regions holding a copy of BOOT: the
/// first regions of each bank.
pub open spec fn selects_boot_regions(mask: u32, flash_size: int, boot_size: int) -> bool {
    forall|i: u32| #![trigger selects(mask, i)]
        i < 32 ==> (selects(mask, i) <==> (i < regions_per_boot(flash_size, boot_size)
            || inactive_first(flash_size) <= i < inactive_first(flash_size) + regions_per_boot(
            flash_size,
            boot_size,
        )))
}

/// A BOOT size that can be protected on a part: a whole number of lock
/// regions and of BOOTPROT granules, no more than BOOTPROT can express, and
/// leaving room for an application in a bank.
pub open spec fn valid_boot_size(flash_size: int, boot_size: int) -> bool {
    &&& 0 < boot_size <= BOOTPROT_MAX
    &&& boot_size < flash_size / 2
    &&& boot_size % region_size(flash_size) == 0
    &&& boot_size % BOOTPROT_GRANULE as int == 0
}

// ── Lemmas ──────────────────────────────────────────────────────────────

/// A usable BOOT occupies at most the lower half of the lock regions, and
/// the upper bank starts at region 16.
pub proof fn lemma_mask_fits(flash_size: int, boot_size: int)
    requires
        valid_boot_size(flash_size, boot_size),
    ensures
        region_size(flash_size) > 0,
        inactive_first(flash_size) == 16,
        0 < regions_per_boot(flash_size, boot_size) <= 16,
        regions_per_boot(flash_size, boot_size) * region_size(flash_size) == boot_size,
{
    let region = region_size(flash_size);
    let per = regions_per_boot(flash_size, boot_size);
    assert(boot_size >= 8192);
    assert(flash_size / 2 > 8192);
    assert(region >= 512);
    assert(16 * region <= flash_size / 2 < 17 * region);
    assert((flash_size / 2) / region == 16) by (nonlinear_arith)
        requires
            region > 0,
            16 * region <= flash_size / 2 < 17 * region,
    ;
    assert(per * region == boot_size) by (nonlinear_arith)
        requires
            region > 0,
            boot_size % region == 0,
            per == boot_size / region,
    ;
    assert(0 < per <= 16) by (nonlinear_arith)
        requires
            region > 0,
            per * region == boot_size,
            0 < boot_size < 17 * region,
    ;
}

/// The masked lock regions are exactly those that overlap a copy of BOOT: a
/// region is either wholly inside one or wholly outside both.
pub proof fn masked_regions_are_the_boot_copies(
    flash_size: int,
    boot_size: int,
    mask: u32,
    i: u32,
    addr: int,
)
    requires
        valid_boot_size(flash_size, boot_size),
        flash_size % LOCK_REGION_COUNT as int == 0,
        selects_boot_regions(mask, flash_size, boot_size),
        i < 32,
        i * region_size(flash_size) <= addr < (i + 1) * region_size(flash_size),
    ensures
        selects(mask, i) <==> (0 <= addr < boot_size || flash_size / 2 <= addr < flash_size / 2
            + boot_size),
{
    lemma_mask_fits(flash_size, boot_size);
    let region = region_size(flash_size);
    let per = regions_per_boot(flash_size, boot_size);
    let k = i as int;
    assert(selects(mask, i) <==> (k < per || 16 <= k < 16 + per));
    assert(flash_size / 2 == 16 * region);
    assert(k >= 0 ==> addr >= 0) by (nonlinear_arith)
        requires
            region > 0,
            k * region <= addr,
    ;
    assert(k < per ==> addr < boot_size) by (nonlinear_arith)
        requires
            region > 0,
            addr < (k + 1) * region,
            per * region == boot_size,
    ;
    assert(k >= per ==> addr >= boot_size) by (nonlinear_arith)
        requires
            region > 0,
            k * region <= addr,
            per * region == boot_size,
    ;
    assert(k >= 16 <==> addr >= 16 * region) by (nonlinear_arith)
        requires
            region > 0,
            k * region <= addr < (k + 1) * region,
    ;
    assert(k < 16 + per <==> addr < 16 * region + boot_size) by (nonlinear_arith)
        requires
            region > 0,
            k * region <= addr < (k + 1) * region,
            per * region == boot_size,
    ;
}

/// The BOOTPROT encoding loses nothing: a whole number of granules is
/// recovered from the field, so two BOOT sizes never share one.
pub proof fn bootprot_encoding_is_invertible(boot_size: int)
    requires
        0 <= boot_size <= BOOTPROT_MAX,
        boot_size % BOOTPROT_GRANULE as int == 0,
    ensures
        (15 - (15 - boot_size / BOOTPROT_GRANULE as int)) * BOOTPROT_GRANULE == boot_size,
{
}

/// A usable BOOT leaves part of its bank to the application.
pub proof fn a_usable_boot_leaves_an_application_region(flash_size: int, boot_size: int)
    requires
        valid_boot_size(flash_size, boot_size),
    ensures
        flash_size / 2 - boot_size > 0,
{
}

// ── Functions ───────────────────────────────────────────────────────────

/// One physical bank: half the flash.
pub fn bank_size(flash_size: usize) -> (size: usize)
    ensures
        size == flash_size / 2,
{
    flash_size / 2
}

/// Bytes in one lock region.
pub fn lock_region_size(flash_size: usize) -> (size: usize)
    ensures
        size == region_size(flash_size as int),
{
    flash_size / LOCK_REGION_COUNT
}

/// Fuse encoding of a BOOT size: BOOTPROT protects `(15 - value)` times
/// [`BOOTPROT_GRANULE`], so the field counts down.
pub fn bootprot_value(boot_size: usize) -> (value: u8)
    requires
        boot_size / BOOTPROT_GRANULE <= 15,
    ensures
        value == 15 - boot_size / BOOTPROT_GRANULE,
{
    (15 - boot_size / BOOTPROT_GRANULE) as u8
}

/// Lock-region bits covering both copies of BOOT: the first `boot_size` of
/// each bank. Set bits select the BOOT regions; NVM LOCKS and RUNLOCK invert
/// that (a clear bit locks), so a caller clears these.
pub fn boot_region_mask(flash_size: usize, boot_size: usize) -> (mask: u32)
    requires
        region_size(flash_size as int) > 0,
        inactive_first(flash_size as int) + regions_per_boot(flash_size as int, boot_size as int)
            <= 32,
    ensures
        selects_boot_regions(mask, flash_size as int, boot_size as int),
{
    let region: usize = lock_region_size(flash_size);
    let bank: usize = bank_size(flash_size);
    proof {
        assert(16 <= bank / region < 32) by (nonlinear_arith)
            requires
                region > 0,
                16 * region <= bank < 32 * region,
        ;
    }
    let per_boot: u32 = (boot_size / region) as u32;
    let first: u32 = (bank / region) as u32;
    assert(1u32 << per_boot >= 1) by (bit_vector)
        requires
            per_boot < 32,
    ;
    let low: u32 = (1u32 << per_boot) - 1;
    let mask: u32 = low | (low << first);
    assert forall|i: u32| i < 32 implies (#[trigger] selects(mask, i) <==> (i < per_boot || first
        <= i < first + per_boot)) by {
        assert((mask >> i) & 1 == 1 <==> (i < per_boot || first <= i < first + per_boot))
            by (bit_vector)
            requires
                16 <= first,
                first + per_boot <= 32,
                i < 32,
                low == ((1u32 << per_boot) - 1),
                mask == low | (low << first),
        ;
    }
    mask
}

/// Where the boot-info block sits for a given BOOT size: the top page of
/// the BOOT region.
pub fn boot_info_addr(boot_size: usize) -> (addr: usize)
    requires
        boot_size >= PAGE_SIZE,
    ensures
        addr == FLASH_ADDR + boot_size - PAGE_SIZE,
{
    FLASH_ADDR + boot_size - PAGE_SIZE
}

/// Whether a BOOT size is usable on a part of this density. A BOOT region
/// must be a whole number of lock regions (so it can be locked), must fit in
/// a bank alongside an application, and cannot exceed what BOOTPROT can
/// express.
pub fn boot_size_valid(flash_size: usize, boot_size: usize) -> (valid: bool)
    requires
        flash_size >= LOCK_REGION_COUNT || boot_size == 0 || boot_size >= flash_size / 2,
    ensures
        valid <==> valid_boot_size(flash_size as int, boot_size as int),
{
    let region: usize = lock_region_size(flash_size);
    boot_size > 0 && boot_size <= BOOTPROT_MAX && boot_size < bank_size(flash_size) && boot_size
        % region == 0 && boot_size % BOOTPROT_GRANULE == 0
}

} // verus!
