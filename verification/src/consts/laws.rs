//! The family and its layouts, in numbers.

use vstd::prelude::*;

use crate::consts::geometry::{
    bank_size, boot_info_addr, boot_region_mask, boot_size_valid, bootprot_value,
    lock_region_size,
};
use crate::consts::{Density, Layout};

verus! {

/// Bytes of flash on a part.
pub open spec fn flash_bytes(density: Density) -> int {
    match density {
        Density::D18 => 0x4_0000,
        Density::D19 => 0x8_0000,
        Density::D20 => 0x10_0000,
    }
}

/// The memory map and the units of the family.
pub proof fn the_family_in_numbers()
    ensures
        crate::consts::FLASH_ADDR == 0,
        crate::consts::ACTIVE_SLOT_ADDR == 0,
        crate::consts::USER_PAGE_ADDR == 0x0080_4000,
        crate::consts::RAM_ADDR == 0x2000_0000,
        crate::consts::SEEPROM_ADDR == 0x4400_0000,
        crate::consts::BKUPRAM_ADDR == 0x4700_0000,
        crate::consts::BKUPRAM_SIZE == 8192,
        crate::consts::WRITE_UNIT == 16,
        crate::consts::PAGE_SIZE == 512,
        crate::consts::PAGE_SIZE_WORDS == 128,
        crate::consts::PAGES_PER_BLOCK == 16,
        crate::consts::ERASE_BLOCK_SIZE == 8192,
        crate::consts::USER_PAGE_SIZE == 512,
        crate::consts::ERASED == 0xFFFF_FFFF,
        crate::consts::LOCK_REGION_COUNT == 32,
        crate::consts::BOOTPROT_GRANULE == 8192,
        crate::consts::BOOTPROT_MAX == 15 * 8192,
        crate::consts::BOOT_SIZE == 4 * 8192,
        crate::consts::BOOTPROT_VALUE == 11,
        crate::consts::BOOT_INFO_ADDR == 0x7E00,
        crate::consts::MANIFEST_OFFSET == 0x400,
{
}

/// Each density doubles the flash of the one before it, and adds 64 KiB of
/// RAM.
pub proof fn what_a_density_means(density: Density, flash: usize, ram: usize)
    requires
        call_ensures(Density::flash_size, (density,), flash),
        call_ensures(Density::ram_size, (density,), ram),
    ensures
        flash == flash_bytes(density),
        density is D18 ==> ram == 0x2_0000,
        density is D19 ==> ram == 0x3_0000,
        density is D20 ==> ram == 0x4_0000,
{
}

/// A part can be laid out with a BOOT that is a whole number of its lock
/// regions, smaller than a bank and at most 120 KiB, and with no other.
pub proof fn which_layouts_there_are(density: Density, boot_size: usize, layout: Option<Layout>)
    requires
        call_ensures(Layout::new, (density, boot_size), layout),
    ensures
        layout is Some <==> 0 < boot_size <= 122_880 && 2 * boot_size < flash_bytes(density)
            && boot_size as int % (flash_bytes(density) / 32) == 0,
        layout matches Some(l) ==> l.density == density && l.boot_size == boot_size && l.wf(),
{
    let b = boot_size as int;
    let flash = flash_bytes(density);
    assert(flash == density.spec_flash_size());
    match density {
        Density::D18 => {
            assert(flash / 32 == 8192);
        },
        Density::D19 => {
            assert(flash / 32 == 16384);
            assert(b % 16384 == 0 ==> b % 8192 == 0);
        },
        Density::D20 => {
            assert(flash / 32 == 32768);
            assert(b % 32768 == 0 ==> b % 8192 == 0);
        },
    }
}

/// Where a laid out part has its slots and its boot-info block.
pub proof fn where_a_layout_puts_things(
    layout: Layout,
    bank: usize,
    upper: usize,
    region: usize,
    bootprot: u8,
    info: usize,
)
    requires
        layout.wf(),
        call_ensures(Layout::bank_size, (&layout,), bank),
        call_ensures(Layout::inactive_slot_addr, (&layout,), upper),
        call_ensures(Layout::lock_region_size, (&layout,), region),
        call_ensures(Layout::bootprot_value, (&layout,), bootprot),
        call_ensures(Layout::boot_info_addr, (&layout,), info),
    ensures
        2 * bank == flash_bytes(layout.density),
        upper == bank,
        32 * region == flash_bytes(layout.density),
        (15 - bootprot) * 8192 == layout.boot_size,
        info + 512 == layout.boot_size,
{
}

/// Bit `i` of the mask stands for lock region `i`, and is set exactly if the
/// addresses of that region are in a copy of BOOT, of which each bank starts
/// with one.
pub proof fn the_mask_covers_both_boots(layout: Layout, mask: u32, i: u32, addr: int)
    requires
        layout.wf(),
        call_ensures(Layout::boot_regions, (&layout,), mask),
        i < 32,
        i * (flash_bytes(layout.density) / 32) <= addr < (i + 1) * (flash_bytes(layout.density)
            / 32),
    ensures
        (mask >> i) & 1 == 1 <==> 0 <= addr < layout.boot_size || flash_bytes(layout.density) / 2
            <= addr < flash_bytes(layout.density) / 2 + layout.boot_size,
{
    crate::consts::geometry::masked_regions_are_the_boot_copies(
        layout.density.spec_flash_size(),
        layout.boot_size as int,
        mask,
        i,
        addr,
    );
}

/// The derivations, whatever the part.
pub proof fn what_follows_from_a_flash_size(
    flash: usize,
    boot: usize,
    bank: usize,
    region: usize,
    bootprot: u8,
    info: usize,
    valid: bool,
)
    requires
        flash >= 32,
        call_ensures(bank_size, (flash,), bank),
        call_ensures(lock_region_size, (flash,), region),
        call_ensures(boot_size_valid, (flash, boot), valid),
    ensures
        2 * bank <= flash < 2 * bank + 2,
        32 * region <= flash < 32 * region + 32,
        valid <==> 0 < boot <= 122_880 && boot < bank && boot as int % region as int == 0
            && boot as int % 8192 == 0,
        boot % 8192 == 0 && boot <= 122_880 && call_ensures(bootprot_value, (boot,), bootprot)
            ==> (15 - bootprot) * 8192 == boot,
        boot >= 512 && call_ensures(boot_info_addr, (boot,), info) ==> info + 512 == boot,
{
}

/// The mask of a part of any size whose flash divides into lock regions.
pub proof fn the_mask_of_any_part(flash: usize, boot: usize, mask: u32, i: u32, addr: int)
    requires
        flash % 32 == 0,
        0 < boot <= 122_880,
        2 * boot < flash,
        boot as int % (flash as int / 32) == 0,
        boot % 8192 == 0,
        call_ensures(boot_region_mask, (flash, boot), mask),
        i < 32,
        i * (flash as int / 32) <= addr < (i + 1) * (flash as int / 32),
    ensures
        (mask >> i) & 1 == 1 <==> 0 <= addr < boot || flash as int / 2 <= addr < flash as int / 2
            + boot,
{
    crate::consts::geometry::masked_regions_are_the_boot_copies(
        flash as int,
        boot as int,
        mask,
        i,
        addr,
    );
}

} // verus!
