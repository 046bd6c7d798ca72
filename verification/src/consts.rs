//! Geometry of the SAM D5x/E5x family and of a part laid out for this
//! bootloader.
//!
//! Family-wide constants (DS60001507, section 25 NVMCTRL) are plain
//! constants. What depends on the part's density and on the BOOT size is
//! computed by [`geometry`] or read off a [`Layout`], which exists only for
//! a BOOT size the part can protect.

use vstd::prelude::*;

pub mod geometry;
pub mod laws;

use crate::consts::geometry::{
    bank_size, boot_info_addr, boot_region_mask, boot_size_valid, bootprot_value,
    lock_region_size,
};

verus! {

pub const FLASH_ADDR: usize = 0x0000_0000;

pub const PAGE_SIZE: usize = 512;

pub const PAGE_SIZE_WORDS: usize = 128;

pub const PAGES_PER_BLOCK: usize = 16;

pub const ERASE_BLOCK_SIZE: usize = 8192;

/// Quad-word: granularity of the WQW program command.
pub const WRITE_UNIT: usize = 16;

pub const ERASED: u32 = 0xFFFF_FFFF;

/// Fixed regardless of density, BOOTPROT, or SmartEEPROM settings.
pub const LOCK_REGION_COUNT: usize = 32;

/// BOOTPROT protects `(15 - BOOTPROT)` times this from the base of flash.
pub const BOOTPROT_GRANULE: usize = 8192;

pub const BOOTPROT_MAX: usize = 122_880;

/// All fuses (BOOTPROT, SEE, WDT, region locks) in one erase-rewrite unit.
pub const USER_PAGE_ADDR: usize = 0x0080_4000;

pub const USER_PAGE_SIZE: usize = 512;

pub const SEEPROM_ADDR: usize = 0x4400_0000;

pub const RAM_ADDR: usize = 0x2000_0000;

pub const BKUPRAM_ADDR: usize = 0x4700_0000;

pub const BKUPRAM_SIZE: usize = 8192;

/// Base of the active slot: the mapped-low bank, always at the flash base.
pub const ACTIVE_SLOT_ADDR: usize = FLASH_ADDR;

/// The BOOT size a part is laid out with unless another one is asked for.
pub const BOOT_SIZE: usize = 32_768;

/// Fuse encoding of [`BOOT_SIZE`].
pub const BOOTPROT_VALUE: u8 = 11;

/// Where the boot-info block sits for [`BOOT_SIZE`]: the top page of the
/// BOOT region.
pub const BOOT_INFO_ADDR: usize = 32_256;

/// Offset of the application manifest within the app region: past the
/// largest vector table on this family (16 system exceptions and 137
/// peripheral interrupts), on the 1 KiB VTOR granule.
pub const MANIFEST_OFFSET: usize = 0x400;

/// The literal constants above are the products and quotients their names
/// promise, and the defaults agree with the formulas in [`geometry`].
pub proof fn constants_agree()
    ensures
        PAGE_SIZE_WORDS == PAGE_SIZE / 4,
        ERASE_BLOCK_SIZE == PAGE_SIZE * PAGES_PER_BLOCK,
        BOOTPROT_GRANULE == 8 * 1024,
        BOOTPROT_MAX == 15 * BOOTPROT_GRANULE,
        BKUPRAM_SIZE == 8 * 1024,
        BOOT_SIZE == 32 * 1024,
        BOOTPROT_VALUE == 15 - BOOT_SIZE / BOOTPROT_GRANULE,
        BOOT_INFO_ADDR == FLASH_ADDR + BOOT_SIZE - PAGE_SIZE,
        MANIFEST_OFFSET >= (16 + 137) * 4,
{
}

/// Flash density of a part: the two digits of its part number.
#[derive(Clone, Copy, PartialEq, Eq, Structural, Debug)]
pub enum Density {
    D18,
    D19,
    D20,
}

impl Density {
    /// Flash bytes of a part of this density.
    pub open spec fn spec_flash_size(self) -> int {
        match self {
            Density::D18 => 256 * 1024int,
            Density::D19 => 512 * 1024int,
            Density::D20 => 1024 * 1024int,
        }
    }

    /// RAM bytes of a part of this density.
    pub open spec fn spec_ram_size(self) -> int {
        match self {
            Density::D18 => 128 * 1024int,
            Density::D19 => 192 * 1024int,
            Density::D20 => 256 * 1024int,
        }
    }

    /// Flash size in bytes.
    pub fn flash_size(self) -> (size: usize)
        ensures
            size == self.spec_flash_size(),
    {
        match self {
            Density::D18 => 262_144,
            Density::D19 => 524_288,
            Density::D20 => 1_048_576,
        }
    }

    /// RAM size in bytes.
    pub fn ram_size(self) -> (size: usize)
        ensures
            size == self.spec_ram_size(),
    {
        match self {
            Density::D18 => 131_072,
            Density::D19 => 196_608,
            Density::D20 => 262_144,
        }
    }
}

/// How one part is divided: its density and the size of its BOOT region.
///
/// Frozen per device once BOOT is installed; BOOT and the application must
/// agree on it.
#[derive(Clone, Copy, PartialEq, Eq, Structural, Debug)]
pub struct Layout {
    pub density: Density,
    pub boot_size: usize,
}

impl Layout {
    /// The BOOT size is one the part can protect and lock.
    pub open spec fn wf(self) -> bool {
        geometry::valid_boot_size(self.density.spec_flash_size(), self.boot_size as int)
    }

    /// Bytes in one physical bank.
    pub open spec fn spec_bank_size(self) -> int {
        self.density.spec_flash_size() / 2
    }

    /// Lay a part out, unless the BOOT size is unusable on it.
    pub fn new(density: Density, boot_size: usize) -> (layout: Option<Layout>)
        ensures
            layout is Some <==> geometry::valid_boot_size(
                density.spec_flash_size(),
                boot_size as int,
            ),
            layout matches Some(l) ==> l == (Layout { density, boot_size }) && l.wf(),
    {
        if boot_size_valid(density.flash_size(), boot_size) {
            Some(Layout { density, boot_size })
        } else {
            None
        }
    }

    /// One physical bank: half the flash.
    pub fn bank_size(&self) -> (size: usize)
        ensures
            size == self.spec_bank_size(),
    {
        bank_size(self.density.flash_size())
    }

    /// Base of the inactive slot: the mapped-high bank, in the upper half.
    /// The download target and the swap destination.
    pub fn inactive_slot_addr(&self) -> (addr: usize)
        ensures
            addr == FLASH_ADDR + self.spec_bank_size(),
    {
        FLASH_ADDR + bank_size(self.density.flash_size())
    }

    /// Bytes in one lock region.
    pub fn lock_region_size(&self) -> (size: usize)
        ensures
            size == self.density.spec_flash_size() / LOCK_REGION_COUNT as int,
    {
        lock_region_size(self.density.flash_size())
    }

    /// The value the BOOTPROT field must hold.
    pub fn bootprot_value(&self) -> (value: u8)
        requires
            self.wf(),
        ensures
            value == 15 - self.boot_size / BOOTPROT_GRANULE,
    {
        bootprot_value(self.boot_size)
    }

    /// Fixed location of the boot-info block: the top page of the BOOT
    /// region.
    pub fn boot_info_addr(&self) -> (addr: usize)
        requires
            self.wf(),
        ensures
            addr == FLASH_ADDR + self.boot_size - PAGE_SIZE,
    {
        boot_info_addr(self.boot_size)
    }

    /// Lock-region bits covering both copies of BOOT; a caller clears these.
    pub fn boot_regions(&self) -> (mask: u32)
        requires
            self.wf(),
        ensures
            geometry::selects_boot_regions(
                mask,
                self.density.spec_flash_size(),
                self.boot_size as int,
            ),
    {
        let flash_size: usize = self.density.flash_size();
        proof {
            geometry::lemma_mask_fits(flash_size as int, self.boot_size as int);
        }
        boot_region_mask(flash_size, self.boot_size)
    }
}

} // verus!
