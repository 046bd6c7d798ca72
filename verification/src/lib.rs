//! An A/B firmware-update bootloader for Microchip SAM D5x/E5x
//! (`ATSAMD5x`/`ATSAME5x`) MCUs, built on the silicon's native dual-bank
//! swap (`BKSWRST`) rather than a software copy engine, with the bench
//! tooling that stamps images, provisions fuses and tests a rig.
//!
//! No single failure leaves the device unbootable: a power cut mid-write,
//! an image that fails verification, and a trial boot that never confirms
//! each leave a bootable image mapped. An identical BOOT binary is
//! bench-installed at the head of both banks and is never rewritten by a
//! field update, so the revert path is present in whichever bank the chip
//! resets into.
//!
//! Everything here is a decision about plain values: what a boot record says
//! this boot should be, which flash operations write an image, which word a
//! fuse page needs. What touches silicon, a debug probe or a file stands
//! outside, asks, and does as it is told. [`boot::laws`] says what the
//! decisions add up to.
//!
//! # Firmware
//!
//! BOOT constructs a [`boot::Boot`] from the fuses it finds with
//! [`boot::Boot::new`], which validates them rather than changing them.
//! [`boot::Boot::boot_or_enter_download`] then classifies the persisted
//! [`persist::BootStore`] and acts on it, booting the active image, swapping
//! to roll back, or settling on download mode; a caller wanting its own
//! policy reads [`boot::Boot::disposition`] and matches the outcomes itself.
//!
//! In download mode the binary drives its own transport.
//! [`boot::Boot::condemn`] records the target bank as unbootable before a
//! byte is read, [`boot::Boot::download`] turns the image into flash
//! operations, and [`boot::Boot::install`] takes the verdict on what landed
//! in flash, records a trial and swaps.
//!
//! The application uses [`client::BootClient`] over the same
//! [`persist::BootStorage`]: it confirms a trial image and takes over the
//! trial watchdog, or rejects the running image, or asks BOOT to enter
//! download mode on the next boot.
//!
//! # Banks and slots
//!
//! - A *bank* is a physical flash half, A or B. Persisted per-bank state
//!   ([`persist::BootState`]) is keyed by physical bank, so the record
//!   survives a swap while the mapping flips.
//! - A *slot* is a mapped position. The active slot is always at the base
//!   of flash; the inactive slot is in the upper half.
//!
//! `BKSWRST` flips which bank occupies which slot and resets. The command is
//! a single commit point: a power loss yields the old mapping or the new
//! one, never a half-swap. Nothing but software ever flips the mapping back,
//! so a revert is itself a swap.
//!
//! # Memory layout
//!
//! ```text
//! 0x0000_0000                    +--------------------------+ -+
//!                                | BOOT vector table + code |  | BOOT region
//! boot info (top page)           | boot-info block          |  | (BOOTPROT)
//! boot size                      +--------------------------+ -+
//!                                | app vector table         |  |
//! + MANIFEST_OFFSET (0x400)      | app manifest             |  | app image
//!                                | app code                 |  |
//! bank top - SmartEEPROM reserve +--------------------------+ -+
//! ```
//!
//! The boot-info block ([`boot_info`]) is embedded by BOOT and read by the
//! application to audit compatibility; the manifest ([`manifest`]) is
//! embedded by the application and read by BOOT to verify an image. Both are
//! append-only flash ABIs.
//!
//! # Bench tooling
//!
//! [`manifest_tool`] and [`image`] stamp linked images, [`provision`] plans
//! and checks the user page, [`flash`] places BOOT at both bank heads, and
//! [`probe`] knows the controller's registers. [`proto`], [`link`], [`rtt`],
//! [`link_op`] and [`selftest`] talk to a rig and judge what it says.

pub mod boot;
pub mod boot_info;
pub mod bytes;
pub mod cli;
pub mod client;
pub mod consts;
pub mod crc32;
pub mod flash;
pub mod flash_writer;
pub mod image;
pub mod link;
pub mod link_op;
pub mod manifest;
pub mod manifest_tool;
pub mod persist;
pub mod probe;
pub mod proto;
pub mod provision;
pub mod rtt;
pub mod selftest;
pub mod text;
