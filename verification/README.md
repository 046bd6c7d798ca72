# samd5-boot

A dual-bank A/B bootloader for ATSAMD5x / ATSAME5x microcontrollers, built on
the silicon's own bank swap rather than on a copier, with the bench tooling
that goes with it. The decisions are written and proved in Verus.

The flash of a SAM D5x/E5x is two equal banks, mapped in either order. A safe
update writes the new image into the bank that is not running, then issues
`BKSWRST`, which swaps the mapping and resets in one atomic step. There is no
window in which a half-written image is the one that boots.

## What is proved

`src/` holds no I/O. Each function takes what a register, a file, a probe or a
link said and gives back what to do; its contract says exactly which answer
goes with which input. On top of the contracts stand the laws, public proof
functions that relate them:

- `boot/laws.rs`: nothing is jumped to before the active slot verified; a
  trial is spent exactly as often as its budget says and then ends where it
  started; a bank is condemned before it is overwritten, and a failed download
  leaves it so and the running image alone; an interrupted install or revert
  is finished by the next boot.
- `manifest.rs`, `crc32.rs`: a stamped image describes itself, and any one
  damaged byte is noticed.
- `persist.rs`: a sealed record reads back, a torn write is the old record,
  the new one, or rejected; a spare store covers for a primary that fails.
- `flash_writer.rs`, `provision.rs`, `flash.rs`: the operations leave flash,
  the user page and both bank heads as planned, and touch nothing else; an
  image streams through a single page buffer.
- `proto.rs`, `link.rs`: a frame comes out whole however it is cut, and noise
  costs nothing past its own delimiter.
- `selftest.rs`: a rig that stays silent, or runs the wrong image, passes no
  check.

Four functions are trusted rather than proved, each a call into another crate
with a stated contract: two of `bytemuck` in `bytes.rs`, two of `cobs` in
`proto.rs`.

## Layout

| Path      | What it is                                                      |
|-----------|-----------------------------------------------------------------|
| `src/`    | the verified library                                            |
| `tests/`  | tests of it, on concrete values                                 |
| `app/`    | the bench tool and the firmware's hands: files, probe, serial   |

A boot record store or a transport is a trait with relations it chooses for
itself (`BootStorage`, `Link`'s `Transport`); an implementation that states
none of them may do anything, and the contracts over it still hold.

## Hazards worth knowing

- **Interrupts must be off across `BKSWRST`.** The swap stalls the AHB and
  forbids any NVM fetch. `Departure::Swap` asks for both in one.
- **BOOTPROT covers only the active bank's head.** The inactive copy is
  writable, which is why `flash::place` goes round by the swap.
- **A chip erase does not clear BOOTPROT**, the region locks, or the rest of
  the user page.
