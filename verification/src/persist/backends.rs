//! The two stores the silicon offers: backup RAM and SmartEEPROM.
//!
//! Both are memory-mapped, so reaching them is the firmware's business. What
//! is settled here is where a record sits, whether the live configuration
//! can hold one, and the order in which a SmartEEPROM record's words are
//! examined, written and read back.

use vstd::prelude::*;

use crate::consts::{BKUPRAM_ADDR, BKUPRAM_SIZE, SEEPROM_ADDR};
use crate::persist::{BootStore, STORE_SIZE};

verus! {

/// Words in a stored record.
pub const STORE_WORDS: usize = 4;

/// A record in backup RAM.
///
/// Backup RAM keeps its contents across any reset, including the one BKSWRST
/// performs, so the whole trial and rollback cycle works normally. It does
/// not survive loss of power: a cold boot reads as an unwritten store, which
/// the checksum turns into the fresh default. That makes this the right
/// backing for a bench rig, and for a product that is always powered and
/// wants a blackout treated as a blank slate.
///
/// `OFFSET` is in bytes from the base of backup RAM, so the record can sit
/// alongside whatever else the application keeps there.
pub struct BkupRamStore<const OFFSET: usize> {
    made: (),
}

impl<const OFFSET: usize> BkupRamStore<OFFSET> {
    /// Nothing else may use the record's bytes of backup RAM.
    pub fn new() -> (store: BkupRamStore<OFFSET>)
        requires
            OFFSET % 4 == 0,
            OFFSET + STORE_SIZE <= BKUPRAM_SIZE,
        ensures
            store.in_range(),
    {
        BkupRamStore { made: () }
    }

    /// The record is word-aligned and wholly inside backup RAM. Every store
    /// is: [`BkupRamStore::new`] is the only way to one.
    #[verifier::type_invariant]
    pub open spec fn in_range(self) -> bool {
        &&& OFFSET % 4 == 0
        &&& OFFSET + STORE_SIZE <= BKUPRAM_SIZE
    }

    /// Where the record starts: word-aligned, and wholly inside backup RAM.
    pub fn ptr(&self) -> (addr: usize)
        ensures
            addr == BKUPRAM_ADDR + OFFSET,
            addr % 4 == 0,
            addr + STORE_SIZE <= BKUPRAM_ADDR + BKUPRAM_SIZE,
    {
        proof {
            use_type_invariant(self);
        }
        BKUPRAM_ADDR + OFFSET
    }
}

/// A word write to a locked SmartEEPROM is discarded silently; the read-back
/// surfaces it as this.
#[derive(Clone, Copy, PartialEq, Eq, Structural, Debug)]
pub struct SeeWriteFailed;

/// Why [`SmartEepromStore::new`] rejected the live SmartEEPROM configuration.
/// `SeeUnavailable`: SBLK 0 (disabled) or a reserved SBLK (11+). `SeeLocked`:
/// `SEESTAT.LOCK` set (see [`SeeWriteFailed`]). `SeeBuffered`: `SEECFG.WMODE`
/// buffered, which defers word commits and voids per-word power-atomicity.
/// `OffsetOutOfRange`: the record ends past the configured virtual size.
#[derive(Clone, Copy, PartialEq, Eq, Structural, Debug)]
pub enum StoreConfigError {
    SeeUnavailable,
    SeeLocked,
    SeeBuffered,
    OffsetOutOfRange,
}

/// The live SmartEEPROM configuration: `SEESTAT` and `SEECFG.WMODE`.
#[derive(Clone, Copy, PartialEq, Eq, Structural, Debug)]
pub struct SeeStatus {
    /// `SEESTAT.SBLK`, the blocks set aside.
    pub sblk: u8,
    /// `SEESTAT.PSZ`, a three-bit field that scales the virtual page.
    pub psz: u8,
    /// `SEESTAT.LOCK`.
    pub lock: bool,
    /// `SEECFG.WMODE`: word writes are buffered.
    pub buffered: bool,
}

impl SeeStatus {
    /// The most a number of blocks can back, if it is one in use (DS Table
    /// 25-6).
    pub open spec fn cap(sblk: u8) -> Option<usize> {
        if sblk == 0 || sblk > 10 {
            None
        } else if sblk == 1 {
            Some(4096)
        } else if sblk == 2 {
            Some(8192)
        } else if sblk <= 4 {
            Some(16384)
        } else if sblk <= 8 {
            Some(32768)
        } else {
            Some(65536)
        }
    }

    /// Bytes of virtual space: PSZ scales it, SBLK caps it.
    pub open spec fn spec_virtual_size(self) -> usize {
        let scaled = 512usize << self.psz;
        let cap = SeeStatus::cap(self.sblk)->Some_0;
        if scaled <= cap {
            scaled
        } else {
            cap
        }
    }

    /// What a store at `offset` finds wrong with this configuration.
    pub open spec fn objection(self, offset: int) -> Option<StoreConfigError> {
        if SeeStatus::cap(self.sblk) is None {
            Some(StoreConfigError::SeeUnavailable)
        } else if offset + STORE_SIZE > self.spec_virtual_size() {
            Some(StoreConfigError::OffsetOutOfRange)
        } else if self.lock {
            Some(StoreConfigError::SeeLocked)
        } else if self.buffered {
            Some(StoreConfigError::SeeBuffered)
        } else {
            None
        }
    }
}

/// A record on SmartEEPROM. `OFFSET` is in bytes from the start of the
/// virtual space, so the record coexists with application data stored
/// elsewhere in it.
pub struct SmartEepromStore<const OFFSET: usize> {
    made: (),
}

impl<const OFFSET: usize> SmartEepromStore<OFFSET> {
    /// Validates the live SmartEEPROM configuration against `OFFSET`.
    ///
    /// Caller must ensure that nothing else is stored in the record's bytes.
    pub fn new(status: SeeStatus) -> (r: Result<SmartEepromStore<OFFSET>, StoreConfigError>)
        requires
            OFFSET % 4 == 0,
            OFFSET + STORE_SIZE <= usize::MAX,
            status.psz <= 7,
        ensures
            r matches Err(e) ==> status.objection(OFFSET as int) == Some(e),
            r matches Ok(store) ==> status.objection(OFFSET as int) is None && store.in_range(),
    {
        // Virtual size per DS Table 25-6: PSZ scales it, SBLK caps it.
        let cap: usize = match status.sblk {
            1 => 4096,
            2 => 8192,
            3 | 4 => 16384,
            5 | 6 | 7 | 8 => 32768,
            9 | 10 => 65536,
            _ => return Err(StoreConfigError::SeeUnavailable),
        };
        let scaled: usize = 512usize << status.psz;
        let virtual_size: usize = if scaled <= cap {
            scaled
        } else {
            cap
        };
        if OFFSET + STORE_SIZE > virtual_size {
            return Err(StoreConfigError::OffsetOutOfRange);
        }
        if status.lock {
            return Err(StoreConfigError::SeeLocked);
        }
        if status.buffered {
            return Err(StoreConfigError::SeeBuffered);
        }
        Ok(SmartEepromStore { made: () })
    }

    /// The record is word-aligned and wholly inside the largest virtual
    /// space. Every store is: [`SmartEepromStore::new`] is the only way to
    /// one.
    #[verifier::type_invariant]
    pub open spec fn in_range(self) -> bool {
        &&& OFFSET % 4 == 0
        &&& OFFSET + STORE_SIZE <= 65536
    }

    /// Where word `index` of the record sits.
    pub fn word_ptr(&self, index: usize) -> (addr: usize)
        requires
            index < STORE_WORDS,
        ensures
            addr == SEEPROM_ADDR + OFFSET + 4 * index,
            addr % 4 == 0,
            addr + 4 <= SEEPROM_ADDR + 65536,
    {
        proof {
            use_type_invariant(self);
        }
        SEEPROM_ADDR + OFFSET + 4 * index
    }
}

/// What the hardware is asked to do next in a SmartEEPROM write.
#[derive(Clone, Copy, PartialEq, Eq, Debug)]
pub enum SeeAction {
    /// Wait for the controller, read word `index` and report it.
    Read { index: usize },
    /// Wait, write `word` to word `index`, wait, read it back and report
    /// what it now is.
    Write { index: usize, word: u32 },
    /// The write is over.
    Done(Result<(), SeeWriteFailed>),
}

/// A SmartEEPROM write in progress: the words go out one by one, each one
/// only if it would change, and each one read back.
#[derive(Clone, Copy)]
pub struct SeeWrite {
    pub words: [u32; 4],
    pub index: usize,
    /// The word at `index` has been written and is being read back.
    pub written: bool,
}

/// What follows a read of word `index` while `words` are being written.
pub open spec fn see_answer(words: Seq<u32>, index: int, written: bool, read: u32) -> SeeAction {
    if read == words[index] {
        if index + 1 < words.len() {
            SeeAction::Read { index: (index + 1) as usize }
        } else {
            SeeAction::Done(Ok(()))
        }
    } else if written {
        SeeAction::Done(Err(SeeWriteFailed))
    } else {
        SeeAction::Write { index: index as usize, word: words[index] }
    }
}

impl SeeWrite {
    /// There is a word left to deal with.
    pub open spec fn wf(self) -> bool {
        self.index < STORE_WORDS
    }

    /// What follows a read of the word at `index`.
    pub open spec fn answer(self, read: u32) -> SeeAction {
        see_answer(self.words@, self.index as int, self.written, read)
    }

    /// Start writing a record. The first thing needed is its first word.
    pub fn start(record: &BootStore) -> (r: (SeeWrite, SeeAction))
        ensures
            r.0.wf(),
            r.0.words@ == record.words(),
            r.0.index == 0,
            !r.0.written,
            r.1 == (SeeAction::Read { index: 0 }),
    {
        (
            SeeWrite { words: record.to_words(), index: 0, written: false },
            SeeAction::Read { index: 0 },
        )
    }

    /// Take the word just read, or read back, and say what follows.
    ///
    /// An unchanged word is skipped: no wear or time spent rewriting an
    /// identical journal entry. A word that does not read back as written
    /// ends the write.
    pub fn step(&mut self, read: u32) -> (next: SeeAction)
        requires
            old(self).wf(),
        ensures
            next == old(self).answer(read),
            final(self).words == old(self).words,
            next is Done || final(self).wf(),
            next is Read ==> final(self).index == old(self).index + 1 && !final(self).written,
            next is Write ==> final(self).index == old(self).index && final(self).written,
    {
        let word: u32 = self.words[self.index];
        if read != word {
            if self.written {
                return SeeAction::Done(Err(SeeWriteFailed));
            }
            self.written = true;
            return SeeAction::Write { index: self.index, word };
        }
        if self.index + 1 < STORE_WORDS {
            self.index = self.index + 1;
            self.written = false;
            SeeAction::Read { index: self.index }
        } else {
            SeeAction::Done(Ok(()))
        }
    }
}

// ── Laws ────────────────────────────────────────────────────────────────

/// The write played out against a memory from word `index` on: what the
/// memory holds afterwards and what was reported. A locked memory discards
/// what it is sent.
pub open spec fn see_outcome(mem: Seq<u32>, words: Seq<u32>, index: int, locked: bool) -> (
    Seq<u32>,
    Result<(), SeeWriteFailed>,
)
    decreases words.len() - index,
{
    if index >= words.len() {
        (mem, Ok(()))
    } else {
        match see_answer(words, index, false, mem[index]) {
            SeeAction::Write { index: i, word } => {
                let mem = if locked {
                    mem
                } else {
                    mem.update(i as int, word)
                };
                match see_answer(words, index, true, mem[index]) {
                    SeeAction::Done(Err(e)) => (mem, Err(e)),
                    _ => see_outcome(mem, words, index + 1, locked),
                }
            },
            _ => see_outcome(mem, words, index + 1, locked),
        }
    }
}

/// An unlocked memory ends up holding the record and success is reported.
pub proof fn an_unlocked_memory_takes_the_record(mem: Seq<u32>, words: Seq<u32>, index: int)
    requires
        words.len() == STORE_WORDS,
        mem.len() == STORE_WORDS,
        0 <= index <= STORE_WORDS,
        forall|i: int| 0 <= i < index ==> mem[i] == words[i],
    ensures
        see_outcome(mem, words, index, false) == (words, Ok::<(), SeeWriteFailed>(())),
    decreases STORE_WORDS - index,
{
    if index < STORE_WORDS {
        if mem[index] == words[index] {
            an_unlocked_memory_takes_the_record(mem, words, index + 1);
        } else {
            an_unlocked_memory_takes_the_record(mem.update(index, words[index]), words, index + 1);
        }
    } else {
        assert(mem =~= words);
    }
}

/// A locked memory is never reported as written unless it held the record
/// already, and it is left as it was.
pub proof fn a_locked_memory_is_reported(mem: Seq<u32>, words: Seq<u32>, index: int)
    requires
        words.len() == STORE_WORDS,
        mem.len() == STORE_WORDS,
        0 <= index <= STORE_WORDS,
        forall|i: int| 0 <= i < index ==> mem[i] == words[i],
    ensures
        see_outcome(mem, words, index, true).0 == mem,
        see_outcome(mem, words, index, true).1 is Ok <==> mem == words,
    decreases STORE_WORDS - index,
{
    if index < STORE_WORDS {
        if mem[index] == words[index] {
            a_locked_memory_is_reported(mem, words, index + 1);
        }
    } else {
        assert(mem =~= words);
    }
}

} // verus!
