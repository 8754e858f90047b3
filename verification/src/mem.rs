//! The machine's flat byte-addressable memory and the ROM buffer loaded
//! into it.

use vstd::prelude::*;
use vstd::slice::slice_subrange;

verus! {

/// Bytes of addressable memory.
pub const MEMORY_SIZE: usize = 4096;

/// Address at which the program is installed and execution starts.
pub const ROM_LOC: usize = 0x200;

/// Capacity for program bytes: everything above the program offset.
pub const ROM_SIZE: usize = MEMORY_SIZE - ROM_LOC;

/// Bytes per font glyph.
pub const FONT_SPRITE_SIZE: usize = 5;

/// Number of font glyphs, one per hexadecimal digit.
pub const FONT_SPRITES: usize = 16;

/// Total size of the font table at the bottom of memory.
pub const FONT_TABLE_SIZE: usize = FONT_SPRITE_SIZE * FONT_SPRITES;

/// Address of the glyph for hexadecimal digit `n & 0xf`.
pub open spec fn font_addr(n: u8) -> int {
    FONT_SPRITE_SIZE * ((n & 0xf) as int)
}

/// The memory: font table at the bottom, program from `ROM_LOC` up,
/// byte-addressable throughout.
pub struct Memory {
    mem: [u8; 4096],
}

impl View for Memory {
    type V = Seq<u8>;

    closed spec fn view(&self) -> Seq<u8> {
        self.mem@
    }
}

/// Every memory holds exactly `MEMORY_SIZE` bytes.
pub broadcast proof fn lemma_memory_len(m: Memory)
    ensures
        #[trigger] m@.len() == MEMORY_SIZE,
{
}

/// Every program image holds exactly `ROM_SIZE` bytes.
pub broadcast proof fn lemma_rom_len(r: Rom)
    ensures
        #[trigger] r@.len() == ROM_SIZE,
{
}

impl Memory {
    /// Fresh memory, all zero.
    pub fn new() -> (m: Memory)
        ensures
            m@ == Seq::new(MEMORY_SIZE as nat, |i: int| 0u8),
    {
        let m = Memory { mem: [0u8; 4096] };
        proof {
            assert(m@ =~= Seq::new(MEMORY_SIZE as nat, |i: int| 0u8));
        }
        m
    }

    /// Copy the program bytes into memory starting at `ROM_LOC`,
    /// overwriting everything from there up; lower memory is untouched.
    pub fn load_rom(&mut self, rom: Rom)
        ensures
            final(self)@ == old(self)@.subrange(0, ROM_LOC as int) + rom@,
    {
        let mut i: usize = 0;
        while i < ROM_SIZE
            invariant
                i <= ROM_SIZE,
                self@.len() == MEMORY_SIZE,
                rom@.len() == ROM_SIZE,
                forall|j: int| 0 <= j < ROM_LOC + i ==> self@[j] == (old(self)@.subrange(0, ROM_LOC as int) + rom@)[j],
                forall|j: int| ROM_LOC + i <= j < MEMORY_SIZE ==> self@[j] == old(self)@[j],
            decreases ROM_SIZE - i,
        {
            let b = rom.read(i);
            self.mem[ROM_LOC + i] = b;
            i = i + 1;
        }
        proof {
            assert(self@ =~= old(self)@.subrange(0, ROM_LOC as int) + rom@);
        }
    }

    /// Install the font table at the bottom of memory. The table must be
    /// exactly `FONT_TABLE_SIZE` bytes; memory above it is untouched.
    pub fn load_font(&mut self, sprites: &[u8])
        requires
            sprites@.len() == FONT_TABLE_SIZE,
        ensures
            final(self)@ == sprites@ + old(self)@.subrange(
                FONT_TABLE_SIZE as int,
                MEMORY_SIZE as int,
            ),
    {
        let mut i: usize = 0;
        while i < FONT_TABLE_SIZE
            invariant
                i <= FONT_TABLE_SIZE,
                self@.len() == MEMORY_SIZE,
                sprites@.len() == FONT_TABLE_SIZE,
                forall|j: int| 0 <= j < i ==> self@[j] == sprites@[j],
                forall|j: int| i <= j < MEMORY_SIZE ==> self@[j] == old(self)@[j],
            decreases FONT_TABLE_SIZE - i,
        {
            self.mem[i] = sprites[i];
            i = i + 1;
        }
        proof {
            assert(self@ =~= sprites@ + old(self)@.subrange(
                FONT_TABLE_SIZE as int,
                MEMORY_SIZE as int,
            ));
        }
    }

    /// Read the byte at address `i`.
    pub fn get(&self, i: u16) -> (v: u8)
        requires
            i < MEMORY_SIZE,
        ensures
            v == self@[i as int],
    {
        self.mem[i as usize]
    }

    /// Write `v` at address `i`.
    pub fn set(&mut self, i: u16, v: u8)
        requires
            i < MEMORY_SIZE,
        ensures
            final(self)@ == old(self)@.update(i as int, v),
    {
        self.mem[i as usize] = v;
    }

    /// Borrow the bytes at addresses `start..end`.
    pub fn slice(&self, start: u16, end: u16) -> (s: &[u8])
        requires
            start <= end,
            end <= MEMORY_SIZE,
        ensures
            s@ == self@.subrange(start as int, end as int),
    {
        slice_subrange(self.mem.as_slice(), start as usize, end as usize)
    }

    /// Address of the font glyph for hexadecimal digit `n & 0xf`. The
    /// whole glyph lies within the font table.
    pub fn font_offset(&self, n: u8) -> (a: u16)
        ensures
            a as int == font_addr(n),
            a + FONT_SPRITE_SIZE <= FONT_TABLE_SIZE,
    {
        let d: u16 = (n & 0xf) as u16;
        proof {
            assert(n & 0xf < 16) by (bit_vector);
        }
        d * 5
    }
}

impl Default for Memory {
    /// Same as `Memory::new`: all zero.
    fn default() -> (m: Memory)
        ensures
            m@ == Seq::new(MEMORY_SIZE as nat, |i: int| 0u8),
    {
        Memory::new()
    }
}

/// An immutable program image of exactly `ROM_SIZE` bytes, built from the
/// raw bytes the host loader read; capacity beyond them is zero-filled.
pub struct Rom {
    prgm: [u8; 3584],
}

impl View for Rom {
    type V = Seq<u8>;

    closed spec fn view(&self) -> Seq<u8> {
        self.prgm@
    }
}

impl Rom {
    /// Build a program image from raw bytes: the first `ROM_SIZE` bytes
    /// are kept (extra bytes are ignored), the rest is zero-filled.
    pub fn from_bytes(bytes: &[u8]) -> (r: Rom)
        ensures
            r@.len() == ROM_SIZE,
            forall|i: int| 0 <= i < ROM_SIZE && i < bytes@.len() ==> r@[i] == bytes@[i],
            forall|i: int| bytes@.len() <= i < ROM_SIZE ==> r@[i] == 0u8,
    {
        let mut prgm = [0u8; 3584];
        let mut i: usize = 0;
        let n: usize = if bytes.len() < ROM_SIZE {
            bytes.len()
        } else {
            ROM_SIZE
        };
        while i < n
            invariant
                i <= n,
                n <= bytes@.len(),
                n <= ROM_SIZE,
                forall|j: int| 0 <= j < i ==> prgm@[j] == bytes@[j],
                forall|j: int| i <= j < ROM_SIZE ==> prgm@[j] == 0u8,
            decreases n - i,
        {
            prgm[i] = bytes[i];
            i = i + 1;
        }
        Rom { prgm }
    }

    /// Read program byte `i`.
    pub fn read(&self, i: usize) -> (v: u8)
        requires
            i < ROM_SIZE,
        ensures
            v == self@[i as int],
    {
        self.prgm[i]
    }
}

} // verus!
