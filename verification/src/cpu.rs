//! The sixteen general-purpose 8-bit registers of the machine.

use vstd::prelude::*;

verus! {

/// Number of registers.
pub const NUM_REGISTERS: u8 = 16;

/// Index of the register that receives carry, borrow, shift-out and
/// collision bits as a side effect of arithmetic, shift and draw
/// instructions. It stays readable and writable like any other register.
pub const FLAG_REGISTER: u8 = 15;

/// A bank of sixteen independently addressable 8-bit registers,
/// indices 0 through 15. The last one doubles as the flag register.
pub struct Registers {
    regs: [u8; 16],
}

impl View for Registers {
    type V = Seq<u8>;

    closed spec fn view(&self) -> Seq<u8> {
        self.regs@
    }
}

/// Every register bank holds exactly sixteen registers.
pub broadcast proof fn lemma_registers_len(r: Registers)
    ensures
        #[trigger] r@.len() == 16,
{
}

impl Registers {
    /// A fresh bank with every register zero.
    pub fn new() -> (r: Registers)
        ensures
            r@ == Seq::new(16, |i: int| 0u8),
    {
        let r = Registers { regs: [0u8; 16] };
        proof {
            assert(r@ =~= Seq::new(16, |i: int| 0u8));
        }
        r
    }

    /// Read register `i`.
    pub fn get(&self, i: u8) -> (v: u8)
        requires
            i < NUM_REGISTERS,
        ensures
            v == self@[i as int],
    {
        self.regs[i as usize]
    }

    /// Write `v` into register `i`. Afterwards a `get` of `i` returns `v`
    /// and every other register is unchanged.
    pub fn set(&mut self, i: u8, v: u8)
        requires
            i < NUM_REGISTERS,
        ensures
            final(self)@ == old(self)@.update(i as int, v),
            final(self)@[i as int] == v,
    {
        self.regs[i as usize] = v;
    }

    /// Write `v` into the flag register.
    pub fn set_flag(&mut self, v: u8)
        ensures
            final(self)@ == old(self)@.update(FLAG_REGISTER as int, v),
    {
        self.regs[FLAG_REGISTER as usize] = v;
    }
}

/// The lower-case character for hexadecimal digit `d`.
pub open spec fn hex_digit(d: u8) -> char {
    if d == 0 {
        '0'
    } else if d == 1 {
        '1'
    } else if d == 2 {
        '2'
    } else if d == 3 {
        '3'
    } else if d == 4 {
        '4'
    } else if d == 5 {
        '5'
    } else if d == 6 {
        '6'
    } else if d == 7 {
        '7'
    } else if d == 8 {
        '8'
    } else if d == 9 {
        '9'
    } else if d == 10 {
        'a'
    } else if d == 11 {
        'b'
    } else if d == 12 {
        'c'
    } else if d == 13 {
        'd'
    } else if d == 14 {
        'e'
    } else {
        'f'
    }
}

/// The lower-case character for hexadecimal digit `d`.
pub fn hex_char(d: u8) -> (c: char)
    requires
        d < 16,
    ensures
        c == hex_digit(d),
{
    match d {
        0 => '0',
        1 => '1',
        2 => '2',
        3 => '3',
        4 => '4',
        5 => '5',
        6 => '6',
        7 => '7',
        8 => '8',
        9 => '9',
        10 => 'a',
        11 => 'b',
        12 => 'c',
        13 => 'd',
        14 => 'e',
        _ => 'f',
    }
}

/// The first `n` registers as a space-separated row of two-digit
/// lower-case hex numbers, in index order.
pub open spec fn dump_seq(regs: Seq<u8>, n: int) -> Seq<char>
    decreases n,
{
    if n <= 0 {
        Seq::empty()
    } else {
        let sep: Seq<char> = if n == 1 {
            Seq::empty()
        } else {
            seq![' ']
        };
        dump_seq(regs, n - 1) + sep + seq![
            hex_digit(regs[n - 1] / 16),
            hex_digit(regs[n - 1] % 16),
        ]
    }
}

impl Registers {
    /// All sixteen registers as a space-separated row of two-digit
    /// lower-case hex numbers, in index order.
    pub fn hex_dump(&self) -> (out: Vec<char>)
        ensures
            out@ == dump_seq(self@, 16),
    {
        let mut out: Vec<char> = Vec::new();
        proof {
            assert(out@ =~= dump_seq(self@, 0));
        }
        let mut i: u8 = 0;
        while i < 16
            invariant
                i <= 16,
                out@ == dump_seq(self@, i as int),
            decreases 16 - i,
        {
            if i != 0 {
                out.push(' ');
            }
            let v = self.get(i);
            out.push(hex_char(v / 16));
            out.push(hex_char(v % 16));
            i = i + 1;
            proof {
                assert(out@ =~= dump_seq(self@, i as int));
            }
        }
        out
    }
}

impl Default for Registers {
    /// Same as `Registers::new`: every register zero.
    fn default() -> (r: Registers)
        ensures
            r@ == Seq::new(16, |i: int| 0u8),
    {
        Registers::new()
    }
}

} // verus!
