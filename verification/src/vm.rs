//! The interpreter: machine state, instruction decoding and execution.

use vstd::prelude::*;
use vstd::wrapping::{u16_specs, u8_specs};
use crate::cpu::Registers;
use crate::display::{collides, draw_rows, Display, Pixels};
use crate::mem::{font_addr, Memory, Rom, FONT_TABLE_SIZE, MEMORY_SIZE, ROM_LOC};

verus! {

broadcast use crate::mem::lemma_memory_len, crate::mem::lemma_rom_len, crate::cpu::lemma_registers_len;

/// A deterministic pseudo-random byte source (a 64-bit xorshift),
/// seeded once by the host.
pub struct Rng {
    s: u64,
}

/// The xorshift successor of a generator state.
pub open spec fn rng_next(s: u64) -> u64 {
    let a = s ^ (s << 13u64);
    let b = a ^ (a >> 7u64);
    b ^ (b << 17u64)
}

/// The byte drawn when stepping a generator in state `s`.
pub open spec fn rng_byte(s: u64) -> u8 {
    (rng_next(s) >> 32u64) as u8
}

impl Rng {
    /// The current generator state.
    pub closed spec fn state(&self) -> u64 {
        self.s
    }

    /// A generator starting from `seed`.
    pub fn new(seed: u64) -> (r: Rng)
        ensures
            r.state() == seed,
    {
        Rng { s: seed }
    }

    /// Draw the next byte and advance the state.
    pub fn next_byte(&mut self) -> (b: u8)
        ensures
            final(self).state() == rng_next(old(self).state()),
            b == rng_byte(old(self).state()),
    {
        let a: u64 = self.s ^ (self.s << 13u64);
        let b: u64 = a ^ (a >> 7u64);
        let c: u64 = b ^ (b << 17u64);
        self.s = c;
        #[verifier::truncate]
        let out: u8 = (c >> 32u64) as u8;
        out
    }
}

/// A terminal condition: `tick` stops the machine with one of these.
#[derive(Clone, Copy, Debug, PartialEq, Eq, Structural)]
pub enum VmError {
    /// The fetched word matches no instruction; carries the word.
    UnknownInstruction(u16),
    /// A return instruction ran with an empty call stack.
    StackUnderflow,
    /// A fetch or data access would run past the end of memory.
    AddressOutOfRange,
    /// A key-skip instruction named a key code of 16 or more.
    KeyOutOfRange,
}

/// Whether the machine is executing instructions or suspended until a
/// key release.
#[derive(Clone, Copy, Debug, PartialEq, Eq, Structural)]
pub enum Mode {
    Running,
    /// Suspended; the released key's code will be written to this register.
    WaitingForKey(u8),
}

/// Mathematical snapshot of the whole machine, the subject of every
/// interpreter contract.
#[verifier::ext_equal]
pub struct VmState {
    pub mem: Seq<u8>,
    pub regs: Seq<u8>,
    pub pc: u16,
    pub i: u16,
    pub dt: u8,
    pub st: u8,
    pub stack: Seq<u16>,
    pub display: Seq<u64>,
    pub rng: u64,
    pub keys: u16,
    pub mode: Mode,
}

impl VmState {
    /// Structural soundness: a wait target always names a real register.
    pub open spec fn wf(self) -> bool {
        self.mode matches Mode::WaitingForKey(t) ==> t < 16
    }
}

/// The sixteen built-in 5-byte font glyphs, hexadecimal digits 0 to F,
/// each row a byte with the glyph in its high nibble.
pub open spec fn font_seq() -> Seq<u8> {
    seq![
        0xF0u8, 0x90, 0x90, 0x90, 0xF0,
        0x20, 0x60, 0x20, 0x20, 0x70,
        0xF0, 0x10, 0xF0, 0x80, 0xF0,
        0xF0, 0x10, 0xF0, 0x10, 0xF0,
        0x90, 0x90, 0xF0, 0x10, 0x10,
        0xF0, 0x80, 0xF0, 0x10, 0xF0,
        0xF0, 0x80, 0xF0, 0x90, 0xF0,
        0xF0, 0x10, 0x20, 0x40, 0x40,
        0xF0, 0x90, 0xF0, 0x90, 0xF0,
        0xF0, 0x90, 0xF0, 0x10, 0xF0,
        0xF0, 0x90, 0xF0, 0x90, 0x90,
        0xE0, 0x90, 0xE0, 0x90, 0xE0,
        0xF0, 0x80, 0x80, 0x80, 0xF0,
        0xE0, 0x90, 0x90, 0x90, 0xE0,
        0xF0, 0x80, 0xF0, 0x80, 0xF0,
        0xF0, 0x80, 0xF0, 0x80, 0x80,
    ]
}

/// The font table as bytes, for installing with `Memory::load_font`.
pub fn font_table() -> (t: [u8; 80])
    ensures
        t@ == font_seq(),
{
    let t: [u8; 80] = [
        0xF0, 0x90, 0x90, 0x90, 0xF0,
        0x20, 0x60, 0x20, 0x20, 0x70,
        0xF0, 0x10, 0xF0, 0x80, 0xF0,
        0xF0, 0x10, 0xF0, 0x10, 0xF0,
        0x90, 0x90, 0xF0, 0x10, 0x10,
        0xF0, 0x80, 0xF0, 0x10, 0xF0,
        0xF0, 0x80, 0xF0, 0x90, 0xF0,
        0xF0, 0x10, 0x20, 0x40, 0x40,
        0xF0, 0x90, 0xF0, 0x90, 0xF0,
        0xF0, 0x90, 0xF0, 0x10, 0xF0,
        0xF0, 0x90, 0xF0, 0x90, 0x90,
        0xE0, 0x90, 0xE0, 0x90, 0xE0,
        0xF0, 0x80, 0x80, 0x80, 0xF0,
        0xE0, 0x90, 0x90, 0x90, 0xE0,
        0xF0, 0x80, 0xF0, 0x80, 0xF0,
        0xF0, 0x80, 0xF0, 0x80, 0x80,
    ];
    proof {
        assert(t@ =~= font_seq());
    }
    t
}

/// The machine right after construction: font at the bottom of memory,
/// program at `ROM_LOC`, everything else at rest.
pub open spec fn initial_state(rom: Seq<u8>, rng: u64) -> VmState {
    VmState {
        mem: font_seq() + Seq::new((ROM_LOC - FONT_TABLE_SIZE) as nat, |i: int| 0u8) + rom,
        regs: Seq::new(16, |i: int| 0u8),
        pc: ROM_LOC as u16,
        i: 0,
        dt: 0,
        st: 0,
        stack: Seq::empty(),
        display: Seq::new(32, |r: int| 0u64),
        rng: rng,
        keys: 0,
        mode: Mode::Running,
    }
}

/// Whether key `k` is down in the key bitmask `keys`.
pub open spec fn key_pressed(keys: u16, k: u8) -> bool {
    (keys >> k) & 1u16 == 1u16
}

/// The machine after a frame boundary: each timer steps down by one,
/// stopping at zero; nothing else moves.
pub open spec fn frame_tick(s: VmState) -> VmState {
    VmState {
        dt: if s.dt > 0 {
            (s.dt - 1) as u8
        } else {
            0u8
        },
        st: if s.st > 0 {
            (s.st - 1) as u8
        } else {
            0u8
        },
        ..s
    }
}

/// Law: timers floor at zero. A frame boundary never drives a timer
/// below zero, and a zero timer stays zero.
pub proof fn lemma_timers_floor_at_zero(s: VmState)
    ensures
        frame_tick(s).dt >= 0 && frame_tick(s).st >= 0,
        s.dt == 0 ==> frame_tick(s).dt == 0,
        s.st == 0 ==> frame_tick(s).st == 0,
        frame_tick(s).dt <= s.dt && frame_tick(s).st <= s.st,
{
}

/// The machine after key `k` is released: the key's bit clears, and a
/// machine waiting for a key resumes, capturing `k` in the wait target.
pub open spec fn key_release(s: VmState, k: u8) -> VmState {
    let keys = s.keys & !(1u16 << k);
    match s.mode {
        Mode::Running => VmState { keys, ..s },
        Mode::WaitingForKey(t) => VmState {
            keys,
            mode: Mode::Running,
            regs: s.regs.update(t as int, k),
            ..s
        },
    }
}

/// Which low nibbles select a defined register-pair instruction.
pub open spec fn math_op_defined(op: u8) -> bool {
    op <= 7 || op == 0xe
}

/// The register bank after register-pair instruction `op` on registers
/// `x` and `y`. Both operands are read before anything is written; the
/// flag and result writes happen in execution order, so when `x` is the
/// flag register itself the later write wins.
///
/// The shift instructions follow the dialect that shifts `VY` into `VX`
/// and reports the shifted-out bit in the flag; historical descriptions
/// disagree, and ROM compatibility depends on keeping this exact choice.
pub open spec fn math_regs(regs: Seq<u8>, x: u8, y: u8, op: u8) -> Seq<u8> {
    let vx = regs[x as int];
    let vy = regs[y as int];
    let xi = x as int;
    let flag = 15int;
    if op == 0 {
        regs.update(xi, vy)
    } else if op == 1 {
        regs.update(xi, vx | vy)
    } else if op == 2 {
        regs.update(xi, vx & vy)
    } else if op == 3 {
        regs.update(xi, vx ^ vy)
    } else if op == 4 {
        let sum = u8_specs::wrapping_add(vx, vy);
        regs.update(xi, sum).update(
            flag,
            if sum < vy {
                1u8
            } else {
                0u8
            },
        )
    } else if op == 5 {
        regs.update(
            flag,
            if vy > vx {
                1u8
            } else {
                0u8
            },
        ).update(xi, u8_specs::wrapping_sub(vx, vy))
    } else if op == 6 {
        regs.update(flag, vy & 1).update(xi, vy >> 1u8)
    } else if op == 7 {
        regs.update(
            flag,
            if vx > vy {
                1u8
            } else {
                0u8
            },
        ).update(xi, u8_specs::wrapping_sub(vy, vx))
    } else {
        regs.update(flag, (vy >> 7u8) & 1).update(xi, vy << 1u8)
    }
}

/// Memory after registers `0..=x` are stored at addresses `i..=i+x`.
pub open spec fn store_regs(mem: Seq<u8>, regs: Seq<u8>, i: int, x: int) -> Seq<u8> {
    Seq::new(
        mem.len(),
        |j: int|
            if i <= j <= i + x {
                regs[j - i]
            } else {
                mem[j]
            },
    )
}

/// Registers after `0..=x` are loaded from addresses `i..=i+x`.
pub open spec fn load_regs(regs: Seq<u8>, mem: Seq<u8>, i: int, x: int) -> Seq<u8> {
    Seq::new(
        regs.len(),
        |j: int|
            if 0 <= j <= x {
                mem[i + j]
            } else {
                regs[j]
            },
    )
}

/// The instruction word of the misc instruction with fields `x` and `nn`.
pub open spec fn misc_word(x: u8, nn: u8) -> u16 {
    0xf000u16 | ((x as u16) << 8u16) | (nn as u16)
}

/// One misc (`0xF`-class) instruction on machine `s`, keyed by `nn`,
/// before the program counter advances. `Err` leaves the machine as it
/// was; the undefined `nn` values and the accesses that would run past
/// the end of memory are the only errors. Adding a register into the
/// index register wraps at the 16-bit boundary; a later access through
/// an index past the end of memory fails at that access.
pub open spec fn step_misc(s: VmState, x: u8, nn: u8) -> Result<VmState, VmError> {
    let vx = s.regs[x as int];
    if nn == 0x07 {
        Ok(VmState { regs: s.regs.update(x as int, s.dt), ..s })
    } else if nn == 0x0a {
        Ok(VmState { mode: Mode::WaitingForKey(x), ..s })
    } else if nn == 0x15 {
        Ok(VmState { dt: vx, ..s })
    } else if nn == 0x18 {
        Ok(VmState { st: vx, ..s })
    } else if nn == 0x29 {
        Ok(VmState { i: font_addr(vx) as u16, ..s })
    } else if nn == 0x33 {
        if s.i + 3 > MEMORY_SIZE {
            Err(VmError::AddressOutOfRange)
        } else {
            Ok(
                VmState {
                    mem: s.mem.update(s.i as int, vx / 100 % 10).update(
                        s.i + 1,
                        vx / 10 % 10,
                    ).update(s.i + 2, vx % 10),
                    ..s
                },
            )
        }
    } else if nn == 0x1e {
        Ok(VmState { i: u16_specs::wrapping_add(s.i, vx as u16), ..s })
    } else if nn == 0x55 {
        if s.i + x + 1 > MEMORY_SIZE {
            Err(VmError::AddressOutOfRange)
        } else {
            Ok(
                VmState {
                    mem: store_regs(s.mem, s.regs, s.i as int, x as int),
                    i: (s.i + x + 1) as u16,
                    ..s
                },
            )
        }
    } else if nn == 0x65 {
        if s.i + x + 1 > MEMORY_SIZE {
            Err(VmError::AddressOutOfRange)
        } else {
            Ok(
                VmState {
                    regs: load_regs(s.regs, s.mem, s.i as int, x as int),
                    i: (s.i + x + 1) as u16,
                    ..s
                },
            )
        }
    } else {
        Err(VmError::UnknownInstruction(misc_word(x, nn)))
    }
}

/// One fetch-decode-execute step: the machine after `tick`, or the error
/// that stops it. A machine waiting for a key does nothing. The program
/// counter advances past the fetched instruction first, so control
/// transfers overwrite that default and skips add to it. `Err` leaves
/// the machine exactly as it was.
pub open spec fn step(s: VmState) -> Result<VmState, VmError> {
    if s.mode is WaitingForKey {
        Ok(s)
    } else if s.pc + 1 >= MEMORY_SIZE {
        Err(VmError::AddressOutOfRange)
    } else {
        let lo = s.mem[s.pc as int];
        let hi = s.mem[s.pc as int + 1];
        let ins = ((lo as u16) << 8u16) | (hi as u16);
        let op = (lo >> 4u8) & 0xf;
        let x = lo & 0xf;
        let y = (hi >> 4u8) & 0xf;
        let n = hi & 0xf;
        let nn = hi;
        let nnn = ins & 0xfff;
        let pc2 = (s.pc + 2) as u16;
        if ins == 0x00e0 {
            Ok(VmState { pc: pc2, display: Seq::new(32, |r: int| 0u64), ..s })
        } else if ins == 0x00ee {
            if s.stack.len() == 0 {
                Err(VmError::StackUnderflow)
            } else {
                Ok(VmState { pc: s.stack.last(), stack: s.stack.drop_last(), ..s })
            }
        } else if op == 0x1 {
            Ok(VmState { pc: nnn, ..s })
        } else if op == 0x2 {
            Ok(VmState { pc: nnn, stack: s.stack.push(pc2), ..s })
        } else if op == 0x3 {
            Ok(
                VmState {
                    pc: if s.regs[x as int] == nn {
                        (pc2 + 2) as u16
                    } else {
                        pc2
                    },
                    ..s
                },
            )
        } else if op == 0x4 {
            Ok(
                VmState {
                    pc: if s.regs[x as int] != nn {
                        (pc2 + 2) as u16
                    } else {
                        pc2
                    },
                    ..s
                },
            )
        } else if op == 0x5 {
            Ok(
                VmState {
                    pc: if s.regs[x as int] == s.regs[y as int] {
                        (pc2 + 2) as u16
                    } else {
                        pc2
                    },
                    ..s
                },
            )
        } else if op == 0x6 {
            Ok(VmState { pc: pc2, regs: s.regs.update(x as int, nn), ..s })
        } else if op == 0x7 {
            Ok(
                VmState {
                    pc: pc2,
                    regs: s.regs.update(
                        x as int,
                        u8_specs::wrapping_add(s.regs[x as int], nn),
                    ),
                    ..s
                },
            )
        } else if op == 0x8 {
            if math_op_defined(n) {
                Ok(VmState { pc: pc2, regs: math_regs(s.regs, x, y, n), ..s })
            } else {
                Err(VmError::UnknownInstruction(ins))
            }
        } else if op == 0x9 {
            Ok(
                VmState {
                    pc: if s.regs[x as int] != s.regs[y as int] {
                        (pc2 + 2) as u16
                    } else {
                        pc2
                    },
                    ..s
                },
            )
        } else if op == 0xa {
            Ok(VmState { pc: pc2, i: nnn, ..s })
        } else if op == 0xb {
            Ok(VmState { pc: (nnn + s.regs[0]) as u16, ..s })
        } else if op == 0xc {
            Ok(
                VmState {
                    pc: pc2,
                    rng: rng_next(s.rng),
                    regs: s.regs.update(x as int, rng_byte(s.rng) & nn),
                    ..s
                },
            )
        } else if op == 0xd {
            if s.i + n > MEMORY_SIZE {
                Err(VmError::AddressOutOfRange)
            } else {
                let sprite = s.mem.subrange(s.i as int, s.i + n);
                let vx = s.regs[x as int];
                let vy = s.regs[y as int];
                Ok(
                    VmState {
                        pc: pc2,
                        display: draw_rows(s.display, sprite, vx, vy),
                        regs: s.regs.update(
                            15,
                            if collides(s.display, sprite, vx, vy) {
                                1u8
                            } else {
                                0u8
                            },
                        ),
                        ..s
                    },
                )
            }
        } else if op == 0xe && nn == 0x9e {
            if s.regs[x as int] >= 16 {
                Err(VmError::KeyOutOfRange)
            } else {
                Ok(
                    VmState {
                        pc: if key_pressed(s.keys, s.regs[x as int]) {
                            (pc2 + 2) as u16
                        } else {
                            pc2
                        },
                        ..s
                    },
                )
            }
        } else if op == 0xe && nn == 0xa1 {
            if s.regs[x as int] >= 16 {
                Err(VmError::KeyOutOfRange)
            } else {
                Ok(
                    VmState {
                        pc: if !key_pressed(s.keys, s.regs[x as int]) {
                            (pc2 + 2) as u16
                        } else {
                            pc2
                        },
                        ..s
                    },
                )
            }
        } else if op == 0xf {
            match step_misc(s, x, nn) {
                Ok(s1) => Ok(VmState { pc: pc2, ..s1 }),
                Err(e) => Err(e),
            }
        } else {
            Err(VmError::UnknownInstruction(ins))
        }
    }
}

/// Law: a machine suspended waiting for a key does nothing on a step:
/// no instruction executes and the program counter does not move.
pub proof fn lemma_waiting_tick_is_no_op(s: VmState)
    requires
        s.mode is WaitingForKey,
    ensures
        step(s) == Ok::<VmState, VmError>(s),
{
}

/// Law: releasing key `k` while the machine waits for a key resumes
/// execution, captures `k` in the wait target register, and leaves the
/// program counter untouched.
pub proof fn lemma_key_release_resumes(s: VmState, k: u8)
    requires
        s.mode is WaitingForKey,
    ensures
        key_release(s, k).mode is Running,
        key_release(s, k).regs == s.regs.update(s.mode->0 as int, k),
        key_release(s, k).pc == s.pc,
{
}

/// Law (call): executing `2NNN` pushes the address of the instruction
/// after the call, and jumps into the low twelve bits of the word.
pub proof fn lemma_call_pushes_return_address(s: VmState)
    requires
        s.mode is Running,
        s.pc + 1 < MEMORY_SIZE,
        s.mem[s.pc as int] >> 4u8 == 0x2,
    ensures
        step(s) is Ok,
        step(s)->Ok_0.stack == s.stack.push((s.pc + 2) as u16),
        step(s)->Ok_0.pc == (((s.mem[s.pc as int] as u16) << 8u16) | (s.mem[s.pc as int
            + 1] as u16)) & 0xfff,
{
    let lo = s.mem[s.pc as int];
    let hi = s.mem[s.pc as int + 1];
    assert((lo >> 4u8) & 0xf == 0x2 && ((lo as u16) << 8u16) | (hi as u16) != 0x00e0 && ((
    lo as u16) << 8u16) | (hi as u16) != 0x00ee) by (bit_vector)
        requires
            lo >> 4u8 == 0x2,
    ;
}

/// Law (return): executing `00EE` with a non-empty call stack pops it
/// and resumes at the popped address.
pub proof fn lemma_return_pops_stack(s: VmState)
    requires
        s.mode is Running,
        s.pc + 1 < MEMORY_SIZE,
        s.mem[s.pc as int] == 0x00u8,
        s.mem[s.pc as int + 1] == 0xeeu8,
        s.stack.len() > 0,
    ensures
        step(s) is Ok,
        step(s)->Ok_0.pc == s.stack.last(),
        step(s)->Ok_0.stack == s.stack.drop_last(),
{
    assert(((0x00u8 as u16) << 8u16) | (0xeeu8 as u16) == 0x00ee) by (bit_vector);
}

/// Law: a call, followed eventually by a return that still sees the
/// frame the call pushed on top of the stack, resumes at the
/// instruction immediately after the original call.
pub proof fn lemma_call_then_return(s: VmState, t: VmState)
    requires
        s.mode is Running,
        s.pc + 1 < MEMORY_SIZE,
        s.mem[s.pc as int] >> 4u8 == 0x2,
        t.mode is Running,
        t.pc + 1 < MEMORY_SIZE,
        t.mem[t.pc as int] == 0x00u8,
        t.mem[t.pc as int + 1] == 0xeeu8,
        t.stack == step(s)->Ok_0.stack,
    ensures
        step(s) is Ok,
        step(t) is Ok,
        step(t)->Ok_0.pc == s.pc + 2,
        step(t)->Ok_0.stack == s.stack,
{
    lemma_call_pushes_return_address(s);
    lemma_return_pops_stack(t);
    assert(t.stack.drop_last() =~= s.stack);
}

/// The interpreter: memory, registers, framebuffer, program counter,
/// index register, call stack, timers, key state and random source.
pub struct Vm {
    mem: Memory,
    reg: Registers,
    pc: u16,
    dt: u8,
    st: u8,
    i: u16,
    ret_stack: Vec<u16>,
    display: Display,
    rng: Rng,
    mode: Mode,
    keys: u16,
}

impl View for Vm {
    type V = VmState;

    closed spec fn view(&self) -> VmState {
        VmState {
            mem: self.mem@,
            regs: self.reg@,
            pc: self.pc,
            i: self.i,
            dt: self.dt,
            st: self.st,
            stack: self.ret_stack@,
            display: self.display@,
            rng: self.rng.state(),
            keys: self.keys,
            mode: self.mode,
        }
    }
}

impl Vm {
    /// A machine with `r` installed at the program offset, the font
    /// installed at the bottom of memory, and execution about to start
    /// at the program offset.
    pub fn new(r: Rom, rng: Rng) -> (vm: Vm)
        ensures
            vm@ == initial_state(r@, rng.state()),
            vm@.wf(),
    {
        let ghost rom = r@;
        let ghost seed = rng.state();
        let mut mem = Memory::new();
        mem.load_rom(r);
        let font = font_table();
        mem.load_font(font.as_slice());
        let vm = Vm {
            mem,
            reg: Registers::new(),
            pc: ROM_LOC as u16,
            dt: 0,
            st: 0,
            i: 0,
            ret_stack: Vec::new(),
            display: Display::new(),
            rng,
            mode: Mode::Running,
            keys: 0,
        };
        proof {
            let target = initial_state(rom, seed).mem;
            assert(font_seq().len() == 80);
            assert(vm@.mem.len() == 4096 && target.len() == 4096);
            assert forall|j: int| 0 <= j < 4096 implies vm@.mem[j] == target[j] by {
                if j < 80 {
                    assert(vm@.mem[j] == font_seq()[j]);
                    assert(target[j] == font_seq()[j]);
                } else if j < ROM_LOC {
                    assert(vm@.mem[j] == 0u8);
                    assert(target[j] == 0u8);
                } else {
                    assert(vm@.mem[j] == rom[j - ROM_LOC]);
                    assert(target[j] == rom[j - ROM_LOC]);
                }
            }
            assert(vm@.mem =~= target);
            assert(vm@ =~= initial_state(rom, seed));
        }
        vm
    }

    /// Whether key `key` is currently pressed.
    pub fn is_key_pressed(&self, key: u8) -> (b: bool)
        requires
            key < 16,
        ensures
            b == key_pressed(self@.keys, key),
    {
        (self.keys >> key) & 1 == 1
    }

    /// Record that key `key` went down.
    pub fn keydown(&mut self, key: u8)
        requires
            key < 16,
        ensures
            final(self)@ == (VmState { keys: old(self)@.keys | (1u16 << key), ..old(self)@ }),
    {
        self.keys = self.keys | (1u16 << key);
        proof {
            assert(self@ =~= (VmState { keys: old(self)@.keys | (1u16 << key), ..old(self)@ }));
        }
    }

    /// Record that key `key` was released. If the machine was waiting for
    /// a key, the released code lands in the wait target register and the
    /// machine resumes running.
    pub fn keyup(&mut self, key: u8)
        requires
            key < 16,
            old(self)@.wf(),
        ensures
            final(self)@ == key_release(old(self)@, key),
            final(self)@.wf(),
    {
        self.keys = self.keys & !(1u16 << key);
        match self.mode {
            Mode::Running => {},
            Mode::WaitingForKey(t) => {
                self.mode = Mode::Running;
                self.reg.set(t, key);
            },
        }
        proof {
            assert(self@ =~= key_release(old(self)@, key));
        }
    }

    /// A frame boundary: step both timers down by one, stopping at zero.
    pub fn on_frame_tick(&mut self)
        ensures
            final(self)@ == frame_tick(old(self)@),
    {
        if self.dt > 0 {
            self.dt = self.dt - 1;
        }
        if self.st > 0 {
            self.st = self.st - 1;
        }
        proof {
            assert(self@ =~= frame_tick(old(self)@));
        }
    }

    /// Whether the machine is suspended waiting for a key release.
    pub fn is_waiting(&self) -> (b: bool)
        ensures
            b == (self@.mode is WaitingForKey),
    {
        match self.mode {
            Mode::WaitingForKey(_) => true,
            Mode::Running => false,
        }
    }

    /// The current execution mode.
    pub fn mode(&self) -> (m: Mode)
        ensures
            m == self@.mode,
    {
        self.mode
    }

    /// The current program counter.
    pub fn pc(&self) -> (v: u16)
        ensures
            v == self@.pc,
    {
        self.pc
    }

    /// The current index register I.
    pub fn index(&self) -> (v: u16)
        ensures
            v == self@.i,
    {
        self.i
    }

    /// Overwrite the index register I.
    pub fn set_index(&mut self, v: u16)
        ensures
            final(self)@ == (VmState { i: v, ..old(self)@ }),
    {
        self.i = v;
        proof {
            assert(self@ =~= (VmState { i: v, ..old(self)@ }));
        }
    }

    /// The delay timer.
    pub fn delay_timer(&self) -> (v: u8)
        ensures
            v == self@.dt,
    {
        self.dt
    }

    /// The sound timer.
    pub fn sound_timer(&self) -> (v: u8)
        ensures
            v == self@.st,
    {
        self.st
    }

    /// Read register `i`.
    pub fn reg(&self, i: u8) -> (v: u8)
        requires
            i < 16,
        ensures
            v == self@.regs[i as int],
    {
        self.reg.get(i)
    }

    /// Overwrite register `i`.
    pub fn set_reg(&mut self, i: u8, v: u8)
        requires
            i < 16,
        ensures
            final(self)@ == (VmState { regs: old(self)@.regs.update(i as int, v), ..old(self)@ }),
    {
        self.reg.set(i, v);
        proof {
            assert(self@ =~= (VmState {
                regs: old(self)@.regs.update(i as int, v),
                ..old(self)@
            }));
        }
    }

    /// Read the byte at memory address `addr`.
    pub fn mem_byte(&self, addr: u16) -> (v: u8)
        requires
            addr < MEMORY_SIZE,
        ensures
            v == self@.mem[addr as int],
    {
        self.mem.get(addr)
    }

    /// One register-pair arithmetic/logic instruction: operate on `VX`
    /// and `VY` as `op` selects, leaving every other part of the machine
    /// alone. Only the nibbles of `math_op_defined` are instructions.
    pub fn math_op(&mut self, x: u8, y: u8, op: u8)
        requires
            x < 16,
            y < 16,
            math_op_defined(op),
        ensures
            final(self)@ == (VmState {
                regs: math_regs(old(self)@.regs, x, y, op),
                ..old(self)@
            }),
    {
        let vx = self.reg.get(x);
        let vy = self.reg.get(y);
        match op {
            0x0 => {
                self.reg.set(x, vy);
            },
            0x1 => {
                self.reg.set(x, vx | vy);
            },
            0x2 => {
                self.reg.set(x, vx & vy);
            },
            0x3 => {
                self.reg.set(x, vx ^ vy);
            },
            0x4 => {
                let sum = vx.wrapping_add(vy);
                self.reg.set(x, sum);
                self.reg.set_flag(if sum < vy {
                    1
                } else {
                    0
                });
            },
            0x5 => {
                self.reg.set_flag(if vy > vx {
                    1
                } else {
                    0
                });
                self.reg.set(x, vx.wrapping_sub(vy));
            },
            0x6 => {
                self.reg.set_flag(vy & 1);
                self.reg.set(x, vy >> 1u8);
            },
            0x7 => {
                self.reg.set_flag(if vx > vy {
                    1
                } else {
                    0
                });
                self.reg.set(x, vy.wrapping_sub(vx));
            },
            _ => {
                self.reg.set_flag((vy >> 7u8) & 1);
                self.reg.set(x, vy << 1u8);
            },
        }
        proof {
            assert(self@ =~= (VmState {
                regs: math_regs(old(self)@.regs, x, y, op),
                ..old(self)@
            }));
        }
    }

    /// One misc (`0xF`-class) instruction, keyed by `nn`: timer reads and
    /// writes, the key wait, the font lookup, index arithmetic, the BCD
    /// store and the register block store and load. On `Err` the machine
    /// is unchanged.
    pub fn misc(&mut self, x: u8, nn: u8) -> (r: Result<(), VmError>)
        requires
            x < 16,
        ensures
            match r {
                Ok(()) => step_misc(old(self)@, x, nn) == Ok::<VmState, VmError>(final(self)@),
                Err(e) => step_misc(old(self)@, x, nn) == Err::<VmState, VmError>(e)
                    && final(self)@ == old(self)@,
            },
    {
        match nn {
            0x07 => {
                let dt = self.dt;
                self.reg.set(x, dt);
                proof {
                    assert(self@ =~= (VmState {
                        regs: old(self)@.regs.update(x as int, old(self)@.dt),
                        ..old(self)@
                    }));
                }
                Ok(())
            },
            0x0a => {
                self.mode = Mode::WaitingForKey(x);
                proof {
                    assert(self@ =~= (VmState { mode: Mode::WaitingForKey(x), ..old(self)@ }));
                }
                Ok(())
            },
            0x15 => {
                self.dt = self.reg.get(x);
                proof {
                    assert(self@ =~= (VmState { dt: old(self)@.regs[x as int], ..old(self)@ }));
                }
                Ok(())
            },
            0x18 => {
                self.st = self.reg.get(x);
                proof {
                    assert(self@ =~= (VmState { st: old(self)@.regs[x as int], ..old(self)@ }));
                }
                Ok(())
            },
            0x29 => {
                let vx = self.reg.get(x);
                self.i = self.mem.font_offset(vx);
                proof {
                    assert(self@ =~= (VmState {
                        i: font_addr(old(self)@.regs[x as int]) as u16,
                        ..old(self)@
                    }));
                }
                Ok(())
            },
            0x33 => {
                if self.i as usize + 3 > MEMORY_SIZE {
                    return Err(VmError::AddressOutOfRange);
                }
                let val = self.reg.get(x);
                let i0 = self.i;
                self.mem.set(i0, val / 100 % 10);
                self.mem.set(i0 + 1, val / 10 % 10);
                self.mem.set(i0 + 2, val % 10);
                proof {
                    let vx = old(self)@.regs[x as int];
                    assert(self@ =~= (VmState {
                        mem: old(self)@.mem.update(i0 as int, vx / 100 % 10).update(
                            i0 + 1,
                            vx / 10 % 10,
                        ).update(i0 + 2, vx % 10),
                        ..old(self)@
                    }));
                }
                Ok(())
            },
            0x1e => {
                let vx = self.reg.get(x);
                self.i = self.i.wrapping_add(vx as u16);
                proof {
                    assert(self@ =~= (VmState {
                        i: u16_specs::wrapping_add(
                            old(self)@.i,
                            old(self)@.regs[x as int] as u16,
                        ),
                        ..old(self)@
                    }));
                }
                Ok(())
            },
            0x55 => {
                if self.i as usize + x as usize + 1 > MEMORY_SIZE {
                    return Err(VmError::AddressOutOfRange);
                }
                let i0 = self.i;
                let mut k: u16 = 0;
                while k <= x as u16
                    invariant
                        k <= x + 1,
                        x < 16,
                        i0 == old(self)@.i,
                        i0 + x + 1 <= MEMORY_SIZE,
                        forall|j: int| 0 <= j < k ==> self@.mem[i0 + j] == old(self)@.regs[j],
                        forall|j: int|
                            0 <= j < MEMORY_SIZE && !(i0 <= j < i0 + k) ==> self@.mem[j] == old(
                                self,
                            )@.mem[j],
                        self@ == (VmState { mem: self@.mem, ..old(self)@ }),
                    decreases x + 1 - k,
                {
                    let v = self.reg.get(k as u8);
                    self.mem.set(i0 + k, v);
                    k = k + 1;
                }
                self.i = i0 + x as u16 + 1;
                proof {
                    assert(self@.mem =~= store_regs(
                        old(self)@.mem,
                        old(self)@.regs,
                        i0 as int,
                        x as int,
                    ));
                    assert(self@ =~= (VmState {
                        mem: store_regs(old(self)@.mem, old(self)@.regs, i0 as int, x as int),
                        i: (i0 + x + 1) as u16,
                        ..old(self)@
                    }));
                }
                Ok(())
            },
            0x65 => {
                if self.i as usize + x as usize + 1 > MEMORY_SIZE {
                    return Err(VmError::AddressOutOfRange);
                }
                let i0 = self.i;
                let mut k: u16 = 0;
                while k <= x as u16
                    invariant
                        k <= x + 1,
                        x < 16,
                        i0 == old(self)@.i,
                        i0 + x + 1 <= MEMORY_SIZE,
                        forall|j: int| 0 <= j < k ==> self@.regs[j] == old(self)@.mem[i0 + j],
                        forall|j: int| k <= j < 16 ==> self@.regs[j] == old(self)@.regs[j],
                        self@ == (VmState { regs: self@.regs, ..old(self)@ }),
                    decreases x + 1 - k,
                {
                    let v = self.mem.get(i0 + k);
                    self.reg.set(k as u8, v);
                    k = k + 1;
                }
                self.i = i0 + x as u16 + 1;
                proof {
                    assert(self@.regs =~= load_regs(
                        old(self)@.regs,
                        old(self)@.mem,
                        i0 as int,
                        x as int,
                    ));
                    assert(self@ =~= (VmState {
                        regs: load_regs(old(self)@.regs, old(self)@.mem, i0 as int, x as int),
                        i: (i0 + x + 1) as u16,
                        ..old(self)@
                    }));
                }
                Ok(())
            },
            _ => Err(VmError::UnknownInstruction(
                0xf000 | ((x as u16) << 8u16) | (nn as u16),
            )),
        }
    }

    /// Execute one instruction, or do nothing while waiting for a key.
    /// The machine after the call is exactly `step` of the machine
    /// before; on `Err` nothing has moved and the error says why the
    /// machine stopped.
    pub fn tick(&mut self) -> (r: Result<(), VmError>)
        requires
            old(self)@.wf(),
        ensures
            final(self)@.wf(),
            match r {
                Ok(()) => step(old(self)@) == Ok::<VmState, VmError>(final(self)@),
                Err(e) => step(old(self)@) == Err::<VmState, VmError>(e)
                    && final(self)@ == old(self)@,
            },
    {
        let ghost s0 = self@;
        match self.mode {
            Mode::WaitingForKey(_) => {
                return Ok(());
            },
            Mode::Running => {},
        }
        if self.pc >= 4095 {
            return Err(VmError::AddressOutOfRange);
        }
        let lo = self.mem.get(self.pc);
        let hi = self.mem.get(self.pc + 1);
        let ins: u16 = ((lo as u16) << 8u16) | (hi as u16);
        let op: u8 = (lo >> 4u8) & 0xf;
        let x: u8 = lo & 0xf;
        let y: u8 = (hi >> 4u8) & 0xf;
        let n: u8 = hi & 0xf;
        let nn: u8 = hi;
        let nnn: u16 = ins & 0xfff;
        let pc2: u16 = self.pc + 2;
        proof {
            assert(lo & 0xf < 16 && (lo >> 4u8) & 0xf < 16 && (hi >> 4u8) & 0xf < 16 && hi & 0xf
                < 16) by (bit_vector);
            assert(ins & 0xfff <= 0xfff) by (bit_vector);
        }
        if ins == 0x00e0 {
            self.display.clear();
            self.pc = pc2;
            proof {
                assert(self@ =~= (VmState {
                    pc: pc2,
                    display: Seq::new(32, |r: int| 0u64),
                    ..s0
                }));
            }
            return Ok(());
        }
        if ins == 0x00ee {
            match self.ret_stack.pop() {
                Some(addr) => {
                    self.pc = addr;
                    proof {
                        assert(self@ =~= (VmState {
                            pc: s0.stack.last(),
                            stack: s0.stack.drop_last(),
                            ..s0
                        }));
                    }
                    return Ok(());
                },
                None => {
                    return Err(VmError::StackUnderflow);
                },
            }
        }
        if op == 0x1 {
            self.pc = nnn;
            proof {
                assert(self@ =~= (VmState { pc: nnn, ..s0 }));
            }
            Ok(())
        } else if op == 0x2 {
            self.ret_stack.push(pc2);
            self.pc = nnn;
            proof {
                assert(self@ =~= (VmState { pc: nnn, stack: s0.stack.push(pc2), ..s0 }));
            }
            Ok(())
        } else if op == 0x3 {
            let taken = self.reg.get(x) == nn;
            self.pc = if taken {
                pc2 + 2
            } else {
                pc2
            };
            proof {
                assert(self@ =~= (VmState { pc: self@.pc, ..s0 }));
            }
            Ok(())
        } else if op == 0x4 {
            let taken = self.reg.get(x) != nn;
            self.pc = if taken {
                pc2 + 2
            } else {
                pc2
            };
            proof {
                assert(self@ =~= (VmState { pc: self@.pc, ..s0 }));
            }
            Ok(())
        } else if op == 0x5 {
            let taken = self.reg.get(x) == self.reg.get(y);
            self.pc = if taken {
                pc2 + 2
            } else {
                pc2
            };
            proof {
                assert(self@ =~= (VmState { pc: self@.pc, ..s0 }));
            }
            Ok(())
        } else if op == 0x6 {
            self.reg.set(x, nn);
            self.pc = pc2;
            proof {
                assert(self@ =~= (VmState {
                    pc: pc2,
                    regs: s0.regs.update(x as int, nn),
                    ..s0
                }));
            }
            Ok(())
        } else if op == 0x7 {
            let vx = self.reg.get(x);
            self.reg.set(x, vx.wrapping_add(nn));
            self.pc = pc2;
            proof {
                assert(self@ =~= (VmState {
                    pc: pc2,
                    regs: s0.regs.update(x as int, u8_specs::wrapping_add(s0.regs[x as int], nn)),
                    ..s0
                }));
            }
            Ok(())
        } else if op == 0x8 {
            if n <= 7 || n == 0xe {
                self.math_op(x, y, n);
                self.pc = pc2;
                proof {
                    assert(self@ =~= (VmState {
                        pc: pc2,
                        regs: math_regs(s0.regs, x, y, n),
                        ..s0
                    }));
                }
                Ok(())
            } else {
                Err(VmError::UnknownInstruction(ins))
            }
        } else if op == 0x9 {
            let taken = self.reg.get(x) != self.reg.get(y);
            self.pc = if taken {
                pc2 + 2
            } else {
                pc2
            };
            proof {
                assert(self@ =~= (VmState { pc: self@.pc, ..s0 }));
            }
            Ok(())
        } else if op == 0xa {
            self.i = nnn;
            self.pc = pc2;
            proof {
                assert(self@ =~= (VmState { pc: pc2, i: nnn, ..s0 }));
            }
            Ok(())
        } else if op == 0xb {
            let v0 = self.reg.get(0);
            self.pc = nnn + v0 as u16;
            proof {
                assert(self@ =~= (VmState { pc: (nnn + s0.regs[0]) as u16, ..s0 }));
            }
            Ok(())
        } else if op == 0xc {
            let b = self.rng.next_byte();
            self.reg.set(x, b & nn);
            self.pc = pc2;
            proof {
                assert(self@ =~= (VmState {
                    pc: pc2,
                    rng: rng_next(s0.rng),
                    regs: s0.regs.update(x as int, rng_byte(s0.rng) & nn),
                    ..s0
                }));
            }
            Ok(())
        } else if op == 0xd {
            if self.i as usize + n as usize > MEMORY_SIZE {
                return Err(VmError::AddressOutOfRange);
            }
            let end: u16 = self.i + n as u16;
            let vx = self.reg.get(x);
            let vy = self.reg.get(y);
            let sprite = self.mem.slice(self.i, end);
            let collision = self.display.draw(sprite, vx, vy);
            self.reg.set_flag(if collision {
                1
            } else {
                0
            });
            self.pc = pc2;
            proof {
                let sp = s0.mem.subrange(s0.i as int, s0.i + n);
                assert(self@ =~= (VmState {
                    pc: pc2,
                    display: draw_rows(s0.display, sp, s0.regs[x as int], s0.regs[y as int]),
                    regs: s0.regs.update(
                        15,
                        if collides(s0.display, sp, s0.regs[x as int], s0.regs[y as int]) {
                            1u8
                        } else {
                            0u8
                        },
                    ),
                    ..s0
                }));
            }
            Ok(())
        } else if op == 0xe && nn == 0x9e {
            let vx = self.reg.get(x);
            if vx >= 16 {
                return Err(VmError::KeyOutOfRange);
            }
            let taken = self.is_key_pressed(vx);
            self.pc = if taken {
                pc2 + 2
            } else {
                pc2
            };
            proof {
                assert(self@ =~= (VmState { pc: self@.pc, ..s0 }));
            }
            Ok(())
        } else if op == 0xe && nn == 0xa1 {
            let vx = self.reg.get(x);
            if vx >= 16 {
                return Err(VmError::KeyOutOfRange);
            }
            let taken = !self.is_key_pressed(vx);
            self.pc = if taken {
                pc2 + 2
            } else {
                pc2
            };
            proof {
                assert(self@ =~= (VmState { pc: self@.pc, ..s0 }));
            }
            Ok(())
        } else if op == 0xf {
            proof {
                assert(0xf000u16 | (((lo & 0xf) as u16) << 8u16) | (hi as u16) == ((lo as u16)
                    << 8u16) | (hi as u16)) by (bit_vector)
                    requires
                        (lo >> 4u8) & 0xf == 0xf,
                ;
            }
            match self.misc(x, nn) {
                Ok(()) => {
                    self.pc = pc2;
                    proof {
                        let s1 = step_misc(s0, x, nn)->Ok_0;
                        assert(self@ =~= (VmState { pc: pc2, ..s1 }));
                    }
                    Ok(())
                },
                Err(e) => Err(e),
            }
        } else {
            Err(VmError::UnknownInstruction(ins))
        }
    }

    /// A restartable walk over the framebuffer pixels for rendering.
    pub fn pixels(&self) -> (it: Pixels)
        ensures
            it.rows() == self@.display,
            it.pos() == 0,
    {
        self.display.pixels()
    }

    /// The framebuffer rendered as framed text lines.
    pub fn frame_text(&self) -> (out: Vec<char>)
        ensures
            out@ == crate::display::display_text(self@.display),
    {
        self.display.to_text()
    }
}

} // verus!

