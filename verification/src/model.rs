//! The mathematical model of the machine: an abstract view of the state and
//! the transition function that gives the meaning of every opcode. The
//! executable interpreter is proved to follow these functions exactly.

use vstd::prelude::*;

use crate::decode::{addr_of, byte_of, family_of, sub_of, x_of, y_of};
use crate::font::{font_table, FONT_BYTES};
use crate::{DISPLAY_HEIGHT, DISPLAY_LEN, DISPLAY_WIDTH, MEM_SIZE, NUM_REGISTERS, REG_DT, REG_ST,
    REG_VF, ROM_BASE, STACK_SIZE};

verus! {

/// A fatal interpreter condition: execution must halt and the fault is
/// surfaced to the host. The machine state is left as it was before the
/// faulting instruction; nothing is partially written.
#[derive(Clone, Copy, Debug, PartialEq, Eq, Structural)]
pub enum Fault {
    /// A fetch, sprite read, or indirect load/store reached past the end of
    /// memory.
    MemoryOutOfBounds,
    /// CALL with the stack pointer already at capacity.
    StackOverflow,
    /// RETURN with the stack pointer at its empty sentinel.
    StackUnderflow,
    /// The program buffer does not fit in memory above the reserved region.
    RomTooLarge,
}

/// The non-fatal outcome of one executed instruction.
#[derive(Clone, Copy, Debug, PartialEq, Eq, Structural)]
pub enum Outcome {
    /// The opcode was recognized and executed.
    Executed,
    /// No rule matches the opcode; it was treated as a no-op, with the
    /// program counter already advanced past it.
    UnknownOpcode(u16),
    /// The machine is stalled waiting for a key press (LD Vx, K); it will
    /// not advance until a key is delivered.
    AwaitingKey,
}

/// The abstract state of the machine.
pub ghost struct Chip8View {
    /// The 16-bit index register I.
    pub i_reg: u16,
    /// The program counter.
    pub pc: u16,
    /// The stack pointer: index of the current top of the stack; 0 is the
    /// empty sentinel, so slot 0 is never read back.
    pub sp: u8,
    /// The sixteen general-purpose registers V0..VF followed by the delay
    /// and sound timers.
    pub registers: Seq<u8>,
    /// The byte-addressable memory.
    pub memory: Seq<u8>,
    /// The call stack of 16-bit return addresses.
    pub stack: Seq<u16>,
    /// The row-major display bitmap; each cell is 0 (dark) or 1 (lit).
    pub display: Seq<u8>,
    /// When `Some(x)`, the machine is stalled on LD Vx, K until a key press
    /// is delivered for register `x`.
    pub waiting: Option<u8>,
}

/// Well-formedness of a machine state: fixed storage sizes, a stack pointer
/// inside the stack, display cells that are bits, and a register index in
/// any pending key wait.
pub open spec fn wf(s: Chip8View) -> bool {
    &&& s.registers.len() == NUM_REGISTERS
    &&& s.memory.len() == MEM_SIZE
    &&& s.stack.len() == STACK_SIZE
    &&& s.display.len() == DISPLAY_LEN
    &&& s.sp < STACK_SIZE
    &&& forall|p: int| 0 <= p < s.display.len() ==> s.display[p] <= 1
    &&& match s.waiting {
        Some(x) => x < 16,
        None => true,
    }
}

/// Memory as it stands when a machine is created: the font table in the low
/// region, zero elsewhere.
pub open spec fn initial_memory() -> Seq<u8> {
    Seq::new(MEM_SIZE as nat, |i: int| if i < FONT_BYTES { font_table()[i] } else { 0u8 })
}

/// The state of a freshly created machine: everything zeroed, the font
/// loaded, and the program counter at the start of program space.
pub open spec fn initial_state() -> Chip8View {
    Chip8View {
        i_reg: 0,
        pc: ROM_BASE as u16,
        sp: 0,
        registers: Seq::new(NUM_REGISTERS as nat, |i: int| 0u8),
        memory: initial_memory(),
        stack: Seq::new(STACK_SIZE as nat, |i: int| 0u16),
        display: blank_display(),
        waiting: None,
    }
}

/// A display with every cell dark.
pub open spec fn blank_display() -> Seq<u8> {
    Seq::new(DISPLAY_LEN as nat, |i: int| 0u8)
}

/// A value reduced to 8 bits (arithmetic modulo 256).
pub open spec fn wrap8(v: int) -> u8 {
    (v % 0x100) as u8
}

/// A value reduced to 16 bits (arithmetic modulo 65536).
pub open spec fn wrap16(v: int) -> u16 {
    (v % 0x10000) as u16
}

/// Bit `j` of a sprite row byte, with bit 0 the most significant (drawn
/// leftmost); 0 or 1.
pub open spec fn sprite_bit(b: u8, j: int) -> u8 {
    (b >> ((7 - j) as u8)) & 1
}

/// The display cell for screen coordinates `(x, y)`, with both coordinates
/// wrapped once around the screen.
pub open spec fn pix(x: int, y: int) -> int {
    (y % (DISPLAY_HEIGHT as int)) * (DISPLAY_WIDTH as int) + (x % (DISPLAY_WIDTH as int))
}

/// The display after writing the leftmost `nbits` pixels of sprite row byte
/// `b` at coordinates `(x0 .. x0 + nbits, y)`, later bits written last.
pub open spec fn draw_row_disp(d: Seq<u8>, b: u8, x0: int, y: int, nbits: int) -> Seq<u8>
    decreases nbits,
{
    if nbits <= 0 {
        d
    } else {
        let j = nbits - 1;
        draw_row_disp(d, b, x0, y, j).update(pix(x0 + j, y), sprite_bit(b, j))
    }
}

/// Whether writing the leftmost `nbits` pixels of row byte `b` erases a lit
/// pixel: some written bit is 0 where the cell held 1 as it was written.
pub open spec fn row_collision(d: Seq<u8>, b: u8, x0: int, y: int, nbits: int) -> bool
    decreases nbits,
{
    if nbits <= 0 {
        false
    } else {
        let j = nbits - 1;
        ||| row_collision(d, b, x0, y, j)
        ||| (sprite_bit(b, j) == 0 && draw_row_disp(d, b, x0, y, j)[pix(x0 + j, y)] == 1)
    }
}

/// The display after drawing the first `nrows` rows of `sprite` at
/// coordinates `(x0, y0)`, row `i` at height `y0 + i`.
pub open spec fn draw_sprite_disp(d: Seq<u8>, sprite: Seq<u8>, x0: int, y0: int, nrows: int) -> Seq<
    u8,
>
    decreases nrows,
{
    if nrows <= 0 {
        d
    } else {
        let i = nrows - 1;
        draw_row_disp(draw_sprite_disp(d, sprite, x0, y0, i), sprite[i], x0, y0 + i, 8)
    }
}

/// Whether drawing the first `nrows` rows of `sprite` erases a lit pixel.
pub open spec fn sprite_collision(d: Seq<u8>, sprite: Seq<u8>, x0: int, y0: int, nrows: int) -> bool
    decreases nrows,
{
    if nrows <= 0 {
        false
    } else {
        let i = nrows - 1;
        ||| sprite_collision(d, sprite, x0, y0, i)
        ||| row_collision(draw_sprite_disp(d, sprite, x0, y0, i), sprite[i], x0, y0 + i, 8)
    }
}

/// Memory after copying registers `V0..=Vx` to addresses `base..=base + x`.
pub open spec fn regs_stored(mem: Seq<u8>, regs: Seq<u8>, base: int, x: int) -> Seq<u8> {
    Seq::new(mem.len(), |p: int| if base <= p <= base + x { regs[p - base] } else { mem[p] })
}

/// Registers after filling `V0..=Vx` from addresses `base..=base + x`.
pub open spec fn regs_loaded(regs: Seq<u8>, mem: Seq<u8>, base: int, x: int) -> Seq<u8> {
    Seq::new(regs.len(), |r: int| if 0 <= r <= x { mem[base + r] } else { regs[r] })
}

/// The system family (top nibble 0): clear screen, return, else unknown.
pub open spec fn step_sys(s: Chip8View, op: u16) -> (Chip8View, Result<Outcome, Fault>) {
    if byte_of(op) == 0xE0 {
        (Chip8View { display: blank_display(), ..s }, Ok(Outcome::Executed))
    } else if byte_of(op) == 0xEE {
        if s.sp == 0 {
            (s, Err(Fault::StackUnderflow))
        } else {
            (
                Chip8View { pc: s.stack[s.sp as int], sp: (s.sp - 1) as u8, ..s },
                Ok(Outcome::Executed),
            )
        }
    } else {
        (s, Ok(Outcome::UnknownOpcode(op)))
    }
}

/// The register-to-register family (top nibble 8). The flag write to VF
/// always follows the primary register write, so an instruction whose
/// destination is VF itself ends with the flag value (the flag-clobbers-data
/// quirk of the reference architecture).
pub open spec fn step_alu(s: Chip8View, op: u16) -> (Chip8View, Result<Outcome, Fault>) {
    let x = x_of(op) as int;
    let y = y_of(op) as int;
    let a = s.registers[x];
    let b = s.registers[y];
    let n = sub_of(op);
    if n == 0x0 {
        (Chip8View { registers: s.registers.update(x, b), ..s }, Ok(Outcome::Executed))
    } else if n == 0x1 {
        (Chip8View { registers: s.registers.update(x, a | b), ..s }, Ok(Outcome::Executed))
    } else if n == 0x2 {
        (Chip8View { registers: s.registers.update(x, a & b), ..s }, Ok(Outcome::Executed))
    } else if n == 0x3 {
        (Chip8View { registers: s.registers.update(x, a ^ b), ..s }, Ok(Outcome::Executed))
    } else if n == 0x4 {
        let flag: u8 = if a + b > 0xFF {
            1
        } else {
            0
        };
        (
            Chip8View { registers: s.registers.update(x, wrap8(a + b)).update(REG_VF as int, flag), ..s },
            Ok(Outcome::Executed),
        )
    } else if n == 0x5 {
        let flag: u8 = if a >= b {
            1
        } else {
            0
        };
        (
            Chip8View { registers: s.registers.update(x, wrap8(a - b)).update(REG_VF as int, flag), ..s },
            Ok(Outcome::Executed),
        )
    } else if n == 0x6 {
        (
            Chip8View {
                registers: s.registers.update(x, a / 2).update(REG_VF as int, a % 2),
                ..s
            },
            Ok(Outcome::Executed),
        )
    } else if n == 0x7 {
        let flag: u8 = if b > a {
            1
        } else {
            0
        };
        (
            Chip8View { registers: s.registers.update(x, wrap8(b - a)).update(REG_VF as int, flag), ..s },
            Ok(Outcome::Executed),
        )
    } else if n == 0xE {
        (
            Chip8View {
                registers: s.registers.update(x, wrap8(a * 2)).update(REG_VF as int, a / 128),
                ..s
            },
            Ok(Outcome::Executed),
        )
    } else {
        (s, Ok(Outcome::UnknownOpcode(op)))
    }
}

/// The sprite-draw instruction (top nibble D): VF is reset, the coordinates
/// are taken from the two register fields, and an `n`-row sprite read from
/// memory at I is written to the display with per-pixel wraparound; VF ends
/// 1 exactly when a lit pixel was erased. A sprite read past the end of
/// memory is a fault that leaves the state unchanged.
pub open spec fn step_draw(s: Chip8View, op: u16) -> (Chip8View, Result<Outcome, Fault>) {
    let n = sub_of(op) as int;
    let regs0 = s.registers.update(REG_VF as int, 0u8);
    let x0 = regs0[x_of(op) as int] as int;
    let y0 = regs0[y_of(op) as int] as int;
    if n > 0 && s.i_reg + n > MEM_SIZE {
        (s, Err(Fault::MemoryOutOfBounds))
    } else {
        let sprite = if n == 0 {
            Seq::<u8>::empty()
        } else {
            s.memory.subrange(s.i_reg as int, s.i_reg + n)
        };
        let coll = sprite_collision(s.display, sprite, x0, y0, n);
        let flag: u8 = if coll {
            1
        } else {
            0
        };
        (
            Chip8View {
                display: draw_sprite_disp(s.display, sprite, x0, y0, n),
                registers: regs0.update(REG_VF as int, flag),
                ..s
            },
            Ok(Outcome::Executed),
        )
    }
}

/// The miscellaneous family (top nibble F): timers, key wait, index
/// arithmetic, font addressing, BCD, and register block transfer.
pub open spec fn step_misc(s: Chip8View, op: u16) -> (Chip8View, Result<Outcome, Fault>) {
    let x = x_of(op) as int;
    let kk = byte_of(op);
    let v = s.registers[x];
    if kk == 0x07 {
        (
            Chip8View { registers: s.registers.update(x, s.registers[REG_DT as int]), ..s },
            Ok(Outcome::Executed),
        )
    } else if kk == 0x0A {
        (Chip8View { waiting: Some(x_of(op) as u8), ..s }, Ok(Outcome::AwaitingKey))
    } else if kk == 0x15 {
        (
            Chip8View { registers: s.registers.update(REG_DT as int, v), ..s },
            Ok(Outcome::Executed),
        )
    } else if kk == 0x18 {
        (
            Chip8View { registers: s.registers.update(REG_ST as int, v), ..s },
            Ok(Outcome::Executed),
        )
    } else if kk == 0x1E {
        (Chip8View { i_reg: wrap16(s.i_reg + v), ..s }, Ok(Outcome::Executed))
    } else if kk == 0x29 {
        (Chip8View { i_reg: (5 * (v % 16)) as u16, ..s }, Ok(Outcome::Executed))
    } else if kk == 0x33 {
        if s.i_reg + 2 >= MEM_SIZE {
            (s, Err(Fault::MemoryOutOfBounds))
        } else {
            let base = s.i_reg as int;
            (
                Chip8View {
                    memory: s.memory.update(base, (v / 100) as u8).update(
                        base + 1,
                        ((v / 10) % 10) as u8,
                    ).update(base + 2, (v % 10) as u8),
                    ..s
                },
                Ok(Outcome::Executed),
            )
        }
    } else if kk == 0x55 {
        if s.i_reg + x >= MEM_SIZE {
            (s, Err(Fault::MemoryOutOfBounds))
        } else {
            (
                Chip8View { memory: regs_stored(s.memory, s.registers, s.i_reg as int, x), ..s },
                Ok(Outcome::Executed),
            )
        }
    } else if kk == 0x65 {
        if s.i_reg + x >= MEM_SIZE {
            (s, Err(Fault::MemoryOutOfBounds))
        } else {
            (
                Chip8View { registers: regs_loaded(s.registers, s.memory, s.i_reg as int, x), ..s },
                Ok(Outcome::Executed),
            )
        }
    } else {
        (s, Ok(Outcome::UnknownOpcode(op)))
    }
}

/// The meaning of executing one decoded opcode `op` on state `s`, where
/// `rnd` is the byte supplied by the random source (consulted only by the
/// RND instruction). Returns the new state and the outcome or fault; a
/// fault leaves the state unchanged.
pub open spec fn step(s: Chip8View, op: u16, rnd: u8) -> (Chip8View, Result<Outcome, Fault>) {
    let f = family_of(op);
    let x = x_of(op) as int;
    let y = y_of(op) as int;
    let kk = byte_of(op);
    let nnn = addr_of(op);
    if f == 0x0 {
        step_sys(s, op)
    } else if f == 0x1 {
        (Chip8View { pc: nnn, ..s }, Ok(Outcome::Executed))
    } else if f == 0x2 {
        if s.sp >= STACK_SIZE - 1 {
            (s, Err(Fault::StackOverflow))
        } else {
            (
                Chip8View {
                    sp: (s.sp + 1) as u8,
                    stack: s.stack.update(s.sp + 1, s.pc),
                    pc: nnn,
                    ..s
                },
                Ok(Outcome::Executed),
            )
        }
    } else if f == 0x3 {
        if s.registers[x] == kk {
            (Chip8View { pc: wrap16(s.pc + 2), ..s }, Ok(Outcome::Executed))
        } else {
            (s, Ok(Outcome::Executed))
        }
    } else if f == 0x4 {
        if s.registers[x] != kk {
            (Chip8View { pc: wrap16(s.pc + 2), ..s }, Ok(Outcome::Executed))
        } else {
            (s, Ok(Outcome::Executed))
        }
    } else if f == 0x5 {
        if s.registers[x] == s.registers[y] {
            (Chip8View { pc: wrap16(s.pc + 2), ..s }, Ok(Outcome::Executed))
        } else {
            (s, Ok(Outcome::Executed))
        }
    } else if f == 0x6 {
        (Chip8View { registers: s.registers.update(x, kk), ..s }, Ok(Outcome::Executed))
    } else if f == 0x7 {
        (
            Chip8View { registers: s.registers.update(x, wrap8(s.registers[x] + kk)), ..s },
            Ok(Outcome::Executed),
        )
    } else if f == 0x8 {
        step_alu(s, op)
    } else if f == 0x9 {
        if s.registers[x] != s.registers[y] {
            (Chip8View { pc: wrap16(s.pc + 2), ..s }, Ok(Outcome::Executed))
        } else {
            (s, Ok(Outcome::Executed))
        }
    } else if f == 0xA {
        (Chip8View { i_reg: nnn, ..s }, Ok(Outcome::Executed))
    } else if f == 0xB {
        (
            Chip8View { pc: (s.registers[0] + nnn) as u16, ..s },
            Ok(Outcome::Executed),
        )
    } else if f == 0xC {
        (Chip8View { registers: s.registers.update(x, rnd & kk), ..s }, Ok(Outcome::Executed))
    } else if f == 0xD {
        step_draw(s, op)
    } else if f == 0xE {
        if kk == 0x9E || kk == 0xA1 {
            // Skip-if-key instructions need the keypad collaborator, which is
            // outside the core; with no keypad wired in they do not skip.
            (s, Ok(Outcome::Executed))
        } else {
            (s, Ok(Outcome::UnknownOpcode(op)))
        }
    } else {
        step_misc(s, op)
    }
}

/// The meaning of fetching one opcode: the two bytes at the program counter
/// are assembled big-endian and the program counter moves past them. A fetch
/// reaching past the end of memory is a fault that leaves the state
/// unchanged.
pub open spec fn fetched(s: Chip8View) -> (Chip8View, Result<u16, Fault>) {
    if s.pc + 1 >= MEM_SIZE {
        (s, Err(Fault::MemoryOutOfBounds))
    } else {
        let op = (s.memory[s.pc as int] * 0x100 + s.memory[s.pc as int + 1]) as u16;
        ((Chip8View { pc: (s.pc + 2) as u16, ..s }, Ok(op)))
    }
}

/// The meaning of one host-driven step: a stalled machine stays put and
/// reports that it is waiting; otherwise one opcode is fetched (advancing
/// the program counter first) and executed.
pub open spec fn ticked(s: Chip8View, rnd: u8) -> (Chip8View, Result<Outcome, Fault>) {
    if s.waiting is Some {
        (s, Ok(Outcome::AwaitingKey))
    } else {
        let (s1, fr) = fetched(s);
        match fr {
            Err(e) => (s1, Err(e)),
            Ok(op) => step(s1, op, rnd),
        }
    }
}

/// The meaning of delivering a key press: a machine stalled on LD Vx, K
/// stores the key in Vx and resumes; an idle machine is unchanged.
pub open spec fn pressed(s: Chip8View, key: u8) -> Chip8View {
    match s.waiting {
        Some(x) => Chip8View { registers: s.registers.update(x as int, key), waiting: None, ..s },
        None => s,
    }
}

/// The meaning of loading a program: the buffer is copied to memory starting
/// at the base of program space and the program counter is reset there. A
/// buffer that does not fit is a fault and nothing at all is written.
pub open spec fn loaded(s: Chip8View, rom: Option<Seq<u8>>) -> (
    Chip8View,
    Result<usize, Fault>,
) {
    match rom {
        None => (Chip8View { pc: ROM_BASE as u16, ..s }, Ok(0usize)),
        Some(data) => if data.len() > MEM_SIZE - ROM_BASE {
            (s, Err(Fault::RomTooLarge))
        } else {
            (
                Chip8View {
                    pc: ROM_BASE as u16,
                    memory: Seq::new(
                        s.memory.len(),
                        |p: int|
                            if ROM_BASE <= p < ROM_BASE + data.len() {
                                data[p - ROM_BASE]
                            } else {
                                s.memory[p]
                            },
                    ),
                    ..s
                },
                Ok(data.len() as usize),
            )
        },
    }
}

} // verus!
