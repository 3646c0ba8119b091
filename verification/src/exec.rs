//! The executor: fetch, decode dispatch, instruction execution and the
//! sprite engine. Every operation is proved to follow the transition
//! functions of the model exactly; the random source enters only through the
//! RND instruction, and the byte it supplies is existentially quantified
//! where the machine draws it itself.

use vstd::arithmetic::div_mod::lemma_mod_add_multiples_vanish;
use vstd::prelude::*;

use crate::decode::{decode, lemma_field_bounds};
use crate::machine::CHIP8;
use crate::model::{draw_row_disp, draw_sprite_disp, fetched, pix, pressed, row_collision,
    sprite_bit, sprite_collision, step, step_alu, step_draw, step_misc, step_sys, ticked, wf,
    Chip8View, Fault, Outcome};
use crate::{DISPLAY_HEIGHT, DISPLAY_LEN, DISPLAY_WIDTH, MEM_SIZE, REG_DT, REG_ST, REG_VF,
    STACK_SIZE};

verus! {

/// Relies on `rand::random`: one byte drawn from the thread-local generator,
/// uniformly distributed over 0..=255. Nothing can be promised of the value.
#[verifier::external_body]
fn random_byte() -> u8 {
    rand::random::<u8>()
}

/// The sprite engine: write the `n` rows of the sprite at `memory[i_reg..]`
/// onto the display at `(x0, y0)`, wrapping each pixel once around the
/// screen, and report whether a lit pixel was erased; see `draw_sprite_disp`
/// and `sprite_collision` for the meaning.
fn draw_sprite(
    display: &mut Vec<u8>,
    memory: &Vec<u8>,
    i_reg: usize,
    n: usize,
    x0: u8,
    y0: u8,
) -> (coll: bool)
    requires
        old(display)@.len() == DISPLAY_LEN,
        forall|p: int| 0 <= p < old(display)@.len() ==> old(display)@[p] <= 1,
        memory@.len() == MEM_SIZE,
        n <= 15,
        i_reg + n <= MEM_SIZE,
    ensures
        ({
            let sprite = memory@.subrange(i_reg as int, i_reg + n);
            &&& final(display)@ == draw_sprite_disp(
                old(display)@,
                sprite,
                x0 as int,
                y0 as int,
                n as int,
            )
            &&& coll == sprite_collision(old(display)@, sprite, x0 as int, y0 as int, n as int)
        }),
        final(display)@.len() == old(display)@.len(),
        forall|p: int| 0 <= p < final(display)@.len() ==> final(display)@[p] <= 1,
{
    let ghost d0 = display@;
    let ghost sprite = memory@.subrange(i_reg as int, i_reg + n);
    let mut coll = false;
    let mut i: usize = 0;
    while i < n
        invariant
            i <= n,
            n <= 15,
            i_reg + n <= MEM_SIZE,
            memory@.len() == MEM_SIZE,
            sprite == memory@.subrange(i_reg as int, i_reg + n),
            d0 == old(display)@,
            d0.len() == DISPLAY_LEN,
            display@ == draw_sprite_disp(d0, sprite, x0 as int, y0 as int, i as int),
            coll == sprite_collision(d0, sprite, x0 as int, y0 as int, i as int),
            display@.len() == DISPLAY_LEN,
            forall|p: int| 0 <= p < display@.len() ==> display@[p] <= 1,
        decreases n - i,
    {
        let byte = memory[i_reg + i];
        proof {
            assert(byte == sprite[i as int]);
        }
        let ghost di = display@;
        let ghost coll_rows = coll;
        let y: usize = y0 as usize + i;
        let mut j: usize = 0;
        while j < 8
            invariant
                j <= 8,
                i < n,
                y == y0 + i,
                byte == sprite[i as int],
                di == draw_sprite_disp(d0, sprite, x0 as int, y0 as int, i as int),
                coll_rows == sprite_collision(d0, sprite, x0 as int, y0 as int, i as int),
                display@ == draw_row_disp(di, byte, x0 as int, y as int, j as int),
                coll == (coll_rows || row_collision(di, byte, x0 as int, y as int, j as int)),
                display@.len() == DISPLAY_LEN,
                forall|p: int| 0 <= p < display@.len() ==> display@[p] <= 1,
            decreases 8 - j,
        {
            let sh: u8 = (7 - j) as u8;
            let bit: u8 = (byte >> sh) & 1;
            let col: usize = (x0 as usize + j) % DISPLAY_WIDTH;
            let row: usize = y % DISPLAY_HEIGHT;
            let idx: usize = row * DISPLAY_WIDTH + col;
            proof {
                assert(bit <= 1) by {
                    assert((byte >> sh) & 1 <= 1) by (bit_vector);
                }
                assert(bit == sprite_bit(byte, j as int));
                assert(idx == pix(x0 as int + j, y as int));
                assert(idx < DISPLAY_LEN);
            }
            if bit == 0 && display[idx] == 1 {
                coll = true;
            }
            display[idx] = bit;
            j += 1;
            proof {
                assert(display@ == draw_row_disp(di, byte, x0 as int, y as int, j as int));
                assert(coll == (coll_rows || row_collision(
                    di,
                    byte,
                    x0 as int,
                    y as int,
                    j as int,
                )));
            }
        }
        i += 1;
        proof {
            assert(display@ == draw_sprite_disp(d0, sprite, x0 as int, y0 as int, i as int));
            assert(coll == sprite_collision(d0, sprite, x0 as int, y0 as int, i as int));
        }
    }
    coll
}

impl CHIP8 {
    /// Fetch the opcode at the program counter: two bytes assembled
    /// most-significant first, the program counter advanced past them. A
    /// fetch past the end of memory is a fault and the machine does not
    /// move.
    pub fn fetch(&mut self) -> (r: Result<u16, Fault>)
        requires
            wf(old(self)@),
        ensures
            wf(final(self)@),
            (final(self)@, r) == fetched(old(self)@),
    {
        let pc = self.pc as usize;
        if pc + 1 >= MEM_SIZE {
            return Err(Fault::MemoryOutOfBounds);
        }
        let op = (self.memory[pc] as u16) * 0x100 + (self.memory[pc + 1] as u16);
        self.pc = (pc + 2) as u16;
        Ok(op)
    }

    /// The system family (top nibble 0): clear screen or return.
    fn exec_sys(&mut self, op: u16) -> (r: Result<Outcome, Fault>)
        requires
            wf(old(self)@),
        ensures
            wf(final(self)@),
            (final(self)@, r) == step_sys(old(self)@, op),
    {
        let fields = decode(op);
        if fields.byte == 0xE0 {
            let mut idx: usize = 0;
            while idx < DISPLAY_LEN
                invariant
                    idx <= DISPLAY_LEN,
                    self.display@.len() == DISPLAY_LEN,
                    forall|p: int| 0 <= p < idx ==> self.display@[p] == 0u8,
                    self.i_reg == old(self).i_reg,
                    self.pc == old(self).pc,
                    self.sp == old(self).sp,
                    self.registers@ == old(self)@.registers,
                    self.memory@ == old(self)@.memory,
                    self.stack@ == old(self)@.stack,
                    self.waiting == old(self).waiting,
                decreases DISPLAY_LEN - idx,
            {
                self.display[idx] = 0;
                idx += 1;
            }
            proof {
                assert(self.display@ =~= crate::model::blank_display());
            }
            Ok(Outcome::Executed)
        } else if fields.byte == 0xEE {
            if self.sp == 0 {
                return Err(Fault::StackUnderflow);
            }
            self.pc = self.stack[self.sp as usize];
            self.sp = self.sp - 1;
            Ok(Outcome::Executed)
        } else {
            Ok(Outcome::UnknownOpcode(op))
        }
    }

    /// The register-to-register family (top nibble 8); the flag write to VF
    /// always follows the primary register write.
    fn exec_alu(&mut self, op: u16) -> (r: Result<Outcome, Fault>)
        requires
            wf(old(self)@),
        ensures
            wf(final(self)@),
            (final(self)@, r) == step_alu(old(self)@, op),
    {
        let fields = decode(op);
        proof {
            lemma_field_bounds(op);
        }
        let a = self.registers[fields.x];
        let b = self.registers[fields.y];
        if fields.sub == 0x0 {
            self.registers[fields.x] = b;
            Ok(Outcome::Executed)
        } else if fields.sub == 0x1 {
            self.registers[fields.x] = a | b;
            Ok(Outcome::Executed)
        } else if fields.sub == 0x2 {
            self.registers[fields.x] = a & b;
            Ok(Outcome::Executed)
        } else if fields.sub == 0x3 {
            self.registers[fields.x] = a ^ b;
            Ok(Outcome::Executed)
        } else if fields.sub == 0x4 {
            let sum: u16 = a as u16 + b as u16;
            self.registers[fields.x] = (sum % 0x100) as u8;
            self.registers[REG_VF] = if sum > 0xFF {
                1
            } else {
                0
            };
            Ok(Outcome::Executed)
        } else if fields.sub == 0x5 {
            let flag: u8 = if a >= b {
                1
            } else {
                0
            };
            self.registers[fields.x] = ((a as u16 + 0x100 - b as u16) % 0x100) as u8;
            self.registers[REG_VF] = flag;
            proof {
                lemma_mod_add_multiples_vanish(a - b, 0x100);
            }
            Ok(Outcome::Executed)
        } else if fields.sub == 0x6 {
            let lsb = a & 1;
            self.registers[fields.x] = a >> 1;
            self.registers[REG_VF] = lsb;
            proof {
                assert(a & 1 == a % 2 && a >> 1 == a / 2) by (bit_vector);
            }
            Ok(Outcome::Executed)
        } else if fields.sub == 0x7 {
            let flag: u8 = if b > a {
                1
            } else {
                0
            };
            self.registers[fields.x] = ((b as u16 + 0x100 - a as u16) % 0x100) as u8;
            self.registers[REG_VF] = flag;
            proof {
                lemma_mod_add_multiples_vanish(b - a, 0x100);
            }
            Ok(Outcome::Executed)
        } else if fields.sub == 0xE {
            let msb = a >> 7;
            self.registers[fields.x] = a << 1;
            self.registers[REG_VF] = msb;
            proof {
                assert(a >> 7 == a / 128 && (a << 1) as int == (a * 2) % 0x100) by (bit_vector);
            }
            Ok(Outcome::Executed)
        } else {
            Ok(Outcome::UnknownOpcode(op))
        }
    }

    /// The sprite-draw instruction (top nibble D).
    fn exec_draw(&mut self, op: u16) -> (r: Result<Outcome, Fault>)
        requires
            wf(old(self)@),
        ensures
            wf(final(self)@),
            (final(self)@, r) == step_draw(old(self)@, op),
    {
        let fields = decode(op);
        proof {
            lemma_field_bounds(op);
        }
        let n = fields.sub as usize;
        if n > 0 && (self.i_reg as usize) + n > MEM_SIZE {
            return Err(Fault::MemoryOutOfBounds);
        }
        self.registers[REG_VF] = 0;
        let x0 = self.registers[fields.x];
        let y0 = self.registers[fields.y];
        let coll = if n == 0 {
            proof {
                assert(draw_sprite_disp(self.display@, Seq::<u8>::empty(), x0 as int, y0 as int, 0)
                    == self.display@);
            }
            false
        } else {
            draw_sprite(&mut self.display, &self.memory, self.i_reg as usize, n, x0, y0)
        };
        self.registers[REG_VF] = if coll {
            1
        } else {
            0
        };
        Ok(Outcome::Executed)
    }

    /// The miscellaneous family (top nibble F): timers, key wait, index
    /// arithmetic, font addressing, BCD, and register block transfer.
    fn exec_misc(&mut self, op: u16) -> (r: Result<Outcome, Fault>)
        requires
            wf(old(self)@),
        ensures
            wf(final(self)@),
            (final(self)@, r) == step_misc(old(self)@, op),
    {
        let fields = decode(op);
        proof {
            lemma_field_bounds(op);
        }
        let x = fields.x;
        let kk = fields.byte;
        if kk == 0x07 {
            self.registers[x] = self.registers[REG_DT];
            Ok(Outcome::Executed)
        } else if kk == 0x0A {
            self.waiting = Some(x as u8);
            Ok(Outcome::AwaitingKey)
        } else if kk == 0x15 {
            let v = self.registers[x];
            self.registers[REG_DT] = v;
            Ok(Outcome::Executed)
        } else if kk == 0x18 {
            let v = self.registers[x];
            self.registers[REG_ST] = v;
            Ok(Outcome::Executed)
        } else if kk == 0x1E {
            let v = self.registers[x];
            self.i_reg = ((self.i_reg as u32 + v as u32) % 0x10000) as u16;
            Ok(Outcome::Executed)
        } else if kk == 0x29 {
            let v = self.registers[x];
            self.i_reg = ((v & 0x0F) as u16) * 5;
            proof {
                assert(v & 0x0F == v % 16) by (bit_vector);
            }
            Ok(Outcome::Executed)
        } else if kk == 0x33 {
            if (self.i_reg as usize) + 2 >= MEM_SIZE {
                return Err(Fault::MemoryOutOfBounds);
            }
            let base = self.i_reg as usize;
            let v = self.registers[x];
            self.memory[base] = v / 100;
            self.memory[base + 1] = (v / 10) % 10;
            self.memory[base + 2] = v % 10;
            Ok(Outcome::Executed)
        } else if kk == 0x55 {
            if (self.i_reg as usize) + x >= MEM_SIZE {
                return Err(Fault::MemoryOutOfBounds);
            }
            let base = self.i_reg as usize;
            let mut k: usize = 0;
            while k < x + 1
                invariant
                    k <= x + 1,
                    x < 16,
                    base + x < MEM_SIZE,
                    wf(old(self)@),
                    self.memory@.len() == MEM_SIZE,
                    forall|p: int|
                        base <= p < base + k ==> self.memory@[p] == old(self)@.registers[p - base],
                    forall|p: int|
                        0 <= p < MEM_SIZE && !(base <= p < base + k) ==> self.memory@[p] == old(
                            self,
                        )@.memory[p],
                    self.i_reg == old(self).i_reg,
                    self.pc == old(self).pc,
                    self.sp == old(self).sp,
                    self.registers@ == old(self)@.registers,
                    self.stack@ == old(self)@.stack,
                    self.display@ == old(self)@.display,
                    self.waiting == old(self).waiting,
                decreases x + 1 - k,
            {
                self.memory[base + k] = self.registers[k];
                k += 1;
            }
            proof {
                assert(self.memory@ =~= crate::model::regs_stored(
                    old(self)@.memory,
                    old(self)@.registers,
                    base as int,
                    x as int,
                ));
            }
            Ok(Outcome::Executed)
        } else if kk == 0x65 {
            if (self.i_reg as usize) + x >= MEM_SIZE {
                return Err(Fault::MemoryOutOfBounds);
            }
            let base = self.i_reg as usize;
            let mut k: usize = 0;
            while k < x + 1
                invariant
                    k <= x + 1,
                    x < 16,
                    base + x < MEM_SIZE,
                    wf(old(self)@),
                    self.registers@.len() == crate::NUM_REGISTERS,
                    forall|r: int|
                        0 <= r < k ==> self.registers@[r] == old(self)@.memory[base + r],
                    forall|r: int|
                        k <= r < crate::NUM_REGISTERS ==> self.registers@[r] == old(
                            self,
                        )@.registers[r],
                    self.i_reg == old(self).i_reg,
                    self.pc == old(self).pc,
                    self.sp == old(self).sp,
                    self.memory@ == old(self)@.memory,
                    self.stack@ == old(self)@.stack,
                    self.display@ == old(self)@.display,
                    self.waiting == old(self).waiting,
                decreases x + 1 - k,
            {
                self.registers[k] = self.memory[base + k];
                k += 1;
            }
            proof {
                assert(self.registers@ =~= crate::model::regs_loaded(
                    old(self)@.registers,
                    old(self)@.memory,
                    base as int,
                    x as int,
                ));
            }
            Ok(Outcome::Executed)
        } else {
            Ok(Outcome::UnknownOpcode(op))
        }
    }

    /// Execute one opcode with `rnd` as the byte supplied by the random
    /// source (consulted only by the RND instruction). The machine follows
    /// the transition function of the model exactly; a fault leaves it
    /// unchanged.
    pub fn execute_with(&mut self, opcode: u16, rnd: u8) -> (r: Result<Outcome, Fault>)
        requires
            wf(old(self)@),
        ensures
            wf(final(self)@),
            (final(self)@, r) == step(old(self)@, opcode, rnd),
    {
        let fields = decode(opcode);
        proof {
            lemma_field_bounds(opcode);
        }
        if fields.family == 0x0 {
            self.exec_sys(opcode)
        } else if fields.family == 0x1 {
            self.pc = fields.addr;
            Ok(Outcome::Executed)
        } else if fields.family == 0x2 {
            if self.sp as usize >= STACK_SIZE - 1 {
                return Err(Fault::StackOverflow);
            }
            let nsp = self.sp + 1;
            self.stack[nsp as usize] = self.pc;
            self.sp = nsp;
            self.pc = fields.addr;
            Ok(Outcome::Executed)
        } else if fields.family == 0x3 {
            if self.registers[fields.x] == fields.byte {
                self.pc = ((self.pc as u32 + 2) % 0x10000) as u16;
            }
            Ok(Outcome::Executed)
        } else if fields.family == 0x4 {
            if self.registers[fields.x] != fields.byte {
                self.pc = ((self.pc as u32 + 2) % 0x10000) as u16;
            }
            Ok(Outcome::Executed)
        } else if fields.family == 0x5 {
            if self.registers[fields.x] == self.registers[fields.y] {
                self.pc = ((self.pc as u32 + 2) % 0x10000) as u16;
            }
            Ok(Outcome::Executed)
        } else if fields.family == 0x6 {
            self.registers[fields.x] = fields.byte;
            Ok(Outcome::Executed)
        } else if fields.family == 0x7 {
            let a = self.registers[fields.x];
            self.registers[fields.x] = ((a as u16 + fields.byte as u16) % 0x100) as u8;
            Ok(Outcome::Executed)
        } else if fields.family == 0x8 {
            self.exec_alu(opcode)
        } else if fields.family == 0x9 {
            if self.registers[fields.x] != self.registers[fields.y] {
                self.pc = ((self.pc as u32 + 2) % 0x10000) as u16;
            }
            Ok(Outcome::Executed)
        } else if fields.family == 0xA {
            self.i_reg = fields.addr;
            Ok(Outcome::Executed)
        } else if fields.family == 0xB {
            self.pc = self.registers[0] as u16 + fields.addr;
            Ok(Outcome::Executed)
        } else if fields.family == 0xC {
            self.registers[fields.x] = rnd & fields.byte;
            Ok(Outcome::Executed)
        } else if fields.family == 0xD {
            self.exec_draw(opcode)
        } else if fields.family == 0xE {
            if fields.byte == 0x9E || fields.byte == 0xA1 {
                // Skip-if-key needs the keypad collaborator, which lives
                // outside the core; with no keypad wired in, no key is down.
                Ok(Outcome::Executed)
            } else {
                Ok(Outcome::UnknownOpcode(opcode))
            }
        } else {
            self.exec_misc(opcode)
        }
    }

    /// Execute one opcode, drawing the random byte for RND from the
    /// machine's own random source.
    pub fn execute(&mut self, opcode: u16) -> (r: Result<Outcome, Fault>)
        requires
            wf(old(self)@),
        ensures
            wf(final(self)@),
            exists|b: u8| (final(self)@, r) == step(old(self)@, opcode, b),
    {
        let b = random_byte();
        let r = self.execute_with(opcode, b);
        proof {
            assert((self@, r) == step(old(self)@, opcode, b));
        }
        r
    }

    /// One host-driven step: a machine stalled on a key wait stays put and
    /// says so; otherwise the opcode at the program counter is fetched
    /// (advancing the counter first) and executed.
    pub fn tick(&mut self) -> (r: Result<Outcome, Fault>)
        requires
            wf(old(self)@),
        ensures
            wf(final(self)@),
            exists|b: u8| (final(self)@, r) == ticked(old(self)@, b),
    {
        if self.waiting.is_some() {
            let r: Result<Outcome, Fault> = Ok(Outcome::AwaitingKey);
            proof {
                assert((self@, r) == ticked(old(self)@, 0u8));
            }
            return r;
        }
        match self.fetch() {
            Err(e) => {
                let r: Result<Outcome, Fault> = Err(e);
                proof {
                    assert((self@, r) == ticked(old(self)@, 0u8));
                }
                r
            },
            Ok(op) => {
                let b = random_byte();
                let r = self.execute_with(op, b);
                proof {
                    assert((self@, r) == ticked(old(self)@, b));
                }
                r
            },
        }
    }

    /// Deliver a key press: a machine stalled on LD Vx, K stores the key in
    /// Vx and resumes; an idle machine is unchanged.
    pub fn press_key(&mut self, key: u8)
        requires
            wf(old(self)@),
            key < 16,
        ensures
            wf(final(self)@),
            final(self)@ == pressed(old(self)@, key),
    {
        match self.waiting {
            Some(x) => {
                self.registers[x as usize] = key;
                self.waiting = None;
            },
            None => {},
        }
    }
}

} // verus!
