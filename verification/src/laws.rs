//! Laws of the instruction set, proved once and for all over the transition
//! function: wraparound arithmetic and flags, jumps, the call/return round
//! trip, skips, shifts, sprite compositing with wraparound and collision,
//! and program loading.

use vstd::arithmetic::div_mod::{lemma_fundamental_div_mod, lemma_mod_bound,
    lemma_mod_multiples_vanish, lemma_small_mod};
use vstd::prelude::*;

use crate::decode::{lemma_fields_of_addr, lemma_fields_of_imm, lemma_fields_of_nibbles};
use crate::font::{font_table, FONT_BYTES};
use crate::model::{draw_row_disp, draw_sprite_disp, initial_memory, initial_state, loaded, pix,
    row_collision, sprite_bit, sprite_collision, step, wf, wrap16, Chip8View, Fault, Outcome};
use crate::{DISPLAY_LEN, DISPLAY_WIDTH, MEM_SIZE, REG_VF, ROM_BASE, STACK_SIZE};

verus! {

/// ADD Vx, Vy wraps modulo 256 and sets VF to the carry; SUB Vx, Vy sets VF
/// to 1 exactly when Vx >= Vy and leaves the difference modulo 256 in Vx.
/// Both hold for every pair of register values; the destination must not be
/// VF itself, whose data the trailing flag write clobbers by design.
pub proof fn lemma_add_sub_registers(s: Chip8View, x: u16, y: u16, rnd: u8)
    requires
        wf(s),
        x < 15,
        y < 16,
    ensures
        ({
            let a = s.registers[x as int];
            let b = s.registers[y as int];
            let (s_add, r_add) = step(s, (0x8 * 0x1000 + x * 0x100 + y * 0x10 + 0x4) as u16, rnd);
            let (s_sub, r_sub) = step(s, (0x8 * 0x1000 + x * 0x100 + y * 0x10 + 0x5) as u16, rnd);
            &&& r_add == Ok::<Outcome, Fault>(Outcome::Executed)
            &&& s_add.registers[x as int] == (a + b) % 256
            &&& s_add.registers[REG_VF as int] == (if a + b > 255 {
                1u8
            } else {
                0u8
            })
            &&& r_sub == Ok::<Outcome, Fault>(Outcome::Executed)
            &&& s_sub.registers[x as int] == (a - b) % 256
            &&& s_sub.registers[REG_VF as int] == (if a >= b {
                1u8
            } else {
                0u8
            })
        }),
{
    lemma_fields_of_nibbles(0x8, x, y, 0x4);
    lemma_fields_of_nibbles(0x8, x, y, 0x5);
}

/// JP addr sets the program counter exactly to the address field, whatever
/// the program counter was before; nothing else changes.
pub proof fn lemma_jump_sets_pc(s: Chip8View, nnn: u16, rnd: u8)
    requires
        wf(s),
        nnn < 0x1000,
    ensures
        ({
            let (s2, r) = step(s, (0x1 * 0x1000 + nnn) as u16, rnd);
            &&& r == Ok::<Outcome, Fault>(Outcome::Executed)
            &&& s2 == (Chip8View { pc: nnn, ..s })
        }),
{
    lemma_fields_of_addr(0x1, nnn);
}

/// CALL then RET is a round trip: the program counter comes back to the
/// value it had right after the CALL opcode was fetched (the `pc` of the
/// state CALL executes in), and the stack pointer returns to its pre-call
/// value.
pub proof fn lemma_call_return_round_trip(s: Chip8View, nnn: u16, rnd: u8)
    requires
        wf(s),
        nnn < 0x1000,
        s.sp < STACK_SIZE - 1,
    ensures
        ({
            let (s1, r1) = step(s, (0x2 * 0x1000 + nnn) as u16, rnd);
            let (s2, r2) = step(s1, 0x00EE, rnd);
            &&& r1 == Ok::<Outcome, Fault>(Outcome::Executed)
            &&& s1.pc == nnn
            &&& r2 == Ok::<Outcome, Fault>(Outcome::Executed)
            &&& s2.pc == s.pc
            &&& s2.sp == s.sp
        }),
{
    lemma_fields_of_addr(0x2, nnn);
}

/// SE Vx, byte and SNE Vx, byte advance the program counter by exactly two
/// extra bytes when their condition holds, and leave the machine unchanged
/// otherwise.
pub proof fn lemma_skip_immediate(s: Chip8View, x: u16, kk: u8, rnd: u8)
    requires
        wf(s),
        x < 16,
    ensures
        ({
            let (se, r3) = step(s, (0x3 * 0x1000 + x * 0x100 + kk) as u16, rnd);
            let (sne, r4) = step(s, (0x4 * 0x1000 + x * 0x100 + kk) as u16, rnd);
            &&& r3 == Ok::<Outcome, Fault>(Outcome::Executed)
            &&& r4 == Ok::<Outcome, Fault>(Outcome::Executed)
            &&& se == (if s.registers[x as int] == kk {
                Chip8View { pc: wrap16(s.pc + 2), ..s }
            } else {
                s
            })
            &&& sne == (if s.registers[x as int] != kk {
                Chip8View { pc: wrap16(s.pc + 2), ..s }
            } else {
                s
            })
        }),
{
    lemma_fields_of_imm(0x3, x, kk);
    lemma_fields_of_imm(0x4, x, kk);
}

/// SE Vx, Vy and SNE Vx, Vy advance the program counter by exactly two
/// extra bytes when their condition holds, and leave the machine unchanged
/// otherwise.
pub proof fn lemma_skip_registers(s: Chip8View, x: u16, y: u16, rnd: u8)
    requires
        wf(s),
        x < 16,
        y < 16,
    ensures
        ({
            let (se, r5) = step(s, (0x5 * 0x1000 + x * 0x100 + y * 0x10) as u16, rnd);
            let (sne, r9) = step(s, (0x9 * 0x1000 + x * 0x100 + y * 0x10) as u16, rnd);
            &&& r5 == Ok::<Outcome, Fault>(Outcome::Executed)
            &&& r9 == Ok::<Outcome, Fault>(Outcome::Executed)
            &&& se == (if s.registers[x as int] == s.registers[y as int] {
                Chip8View { pc: wrap16(s.pc + 2), ..s }
            } else {
                s
            })
            &&& sne == (if s.registers[x as int] != s.registers[y as int] {
                Chip8View { pc: wrap16(s.pc + 2), ..s }
            } else {
                s
            })
        }),
{
    lemma_fields_of_nibbles(0x5, x, y, 0x0);
    lemma_fields_of_nibbles(0x9, x, y, 0x0);
}

/// SHR sets VF to the least-significant bit of Vx before the shift, and
/// halves Vx (when the destination is not VF itself, whose data the flag
/// write clobbers by design).
pub proof fn lemma_shr_flag(s: Chip8View, x: u16, rnd: u8)
    requires
        wf(s),
        x < 16,
    ensures
        ({
            let (s2, r) = step(s, (0x8 * 0x1000 + x * 0x100 + 0x6) as u16, rnd);
            &&& r == Ok::<Outcome, Fault>(Outcome::Executed)
            &&& s2.registers[REG_VF as int] == s.registers[x as int] % 2
            &&& x < 15 ==> s2.registers[x as int] == s.registers[x as int] / 2
        }),
{
    lemma_fields_of_nibbles(0x8, x, 0x0, 0x6);
}

/// SHL sets VF to the most-significant bit of Vx before the shift, and
/// doubles Vx modulo 256 (when the destination is not VF itself, whose data
/// the flag write clobbers by design).
pub proof fn lemma_shl_flag(s: Chip8View, x: u16, rnd: u8)
    requires
        wf(s),
        x < 16,
    ensures
        ({
            let (s2, r) = step(s, (0x8 * 0x1000 + x * 0x100 + 0xE) as u16, rnd);
            &&& r == Ok::<Outcome, Fault>(Outcome::Executed)
            &&& s2.registers[REG_VF as int] == s.registers[x as int] / 128
            &&& x < 15 ==> s2.registers[x as int] == (s.registers[x as int] * 2) % 256
        }),
{
    lemma_fields_of_nibbles(0x8, x, 0x0, 0xE);
}

/// A display cell index computed by `pix` always lies inside the display.
pub proof fn lemma_pix_bounds(x: int, y: int)
    ensures
        0 <= pix(x, y) < DISPLAY_LEN,
{
    lemma_mod_bound(x, DISPLAY_WIDTH as int);
    lemma_mod_bound(y, crate::DISPLAY_HEIGHT as int);
}

/// Within one sprite row, two different bit positions land on two different
/// display columns: the row spans fewer cells than the display is wide.
proof fn lemma_col_mod_distinct(x0: int, j1: int, j2: int)
    requires
        0 <= x0,
        0 <= j1 < j2 < 8,
    ensures
        (x0 + j1) % 64 != (x0 + j2) % 64,
{
    let a = x0 + j1;
    let d = j2 - j1;
    let q = a / 64;
    let r = a % 64;
    lemma_fundamental_div_mod(a, 64);
    lemma_mod_bound(a, 64);
    assert(a + d == 64 * q + (r + d));
    lemma_mod_multiples_vanish(q, r + d, 64);
    if r + d < 64 {
        lemma_small_mod((r + d) as nat, 64nat);
    } else {
        assert(r + d == 64 * 1 + (r + d - 64));
        lemma_mod_multiples_vanish(1, r + d - 64, 64);
        lemma_small_mod((r + d - 64) as nat, 64nat);
    }
}

/// Within one sprite row, two different bit positions land on two different
/// display cells.
proof fn lemma_pix_row_distinct(x0: int, y: int, j1: int, j2: int)
    requires
        0 <= x0,
        0 <= j1 < j2 < 8,
    ensures
        pix(x0 + j1, y) != pix(x0 + j2, y),
{
    lemma_col_mod_distinct(x0, j1, j2);
}

/// Writing one sprite row puts bit `j` at cell `pix(x0 + j, y)` and leaves
/// every other cell of the display as it was.
pub proof fn lemma_draw_row_cells(d: Seq<u8>, b: u8, x0: int, y: int, k: int)
    requires
        d.len() == DISPLAY_LEN,
        0 <= x0,
        0 <= k <= 8,
    ensures
        draw_row_disp(d, b, x0, y, k).len() == d.len(),
        forall|j: int|
            0 <= j < k ==> #[trigger] draw_row_disp(d, b, x0, y, k)[pix(x0 + j, y)] == sprite_bit(
                b,
                j,
            ),
        forall|p: int|
            0 <= p < d.len() && (forall|j: int| 0 <= j < k ==> p != #[trigger] pix(x0 + j, y))
                ==> #[trigger] draw_row_disp(d, b, x0, y, k)[p] == d[p],
    decreases k,
{
    if k > 0 {
        let jl = k - 1;
        lemma_draw_row_cells(d, b, x0, y, jl);
        lemma_pix_bounds(x0 + jl, y);
        let prev = draw_row_disp(d, b, x0, y, jl);
        let cur = draw_row_disp(d, b, x0, y, k);
        assert(cur == prev.update(pix(x0 + jl, y), sprite_bit(b, jl)));
        assert forall|j: int| 0 <= j < k implies #[trigger] cur[pix(x0 + j, y)] == sprite_bit(
            b,
            j,
        ) by {
            lemma_pix_bounds(x0 + j, y);
            if j < jl {
                lemma_pix_row_distinct(x0, y, j, jl);
            }
        }
        assert forall|p: int|
            0 <= p < d.len() && (forall|j: int| 0 <= j < k ==> p != #[trigger] pix(x0 + j, y))
            implies #[trigger] cur[p] == d[p] by {
            assert(p != pix(x0 + jl, y));
            assert(forall|j: int| 0 <= j < jl ==> p != #[trigger] pix(x0 + j, y));
        }
    }
}

/// A collision found while writing a prefix of a row is still reported for
/// the whole row.
proof fn lemma_row_collision_mono(d: Seq<u8>, b: u8, x0: int, y: int, k1: int, k2: int)
    requires
        0 <= k1 <= k2,
        row_collision(d, b, x0, y, k1),
    ensures
        row_collision(d, b, x0, y, k2),
    decreases k2,
{
    if k2 > k1 {
        lemma_row_collision_mono(d, b, x0, y, k1, k2 - 1);
    }
}

/// A row whose bits are all lit can never erase a pixel.
proof fn lemma_row_no_collision_all_lit(d: Seq<u8>, b: u8, x0: int, y: int, k: int)
    requires
        forall|j: int| 0 <= j < 8 ==> sprite_bit(b, j) == 1,
        0 <= k <= 8,
    ensures
        !row_collision(d, b, x0, y, k),
    decreases k,
{
    if k > 0 {
        lemma_row_no_collision_all_lit(d, b, x0, y, k - 1);
    }
}

/// Drawing a fully-lit one-row sprite lights all eight target pixels and
/// reports no collision; immediately drawing an all-dark row at the same
/// spot then clears those pixels and reports a collision.
pub proof fn lemma_draw_lit_then_dark(d: Seq<u8>, x0: int, y0: int)
    requires
        d.len() == DISPLAY_LEN,
        0 <= x0,
        0 <= y0,
    ensures
        ({
            let d1 = draw_sprite_disp(d, seq![0xFFu8], x0, y0, 1);
            let d2 = draw_sprite_disp(d1, seq![0x00u8], x0, y0, 1);
            &&& forall|j: int| 0 <= j < 8 ==> #[trigger] d1[pix(x0 + j, y0)] == 1
            &&& !sprite_collision(d, seq![0xFFu8], x0, y0, 1)
            &&& forall|j: int| 0 <= j < 8 ==> #[trigger] d2[pix(x0 + j, y0)] == 0
            &&& sprite_collision(d1, seq![0x00u8], x0, y0, 1)
        }),
{
    assert(forall|sh: u8| sh < 8 ==> (0xFFu8 >> sh) & 1 == 1) by (bit_vector);
    assert(forall|sh: u8| sh < 8 ==> (0x00u8 >> sh) & 1 == 0) by (bit_vector);
    assert forall|j: int| 0 <= j < 8 implies sprite_bit(0xFFu8, j) == 1 && sprite_bit(0x00u8, j)
        == 0 by {
        let sh = (7 - j) as u8;
        assert(sh < 8);
    }
    let lit = seq![0xFFu8];
    let dark = seq![0x00u8];
    let d1 = draw_sprite_disp(d, lit, x0, y0, 1);
    let d2 = draw_sprite_disp(d1, dark, x0, y0, 1);
    assert(lit[0] == 0xFFu8 && dark[0] == 0x00u8);
    assert(draw_sprite_disp(d, lit, x0, y0, 0) == d);
    assert(draw_sprite_disp(d1, dark, x0, y0, 0) == d1);
    assert(d1 == draw_row_disp(d, 0xFFu8, x0, y0 + 0, 8));
    assert(d2 == draw_row_disp(d1, 0x00u8, x0, y0 + 0, 8));
    assert(y0 + 0 == y0);
    lemma_draw_row_cells(d, 0xFFu8, x0, y0, 8);
    lemma_draw_row_cells(d1, 0x00u8, x0, y0, 8);
    assert(!sprite_collision(d, lit, x0, y0, 0));
    lemma_row_no_collision_all_lit(d, 0xFFu8, x0, y0, 8);
    lemma_pix_bounds(x0, y0);
    assert(d1[pix(x0 + 0, y0)] == 1);
    assert(draw_row_disp(d1, 0x00u8, x0, y0, 0) == d1);
    assert(row_collision(d1, 0x00u8, x0, y0, 1));
    lemma_row_collision_mono(d1, 0x00u8, x0, y0, 1, 8);
    assert(sprite_collision(d1, dark, x0, y0, 1));
}

/// With the x coordinate at the right edge of the screen, a sprite row puts
/// its first pixel at column width-1 and wraps its remaining seven bits to
/// columns 0 through 6 of the same display row.
pub proof fn lemma_draw_wraparound(d: Seq<u8>, b: u8, y: int)
    requires
        d.len() == DISPLAY_LEN,
    ensures
        ({
            let dd = draw_row_disp(d, b, (DISPLAY_WIDTH - 1) as int, y, 8);
            &&& dd[(y % 32) * 64 + 63] == sprite_bit(b, 0)
            &&& forall|j: int|
                1 <= j < 8 ==> #[trigger] dd[(y % 32) * 64 + (j - 1)] == sprite_bit(b, j)
        }),
{
    let x0 = (DISPLAY_WIDTH - 1) as int;
    let dd = draw_row_disp(d, b, x0, y, 8);
    lemma_draw_row_cells(d, b, x0, y, 8);
    lemma_small_mod(63nat, 64nat);
    assert(dd[pix(x0 + 0, y)] == sprite_bit(b, 0));
    assert(pix(x0 + 0, y) == (y % 32) * 64 + 63);
    assert forall|j: int| 1 <= j < 8 implies #[trigger] dd[(y % 32) * 64 + (j - 1)] == sprite_bit(
        b,
        j,
    ) by {
        assert(dd[pix(x0 + j, y)] == sprite_bit(b, j));
        assert(x0 + j == 64 * 1 + (j - 1));
        lemma_mod_multiples_vanish(1, j - 1, 64);
        lemma_small_mod((j - 1) as nat, 64nat);
        assert(pix(x0 + j, y) == (y % 32) * 64 + (j - 1));
    }
}

/// Loading a program of N bytes into a freshly created machine writes
/// exactly those N bytes starting at the program base, resets the program
/// counter there, and leaves the reserved region below it, the font table
/// included, untouched.
pub proof fn lemma_load_preserves_font(rom: Seq<u8>)
    requires
        rom.len() <= MEM_SIZE - ROM_BASE,
    ensures
        ({
            let (s2, r) = loaded(initial_state(), Some(rom));
            &&& r == Ok::<usize, Fault>(rom.len() as usize)
            &&& s2.pc == ROM_BASE
            &&& forall|k: int| 0 <= k < rom.len() ==> s2.memory[ROM_BASE + k] == rom[k]
            &&& forall|k: int| #![auto] 0 <= k < ROM_BASE ==> s2.memory[k] == initial_memory()[k]
            &&& forall|k: int| 0 <= k < FONT_BYTES ==> s2.memory[k] == font_table()[k]
        }),
{
    let (s2, r) = loaded(initial_state(), Some(rom));
    assert forall|k: int| 0 <= k < rom.len() implies s2.memory[ROM_BASE + k] == rom[k] by {}
    assert forall|k: int| 0 <= k < FONT_BYTES implies s2.memory[k] == font_table()[k] by {
        assert(s2.memory[k] == initial_memory()[k]);
    }
}

} // verus!
