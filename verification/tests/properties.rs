//! Scenario tests for the stated behaviour of the machine: wraparound
//! arithmetic and flags, the call/return round trip, shifts, sprite drawing
//! with collision and wraparound, program loading, faults, the key-wait
//! sub-state, and the end-to-end example program.

use chip8::{Fault, Outcome, Register, CHIP8};

const VF: usize = Register::VF as usize;
const DT: usize = Register::DT as usize;
const ST: usize = Register::ST as usize;

#[test]
fn test_add_wraps_and_sets_carry() {
    let mut emu = CHIP8::new();
    emu.set_register(0, 200);
    emu.set_register(1, 100);
    emu.execute(0x8014).unwrap();
    // 300 mod 256 = 44, with carry.
    assert_eq!(emu.registers()[0], 44);
    assert_eq!(emu.registers()[VF], 1);

    emu.set_register(0, 100);
    emu.set_register(1, 100);
    emu.execute(0x8014).unwrap();
    assert_eq!(emu.registers()[0], 200);
    assert_eq!(emu.registers()[VF], 0);
}

#[test]
fn test_sub_wraps_and_sets_borrow_not_flag() {
    let mut emu = CHIP8::new();
    // Vx >= Vy: flag 1, plain difference.
    emu.set_register(0, 7);
    emu.set_register(1, 5);
    emu.execute(0x8015).unwrap();
    assert_eq!(emu.registers()[0], 2);
    assert_eq!(emu.registers()[VF], 1);

    // Vx < Vy: flag 0, difference modulo 256.
    emu.set_register(0, 5);
    emu.set_register(1, 7);
    emu.execute(0x8015).unwrap();
    assert_eq!(emu.registers()[0], 254);
    assert_eq!(emu.registers()[VF], 0);

    // Equal values: flag 1, zero.
    emu.set_register(0, 9);
    emu.set_register(1, 9);
    emu.execute(0x8015).unwrap();
    assert_eq!(emu.registers()[0], 0);
    assert_eq!(emu.registers()[VF], 1);
}

#[test]
fn test_flag_write_follows_primary_write() {
    let mut emu = CHIP8::new();
    // With VF itself as the destination, the trailing flag write clobbers
    // the sum: VF ends up holding the carry, not 300 mod 256.
    emu.set_register(VF, 200);
    emu.set_register(1, 100);
    emu.execute(0x8F14).unwrap();
    assert_eq!(emu.registers()[VF], 1);
}

#[test]
fn test_jump_independent_of_prior_pc() {
    let mut emu = CHIP8::new();
    emu.set_pc(0x0000);
    emu.execute(0x1ABC).unwrap();
    assert_eq!(emu.pc(), 0xABC);

    emu.set_pc(0x0FFF);
    emu.execute(0x1ABC).unwrap();
    assert_eq!(emu.pc(), 0xABC);
}

#[test]
fn test_call_return_round_trip() {
    let mut emu = CHIP8::new();
    emu.set_pc(0x300);
    let sp_before = emu.sp();
    emu.execute(0x2FED).unwrap();
    assert_eq!(emu.pc(), 0xFED);
    emu.execute(0x00EE).unwrap();
    assert_eq!(emu.pc(), 0x300);
    assert_eq!(emu.sp(), sp_before);
}

#[test]
fn test_skip_advances_pc_by_exactly_two() {
    let mut emu = CHIP8::new();
    // SNE Vx, Vy with equal registers: no skip.
    emu.set_pc(0x400);
    emu.set_register(0, 3);
    emu.set_register(1, 3);
    emu.execute(0x9010).unwrap();
    assert_eq!(emu.pc(), 0x400);
    // SE Vx, Vy with equal registers: skip by two.
    emu.execute(0x5010).unwrap();
    assert_eq!(emu.pc(), 0x402);
}

#[test]
fn test_shr_flag_examples() {
    let mut emu = CHIP8::new();
    emu.set_register(2, 0x01);
    emu.execute(0x8206).unwrap();
    assert_eq!(emu.registers()[VF], 1);
    assert_eq!(emu.registers()[2], 0);

    emu.set_register(2, 0x05);
    emu.execute(0x8206).unwrap();
    assert_eq!(emu.registers()[VF], 1);
    assert_eq!(emu.registers()[2], 2);
}

#[test]
fn test_shl_flag_examples() {
    let mut emu = CHIP8::new();
    emu.set_register(2, 0b1000_0000);
    emu.execute(0x820E).unwrap();
    assert_eq!(emu.registers()[VF], 1);
    assert_eq!(emu.registers()[2], 0);

    emu.set_register(2, 0b0100_0001);
    emu.execute(0x820E).unwrap();
    assert_eq!(emu.registers()[VF], 0);
    assert_eq!(emu.registers()[2], 0b1000_0010);
}

#[test]
fn test_draw_collision_round() {
    let mut emu = CHIP8::new();
    let width = CHIP8::display_width();
    // A lit one-row sprite at (10, 5) on a blank region: all eight pixels
    // lit, no collision.
    emu.set_i_reg(0x300);
    emu.write_mem(0x300, 0xFF);
    emu.set_register(0, 10);
    emu.set_register(1, 5);
    emu.execute(0xD011).unwrap();
    assert_eq!(emu.registers()[VF], 0);
    let display = emu.display();
    for col in 10..18 {
        assert_eq!(display[5 * width + col], 1);
    }
    // An all-dark row at the same spot: pixels cleared, collision reported.
    emu.write_mem(0x300, 0x00);
    emu.execute(0xD011).unwrap();
    assert_eq!(emu.registers()[VF], 1);
    let display = emu.display();
    for col in 10..18 {
        assert_eq!(display[5 * width + col], 0);
    }
}

#[test]
fn test_draw_horizontal_wraparound() {
    let mut emu = CHIP8::new();
    let width = CHIP8::display_width();
    emu.set_i_reg(0x300);
    emu.write_mem(0x300, 0xFF);
    emu.set_register(0, (width - 1) as u8);
    emu.set_register(1, 0);
    emu.execute(0xD011).unwrap();
    let display = emu.display();
    // First pixel at column width-1, the remaining seven wrap to 0..=6.
    assert_eq!(display[width - 1], 1);
    for col in 0..7 {
        assert_eq!(display[col], 1);
    }
    assert_eq!(display[7], 0);
}

#[test]
fn test_draw_sprite_read_out_of_bounds_is_fault() {
    let mut emu = CHIP8::new();
    emu.set_i_reg((CHIP8::mem_size() - 1) as u16);
    assert_eq!(emu.execute(0xD002), Err(Fault::MemoryOutOfBounds));
    // The machine did not move: VF untouched, display blank.
    assert_eq!(emu.registers()[VF], 0);
    assert!(emu.display().iter().all(|&p| p == 0));
}

#[test]
fn test_clear_screen() {
    let mut emu = CHIP8::new();
    emu.write_mem(0, 0xFF);
    emu.execute(0xD001).unwrap();
    assert!(emu.display().iter().any(|&p| p == 1));
    emu.execute(0x00E0).unwrap();
    assert!(emu.display().iter().all(|&p| p == 0));
}

#[test]
fn test_end_to_end_add_program() {
    // LD V0, 5; LD V1, 3; ADD V0, V1.
    let mut emu = CHIP8::new();
    emu.load_rom(Some(vec![0x60, 0x05, 0x61, 0x03, 0x80, 0x14])).unwrap();
    emu.tick().unwrap();
    emu.tick().unwrap();
    emu.tick().unwrap();
    assert_eq!(emu.registers()[0], 8);
    assert_eq!(emu.pc(), 0x206);
}

#[test]
fn test_load_rom_preserves_font() {
    let mut emu = CHIP8::new();
    let fresh_memory = emu.memory();
    let written = emu.load_rom(Some(vec![0xAA; 16])).unwrap();
    assert_eq!(written, 16);
    let memory = emu.memory();
    // Everything below the program base, the font table included, is intact.
    for addr in 0..0x200 {
        assert_eq!(memory[addr], fresh_memory[addr]);
    }
    // The first font glyph is the sprite for digit 0.
    assert_eq!(&memory[0..5], &[0xF0, 0x90, 0x90, 0x90, 0xF0]);
    // Exactly the ROM bytes were written at the base.
    for addr in 0x200..0x210 {
        assert_eq!(memory[addr], 0xAA);
    }
    assert_eq!(memory[0x210], 0);
    assert_eq!(emu.pc(), 0x200);
}

#[test]
fn test_load_rom_too_large_is_fault() {
    let mut emu = CHIP8::new();
    emu.set_pc(0x333);
    let room = CHIP8::mem_size() - 0x200;
    assert_eq!(emu.load_rom(Some(vec![7; room + 1])), Err(Fault::RomTooLarge));
    // Nothing was written, not even the program counter.
    assert_eq!(emu.pc(), 0x333);
    assert_eq!(emu.memory()[0x200], 0);
    // A buffer that exactly fits is fine.
    assert_eq!(emu.load_rom(Some(vec![7; room])), Ok(room));
}

#[test]
fn test_load_rom_none_resets_pc() {
    let mut emu = CHIP8::new();
    emu.set_pc(0x333);
    assert_eq!(emu.load_rom(None), Ok(0));
    assert_eq!(emu.pc(), 0x200);
}

#[test]
fn test_return_underflow_is_fault() {
    let mut emu = CHIP8::new();
    assert_eq!(emu.execute(0x00EE), Err(Fault::StackUnderflow));
    assert_eq!(emu.sp(), 0);
}

#[test]
fn test_call_overflow_is_fault() {
    let mut emu = CHIP8::new();
    for _ in 0..15 {
        emu.execute(0x2ABC).unwrap();
    }
    assert_eq!(emu.sp(), 15);
    assert_eq!(emu.execute(0x2ABC), Err(Fault::StackOverflow));
    assert_eq!(emu.sp(), 15);
}

#[test]
fn test_rnd_result_is_masked() {
    let mut emu = CHIP8::new();
    emu.set_register(0, 0xFF);
    emu.execute(0xC00F).unwrap();
    assert!(emu.registers()[0] <= 0x0F);
    emu.execute(0xC000).unwrap();
    assert_eq!(emu.registers()[0], 0);
}

#[test]
fn test_timers_load_and_store() {
    let mut emu = CHIP8::new();
    emu.set_register(0, 42);
    emu.execute(0xF015).unwrap();
    assert_eq!(emu.registers()[DT], 42);
    emu.set_register(0, 99);
    emu.execute(0xF018).unwrap();
    assert_eq!(emu.registers()[ST], 99);
    emu.execute(0xF307).unwrap();
    assert_eq!(emu.registers()[3], 42);
}

#[test]
fn test_add_i_wraps_sixteen_bits() {
    let mut emu = CHIP8::new();
    emu.set_i_reg(0x0FFE);
    emu.set_register(0, 4);
    emu.execute(0xF01E).unwrap();
    assert_eq!(emu.i_reg(), 0x1002);
    emu.set_i_reg(0xFFFF);
    emu.set_register(0, 2);
    emu.execute(0xF01E).unwrap();
    assert_eq!(emu.i_reg(), 1);
}

#[test]
fn test_font_address() {
    let mut emu = CHIP8::new();
    emu.set_register(0, 0x0A);
    emu.execute(0xF029).unwrap();
    assert_eq!(emu.i_reg(), 50);
    // Only the low nibble of the register names the glyph.
    emu.set_register(0, 0x1F);
    emu.execute(0xF029).unwrap();
    assert_eq!(emu.i_reg(), 75);
}

#[test]
fn test_bcd_digits() {
    let mut emu = CHIP8::new();
    emu.set_i_reg(0x300);
    emu.set_register(0, 234);
    emu.execute(0xF033).unwrap();
    let memory = emu.memory();
    assert_eq!(&memory[0x300..0x303], &[2, 3, 4]);

    emu.set_register(0, 7);
    emu.execute(0xF033).unwrap();
    let memory = emu.memory();
    assert_eq!(&memory[0x300..0x303], &[0, 0, 7]);
}

#[test]
fn test_bcd_out_of_bounds_is_fault() {
    let mut emu = CHIP8::new();
    emu.set_i_reg((CHIP8::mem_size() - 2) as u16);
    assert_eq!(emu.execute(0xF033), Err(Fault::MemoryOutOfBounds));
}

#[test]
fn test_store_and_load_registers_inclusive() {
    let mut emu = CHIP8::new();
    emu.set_i_reg(0x400);
    emu.set_register(0, 10);
    emu.set_register(1, 11);
    emu.set_register(2, 12);
    emu.set_register(3, 13);
    emu.execute(0xF355).unwrap();
    let memory = emu.memory();
    // V0..=V3 inclusive: four bytes.
    assert_eq!(&memory[0x400..0x404], &[10, 11, 12, 13]);
    assert_eq!(memory[0x404], 0);

    for r in 0..4 {
        emu.set_register(r, 0);
    }
    emu.execute(0xF365).unwrap();
    let regs = emu.registers();
    assert_eq!(&regs[0..4], &[10, 11, 12, 13]);
    assert_eq!(regs[4], 0);
}

#[test]
fn test_store_registers_out_of_bounds_is_fault() {
    let mut emu = CHIP8::new();
    emu.set_i_reg((CHIP8::mem_size() - 3) as u16);
    assert_eq!(emu.execute(0xF355), Err(Fault::MemoryOutOfBounds));
    assert_eq!(emu.execute(0xF365), Err(Fault::MemoryOutOfBounds));
}

#[test]
fn test_key_wait_stalls_until_key_press() {
    let mut emu = CHIP8::new();
    // LD V1, K at the program base.
    emu.load_rom(Some(vec![0xF1, 0x0A])).unwrap();
    assert_eq!(emu.tick(), Ok(Outcome::AwaitingKey));
    assert_eq!(emu.awaiting_key(), Some(1));
    let pc = emu.pc();
    // Further ticks do not move the stalled machine.
    assert_eq!(emu.tick(), Ok(Outcome::AwaitingKey));
    assert_eq!(emu.pc(), pc);
    // A key press lands in V1 and the machine resumes.
    emu.press_key(0xC);
    assert_eq!(emu.registers()[1], 0xC);
    assert_eq!(emu.awaiting_key(), None);
}

#[test]
fn test_press_key_without_wait_is_ignored() {
    let mut emu = CHIP8::new();
    emu.press_key(0x5);
    assert!(emu.registers().iter().all(|&v| v == 0));
}

#[test]
fn test_unknown_opcodes_are_no_ops() {
    let mut emu = CHIP8::new();
    assert_eq!(emu.execute(0x0123), Ok(Outcome::UnknownOpcode(0x0123)));
    assert_eq!(emu.execute(0x8008), Ok(Outcome::UnknownOpcode(0x8008)));
    assert_eq!(emu.execute(0xE0FF), Ok(Outcome::UnknownOpcode(0xE0FF)));
    assert_eq!(emu.execute(0xF0FF), Ok(Outcome::UnknownOpcode(0xF0FF)));
    // The machine is unchanged.
    assert_eq!(emu.pc(), 0x200);
    assert!(emu.registers().iter().all(|&v| v == 0));
}

#[test]
fn test_skip_key_opcodes_are_recognized() {
    let mut emu = CHIP8::new();
    // With no keypad wired in, SKP and SKNP execute without skipping.
    assert_eq!(emu.execute(0xE09E), Ok(Outcome::Executed));
    assert_eq!(emu.execute(0xE0A1), Ok(Outcome::Executed));
    assert_eq!(emu.pc(), 0x200);
}

#[test]
fn test_cell_toggle() {
    let mut c = chip8::Cell::DEAD;
    c.toggle();
    assert_eq!(c, chip8::Cell::ALIVE);
    c.toggle();
    assert_eq!(c, chip8::Cell::DEAD);
}
