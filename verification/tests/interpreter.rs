//! Per-instruction behaviour of the interpreter, driven through the public
//! accessors: creation, fetch, program loading, and one test per opcode
//! family.

use chip8::{Fault, Register, CHIP8};

#[test]
fn test_initialization() {
    let emu = CHIP8::new();
    assert_eq!(emu.pc(), 512);
}

#[test]
fn test_fetch() {
    let mut emu = CHIP8::new();
    // Seed memory at PC with a fake opcode.
    emu.write_mem(0x200, 0xAB);
    emu.write_mem(0x201, 0xCD);
    // Op-code should be read with most-sig byte first.
    let opcode = emu.fetch().unwrap();
    assert_eq!(opcode, 0xABCD);
}

#[test]
fn test_load_rom() {
    let mut emu = CHIP8::new();
    // Test the number of bytes written.
    let bytes_written = emu.load_rom(Some(vec![1; 8])).unwrap();
    assert_eq!(bytes_written, 8);
    // Test that the rom was written in the right place.
    let start = 0x200;
    let memory = emu.memory();
    for idx in 0..8 {
        assert_eq!(memory[start + idx], 1);
    }
}

#[test]
fn test_execute_0x1000() {
    let mut emu = CHIP8::new();
    // Test basic jump
    emu.execute(0x1FED).unwrap();
    assert_eq!(emu.pc(), 0x0FED);
}

#[test]
fn test_execute_0x2000() {
    let mut emu = CHIP8::new();
    // Test function call
    emu.set_pc(0xDEAD);
    emu.execute(0x2FED).unwrap();
    assert_eq!(emu.pc(), 0x0FED);
    assert_eq!(emu.stack()[emu.sp() as usize], 0xDEAD);
}

#[test]
fn test_execute_0x3000() {
    let mut emu = CHIP8::new();
    // Test skip instruction
    emu.set_pc(0);
    emu.set_register(0, 0xAD);
    emu.execute(0x30AD).unwrap();
    assert_eq!(emu.pc(), 2);

    emu.set_pc(0);
    emu.set_register(0, 0);
    emu.execute(0x30AD).unwrap();
    assert_eq!(emu.pc(), 0);
}

#[test]
fn test_execute_0x4000() {
    let mut emu = CHIP8::new();
    // Test ne skip instruction
    emu.set_pc(0);
    emu.set_register(0, 0xAD);
    emu.execute(0x40AD).unwrap();
    assert_eq!(emu.pc(), 0);

    emu.set_pc(0);
    emu.set_register(0, 0);
    emu.execute(0x40AD).unwrap();
    assert_eq!(emu.pc(), 2);
}

#[test]
fn test_execute_0x5000() {
    let mut emu = CHIP8::new();
    emu.set_pc(0);
    emu.set_register(0x0, 0xAB);
    emu.set_register(0x1, 0xAB);
    emu.execute(0x5010).unwrap();
    assert_eq!(emu.pc(), 2);

    emu.set_pc(0);
    emu.set_register(0x0, 0xAB);
    emu.set_register(0x1, 0xCD);
    emu.execute(0x5010).unwrap();
    assert_eq!(emu.pc(), 0);
}

#[test]
fn test_execute_0x6000() {
    let mut emu = CHIP8::new();
    emu.execute(0x60AB).unwrap();
    assert_eq!(emu.registers()[0], 0xAB);
}

#[test]
fn test_execute_0x7000() {
    let mut emu = CHIP8::new();
    emu.set_register(0, 2);
    emu.execute(0x7002).unwrap();
    assert_eq!(emu.registers()[0], 4);
}

#[test]
fn test_execute_0x8000() {
    let mut emu = CHIP8::new();
    // LD
    emu.set_register(1, 0xAD);
    emu.execute(0x8010).unwrap();
    assert_eq!(emu.registers()[0], 0xAD);
    // OR
    emu.set_register(0, 0xF0);
    emu.set_register(1, 0x0F);
    emu.execute(0x8011).unwrap();
    assert_eq!(emu.registers()[0], 0xFF);
    // AND
    emu.set_register(0, 0xF0);
    emu.set_register(1, 0x0F);
    emu.execute(0x8012).unwrap();
    assert_eq!(emu.registers()[0], 0x00);
    // XOR
    emu.set_register(0, 0xF0);
    emu.set_register(1, 0x0F);
    emu.execute(0x8013).unwrap();
    assert_eq!(emu.registers()[0], 0xFF);
    // ADD
    emu.set_register(0, 0x02);
    emu.set_register(1, 0x02);
    emu.execute(0x8014).unwrap();
    assert_eq!(emu.registers()[0], 4);
    // SUB
    emu.set_register(0, 0x02);
    emu.set_register(1, 0x02);
    emu.execute(0x8015).unwrap();
    assert_eq!(emu.registers()[0], 0);
    // SHR
    emu.set_register(0, 0x01);
    emu.execute(0x8006).unwrap();
    // Right shifting 1 should result in VF = 1, V1 = 0
    assert_eq!(emu.registers()[Register::VF as usize], 1);
    assert_eq!(emu.registers()[0], 0);
    // Right shifting 2 should result in VF = 0, V1 = 1
    emu.set_register(0, 0b0010);
    emu.execute(0x8006).unwrap();
    assert_eq!(emu.registers()[Register::VF as usize], 0);
    assert_eq!(emu.registers()[0], 0b0001);
    // SUBN vx, vy
    emu.set_register(0, 0x02);
    emu.set_register(1, 0x04);
    emu.execute(0x8017).unwrap();
    assert_eq!(emu.registers()[Register::VF as usize], 1);
    assert_eq!(emu.registers()[0], 2);
    // SHL vx
    emu.set_register(0, 0b1000_0000);
    emu.execute(0x800E).unwrap();
    assert_eq!(emu.registers()[Register::VF as usize], 1);
    assert_eq!(emu.registers()[0], 0);

    emu.set_register(0, 0b0000_0001);
    emu.execute(0x800E).unwrap();
    assert_eq!(emu.registers()[Register::VF as usize], 0);
    assert_eq!(emu.registers()[0], 0b0010);
}

#[test]
fn test_execute_0x9000() {
    let mut emu = CHIP8::new();
    emu.set_pc(0);
    emu.set_register(0, 0xAB);
    emu.set_register(1, 0xCD);
    emu.execute(0x9010).unwrap();
    assert_eq!(emu.pc(), 2);
}

#[test]
fn test_execute_0xa000() {
    let mut emu = CHIP8::new();
    emu.execute(0xABCD).unwrap();
    assert_eq!(emu.i_reg(), 0xBCD);
}

#[test]
fn test_execute_0xb000() {
    let mut emu = CHIP8::new();
    emu.set_register(0, 0xF);
    emu.execute(0xBCD0).unwrap();
    assert_eq!(emu.pc(), 0xCDF);
}

#[test]
fn test_execute_0xc000() {
    let mut emu = CHIP8::new();
    emu.execute(0xC0AD).unwrap();
    assert_ne!(emu.registers()[0], 0);
}

#[test]
fn test_execute_0xd000() {
    let mut emu = CHIP8::new();
    // Fake sprite.
    emu.write_mem(0, 0xFF);
    emu.execute(0xD001).unwrap();
    // VF register should be set to 0
    assert_eq!(emu.registers()[Register::VF as usize], 0);
    // Check that the sprite was written to the display memory
    let display = emu.display();
    for idx in 0..8 {
        assert_eq!(display[idx], 1);
    }
    // Writing to the same location on the display again with an
    // empty sprite should set the VF register.
    emu.write_mem(0, 0);
    emu.execute(0xD001).unwrap();
    assert_eq!(emu.registers()[Register::VF as usize], 1);
    // Check that the sprite was written to the display memory
    let display = emu.display();
    for idx in 0..8 {
        assert_eq!(display[idx], 0);
    }

    // Testing horizontal wrapping
    let width = CHIP8::display_width();
    let height = CHIP8::display_height();
    emu.write_mem(0, 0xFF);
    emu.write_mem(1, 0xFF);
    emu.set_register(0, (width - 1) as u8);
    emu.set_register(1, 0);
    emu.execute(0xD011).unwrap();
    // Should start on the far right and then wrap over to the left again.
    let display = emu.display();
    assert_eq!(display[width - 1], 1);
    for idx in 0..7 {
        assert_eq!(display[idx], 1);
    }

    emu.set_register(0, (width - 1) as u8);
    emu.set_register(1, (height - 1) as u8);
    emu.execute(0xD012).unwrap();
    // Top right & bottom right pixels are set
    let display = emu.display();
    assert_eq!(display[width - 1], 1);
    assert_eq!(display[(height - 1) * width + (width - 1)], 1);
    // Top left 7 pixels and bottom left 7 pixels
    for idx in 0..7 {
        assert_eq!(display[idx], 1);
        assert_eq!(display[(height - 1) * width + idx], 1);
    }
}

#[test]
fn test_fetch_advances_pc_by_two() {
    let mut emu = CHIP8::new();
    emu.fetch().unwrap();
    assert_eq!(emu.pc(), 0x202);
}

#[test]
fn test_fetch_out_of_bounds_is_fault() {
    let mut emu = CHIP8::new();
    emu.set_pc((CHIP8::mem_size() - 1) as u16);
    assert_eq!(emu.fetch(), Err(Fault::MemoryOutOfBounds));
    // The machine did not move.
    assert_eq!(emu.pc(), (CHIP8::mem_size() - 1) as u16);
}

#[test]
fn test_constants() {
    assert_eq!(CHIP8::display_width(), 64);
    assert_eq!(CHIP8::display_height(), 32);
    assert_eq!(CHIP8::mem_size(), 4096);
    assert_eq!(CHIP8::num_registers(), 18);
    assert_eq!(CHIP8::stack_size(), 16);
}

#[test]
fn test_register_indices() {
    assert_eq!(Register::V0.index(), 0);
    assert_eq!(Register::VF.index(), 15);
    assert_eq!(Register::DT.index(), 16);
    assert_eq!(Register::ST.index(), 17);
    assert_eq!(Register::VF as usize, 15);
}
