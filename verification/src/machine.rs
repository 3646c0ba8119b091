//! The machine state: registers, memory, call stack and display, with
//! bounds-checked accessors for the executor and the host, creation, and
//! program loading.

use vstd::prelude::*;

use crate::font::{build_font_table, font_table, FONT_BYTES};
use crate::model::{initial_memory, initial_state, loaded, wf, Chip8View, Fault};
use crate::{DISPLAY_HEIGHT, DISPLAY_LEN, DISPLAY_WIDTH, MEM_SIZE, NUM_REGISTERS, ROM_BASE,
    STACK_SIZE};

verus! {

/// Names for the register bank: sixteen general-purpose registers followed
/// by the delay and sound timers.
#[allow(non_camel_case_types)]
#[derive(Clone, Copy, Debug, PartialEq, Eq, Structural)]
pub enum Register {
    V0,
    V1,
    V2,
    V3,
    V4,
    V5,
    V6,
    V7,
    V8,
    V9,
    VA,
    VB,
    VC,
    VD,
    VE,
    VF,
    DT,
    ST,
}

/// The position of a register name in the register bank.
pub open spec fn register_index(r: Register) -> int {
    match r {
        Register::V0 => 0,
        Register::V1 => 1,
        Register::V2 => 2,
        Register::V3 => 3,
        Register::V4 => 4,
        Register::V5 => 5,
        Register::V6 => 6,
        Register::V7 => 7,
        Register::V8 => 8,
        Register::V9 => 9,
        Register::VA => 10,
        Register::VB => 11,
        Register::VC => 12,
        Register::VD => 13,
        Register::VE => 14,
        Register::VF => 15,
        Register::DT => 16,
        Register::ST => 17,
    }
}

impl Register {
    /// The index of this register in the register bank.
    pub fn index(self) -> (i: usize)
        ensures
            i == register_index(self),
            i < NUM_REGISTERS,
    {
        match self {
            Register::V0 => 0,
            Register::V1 => 1,
            Register::V2 => 2,
            Register::V3 => 3,
            Register::V4 => 4,
            Register::V5 => 5,
            Register::V6 => 6,
            Register::V7 => 7,
            Register::V8 => 8,
            Register::V9 => 9,
            Register::VA => 10,
            Register::VB => 11,
            Register::VC => 12,
            Register::VD => 13,
            Register::VE => 14,
            Register::VF => 15,
            Register::DT => 16,
            Register::ST => 17,
        }
    }
}

/// The interpreter: machine state mutated one instruction at a time.
#[allow(non_camel_case_types)]
pub struct CHIP8 {
    /// The 16-bit index register I, generally used to hold addresses.
    pub(crate) i_reg: u16,
    /// The program counter.
    pub(crate) pc: u16,
    /// The stack pointer; 0 is the empty sentinel.
    pub(crate) sp: u8,
    /// V0..VF and the two timers.
    pub(crate) registers: Vec<u8>,
    /// The byte-addressable memory; the region below `ROM_BASE` is reserved.
    pub(crate) memory: Vec<u8>,
    /// Return addresses for up to fifteen nested calls.
    pub(crate) stack: Vec<u16>,
    /// The row-major display bitmap.
    pub(crate) display: Vec<u8>,
    /// The pending key wait, if the machine is stalled on LD Vx, K.
    pub(crate) waiting: Option<u8>,
}

impl View for CHIP8 {
    type V = Chip8View;

    open(crate) spec fn view(&self) -> Chip8View {
        Chip8View {
            i_reg: self.i_reg,
            pc: self.pc,
            sp: self.sp,
            registers: self.registers@,
            memory: self.memory@,
            stack: self.stack@,
            display: self.display@,
            waiting: self.waiting,
        }
    }
}

/// A vector of `n` zero bytes.
fn zero_bytes(n: usize) -> (v: Vec<u8>)
    ensures
        v@ == Seq::new(n as nat, |i: int| 0u8),
{
    let mut v: Vec<u8> = Vec::new();
    let mut i: usize = 0;
    while i < n
        invariant
            i <= n,
            v@.len() == i,
            forall|k: int| 0 <= k < i ==> v@[k] == 0u8,
        decreases n - i,
    {
        v.push(0);
        i += 1;
    }
    proof {
        assert(v@ =~= Seq::new(n as nat, |i: int| 0u8));
    }
    v
}

/// A vector of `n` zero words.
fn zero_words(n: usize) -> (v: Vec<u16>)
    ensures
        v@ == Seq::new(n as nat, |i: int| 0u16),
{
    let mut v: Vec<u16> = Vec::new();
    let mut i: usize = 0;
    while i < n
        invariant
            i <= n,
            v@.len() == i,
            forall|k: int| 0 <= k < i ==> v@[k] == 0u16,
        decreases n - i,
    {
        v.push(0);
        i += 1;
    }
    proof {
        assert(v@ =~= Seq::new(n as nat, |i: int| 0u16));
    }
    v
}

/// A copy of a byte vector.
fn copy_bytes(src: &Vec<u8>) -> (v: Vec<u8>)
    ensures
        v@ == src@,
{
    let mut v: Vec<u8> = Vec::new();
    let mut i: usize = 0;
    while i < src.len()
        invariant
            i <= src.len(),
            v@.len() == i,
            forall|k: int| 0 <= k < i ==> v@[k] == src@[k],
        decreases src.len() - i,
    {
        v.push(src[i]);
        i += 1;
    }
    proof {
        assert(v@ =~= src@);
    }
    v
}

/// A copy of a word vector.
fn copy_words(src: &Vec<u16>) -> (v: Vec<u16>)
    ensures
        v@ == src@,
{
    let mut v: Vec<u16> = Vec::new();
    let mut i: usize = 0;
    while i < src.len()
        invariant
            i <= src.len(),
            v@.len() == i,
            forall|k: int| 0 <= k < i ==> v@[k] == src@[k],
        decreases src.len() - i,
    {
        v.push(src[i]);
        i += 1;
    }
    proof {
        assert(v@ =~= src@);
    }
    v
}

/// The program buffer as an abstract sequence, if one was given.
pub open spec fn rom_seq(rom: Option<Vec<u8>>) -> Option<Seq<u8>> {
    match rom {
        Some(data) => Some(data@),
        None => None,
    }
}

impl CHIP8 {
    /// Create a machine with all storage zeroed, the font table copied into
    /// the reserved low region of memory, and the program counter at the
    /// start of program space.
    pub fn new() -> (m: CHIP8)
        ensures
            m@ == initial_state(),
            wf(m@),
    {
        let font = build_font_table();
        let mut memory = copy_bytes(&font);
        let mut i: usize = FONT_BYTES;
        while i < MEM_SIZE
            invariant
                FONT_BYTES <= i <= MEM_SIZE,
                memory@.len() == i,
                forall|k: int| 0 <= k < FONT_BYTES ==> memory@[k] == font_table()[k],
                forall|k: int| FONT_BYTES <= k < i ==> memory@[k] == 0u8,
            decreases MEM_SIZE - i,
        {
            memory.push(0);
            i += 1;
        }
        proof {
            assert(memory@ =~= initial_memory());
        }
        let m = CHIP8 {
            i_reg: 0,
            pc: ROM_BASE as u16,
            sp: 0,
            registers: zero_bytes(NUM_REGISTERS),
            memory,
            stack: zero_words(STACK_SIZE),
            display: zero_bytes(DISPLAY_LEN),
            waiting: None,
        };
        proof {
            assert(m@ == initial_state());
        }
        m
    }

    /// The display height in pixels.
    pub fn display_height() -> (h: usize)
        ensures
            h == DISPLAY_HEIGHT,
    {
        DISPLAY_HEIGHT
    }

    /// The display width in pixels.
    pub fn display_width() -> (w: usize)
        ensures
            w == DISPLAY_WIDTH,
    {
        DISPLAY_WIDTH
    }

    /// The memory size in bytes.
    pub fn mem_size() -> (n: usize)
        ensures
            n == MEM_SIZE,
    {
        MEM_SIZE
    }

    /// The number of register slots, timers included.
    pub fn num_registers() -> (n: usize)
        ensures
            n == NUM_REGISTERS,
    {
        NUM_REGISTERS
    }

    /// The call stack capacity.
    pub fn stack_size() -> (n: usize)
        ensures
            n == STACK_SIZE,
    {
        STACK_SIZE
    }

    /// A snapshot of the display buffer, row-major, one byte per pixel.
    pub fn display(&self) -> (d: Vec<u8>)
        ensures
            d@ == self@.display,
    {
        copy_bytes(&self.display)
    }

    /// A snapshot of the register bank.
    pub fn registers(&self) -> (r: Vec<u8>)
        ensures
            r@ == self@.registers,
    {
        copy_bytes(&self.registers)
    }

    /// A snapshot of memory.
    pub fn memory(&self) -> (m: Vec<u8>)
        ensures
            m@ == self@.memory,
    {
        copy_bytes(&self.memory)
    }

    /// A snapshot of the call stack.
    pub fn stack(&self) -> (s: Vec<u16>)
        ensures
            s@ == self@.stack,
    {
        copy_words(&self.stack)
    }

    /// The program counter.
    pub fn pc(&self) -> (pc: u16)
        ensures
            pc == self@.pc,
    {
        self.pc
    }

    /// The stack pointer.
    pub fn sp(&self) -> (sp: u8)
        ensures
            sp == self@.sp,
    {
        self.sp
    }

    /// The index register I.
    pub fn i_reg(&self) -> (i: u16)
        ensures
            i == self@.i_reg,
    {
        self.i_reg
    }

    /// The register whose key press the machine is waiting for, if it is
    /// stalled on LD Vx, K.
    pub fn awaiting_key(&self) -> (w: Option<u8>)
        ensures
            w == self@.waiting,
    {
        self.waiting
    }

    /// Set the program counter.
    pub fn set_pc(&mut self, pc: u16)
        requires
            wf(old(self)@),
        ensures
            wf(final(self)@),
            final(self)@ == (Chip8View { pc, ..old(self)@ }),
    {
        self.pc = pc;
    }

    /// Set the index register I.
    pub fn set_i_reg(&mut self, i_reg: u16)
        requires
            wf(old(self)@),
        ensures
            wf(final(self)@),
            final(self)@ == (Chip8View { i_reg, ..old(self)@ }),
    {
        self.i_reg = i_reg;
    }

    /// Write one register slot.
    pub fn set_register(&mut self, index: usize, value: u8)
        requires
            wf(old(self)@),
            index < NUM_REGISTERS,
        ensures
            wf(final(self)@),
            final(self)@ == (Chip8View {
                registers: old(self)@.registers.update(index as int, value),
                ..old(self)@
            }),
    {
        self.registers[index] = value;
    }

    /// Write one memory byte.
    pub fn write_mem(&mut self, addr: usize, value: u8)
        requires
            wf(old(self)@),
            addr < MEM_SIZE,
        ensures
            wf(final(self)@),
            final(self)@ == (Chip8View {
                memory: old(self)@.memory.update(addr as int, value),
                ..old(self)@
            }),
    {
        self.memory[addr] = value;
    }

    /// Load a program: copy the buffer into memory starting at the base of
    /// program space, reset the program counter there, and return the number
    /// of bytes written. A buffer larger than the memory above the reserved
    /// region is a fault and nothing is written.
    pub fn load_rom(&mut self, rom: Option<Vec<u8>>) -> (r: Result<usize, Fault>)
        requires
            wf(old(self)@),
        ensures
            wf(final(self)@),
            (final(self)@, r) == loaded(old(self)@, rom_seq(rom)),
    {
        match rom {
            None => {
                self.pc = ROM_BASE as u16;
                Ok(0)
            },
            Some(data) => {
                if data.len() > MEM_SIZE - ROM_BASE {
                    return Err(Fault::RomTooLarge);
                }
                self.pc = ROM_BASE as u16;
                let mut i: usize = 0;
                while i < data.len()
                    invariant
                        i <= data.len(),
                        data.len() <= MEM_SIZE - ROM_BASE,
                        self.memory@.len() == MEM_SIZE,
                        forall|p: int|
                            ROM_BASE <= p < ROM_BASE + i ==> self.memory@[p] == data@[p - ROM_BASE],
                        forall|p: int|
                            0 <= p < MEM_SIZE && !(ROM_BASE <= p < ROM_BASE + i)
                                ==> self.memory@[p] == old(self)@.memory[p],
                        self.i_reg == old(self).i_reg,
                        self.pc == ROM_BASE as u16,
                        self.sp == old(self).sp,
                        self.registers@ == old(self)@.registers,
                        self.stack@ == old(self)@.stack,
                        self.display@ == old(self)@.display,
                        self.waiting == old(self).waiting,
                    decreases data.len() - i,
                {
                    self.memory[ROM_BASE + i] = data[i];
                    i += 1;
                }
                proof {
                    let target = loaded(old(self)@, rom_seq(Some(data))).0;
                    assert(self.memory@ =~= target.memory);
                }
                Ok(data.len())
            },
        }
    }
}

} // verus!
