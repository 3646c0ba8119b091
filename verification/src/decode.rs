//! Pure decoder: a raw 16-bit opcode is split into the instruction family
//! (top nibble), sub-instruction (bottom nibble), 12-bit address, 8-bit
//! immediate, and the two 4-bit register-index fields. Every opcode decodes
//! to some field tuple; there is no failure mode.

use vstd::prelude::*;

verus! {

/// The instruction family: the top nibble of the opcode, in `0..16`.
pub open spec fn family_of(op: u16) -> u16 {
    op / 0x1000
}

/// The sub-instruction: the bottom nibble of the opcode, in `0..16`.
pub open spec fn sub_of(op: u16) -> u16 {
    op % 0x10
}

/// The 12-bit address field, in `0..4096`.
pub open spec fn addr_of(op: u16) -> u16 {
    op % 0x1000
}

/// The 8-bit immediate (the lower byte of the opcode).
pub open spec fn byte_of(op: u16) -> u8 {
    (op % 0x100) as u8
}

/// The first register-index field (bits 8..12), in `0..16`.
pub open spec fn x_of(op: u16) -> usize {
    ((op / 0x100) % 0x10) as usize
}

/// The second register-index field (bits 4..8), in `0..16`.
pub open spec fn y_of(op: u16) -> usize {
    ((op / 0x10) % 0x10) as usize
}

/// The decoded fields of one opcode.
pub struct Opcode {
    /// Instruction family (top nibble).
    pub family: u16,
    /// Sub-instruction (bottom nibble).
    pub sub: u16,
    /// 12-bit address field.
    pub addr: u16,
    /// 8-bit immediate.
    pub byte: u8,
    /// First register-index field.
    pub x: usize,
    /// Second register-index field.
    pub y: usize,
}

/// Whether `fields` holds exactly the decoded fields of `op`.
pub open spec fn decodes(op: u16, fields: Opcode) -> bool {
    &&& fields.family == family_of(op)
    &&& fields.sub == sub_of(op)
    &&& fields.addr == addr_of(op)
    &&& fields.byte == byte_of(op)
    &&& fields.x == x_of(op)
    &&& fields.y == y_of(op)
}

/// Every field is a nibble, byte or 12-bit value; in particular the two
/// register indices always lie below 16.
pub proof fn lemma_field_bounds(op: u16)
    ensures
        family_of(op) < 0x10,
        sub_of(op) < 0x10,
        addr_of(op) < 0x1000,
        x_of(op) < 0x10,
        y_of(op) < 0x10,
{
    assert(op / 0x1000 < 0x10 && op % 0x10 < 0x10 && op % 0x1000 < 0x1000 && (op / 0x100) % 0x10
        < 0x10 && (op / 0x10) % 0x10 < 0x10) by (bit_vector);
}

/// Composing an opcode from its four nibbles decodes back to those fields.
pub proof fn lemma_fields_of_nibbles(f: u16, x: u16, y: u16, n: u16)
    requires
        f < 0x10,
        x < 0x10,
        y < 0x10,
        n < 0x10,
    ensures
        family_of((f * 0x1000 + x * 0x100 + y * 0x10 + n) as u16) == f,
        x_of((f * 0x1000 + x * 0x100 + y * 0x10 + n) as u16) == x,
        y_of((f * 0x1000 + x * 0x100 + y * 0x10 + n) as u16) == y,
        sub_of((f * 0x1000 + x * 0x100 + y * 0x10 + n) as u16) == n,
        byte_of((f * 0x1000 + x * 0x100 + y * 0x10 + n) as u16) == y * 0x10 + n,
        addr_of((f * 0x1000 + x * 0x100 + y * 0x10 + n) as u16) == x * 0x100 + y * 0x10 + n,
{
    let op = (f * 0x1000 + x * 0x100 + y * 0x10 + n) as u16;
    assert(f < 0x10 && x < 0x10 && y < 0x10 && n < 0x10 ==> op / 0x1000 == f && (op / 0x100) % 0x10
        == x && (op / 0x10) % 0x10 == y && op % 0x10 == n && op % 0x100 == y * 0x10 + n && op
        % 0x1000 == x * 0x100 + y * 0x10 + n) by (bit_vector)
        requires
            op == (f * 0x1000 + x * 0x100 + y * 0x10 + n) as u16,
    ;
}

/// Composing an opcode from a family, a register index and an immediate
/// byte decodes back to those fields.
pub proof fn lemma_fields_of_imm(f: u16, x: u16, kk: u8)
    requires
        f < 0x10,
        x < 0x10,
    ensures
        family_of((f * 0x1000 + x * 0x100 + kk) as u16) == f,
        x_of((f * 0x1000 + x * 0x100 + kk) as u16) == x,
        byte_of((f * 0x1000 + x * 0x100 + kk) as u16) == kk,
{
    let op = (f * 0x1000 + x * 0x100 + kk) as u16;
    assert(f < 0x10 && x < 0x10 ==> op / 0x1000 == f && (op / 0x100) % 0x10 == x && op % 0x100
        == kk) by (bit_vector)
        requires
            op == (f * 0x1000 + x * 0x100 + kk) as u16,
    ;
}

/// Composing an opcode from a family and a 12-bit address decodes back to
/// those fields.
pub proof fn lemma_fields_of_addr(f: u16, nnn: u16)
    requires
        f < 0x10,
        nnn < 0x1000,
    ensures
        family_of((f * 0x1000 + nnn) as u16) == f,
        addr_of((f * 0x1000 + nnn) as u16) == nnn,
{
    let op = (f * 0x1000 + nnn) as u16;
    assert(f < 0x10 && nnn < 0x1000 ==> op / 0x1000 == f && op % 0x1000 == nnn) by (bit_vector)
        requires
            op == (f * 0x1000 + nnn) as u16,
    ;
}

/// Split a raw opcode into its fields with mask-and-shift extraction.
pub fn decode(op: u16) -> (fields: Opcode)
    ensures
        decodes(op, fields),
{
    let family = (op & 0xF000) >> 12;
    let sub = op & 0x000F;
    let addr = op & 0x0FFF;
    let byte = (op & 0x00FF) as u8;
    let x = ((op & 0x0F00) >> 8) as usize;
    let y = ((op & 0x00F0) >> 4) as usize;
    proof {
        assert((op & 0xF000) >> 12 == op / 0x1000 && op & 0x000F == op % 0x10 && op & 0x0FFF == op
            % 0x1000 && (op & 0x00FF) == op % 0x100 && (op & 0x0F00) >> 8 == (op / 0x100) % 0x10
            && (op & 0x00F0) >> 4 == (op / 0x10) % 0x10) by (bit_vector);
    }
    Opcode { family, sub, addr, byte, x, y }
}

} // verus!
