//! The few RISC-V instructions that are placed in the program buffer.

use vstd::prelude::*;

verus! {

/// `ebreak`: hands control back to the debug module.
pub const EBREAK: u32 = 0x0010_0073;

pub const OPCODE_LOAD: u8 = 0b000_0011;

pub const OPCODE_STORE: u8 = 0b010_0011;

pub const OPCODE_OP_IMM: u8 = 0b001_0011;

pub const OPCODE_SYSTEM: u8 = 0b111_0011;

pub const FUNCT3_ADDI: u8 = 0b000;

pub const FUNCT3_CSRRW: u8 = 0b001;

pub const FUNCT3_CSRRS: u8 = 0b010;

/// An I-type word: `imm[11:0] | rs1 | funct3 | rd | opcode`.
pub open spec fn i_type(opcode: u8, rs1: u8, funct3: u8, rd: u8, imm: u16) -> u32 {
    ((imm as u32) << 20u32) | ((rs1 as u32) << 15u32) | ((funct3 as u32) << 12u32) | ((rd as u32)
        << 7u32) | (opcode as u32)
}

/// An S-type word: `imm[11:5] | rs2 | rs1 | funct3 | imm[4:0] | opcode`.
pub open spec fn s_type(opcode: u8, rs1: u8, rs2: u8, funct3: u32, imm: u16) -> u32 {
    (((imm >> 5u16) as u32) << 25u32) | ((rs2 as u32) << 20u32) | ((rs1 as u32) << 15u32) | (funct3
        << 12u32) | (((imm & 0b1_1111u16) as u32) << 7u32) | (opcode as u32)
}

fn i_type_instruction(opcode: u8, rs1: u8, funct3: u8, rd: u8, imm: u16) -> (word: u32)
    ensures
        word == i_type(opcode, rs1, funct3, rd, imm),
{
    ((imm as u32) << 20u32) | ((rs1 as u32) << 15u32) | ((funct3 as u32) << 12u32) | ((rd as u32)
        << 7u32) | (opcode as u32)
}

pub open spec fn spec_lw(offset: u16, rs1: u8, width: u8, rd: u8) -> u32 {
    i_type(OPCODE_LOAD, rs1, width, rd, offset)
}

/// A load of `1 << width` bytes from `offset(rs1)` into `rd`: `lb`, `lh` or `lw`
/// for the widths 0, 1 and 2.
#[verifier::when_used_as_spec(spec_lw)]
pub fn lw(offset: u16, rs1: u8, width: u8, rd: u8) -> (word: u32)
    ensures
        word == spec_lw(offset, rs1, width, rd),
{
    i_type_instruction(OPCODE_LOAD, rs1, width, rd, offset)
}

pub open spec fn spec_sw(offset: u16, rs1: u8, width: u32, rs2: u8) -> u32 {
    s_type(OPCODE_STORE, rs1, rs2, width, offset)
}

/// A store of `1 << width` bytes from `rs2` to `offset(rs1)`: `sb`, `sh` or `sw`
/// for the widths 0, 1 and 2.
#[verifier::when_used_as_spec(spec_sw)]
pub fn sw(offset: u16, rs1: u8, width: u32, rs2: u8) -> (word: u32)
    ensures
        word == spec_sw(offset, rs1, width, rs2),
{
    let offset_lower: u16 = offset & 0b1_1111u16;
    let offset_upper: u16 = offset >> 5u16;
    ((offset_upper as u32) << 25u32) | ((rs2 as u32) << 20u32) | ((rs1 as u32) << 15u32) | (width
        << 12u32) | ((offset_lower as u32) << 7u32) | (OPCODE_STORE as u32)
}

pub open spec fn spec_addi(rd: u8, rs1: u8, imm: u16) -> u32 {
    i_type(OPCODE_OP_IMM, rs1, FUNCT3_ADDI, rd, imm)
}

/// `addi rd, rs1, imm`.
#[verifier::when_used_as_spec(spec_addi)]
pub fn addi(rd: u8, rs1: u8, imm: u16) -> (word: u32)
    ensures
        word == spec_addi(rd, rs1, imm),
{
    i_type_instruction(OPCODE_OP_IMM, rs1, FUNCT3_ADDI, rd, imm)
}

/// `csrrs rd, csr, rs1`.
pub fn csrrs(rd: u8, csr: u16, rs1: u8) -> (word: u32)
    ensures
        word == i_type(OPCODE_SYSTEM, rs1, FUNCT3_CSRRS, rd, csr),
{
    i_type_instruction(OPCODE_SYSTEM, rs1, FUNCT3_CSRRS, rd, csr)
}

/// `csrrw rd, csr, rs1`.
pub fn csrrw(rd: u8, csr: u16, rs1: u8) -> (word: u32)
    ensures
        word == i_type(OPCODE_SYSTEM, rs1, FUNCT3_CSRRW, rd, csr),
{
    i_type_instruction(OPCODE_SYSTEM, rs1, FUNCT3_CSRRW, rd, csr)
}

pub open spec fn spec_csrr(rd: u8, csr: u16) -> u32 {
    i_type(OPCODE_SYSTEM, 0, FUNCT3_CSRRS, rd, csr)
}

/// `csrr rd, csr`: reads a CSR, which is `csrrs rd, csr, x0`.
#[verifier::when_used_as_spec(spec_csrr)]
pub fn csrr(rd: u8, csr: u16) -> (word: u32)
    ensures
        word == spec_csrr(rd, csr),
{
    csrrs(rd, csr, 0)
}

pub open spec fn spec_csrw(csr: u16, rs: u8) -> u32 {
    i_type(OPCODE_SYSTEM, rs, FUNCT3_CSRRW, 0, csr)
}

/// `csrw csr, rs`: writes a CSR, which is `csrrw x0, csr, rs`.
#[verifier::when_used_as_spec(spec_csrw)]
pub fn csrw(csr: u16, rs: u8) -> (word: u32)
    ensures
        word == spec_csrw(csr, rs),
{
    csrrw(0, csr, rs)
}

/// The break instruction is the I-type word of the system opcode with
/// immediate 1 and nothing else set.
pub proof fn lemma_ebreak_encoding()
    ensures
        EBREAK == i_type(OPCODE_SYSTEM, 0, 0, 0, 1),
{
    assert(0x0010_0073u32 == ((1u16 as u32) << 20u32) | ((0u8 as u32) << 15u32) | ((0u8 as u32)
        << 12u32) | ((0u8 as u32) << 7u32) | (0b111_0011u8 as u32)) by (bit_vector);
}

/// Each field of an I-type word holds what it was assembled from, as long as
/// the parts fit their fields.
pub proof fn lemma_i_type_fields(opcode: u8, rs1: u8, funct3: u8, rd: u8, imm: u16)
    requires
        opcode < 128,
        rs1 < 32,
        funct3 < 8,
        rd < 32,
        imm < 4096,
    ensures
        crate::bits::field(i_type(opcode, rs1, funct3, rd, imm), 6, 0) == opcode,
        crate::bits::field(i_type(opcode, rs1, funct3, rd, imm), 11, 7) == rd,
        crate::bits::field(i_type(opcode, rs1, funct3, rd, imm), 14, 12) == funct3,
        crate::bits::field(i_type(opcode, rs1, funct3, rd, imm), 19, 15) == rs1,
        crate::bits::field(i_type(opcode, rs1, funct3, rd, imm), 31, 20) == imm,
{
    let word = i_type(opcode, rs1, funct3, rd, imm);
    assert({
        &&& (word >> 0u32) & (0xffff_ffffu32 >> 25u32) == opcode as u32
        &&& (word >> 7u32) & (0xffff_ffffu32 >> 27u32) == rd as u32
        &&& (word >> 12u32) & (0xffff_ffffu32 >> 29u32) == funct3 as u32
        &&& (word >> 15u32) & (0xffff_ffffu32 >> 27u32) == rs1 as u32
        &&& (word >> 20u32) & (0xffff_ffffu32 >> 20u32) == imm as u32
    }) by (bit_vector)
        requires
            word == ((imm as u32) << 20u32) | ((rs1 as u32) << 15u32) | ((funct3 as u32) << 12u32)
                | ((rd as u32) << 7u32) | (opcode as u32),
            opcode < 128,
            rs1 < 32,
            funct3 < 8,
            rd < 32,
            imm < 4096,
    ;
}

/// Each field of an S-type word holds what it was assembled from, as long as
/// the parts fit their fields; the immediate is split over two fields.
pub proof fn lemma_s_type_fields(opcode: u8, rs1: u8, rs2: u8, funct3: u32, imm: u16)
    requires
        opcode < 128,
        rs1 < 32,
        rs2 < 32,
        funct3 < 8,
        imm < 4096,
    ensures
        crate::bits::field(s_type(opcode, rs1, rs2, funct3, imm), 6, 0) == opcode,
        crate::bits::field(s_type(opcode, rs1, rs2, funct3, imm), 11, 7) == imm % 32,
        crate::bits::field(s_type(opcode, rs1, rs2, funct3, imm), 14, 12) == funct3,
        crate::bits::field(s_type(opcode, rs1, rs2, funct3, imm), 19, 15) == rs1,
        crate::bits::field(s_type(opcode, rs1, rs2, funct3, imm), 24, 20) == rs2,
        crate::bits::field(s_type(opcode, rs1, rs2, funct3, imm), 31, 25) == imm / 32,
{
    let word = s_type(opcode, rs1, rs2, funct3, imm);
    assert({
        &&& (word >> 0u32) & (0xffff_ffffu32 >> 25u32) == opcode as u32
        &&& (word >> 7u32) & (0xffff_ffffu32 >> 27u32) == (imm % 32) as u32
        &&& (word >> 12u32) & (0xffff_ffffu32 >> 29u32) == funct3
        &&& (word >> 15u32) & (0xffff_ffffu32 >> 27u32) == rs1 as u32
        &&& (word >> 20u32) & (0xffff_ffffu32 >> 27u32) == rs2 as u32
        &&& (word >> 25u32) & (0xffff_ffffu32 >> 25u32) == (imm / 32) as u32
    }) by (bit_vector)
        requires
            word == (((imm >> 5u16) as u32) << 25u32) | ((rs2 as u32) << 20u32) | ((rs1 as u32)
                << 15u32) | (funct3 << 12u32) | (((imm & 0b1_1111u16) as u32) << 7u32) | (
            opcode as u32),
            opcode < 128,
            rs1 < 32,
            rs2 < 32,
            funct3 < 8,
            imm < 4096,
    ;
}

} // verus!
