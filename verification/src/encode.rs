//! Encoding: the 32-bit word of an instruction, for the operations whose
//! record holds every field of the word. Decoding the word gives the
//! instruction back, and a word that decodes to one of these instructions is
//! the word that the instruction encodes.

use vstd::prelude::*;
use crate::bits::{bit, bits, sign_extend};
use crate::decode32::{decode_normal_spec, lemma_fields};
use crate::instruction::Inst;

verus! {

/// An R-type word: `funct7 rs2 rs1 funct3 rd opcode`.
#[verifier::when_used_as_spec(r_type_spec)]
pub fn r_type(funct7: u32, rs2: u8, rs1: u8, funct3: u32, rd: u8, opcode: u32) -> (word: u32)
    ensures
        word == r_type_spec(funct7, rs2, rs1, funct3, rd, opcode),
{
    (funct7 & 0x7f) << 25 | ((rs2 & 0x1f) as u32) << 20 | ((rs1 & 0x1f) as u32) << 15 | (funct3 & 7) << 12 | ((rd & 0x1f) as u32) << 7 | (opcode & 0x7f)
}

/// An R-type word: `funct7 rs2 rs1 funct3 rd opcode`.
pub open spec fn r_type_spec(funct7: u32, rs2: u8, rs1: u8, funct3: u32, rd: u8, opcode: u32) -> u32 {
    (funct7 & 0x7f) << 25 | ((rs2 & 0x1f) as u32) << 20 | ((rs1 & 0x1f) as u32) << 15 | (funct3 & 7) << 12 | ((rd & 0x1f) as u32) << 7 | (opcode & 0x7f)
}

/// An I-type word: `imm[11:0] rs1 funct3 rd opcode`.
#[verifier::when_used_as_spec(i_type_spec)]
pub fn i_type(imm: i32, rs1: u8, funct3: u32, rd: u8, opcode: u32) -> (word: u32)
    ensures
        word == i_type_spec(imm, rs1, funct3, rd, opcode),
{
    ((imm as u32) & 0xfff) << 20 | ((rs1 & 0x1f) as u32) << 15 | (funct3 & 7) << 12 | ((rd & 0x1f) as u32) << 7 | (opcode & 0x7f)
}

/// An I-type word: `imm[11:0] rs1 funct3 rd opcode`.
pub open spec fn i_type_spec(imm: i32, rs1: u8, funct3: u32, rd: u8, opcode: u32) -> u32 {
    ((imm as u32) & 0xfff) << 20 | ((rs1 & 0x1f) as u32) << 15 | (funct3 & 7) << 12 | ((rd & 0x1f) as u32) << 7 | (opcode & 0x7f)
}

/// The word of a shift by an immediate: `funct6 shamt rs1 funct3 rd opcode`.
#[verifier::when_used_as_spec(shift_type_spec)]
pub fn shift_type(funct6: u32, shamt: u32, rs1: u8, funct3: u32, rd: u8, opcode: u32) -> (word: u32)
    ensures
        word == shift_type_spec(funct6, shamt, rs1, funct3, rd, opcode),
{
    (funct6 & 0x3f) << 26 | (shamt & 0x3f) << 20 | ((rs1 & 0x1f) as u32) << 15 | (funct3 & 7) << 12 | ((rd & 0x1f) as u32) << 7 | (opcode & 0x7f)
}

/// The word of a shift by an immediate: `funct6 shamt rs1 funct3 rd opcode`.
pub open spec fn shift_type_spec(funct6: u32, shamt: u32, rs1: u8, funct3: u32, rd: u8, opcode: u32) -> u32 {
    (funct6 & 0x3f) << 26 | (shamt & 0x3f) << 20 | ((rs1 & 0x1f) as u32) << 15 | (funct3 & 7) << 12 | ((rd & 0x1f) as u32) << 7 | (opcode & 0x7f)
}

/// An S-type word: `imm[11:5] rs2 rs1 funct3 imm[4:0] opcode`.
#[verifier::when_used_as_spec(s_type_spec)]
pub fn s_type(imm: i32, rs2: u8, rs1: u8, funct3: u32, opcode: u32) -> (word: u32)
    ensures
        word == s_type_spec(imm, rs2, rs1, funct3, opcode),
{
    (((imm as u32) >> 5) & 0x7f) << 25 | ((rs2 & 0x1f) as u32) << 20 | ((rs1 & 0x1f) as u32) << 15 | (funct3 & 7) << 12 | ((imm as u32) & 0x1f) << 7 | (opcode & 0x7f)
}

/// An S-type word: `imm[11:5] rs2 rs1 funct3 imm[4:0] opcode`.
pub open spec fn s_type_spec(imm: i32, rs2: u8, rs1: u8, funct3: u32, opcode: u32) -> u32 {
    (((imm as u32) >> 5) & 0x7f) << 25 | ((rs2 & 0x1f) as u32) << 20 | ((rs1 & 0x1f) as u32) << 15 | (funct3 & 7) << 12 | ((imm as u32) & 0x1f) << 7 | (opcode & 0x7f)
}

/// A B-type word: `imm[12|10:5] rs2 rs1 funct3 imm[4:1|11] opcode`.
#[verifier::when_used_as_spec(b_type_spec)]
pub fn b_type(imm: i32, rs2: u8, rs1: u8, funct3: u32) -> (word: u32)
    ensures
        word == b_type_spec(imm, rs2, rs1, funct3),
{
    (((imm as u32) >> 12) & 1) << 31 | (((imm as u32) >> 5) & 0x3f) << 25 | ((rs2 & 0x1f) as u32) << 20 | ((rs1 & 0x1f) as u32) << 15 | (funct3 & 7) << 12 | (((imm as u32) >> 1) & 0xf) << 8 | (((imm as u32) >> 11) & 1) << 7 | 0b1100011
}

/// A B-type word: `imm[12|10:5] rs2 rs1 funct3 imm[4:1|11] opcode`.
pub open spec fn b_type_spec(imm: i32, rs2: u8, rs1: u8, funct3: u32) -> u32 {
    (((imm as u32) >> 12) & 1) << 31 | (((imm as u32) >> 5) & 0x3f) << 25 | ((rs2 & 0x1f) as u32) << 20 | ((rs1 & 0x1f) as u32) << 15 | (funct3 & 7) << 12 | (((imm as u32) >> 1) & 0xf) << 8 | (((imm as u32) >> 11) & 1) << 7 | 0b1100011
}

/// A U-type word: `imm[31:12] rd opcode`.
#[verifier::when_used_as_spec(u_type_spec)]
pub fn u_type(imm: i32, rd: u8, opcode: u32) -> (word: u32)
    ensures
        word == u_type_spec(imm, rd, opcode),
{
    ((imm as u32) & 0xffff_f000) | ((rd & 0x1f) as u32) << 7 | (opcode & 0x7f)
}

/// A U-type word: `imm[31:12] rd opcode`.
pub open spec fn u_type_spec(imm: i32, rd: u8, opcode: u32) -> u32 {
    ((imm as u32) & 0xffff_f000) | ((rd & 0x1f) as u32) << 7 | (opcode & 0x7f)
}

/// A J-type word: `imm[20|10:1|11|19:12] rd opcode`.
#[verifier::when_used_as_spec(j_type_spec)]
pub fn j_type(imm: i32, rd: u8) -> (word: u32)
    ensures
        word == j_type_spec(imm, rd),
{
    (((imm as u32) >> 20) & 1) << 31 | (((imm as u32) >> 1) & 0x3ff) << 21 | (((imm as u32) >> 11) & 1) << 20 | (((imm as u32) >> 12) & 0xff) << 12 | ((rd & 0x1f) as u32) << 7 | 0b1101111
}

/// A J-type word: `imm[20|10:1|11|19:12] rd opcode`.
pub open spec fn j_type_spec(imm: i32, rd: u8) -> u32 {
    (((imm as u32) >> 20) & 1) << 31 | (((imm as u32) >> 1) & 0x3ff) << 21 | (((imm as u32) >> 11) & 1) << 20 | (((imm as u32) >> 12) & 0xff) << 12 | ((rd & 0x1f) as u32) << 7 | 0b1101111
}

/// The word that encodes an instruction. There is none for an unknown word;
/// for a fence, an atomic operation and a floating-point division, whose
/// words hold fields that the record does not keep; and for the conversion
/// that the decoder does not know.
pub open spec fn encode_spec(inst: Inst) -> Option<u32> {
    match inst {
        Inst::Ecall => Some(0x0000_0073u32),
        Inst::Ebreak => Some(0x0010_0073u32),
        Inst::Lui { rd, imm } => Some(u_type(imm, rd.0, 0b0110111)),
        Inst::Auipc { rd, imm } => Some(u_type(imm, rd.0, 0b0010111)),
        Inst::Jal { rd, offset } => Some(j_type(offset, rd.0)),
        Inst::Jalr { rd, rs1, offset } => Some(i_type(offset, rs1.0, 0, rd.0, 0b1100111)),
        Inst::Lb { rd, rs1, offset } => Some(i_type(offset, rs1.0, 0, rd.0, 0b0000011)),
        Inst::Lw { rd, rs1, offset } => Some(i_type(offset, rs1.0, 2, rd.0, 0b0000011)),
        Inst::Ld { rd, rs1, offset } => Some(i_type(offset, rs1.0, 3, rd.0, 0b0000011)),
        Inst::Lbu { rd, rs1, offset } => Some(i_type(offset, rs1.0, 4, rd.0, 0b0000011)),
        Inst::Lhu { rd, rs1, offset } => Some(i_type(offset, rs1.0, 5, rd.0, 0b0000011)),
        Inst::Lwu { rd, rs1, offset } => Some(i_type(offset, rs1.0, 6, rd.0, 0b0000011)),
        Inst::Flw { rd, rs1, offset } => Some(i_type(offset, rs1.0, 2, rd.0, 0b0000111)),
        Inst::Fld { rd, rs1, offset } => Some(i_type(offset, rs1.0, 3, rd.0, 0b0000111)),
        Inst::Sb { rs1, rs2, offset } => Some(s_type(offset, rs2.0, rs1.0, 0, 0b0100011)),
        Inst::Sh { rs1, rs2, offset } => Some(s_type(offset, rs2.0, rs1.0, 1, 0b0100011)),
        Inst::Sw { rs1, rs2, offset } => Some(s_type(offset, rs2.0, rs1.0, 2, 0b0100011)),
        Inst::Sd { rs1, rs2, offset } => Some(s_type(offset, rs2.0, rs1.0, 3, 0b0100011)),
        Inst::Fsw { rs1, rs2, offset } => Some(s_type(offset, rs2.0, rs1.0, 2, 0b0100111)),
        Inst::Fsd { rs1, rs2, offset } => Some(s_type(offset, rs2.0, rs1.0, 3, 0b0100111)),
        Inst::Beq { rs1, rs2, offset } => Some(b_type(offset, rs2.0, rs1.0, 0)),
        Inst::Bne { rs1, rs2, offset } => Some(b_type(offset, rs2.0, rs1.0, 1)),
        Inst::Blt { rs1, rs2, offset } => Some(b_type(offset, rs2.0, rs1.0, 4)),
        Inst::Bge { rs1, rs2, offset } => Some(b_type(offset, rs2.0, rs1.0, 5)),
        Inst::Bltu { rs1, rs2, offset } => Some(b_type(offset, rs2.0, rs1.0, 6)),
        Inst::Bgeu { rs1, rs2, offset } => Some(b_type(offset, rs2.0, rs1.0, 7)),
        Inst::Addi { rd, rs1, imm } => Some(i_type(imm, rs1.0, 0, rd.0, 0b0010011)),
        Inst::Slti { rd, rs1, imm } => Some(i_type(imm, rs1.0, 2, rd.0, 0b0010011)),
        Inst::Xori { rd, rs1, imm } => Some(i_type(imm, rs1.0, 4, rd.0, 0b0010011)),
        Inst::Ori { rd, rs1, imm } => Some(i_type(imm, rs1.0, 6, rd.0, 0b0010011)),
        Inst::Andi { rd, rs1, imm } => Some(i_type(imm, rs1.0, 7, rd.0, 0b0010011)),
        Inst::Sltiu { rd, rs1, imm } => Some(i_type(imm as i32, rs1.0, 3, rd.0, 0b0010011)),
        Inst::Addiw { rd, rs1, imm } => Some(i_type(imm as i32, rs1.0, 0, rd.0, 0b0011011)),
        Inst::Slli { rd, rs1, shamt } => Some(shift_type(0, shamt, rs1.0, 1, rd.0, 0b0010011)),
        Inst::Srli { rd, rs1, shamt } => Some(shift_type(0, shamt, rs1.0, 5, rd.0, 0b0010011)),
        Inst::Srai { rd, rs1, shamt } => Some(shift_type(0b010000, shamt, rs1.0, 5, rd.0, 0b0010011)),
        Inst::Slliw { rd, rs1, shamt } => Some(shift_type(0, shamt & 0x1f, rs1.0, 1, rd.0, 0b0011011)),
        Inst::Srliw { rd, rs1, shamt } => Some(shift_type(0, shamt & 0x1f, rs1.0, 5, rd.0, 0b0011011)),
        Inst::Sraiw { rd, rs1, shamt } => Some(shift_type(0b010000, shamt & 0x1f, rs1.0, 5, rd.0, 0b0011011)),
        Inst::Add { rd, rs1, rs2 } => Some(r_type(0, rs2.0, rs1.0, 0, rd.0, 0b0110011)),
        Inst::Sub { rd, rs1, rs2 } => Some(r_type(32, rs2.0, rs1.0, 0, rd.0, 0b0110011)),
        Inst::Mul { rd, rs1, rs2 } => Some(r_type(1, rs2.0, rs1.0, 0, rd.0, 0b0110011)),
        Inst::Sll { rd, rs1, rs2 } => Some(r_type(0, rs2.0, rs1.0, 1, rd.0, 0b0110011)),
        Inst::Slt { rd, rs1, rs2 } => Some(r_type(0, rs2.0, rs1.0, 2, rd.0, 0b0110011)),
        Inst::Sltu { rd, rs1, rs2 } => Some(r_type(0, rs2.0, rs1.0, 3, rd.0, 0b0110011)),
        Inst::Mulhu { rd, rs1, rs2 } => Some(r_type(1, rs2.0, rs1.0, 3, rd.0, 0b0110011)),
        Inst::Xor { rd, rs1, rs2 } => Some(r_type(0, rs2.0, rs1.0, 4, rd.0, 0b0110011)),
        Inst::Div { rd, rs1, rs2 } => Some(r_type(1, rs2.0, rs1.0, 4, rd.0, 0b0110011)),
        Inst::Srl { rd, rs1, rs2 } => Some(r_type(0, rs2.0, rs1.0, 5, rd.0, 0b0110011)),
        Inst::Divu { rd, rs1, rs2 } => Some(r_type(1, rs2.0, rs1.0, 5, rd.0, 0b0110011)),
        Inst::Sra { rd, rs1, rs2 } => Some(r_type(32, rs2.0, rs1.0, 5, rd.0, 0b0110011)),
        Inst::Or { rd, rs1, rs2 } => Some(r_type(0, rs2.0, rs1.0, 6, rd.0, 0b0110011)),
        Inst::And { rd, rs1, rs2 } => Some(r_type(0, rs2.0, rs1.0, 7, rd.0, 0b0110011)),
        Inst::Remu { rd, rs1, rs2 } => Some(r_type(1, rs2.0, rs1.0, 7, rd.0, 0b0110011)),
        Inst::Addw { rd, rs1, rs2 } => Some(r_type(0, rs2.0, rs1.0, 0, rd.0, 0b0111011)),
        Inst::Subw { rd, rs1, rs2 } => Some(r_type(32, rs2.0, rs1.0, 0, rd.0, 0b0111011)),
        Inst::Sllw { rd, rs1, rs2 } => Some(r_type(0, rs2.0, rs1.0, 1, rd.0, 0b0111011)),
        Inst::Divw { rd, rs1, rs2 } => Some(r_type(1, rs2.0, rs1.0, 4, rd.0, 0b0111011)),
        Inst::Srlw { rd, rs1, rs2 } => Some(r_type(0, rs2.0, rs1.0, 5, rd.0, 0b0111011)),
        Inst::Divuw { rd, rs1, rs2 } => Some(r_type(1, rs2.0, rs1.0, 5, rd.0, 0b0111011)),
        Inst::Sraw { rd, rs1, rs2 } => Some(r_type(32, rs2.0, rs1.0, 5, rd.0, 0b0111011)),
        Inst::Remw { rd, rs1, rs2 } => Some(r_type(1, rs2.0, rs1.0, 6, rd.0, 0b0111011)),
        Inst::Remuw { rd, rs1, rs2 } => Some(r_type(1, rs2.0, rs1.0, 7, rd.0, 0b0111011)),
        Inst::Fled { rd, rs1, rs2 } => Some(r_type(0b1010001, rs2.0, rs1.0, 0, rd.0, 0b1010011)),
        Inst::Fcvtdlu { rd, rs1, rm } => Some(r_type(0b1101001, 3, rs1.0, (rm & 7) as u32, rd.0, 0b1010011)),
        _ => None,
    }
}

impl Inst {
    /// Returns the 32-bit word that encodes the instruction, if there is one.
    /// Where a field of the record has more bits than its place in the word,
    /// the low bits are encoded.
    pub fn encode(&self) -> (word: Option<u32>)
        ensures
            word == encode_spec(*self),
    {
        match *self {
            Inst::Ecall => Some(0x0000_0073u32),
            Inst::Ebreak => Some(0x0010_0073u32),
            Inst::Lui { rd, imm } => Some(u_type(imm, rd.0, 0b0110111)),
            Inst::Auipc { rd, imm } => Some(u_type(imm, rd.0, 0b0010111)),
            Inst::Jal { rd, offset } => Some(j_type(offset, rd.0)),
            Inst::Jalr { rd, rs1, offset } => Some(i_type(offset, rs1.0, 0, rd.0, 0b1100111)),
            Inst::Lb { rd, rs1, offset } => Some(i_type(offset, rs1.0, 0, rd.0, 0b0000011)),
            Inst::Lw { rd, rs1, offset } => Some(i_type(offset, rs1.0, 2, rd.0, 0b0000011)),
            Inst::Ld { rd, rs1, offset } => Some(i_type(offset, rs1.0, 3, rd.0, 0b0000011)),
            Inst::Lbu { rd, rs1, offset } => Some(i_type(offset, rs1.0, 4, rd.0, 0b0000011)),
            Inst::Lhu { rd, rs1, offset } => Some(i_type(offset, rs1.0, 5, rd.0, 0b0000011)),
            Inst::Lwu { rd, rs1, offset } => Some(i_type(offset, rs1.0, 6, rd.0, 0b0000011)),
            Inst::Flw { rd, rs1, offset } => Some(i_type(offset, rs1.0, 2, rd.0, 0b0000111)),
            Inst::Fld { rd, rs1, offset } => Some(i_type(offset, rs1.0, 3, rd.0, 0b0000111)),
            Inst::Sb { rs1, rs2, offset } => Some(s_type(offset, rs2.0, rs1.0, 0, 0b0100011)),
            Inst::Sh { rs1, rs2, offset } => Some(s_type(offset, rs2.0, rs1.0, 1, 0b0100011)),
            Inst::Sw { rs1, rs2, offset } => Some(s_type(offset, rs2.0, rs1.0, 2, 0b0100011)),
            Inst::Sd { rs1, rs2, offset } => Some(s_type(offset, rs2.0, rs1.0, 3, 0b0100011)),
            Inst::Fsw { rs1, rs2, offset } => Some(s_type(offset, rs2.0, rs1.0, 2, 0b0100111)),
            Inst::Fsd { rs1, rs2, offset } => Some(s_type(offset, rs2.0, rs1.0, 3, 0b0100111)),
            Inst::Beq { rs1, rs2, offset } => Some(b_type(offset, rs2.0, rs1.0, 0)),
            Inst::Bne { rs1, rs2, offset } => Some(b_type(offset, rs2.0, rs1.0, 1)),
            Inst::Blt { rs1, rs2, offset } => Some(b_type(offset, rs2.0, rs1.0, 4)),
            Inst::Bge { rs1, rs2, offset } => Some(b_type(offset, rs2.0, rs1.0, 5)),
            Inst::Bltu { rs1, rs2, offset } => Some(b_type(offset, rs2.0, rs1.0, 6)),
            Inst::Bgeu { rs1, rs2, offset } => Some(b_type(offset, rs2.0, rs1.0, 7)),
            Inst::Addi { rd, rs1, imm } => Some(i_type(imm, rs1.0, 0, rd.0, 0b0010011)),
            Inst::Slti { rd, rs1, imm } => Some(i_type(imm, rs1.0, 2, rd.0, 0b0010011)),
            Inst::Xori { rd, rs1, imm } => Some(i_type(imm, rs1.0, 4, rd.0, 0b0010011)),
            Inst::Ori { rd, rs1, imm } => Some(i_type(imm, rs1.0, 6, rd.0, 0b0010011)),
            Inst::Andi { rd, rs1, imm } => Some(i_type(imm, rs1.0, 7, rd.0, 0b0010011)),
            Inst::Sltiu { rd, rs1, imm } => Some(i_type(imm as i32, rs1.0, 3, rd.0, 0b0010011)),
            Inst::Addiw { rd, rs1, imm } => Some(i_type(imm as i32, rs1.0, 0, rd.0, 0b0011011)),
            Inst::Slli { rd, rs1, shamt } => Some(shift_type(0, shamt, rs1.0, 1, rd.0, 0b0010011)),
            Inst::Srli { rd, rs1, shamt } => Some(shift_type(0, shamt, rs1.0, 5, rd.0, 0b0010011)),
            Inst::Srai { rd, rs1, shamt } => Some(shift_type(0b010000, shamt, rs1.0, 5, rd.0, 0b0010011)),
            Inst::Slliw { rd, rs1, shamt } => Some(shift_type(0, shamt & 0x1f, rs1.0, 1, rd.0, 0b0011011)),
            Inst::Srliw { rd, rs1, shamt } => Some(shift_type(0, shamt & 0x1f, rs1.0, 5, rd.0, 0b0011011)),
            Inst::Sraiw { rd, rs1, shamt } => Some(shift_type(0b010000, shamt & 0x1f, rs1.0, 5, rd.0, 0b0011011)),
            Inst::Add { rd, rs1, rs2 } => Some(r_type(0, rs2.0, rs1.0, 0, rd.0, 0b0110011)),
            Inst::Sub { rd, rs1, rs2 } => Some(r_type(32, rs2.0, rs1.0, 0, rd.0, 0b0110011)),
            Inst::Mul { rd, rs1, rs2 } => Some(r_type(1, rs2.0, rs1.0, 0, rd.0, 0b0110011)),
            Inst::Sll { rd, rs1, rs2 } => Some(r_type(0, rs2.0, rs1.0, 1, rd.0, 0b0110011)),
            Inst::Slt { rd, rs1, rs2 } => Some(r_type(0, rs2.0, rs1.0, 2, rd.0, 0b0110011)),
            Inst::Sltu { rd, rs1, rs2 } => Some(r_type(0, rs2.0, rs1.0, 3, rd.0, 0b0110011)),
            Inst::Mulhu { rd, rs1, rs2 } => Some(r_type(1, rs2.0, rs1.0, 3, rd.0, 0b0110011)),
            Inst::Xor { rd, rs1, rs2 } => Some(r_type(0, rs2.0, rs1.0, 4, rd.0, 0b0110011)),
            Inst::Div { rd, rs1, rs2 } => Some(r_type(1, rs2.0, rs1.0, 4, rd.0, 0b0110011)),
            Inst::Srl { rd, rs1, rs2 } => Some(r_type(0, rs2.0, rs1.0, 5, rd.0, 0b0110011)),
            Inst::Divu { rd, rs1, rs2 } => Some(r_type(1, rs2.0, rs1.0, 5, rd.0, 0b0110011)),
            Inst::Sra { rd, rs1, rs2 } => Some(r_type(32, rs2.0, rs1.0, 5, rd.0, 0b0110011)),
            Inst::Or { rd, rs1, rs2 } => Some(r_type(0, rs2.0, rs1.0, 6, rd.0, 0b0110011)),
            Inst::And { rd, rs1, rs2 } => Some(r_type(0, rs2.0, rs1.0, 7, rd.0, 0b0110011)),
            Inst::Remu { rd, rs1, rs2 } => Some(r_type(1, rs2.0, rs1.0, 7, rd.0, 0b0110011)),
            Inst::Addw { rd, rs1, rs2 } => Some(r_type(0, rs2.0, rs1.0, 0, rd.0, 0b0111011)),
            Inst::Subw { rd, rs1, rs2 } => Some(r_type(32, rs2.0, rs1.0, 0, rd.0, 0b0111011)),
            Inst::Sllw { rd, rs1, rs2 } => Some(r_type(0, rs2.0, rs1.0, 1, rd.0, 0b0111011)),
            Inst::Divw { rd, rs1, rs2 } => Some(r_type(1, rs2.0, rs1.0, 4, rd.0, 0b0111011)),
            Inst::Srlw { rd, rs1, rs2 } => Some(r_type(0, rs2.0, rs1.0, 5, rd.0, 0b0111011)),
            Inst::Divuw { rd, rs1, rs2 } => Some(r_type(1, rs2.0, rs1.0, 5, rd.0, 0b0111011)),
            Inst::Sraw { rd, rs1, rs2 } => Some(r_type(32, rs2.0, rs1.0, 5, rd.0, 0b0111011)),
            Inst::Remw { rd, rs1, rs2 } => Some(r_type(1, rs2.0, rs1.0, 6, rd.0, 0b0111011)),
            Inst::Remuw { rd, rs1, rs2 } => Some(r_type(1, rs2.0, rs1.0, 7, rd.0, 0b0111011)),
            Inst::Fled { rd, rs1, rs2 } => Some(r_type(0b1010001, rs2.0, rs1.0, 0, rd.0, 0b1010011)),
            Inst::Fcvtdlu { rd, rs1, rm } => Some(r_type(0b1101001, 3, rs1.0, (rm & 7) as u32, rd.0, 0b1010011)),
            _ => None,
        }
    }
}


/// The fields of a word, put together again in each of the formats, are the
/// word.
pub proof fn lemma_fields_make_word(w: u32)
    by (bit_vector)
    ensures
        r_type_spec(
            bits(w, 31, 25),
            bits(w, 24, 20) as u8,
            bits(w, 19, 15) as u8,
            bits(w, 14, 12),
            bits(w, 11, 7) as u8,
            bits(w, 6, 0),
        ) == w,
        i_type_spec(
            sign_extend(bits(w, 31, 20), 12),
            bits(w, 19, 15) as u8,
            bits(w, 14, 12),
            bits(w, 11, 7) as u8,
            bits(w, 6, 0),
        ) == w,
        (sign_extend(bits(w, 31, 20), 12) as u32) as i32 == sign_extend(bits(w, 31, 20), 12),
        shift_type_spec(
            bits(w, 31, 26),
            bits(w, 25, 20),
            bits(w, 19, 15) as u8,
            bits(w, 14, 12),
            bits(w, 11, 7) as u8,
            bits(w, 6, 0),
        ) == w,
        bits(w, 31, 25) == 0 ==> shift_type_spec(
            0,
            bits(w, 24, 20) & 0x1f,
            bits(w, 19, 15) as u8,
            bits(w, 14, 12),
            bits(w, 11, 7) as u8,
            bits(w, 6, 0),
        ) == w,
        bits(w, 31, 25) == 0b0100000 ==> shift_type_spec(
            0b010000,
            bits(w, 24, 20) & 0x1f,
            bits(w, 19, 15) as u8,
            bits(w, 14, 12),
            bits(w, 11, 7) as u8,
            bits(w, 6, 0),
        ) == w,
        bits(w, 31, 25) == 0 ==> bits(w, 31, 26) == 0,
        bits(w, 31, 25) == 0b0100000 ==> bits(w, 31, 26) == 0b010000,
        s_type_spec(
            sign_extend(bits(w, 31, 25) << 5 | bits(w, 11, 7), 12),
            bits(w, 24, 20) as u8,
            bits(w, 19, 15) as u8,
            bits(w, 14, 12),
            bits(w, 6, 0),
        ) == w,
        bits(w, 6, 0) == 0b1100011 ==> b_type_spec(
            sign_extend(
                bit(w, 31) << 12 | bit(w, 7) << 11 | bits(w, 30, 25) << 5 | bits(w, 11, 8) << 1,
                13,
            ),
            bits(w, 24, 20) as u8,
            bits(w, 19, 15) as u8,
            bits(w, 14, 12),
        ) == w,
        u_type_spec(sign_extend(bits(w, 31, 12) << 12, 32), bits(w, 11, 7) as u8, bits(w, 6, 0))
            == w,
        bits(w, 6, 0) == 0b1101111 ==> j_type_spec(
            sign_extend(
                bit(w, 31) << 20 | bits(w, 19, 12) << 12 | bit(w, 20) << 11 | bits(w, 30, 21) << 1,
                21,
            ),
            bits(w, 11, 7) as u8,
        ) == w,
        ((bits(w, 14, 12) as u8) & 7) as u32 == bits(w, 14, 12),
{
}

/// Decoding a 32-bit word and encoding the instruction again gives the word
/// back, for every word whose instruction can be encoded.
pub proof fn law_encode_inverts_decode(w: u32)
    requires
        encode_spec(decode_normal_spec(w)) is Some,
    ensures
        encode_spec(decode_normal_spec(w)) == Some(w),
{
    lemma_fields_make_word(w);
    lemma_fields(w);
}

} // verus!
