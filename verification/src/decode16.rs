//! Decoding of 16-bit compressed instructions into the instruction record of
//! the operation that each one abbreviates.
//!
//! As for the 32-bit words, the contract assembles each immediate from
//! the bits that the manual names, and the executable decoder uses masks and
//! shifts on the whole halfword.

use vstd::prelude::*;
use crate::bits::{bit, bits, sign_extend};
use crate::instruction::Inst;
use crate::register::{FReg, Reg, RA, SP};

verus! {

/// The halfword as the low half of a 32-bit word.
pub open spec fn widen(inst: u16) -> u32 {
    inst as u32
}

/// The three-bit register field `c[4:2]`, which names `x8` to `x15`.
pub open spec fn creg_low(c: u32) -> u8 {
    (bits(c, 4, 2) + 8) as u8
}

/// The three-bit register field `c[9:7]`, which names `x8` to `x15`.
pub open spec fn creg_high(c: u32) -> u8 {
    (bits(c, 9, 7) + 8) as u8
}

/// The five-bit register field `c[11:7]`.
pub open spec fn cfull_high(c: u32) -> u8 {
    bits(c, 11, 7) as u8
}

/// The five-bit register field `c[6:2]`.
pub open spec fn cfull_low(c: u32) -> u8 {
    bits(c, 6, 2) as u8
}

/// C.ADDI4SPN: `nzuimm[5:4|9:6|2|3]` in `c[12:5]`.
pub open spec fn imm_addi4spn(c: u32) -> u32 {
    bits(c, 10, 7) << 6 | bits(c, 12, 11) << 4 | bit(c, 5) << 3 | bit(c, 6) << 2
}

/// Doubleword loads and stores: `uimm[5:3]` in `c[12:10]`, `uimm[7:6]` in `c[6:5]`.
pub open spec fn imm_mem_d(c: u32) -> u32 {
    bits(c, 6, 5) << 6 | bits(c, 12, 10) << 3
}

/// Word loads and stores: `uimm[5:3]` in `c[12:10]`, `uimm[2|6]` in `c[6:5]`.
pub open spec fn imm_mem_w(c: u32) -> u32 {
    bit(c, 5) << 6 | bits(c, 12, 10) << 3 | bit(c, 6) << 2
}

/// C.ADDI, C.ADDIW, C.LI, C.ANDI: `imm[5]` in `c[12]`, `imm[4:0]` in `c[6:2]`.
pub open spec fn imm_ci(c: u32) -> i32 {
    sign_extend(bit(c, 12) << 5 | bits(c, 6, 2), 6)
}

/// C.ADDI16SP: `nzimm[9]` in `c[12]`, `nzimm[4|6|8:7|5]` in `c[6:2]`.
pub open spec fn imm_addi16sp(c: u32) -> i32 {
    sign_extend(
        bit(c, 12) << 9 | bits(c, 4, 3) << 7 | bit(c, 5) << 6 | bit(c, 2) << 5 | bit(c, 6) << 4,
        10,
    )
}

/// C.LUI: `nzimm[17]` in `c[12]`, `nzimm[16:12]` in `c[6:2]`.
pub open spec fn imm_lui(c: u32) -> i32 {
    sign_extend(bit(c, 12) << 17 | bits(c, 6, 2) << 12, 18)
}

/// The shift amount: `shamt[5]` in `c[12]`, `shamt[4:0]` in `c[6:2]`.
pub open spec fn imm_shamt(c: u32) -> u32 {
    bit(c, 12) << 5 | bits(c, 6, 2)
}

/// C.J: `imm[11|4|9:8|10|6|7|3:1|5]` in `c[12:2]`.
pub open spec fn imm_cj(c: u32) -> i32 {
    sign_extend(
        bit(c, 12) << 11 | bit(c, 8) << 10 | bits(c, 10, 9) << 8 | bit(c, 6) << 7 | bit(c, 7) << 6
            | bit(c, 2) << 5 | bit(c, 11) << 4 | bits(c, 5, 3) << 1,
        12,
    )
}

/// C.BEQZ, C.BNEZ: `imm[8|4:3]` in `c[12:10]`, `imm[7:6|2:1|5]` in `c[6:2]`.
pub open spec fn imm_cb(c: u32) -> i32 {
    sign_extend(
        bit(c, 12) << 8 | bits(c, 6, 5) << 6 | bit(c, 2) << 5 | bits(c, 11, 10) << 3 | bits(
            c,
            4,
            3,
        ) << 1,
        9,
    )
}

/// C.LDSP, C.FLDSP: `uimm[5]` in `c[12]`, `uimm[4:3|8:6]` in `c[6:2]`.
pub open spec fn imm_ldsp(c: u32) -> u32 {
    bits(c, 4, 2) << 6 | bit(c, 12) << 5 | bits(c, 6, 5) << 3
}

/// C.LWSP: `uimm[5]` in `c[12]`, `uimm[4:2|7:6]` in `c[6:2]`.
pub open spec fn imm_lwsp(c: u32) -> u32 {
    bits(c, 3, 2) << 6 | bit(c, 12) << 5 | bits(c, 6, 4) << 2
}

/// C.SDSP, C.FSDSP: `uimm[5:3|8:6]` in `c[12:7]`.
pub open spec fn imm_sdsp(c: u32) -> u32 {
    bits(c, 9, 7) << 6 | bits(c, 12, 10) << 3
}

/// C.SWSP: `uimm[5:2|7:6]` in `c[12:7]`.
pub open spec fn imm_swsp(c: u32) -> u32 {
    bits(c, 8, 7) << 6 | bits(c, 12, 9) << 2
}

/// Quadrant 0: stack-pointer arithmetic and register-based loads and stores.
pub open spec fn decode_quadrant0(c: u32) -> Inst {
    match bits(c, 15, 13) {
        0b000 => Inst::Addi { rd: Reg(creg_low(c)), rs1: Reg(SP), imm: imm_addi4spn(c) as i32 },
        0b001 => Inst::Fld {
            rd: FReg(creg_low(c)),
            rs1: Reg(creg_high(c)),
            offset: imm_mem_d(c) as i32,
        },
        0b010 => Inst::Lw {
            rd: Reg(creg_low(c)),
            rs1: Reg(creg_high(c)),
            offset: imm_mem_w(c) as i32,
        },
        0b011 => Inst::Ld {
            rd: Reg(creg_low(c)),
            rs1: Reg(creg_high(c)),
            offset: imm_mem_d(c) as i32,
        },
        0b101 => Inst::Fsd {
            rs1: Reg(creg_high(c)),
            rs2: FReg(creg_low(c)),
            offset: imm_mem_d(c) as i32,
        },
        0b110 => Inst::Sw {
            rs1: Reg(creg_high(c)),
            rs2: Reg(creg_low(c)),
            offset: imm_mem_w(c) as i32,
        },
        0b111 => Inst::Sd {
            rs1: Reg(creg_high(c)),
            rs2: Reg(creg_low(c)),
            offset: imm_mem_d(c) as i32,
        },
        _ => Inst::Unknown(c),
    }
}

/// The arithmetic group of quadrant 1, selected by `c[11:10]`.
pub open spec fn decode_quadrant1_arith(c: u32) -> Inst {
    let rd = Reg(creg_high(c));
    let rs2 = Reg(creg_low(c));
    match bits(c, 11, 10) {
        0b00 => if imm_shamt(c) == 0 {
            Inst::Unknown(c)
        } else {
            Inst::Srli { rd, rs1: rd, shamt: imm_shamt(c) }
        },
        0b01 => if imm_shamt(c) == 0 {
            Inst::Unknown(c)
        } else {
            Inst::Srai { rd, rs1: rd, shamt: imm_shamt(c) }
        },
        0b10 => Inst::Andi { rd, rs1: rd, imm: imm_ci(c) },
        _ => match (bit(c, 12), bits(c, 6, 5)) {
            (0, 0b00) => Inst::Sub { rd, rs1: rd, rs2 },
            (0, 0b01) => Inst::Xor { rd, rs1: rd, rs2 },
            (0, 0b10) => Inst::Or { rd, rs1: rd, rs2 },
            (0, 0b11) => Inst::And { rd, rs1: rd, rs2 },
            (1, 0b00) => Inst::Subw { rd, rs1: rd, rs2 },
            (1, 0b01) => Inst::Addw { rd, rs1: rd, rs2 },
            _ => Inst::Unknown(c),
        },
    }
}

/// Quadrant 1: immediates, jumps and branches.
pub open spec fn decode_quadrant1(c: u32) -> Inst {
    let rd = Reg(cfull_high(c));
    match bits(c, 15, 13) {
        0b000 => Inst::Addi { rd, rs1: rd, imm: imm_ci(c) },
        0b001 => Inst::Addiw { rd, rs1: rd, imm: imm_ci(c) as u32 },
        0b010 => Inst::Addi { rd, rs1: Reg(0), imm: imm_ci(c) },
        0b011 => if cfull_high(c) == 2 {
            Inst::Addi { rd: Reg(SP), rs1: Reg(SP), imm: imm_addi16sp(c) }
        } else {
            Inst::Lui { rd, imm: imm_lui(c) }
        },
        0b100 => decode_quadrant1_arith(c),
        0b101 => Inst::Jal { rd: Reg(0), offset: imm_cj(c) },
        0b110 => Inst::Beq { rs1: Reg(creg_high(c)), rs2: Reg(0), offset: imm_cb(c) },
        _ => Inst::Bne { rs1: Reg(creg_high(c)), rs2: Reg(0), offset: imm_cb(c) },
    }
}

/// The register group of quadrant 2: jumps through a register, moves and adds.
pub open spec fn decode_quadrant2_reg(c: u32) -> Inst {
    let rs1 = Reg(cfull_high(c));
    let rs2 = Reg(cfull_low(c));
    if bit(c, 12) == 0 && rs1.0 != 0 && rs2.0 == 0 {
        Inst::Jalr { rd: Reg(0), rs1, offset: 0 }
    } else if bit(c, 12) == 0 && rs1.0 != 0 && rs2.0 != 0 {
        Inst::Add { rd: rs1, rs1: Reg(0), rs2 }
    } else if bit(c, 12) == 1 && rs1.0 != 0 && rs2.0 != 0 {
        Inst::Add { rd: rs1, rs1, rs2 }
    } else if bit(c, 12) == 1 && rs1.0 != 0 && rs2.0 == 0 {
        Inst::Jalr { rd: Reg(RA), rs1, offset: 0 }
    } else {
        Inst::Ebreak
    }
}

/// Quadrant 2: shifts and stack-relative loads and stores.
pub open spec fn decode_quadrant2(c: u32) -> Inst {
    let rd = Reg(cfull_high(c));
    match bits(c, 15, 13) {
        0b000 => if imm_shamt(c) != 0 {
            Inst::Slli { rd, rs1: rd, shamt: imm_shamt(c) }
        } else {
            Inst::Unknown(c)
        },
        0b001 => Inst::Fld { rd: FReg(cfull_high(c)), rs1: Reg(SP), offset: imm_ldsp(c) as i32 },
        0b010 => if cfull_high(c) != 0 {
            Inst::Lw { rd, rs1: Reg(SP), offset: imm_lwsp(c) as i32 }
        } else {
            Inst::Unknown(c)
        },
        0b011 => if cfull_high(c) != 0 {
            Inst::Ld { rd, rs1: Reg(SP), offset: imm_ldsp(c) as i32 }
        } else {
            Inst::Unknown(c)
        },
        0b100 => decode_quadrant2_reg(c),
        0b101 => Inst::Fsd { rs1: Reg(SP), rs2: FReg(cfull_low(c)), offset: imm_sdsp(c) as i32 },
        0b110 => Inst::Sw { rs1: Reg(SP), rs2: Reg(cfull_low(c)), offset: imm_swsp(c) as i32 },
        _ => Inst::Sd { rs1: Reg(SP), rs2: Reg(cfull_low(c)), offset: imm_sdsp(c) as i32 },
    }
}

/// The instruction that a 16-bit halfword abbreviates. A halfword whose low
/// two bits are both set is no compressed instruction.
pub open spec fn decode_compressed_spec(inst: u16) -> Inst {
    let c = widen(inst);
    match bits(c, 1, 0) {
        0b00 => decode_quadrant0(c),
        0b01 => decode_quadrant1(c),
        0b10 => decode_quadrant2(c),
        _ => Inst::Unknown(c),
    }
}

/// What the masks and shifts of the executable decoder extract from a
/// halfword as selectors and register numbers.
pub proof fn lemma_compressed_fields(inst: u16)
    by (bit_vector)
    ensures
        (inst & 0b11) as u32 == bits(inst as u32, 1, 0),
        ((inst >> 13) & 0b111) as u32 == bits(inst as u32, 15, 13),
        ((inst >> 10) & 0b11) as u32 == bits(inst as u32, 11, 10),
        ((inst >> 12) & 0b1) as u32 == bit(inst as u32, 12),
        ((inst >> 5) & 0b11) as u32 == bits(inst as u32, 6, 5),
        (((inst >> 2) & 0b111) + 8) as u32 == bits(inst as u32, 4, 2) + 8,
        (((inst >> 7) & 0b111) + 8) as u32 == bits(inst as u32, 9, 7) + 8,
        ((inst >> 7) & 0b11111) as u32 == bits(inst as u32, 11, 7),
        ((inst >> 2) & 0b11111) as u32 == bits(inst as u32, 6, 2),
        bits(inst as u32, 4, 2) + 8 < 16,
        bits(inst as u32, 9, 7) + 8 < 16,
        bits(inst as u32, 11, 7) < 32,
        bits(inst as u32, 6, 2) < 32,
        bits(inst as u32, 1, 0) < 4,
        bits(inst as u32, 15, 13) < 8,
        bits(inst as u32, 11, 10) < 4,
        bits(inst as u32, 6, 5) < 4,
        bit(inst as u32, 12) < 2,
{
}

/// What the masks and shifts of the executable decoder compute for the
/// unsigned immediates.
pub proof fn lemma_compressed_unsigned(inst: u16)
    by (bit_vector)
    ensures
        ((inst & 0b100000) >> 2 | (inst & 0b1000000) >> 4 | (inst & 0b11110000000) >> 1 | (inst
            & 0b1100000000000) >> 7) as i32 == (bits(inst as u32, 10, 7) << 6 | bits(
            inst as u32,
            12,
            11,
        ) << 4 | bit(inst as u32, 5) << 3 | bit(inst as u32, 6) << 2) as i32,
        ((inst & 0b1110000000000) >> 7 | (inst & 0b1100000) << 1) as i32 == (bits(
            inst as u32,
            6,
            5,
        ) << 6 | bits(inst as u32, 12, 10) << 3) as i32,
        ((inst & 0b100000) << 1 | (inst & 0b1000000) >> 4 | (inst & 0b1110000000000) >> 7) as i32
            == (bit(inst as u32, 5) << 6 | bits(inst as u32, 12, 10) << 3 | bit(inst as u32, 6)
            << 2) as i32,
        ((inst & 0b1000000000000) >> 7 | (inst & 0b1111100) >> 2) as u32 == bit(inst as u32, 12)
            << 5 | bits(inst as u32, 6, 2),
        (bit(inst as u32, 12) << 5 | bits(inst as u32, 6, 2)) < 64,
        ((inst & 0b1000000000000) >> 7 | (inst & 0b11100) << 4 | (inst & 0b1100000) >> 2) as i32
            == (bits(inst as u32, 4, 2) << 6 | bit(inst as u32, 12) << 5 | bits(
            inst as u32,
            6,
            5,
        ) << 3) as i32,
        ((inst & 0b1100) << 4 | (inst & 0b1110000) >> 2 | (inst & 0b1000000000000) >> 7) as i32
            == (bits(inst as u32, 3, 2) << 6 | bit(inst as u32, 12) << 5 | bits(
            inst as u32,
            6,
            4,
        ) << 2) as i32,
        ((inst & 0b1110000000) >> 1 | (inst & 0b1110000000000) >> 7) as i32 == (bits(
            inst as u32,
            9,
            7,
        ) << 6 | bits(inst as u32, 12, 10) << 3) as i32,
        ((inst & 0b110000000) >> 1 | (inst & 0b1111000000000) >> 7) as i32 == (bits(
            inst as u32,
            8,
            7,
        ) << 6 | bits(inst as u32, 12, 9) << 2) as i32,
{
}

/// What the masks and shifts of the executable decoder compute for the
/// sign-extended immediates.
pub proof fn lemma_compressed_signed(inst: u16)
    by (bit_vector)
    ensures
        (((((inst & 0b1000000000000) << 3) as i16) >> 10) | (((inst & 0b1111100) as i16) >> 2))
            as i32 == sign_extend(bit(inst as u32, 12) << 5 | bits(inst as u32, 6, 2), 6),
        (((((inst & 0b1000000000000) << 3) as i16) >> 6) as i32) | (((inst & 0b100) << 3) as i32)
            | (((inst & 0b11000) << 4) as i32) | (((inst & 0b100000) << 1) as i32) | (((inst
            & 0b1000000) >> 2) as i32) == sign_extend(
            bit(inst as u32, 12) << 9 | bits(inst as u32, 4, 3) << 7 | bit(inst as u32, 5) << 6
                | bit(inst as u32, 2) << 5 | bit(inst as u32, 6) << 4,
            10,
        ),
        (((((inst & 0b1000000000000) << 3) as i16) as i32) << 2) | ((((inst as u32) & 0b1111100)
            << 10) as i32) == sign_extend(
            bit(inst as u32, 12) << 17 | bits(inst as u32, 6, 2) << 12,
            18,
        ),
        (((inst & 0b100) << 3 | (inst & 0b111000) >> 2 | (inst & 0b1000000) << 1 | (inst
            & 0b10000000) >> 1 | (inst & 0b100000000) << 2 | (inst & 0b11000000000) >> 1 | (inst
            & 0b100000000000) >> 7 | (((((inst & 0b1000000000000) << 3) as i16) >> 4) as u16))
            as i16) as i32 == sign_extend(
            bit(inst as u32, 12) << 11 | bit(inst as u32, 8) << 10 | bits(inst as u32, 10, 9) << 8
                | bit(inst as u32, 6) << 7 | bit(inst as u32, 7) << 6 | bit(inst as u32, 2) << 5
                | bit(inst as u32, 11) << 4 | bits(inst as u32, 5, 3) << 1,
            12,
        ),
        (((inst & 0b110000000000) >> 7) as i32) | (((((inst & 0b1000000000000) >> 5) as i8) as i32)
            << 1) | (((inst & 0b100) << 3) as i32) | (((inst & 0b11000) >> 2) as i32) | (((inst
            & 0b1100000) << 1) as i32) == sign_extend(
            bit(inst as u32, 12) << 8 | bits(inst as u32, 6, 5) << 6 | bit(inst as u32, 2) << 5
                | bits(inst as u32, 11, 10) << 3 | bits(inst as u32, 4, 3) << 1,
            9,
        ),
{
}

impl Inst {
    /// Decodes a 16-bit compressed instruction into the record of the
    /// operation that it abbreviates. Decoding is total: a halfword that
    /// encodes none of the known operations gives `Unknown` with the halfword
    /// itself.
    pub fn decode_compressed(inst: u16) -> (decoded: Inst)
        ensures
            decoded == decode_compressed_spec(inst),
            decoded.well_formed(),
    {
        proof {
            lemma_compressed_fields(inst);
            lemma_compressed_unsigned(inst);
            lemma_compressed_signed(inst);
        }
        let quadrant = inst & 0b11;
        let funct3 = (inst >> 13) & 0b111;
        let low = (((inst >> 2) & 0b111) + 8) as u8;
        let high = (((inst >> 7) & 0b111) + 8) as u8;
        let full_high = ((inst >> 7) & 0b11111) as u8;
        let full_low = ((inst >> 2) & 0b11111) as u8;

        match quadrant {
            0b00 => match funct3 {
                0b000 => {
                    // C.ADDI4SPN
                    let imm = (inst & 0b100000) >> 2 | (inst & 0b1000000) >> 4 | (inst
                        & 0b11110000000) >> 1 | (inst & 0b1100000000000) >> 7;
                    Inst::Addi { rd: Reg(low), rs1: Reg(SP), imm: imm as i32 }
                },
                0b001 => {
                    // C.FLD
                    let imm = (inst & 0b1110000000000) >> 7 | (inst & 0b1100000) << 1;
                    Inst::Fld { rd: FReg(low), rs1: Reg(high), offset: imm as i32 }
                },
                0b010 => {
                    // C.LW
                    let offset = (inst & 0b100000) << 1 | (inst & 0b1000000) >> 4 | (inst
                        & 0b1110000000000) >> 7;
                    Inst::Lw { rd: Reg(low), rs1: Reg(high), offset: offset as i32 }
                },
                0b011 => {
                    // C.LD
                    let offset = (inst & 0b1110000000000) >> 7 | (inst & 0b1100000) << 1;
                    Inst::Ld { rd: Reg(low), rs1: Reg(high), offset: offset as i32 }
                },
                0b101 => {
                    // C.FSD
                    let offset = (inst & 0b1110000000000) >> 7 | (inst & 0b1100000) << 1;
                    Inst::Fsd { rs1: Reg(high), rs2: FReg(low), offset: offset as i32 }
                },
                0b110 => {
                    // C.SW
                    let imm = (inst & 0b100000) << 1 | (inst & 0b1000000) >> 4 | (inst
                        & 0b1110000000000) >> 7;
                    Inst::Sw { rs1: Reg(high), rs2: Reg(low), offset: imm as i32 }
                },
                0b111 => {
                    // C.SD
                    let imm = (inst & 0b1110000000000) >> 7 | (inst & 0b1100000) << 1;
                    Inst::Sd { rs1: Reg(high), rs2: Reg(low), offset: imm as i32 }
                },
                _ => Inst::Unknown(inst as u32),
            },
            0b01 => match funct3 {
                0b000 => {
                    // C.ADDI
                    let imm = ((((inst & 0b1000000000000) << 3) as i16) >> 10) | (((inst
                        & 0b1111100) as i16) >> 2);
                    Inst::Addi { rd: Reg(full_high), rs1: Reg(full_high), imm: imm as i32 }
                },
                0b001 => {
                    // C.ADDIW
                    let imm = ((((inst & 0b1000000000000) << 3) as i16) >> 10) | (((inst
                        & 0b1111100) as i16) >> 2);
                    Inst::Addiw { rd: Reg(full_high), rs1: Reg(full_high), imm: imm as i32 as u32 }
                },
                0b010 => {
                    // C.LI
                    let imm = ((((inst & 0b1000000000000) << 3) as i16) >> 10) | (((inst
                        & 0b1111100) as i16) >> 2);
                    Inst::Addi { rd: Reg(full_high), rs1: Reg(0), imm: imm as i32 }
                },
                0b011 => {
                    if full_high == 2 {
                        // C.ADDI16SP
                        let imm = (((((inst & 0b1000000000000) << 3) as i16) >> 6) as i32) | (((inst
                            & 0b100) << 3) as i32) | (((inst & 0b11000) << 4) as i32) | (((inst
                            & 0b100000) << 1) as i32) | (((inst & 0b1000000) >> 2) as i32);
                        Inst::Addi { rd: Reg(SP), rs1: Reg(SP), imm }
                    } else {
                        // C.LUI
                        let imm = (((((inst & 0b1000000000000) << 3) as i16) as i32) << 2) | ((((
                        inst as u32) & 0b1111100) << 10) as i32);
                        Inst::Lui { rd: Reg(full_high), imm }
                    }
                },
                0b100 => {
                    let funct2 = (inst >> 10) & 0b11;
                    let rd = Reg(high);
                    match funct2 {
                        0b00 => {
                            // C.SRLI
                            let shamt = (inst & 0b1000000000000) >> 7 | (inst & 0b1111100) >> 2;
                            if shamt == 0 {
                                Inst::Unknown(inst as u32)
                            } else {
                                Inst::Srli { rd, rs1: rd, shamt: shamt as u32 }
                            }
                        },
                        0b01 => {
                            // C.SRAI
                            let shamt = (inst & 0b1000000000000) >> 7 | (inst & 0b1111100) >> 2;
                            if shamt == 0 {
                                Inst::Unknown(inst as u32)
                            } else {
                                Inst::Srai { rd, rs1: rd, shamt: shamt as u32 }
                            }
                        },
                        0b10 => {
                            // C.ANDI
                            let imm = ((((inst & 0b1000000000000) << 3) as i16) >> 10) | (((inst
                                & 0b1111100) as i16) >> 2);
                            Inst::Andi { rd, rs1: rd, imm: imm as i32 }
                        },
                        _ => {
                            let high_bit = (inst >> 12) & 0b1;
                            let funct = (inst >> 5) & 0b11;
                            let rs2 = Reg(low);
                            match (high_bit, funct) {
                                (0, 0b00) => Inst::Sub { rd, rs1: rd, rs2 },
                                (0, 0b01) => Inst::Xor { rd, rs1: rd, rs2 },
                                (0, 0b10) => Inst::Or { rd, rs1: rd, rs2 },
                                (0, 0b11) => Inst::And { rd, rs1: rd, rs2 },
                                (1, 0b00) => Inst::Subw { rd, rs1: rd, rs2 },
                                (1, 0b01) => Inst::Addw { rd, rs1: rd, rs2 },
                                _ => Inst::Unknown(inst as u32),
                            }
                        },
                    }
                },
                0b101 => {
                    // C.J
                    let imm = (inst & 0b100) << 3 | (inst & 0b111000) >> 2 | (inst & 0b1000000) << 1
                        | (inst & 0b10000000) >> 1 | (inst & 0b100000000) << 2 | (inst
                        & 0b11000000000) >> 1 | (inst & 0b100000000000) >> 7 | (((((inst
                        & 0b1000000000000) << 3) as i16) >> 4) as u16);
                    Inst::Jal { rd: Reg(0), offset: imm as i16 as i32 }
                },
                0b110 => {
                    // C.BEQZ
                    let offset = (((inst & 0b110000000000) >> 7) as i32) | (((((inst
                        & 0b1000000000000) >> 5) as i8) as i32) << 1) | (((inst & 0b100) << 3)
                        as i32) | (((inst & 0b11000) >> 2) as i32) | (((inst & 0b1100000) << 1)
                        as i32);
                    Inst::Beq { rs1: Reg(high), rs2: Reg(0), offset }
                },
                _ => {
                    // C.BNEZ
                    let offset = (((inst & 0b110000000000) >> 7) as i32) | (((((inst
                        & 0b1000000000000) >> 5) as i8) as i32) << 1) | (((inst & 0b100) << 3)
                        as i32) | (((inst & 0b11000) >> 2) as i32) | (((inst & 0b1100000) << 1)
                        as i32);
                    Inst::Bne { rs1: Reg(high), rs2: Reg(0), offset }
                },
            },
            0b10 => match funct3 {
                0b000 => {
                    // C.SLLI
                    let shamt = (inst & 0b1000000000000) >> 7 | (inst & 0b1111100) >> 2;
                    if shamt != 0 {
                        Inst::Slli { rd: Reg(full_high), rs1: Reg(full_high), shamt: shamt as u32 }
                    } else {
                        Inst::Unknown(inst as u32)
                    }
                },
                0b001 => {
                    // C.FLDSP
                    let offset = (inst & 0b1000000000000) >> 7 | (inst & 0b11100) << 4 | (inst
                        & 0b1100000) >> 2;
                    Inst::Fld { rd: FReg(full_high), rs1: Reg(SP), offset: offset as i32 }
                },
                0b010 => {
                    // C.LWSP
                    let imm = (inst & 0b1100) << 4 | (inst & 0b1110000) >> 2 | (inst
                        & 0b1000000000000) >> 7;
                    if full_high != 0 {
                        Inst::Lw { rd: Reg(full_high), rs1: Reg(SP), offset: imm as i32 }
                    } else {
                        Inst::Unknown(inst as u32)
                    }
                },
                0b011 => {
                    // C.LDSP
                    let imm = (inst & 0b1000000000000) >> 7 | (inst & 0b11100) << 4 | (inst
                        & 0b1100000) >> 2;
                    if full_high != 0 {
                        Inst::Ld { rd: Reg(full_high), rs1: Reg(SP), offset: imm as i32 }
                    } else {
                        Inst::Unknown(inst as u32)
                    }
                },
                0b100 => {
                    let high_bit = (inst >> 12) & 0b1;
                    let rs1 = Reg(full_high);
                    let rs2 = Reg(full_low);
                    if high_bit == 0 && full_high != 0 && full_low == 0 {
                        // C.JR
                        Inst::Jalr { rd: Reg(0), rs1, offset: 0 }
                    } else if high_bit == 0 && full_high != 0 && full_low != 0 {
                        // C.MV
                        Inst::Add { rd: rs1, rs1: Reg(0), rs2 }
                    } else if high_bit == 1 && full_high != 0 && full_low != 0 {
                        // C.ADD
                        Inst::Add { rd: rs1, rs1, rs2 }
                    } else if high_bit == 1 && full_high != 0 && full_low == 0 {
                        // C.JALR
                        Inst::Jalr { rd: Reg(RA), rs1, offset: 0 }
                    } else {
                        // C.EBREAK
                        Inst::Ebreak
                    }
                },
                0b101 => {
                    // C.FSDSP
                    let imm = (inst & 0b1110000000) >> 1 | (inst & 0b1110000000000) >> 7;
                    Inst::Fsd { rs2: FReg(full_low), rs1: Reg(SP), offset: imm as i32 }
                },
                0b110 => {
                    // C.SWSP
                    let imm = (inst & 0b110000000) >> 1 | (inst & 0b1111000000000) >> 7;
                    Inst::Sw { rs2: Reg(full_low), rs1: Reg(SP), offset: imm as i32 }
                },
                _ => {
                    // C.SDSP
                    let offset = (inst & 0b1110000000) >> 1 | (inst & 0b1110000000000) >> 7;
                    Inst::Sd { rs1: Reg(SP), rs2: Reg(full_low), offset: offset as i32 }
                },
            },
            _ => Inst::Unknown(inst as u32),
        }
    }

    /// Decodes the instruction at the start of `inst` and returns it with its
    /// length in bytes: 4 where the low two bits are both set, else 2, in which
    /// case only the low half of `inst` is read.
    pub fn decode(inst: u32) -> (decoded: (Inst, u8))
        ensures
            decoded == decode_spec(inst),
            decoded.0.well_formed(),
            decoded.1 == 2 || decoded.1 == 4,
    {
        proof {
            lemma_length_selector(inst);
        }
        if inst & 0b11 == 0b11 {
            (Inst::decode_normal(inst), 4)
        } else {
            (Inst::decode_compressed(inst as u16), 2)
        }
    }
}

/// The length in bytes of the instruction at the start of a word: 4 where
/// the low two bits are both set, else 2.
pub open spec fn length_of(w: u32) -> u8 {
    if bits(w, 1, 0) == 0b11 {
        4u8
    } else {
        2u8
    }
}

/// The instruction at the start of a word.
pub open spec fn instruction_of(w: u32) -> Inst {
    if bits(w, 1, 0) == 0b11 {
        crate::decode32::decode_normal_spec(w)
    } else {
        decode_compressed_spec(bits(w, 15, 0) as u16)
    }
}

/// The instruction at the start of a word, with its length in bytes.
pub open spec fn decode_spec(w: u32) -> (Inst, u8) {
    (instruction_of(w), length_of(w))
}

pub proof fn lemma_length_selector(inst: u32)
    by (bit_vector)
    ensures
        inst & 0b11 == bits(inst, 1, 0),
        inst as u16 == bits(inst, 15, 0),
        bits(inst, 15, 0) < 0x10000,
{
}


/// Whatever a word decodes to has registers that exist and shift amounts
/// that fit.
pub proof fn lemma_decoded_is_well_formed(w: u32)
    ensures
        instruction_of(w).well_formed(),
{
    lemma_length_selector(w);
    if bits(w, 1, 0) == 0b11 {
        crate::decode32::lemma_fields(w);
    } else {
        let inst = bits(w, 15, 0) as u16;
        lemma_compressed_fields(inst);
        lemma_compressed_unsigned(inst);
    }
}

} // verus!
