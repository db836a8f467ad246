//! Decoding of 32-bit instruction words.
//!
//! The contract names each field as the instruction-set manual does and
//! assembles each immediate from its scattered bits. The executable decoder
//! extracts the same values with masks and shifts on the whole word; Verus
//! proves that the two agree on every word.

use vstd::prelude::*;
use crate::bits::{bit, bits, sign_extend};
use crate::instruction::Inst;
use crate::register::{FReg, Reg};

verus! {

/// The major opcode, `w[6:0]`.
pub open spec fn opcode(w: u32) -> u32 {
    bits(w, 6, 0)
}

/// The destination register field, `w[11:7]`.
pub open spec fn rd_field(w: u32) -> u8 {
    bits(w, 11, 7) as u8
}

/// The first source register field, `w[19:15]`.
pub open spec fn rs1_field(w: u32) -> u8 {
    bits(w, 19, 15) as u8
}

/// The second source register field, `w[24:20]`.
pub open spec fn rs2_field(w: u32) -> u8 {
    bits(w, 24, 20) as u8
}

pub open spec fn funct3(w: u32) -> u32 {
    bits(w, 14, 12)
}

pub open spec fn funct5(w: u32) -> u32 {
    bits(w, 31, 27)
}

pub open spec fn funct6(w: u32) -> u32 {
    bits(w, 31, 26)
}

pub open spec fn funct7(w: u32) -> u32 {
    bits(w, 31, 25)
}

/// The I-type immediate: `w[31:20]`, sign-extended from 12 bits.
pub open spec fn imm_i(w: u32) -> i32 {
    sign_extend(bits(w, 31, 20), 12)
}

/// The S-type immediate: `w[31:25]` over `w[11:7]`, sign-extended from 12 bits.
pub open spec fn imm_s(w: u32) -> i32 {
    sign_extend(bits(w, 31, 25) << 5 | bits(w, 11, 7), 12)
}

/// The B-type immediate: `w[31] w[7] w[30:25] w[11:8] 0`, sign-extended from 13 bits.
pub open spec fn imm_b(w: u32) -> i32 {
    sign_extend(bit(w, 31) << 12 | bit(w, 7) << 11 | bits(w, 30, 25) << 5 | bits(w, 11, 8) << 1, 13)
}

/// The U-type immediate: `w[31:12]` in the upper 20 bits.
pub open spec fn imm_u(w: u32) -> i32 {
    sign_extend(bits(w, 31, 12) << 12, 32)
}

/// The J-type immediate: `w[31] w[19:12] w[20] w[30:21] 0`, sign-extended from 21 bits.
pub open spec fn imm_j(w: u32) -> i32 {
    sign_extend(
        bit(w, 31) << 20 | bits(w, 19, 12) << 12 | bit(w, 20) << 11 | bits(w, 30, 21) << 1,
        21,
    )
}

/// The 6-bit shift amount of the 64-bit immediate shifts, `w[25:20]`.
pub open spec fn shamt6(w: u32) -> u32 {
    bits(w, 25, 20)
}

/// The 5-bit shift amount of the word immediate shifts, `w[24:20]`.
pub open spec fn shamt5(w: u32) -> u32 {
    bits(w, 24, 20)
}

pub open spec fn decode_load(w: u32) -> Inst {
    let rd = Reg(rd_field(w));
    let rs1 = Reg(rs1_field(w));
    let offset = imm_i(w);
    match funct3(w) {
        0b000 => Inst::Lb { rd, rs1, offset },
        0b010 => Inst::Lw { rd, rs1, offset },
        0b011 => Inst::Ld { rd, rs1, offset },
        0b100 => Inst::Lbu { rd, rs1, offset },
        0b101 => Inst::Lhu { rd, rs1, offset },
        0b110 => Inst::Lwu { rd, rs1, offset },
        _ => Inst::Unknown(w),
    }
}

pub open spec fn decode_float_load(w: u32) -> Inst {
    let rd = FReg(rd_field(w));
    let rs1 = Reg(rs1_field(w));
    let offset = imm_i(w);
    match funct3(w) {
        0b010 => Inst::Flw { rd, rs1, offset },
        0b011 => Inst::Fld { rd, rs1, offset },
        _ => Inst::Unknown(w),
    }
}

pub open spec fn decode_op_imm(w: u32) -> Inst {
    let rd = Reg(rd_field(w));
    let rs1 = Reg(rs1_field(w));
    let imm = imm_i(w);
    match funct3(w) {
        0b000 => Inst::Addi { rd, rs1, imm },
        0b001 => if funct6(w) == 0 {
            Inst::Slli { rd, rs1, shamt: shamt6(w) }
        } else {
            Inst::Unknown(w)
        },
        0b010 => Inst::Slti { rd, rs1, imm },
        0b011 => Inst::Sltiu { rd, rs1, imm: imm as u32 },
        0b100 => Inst::Xori { rd, rs1, imm },
        0b101 => if funct6(w) == 0 {
            Inst::Srli { rd, rs1, shamt: shamt6(w) }
        } else if funct6(w) == 0b010000 {
            Inst::Srai { rd, rs1, shamt: shamt6(w) }
        } else {
            Inst::Unknown(w)
        },
        0b110 => Inst::Ori { rd, rs1, imm },
        _ => Inst::Andi { rd, rs1, imm },
    }
}

pub open spec fn decode_op_imm_32(w: u32) -> Inst {
    let rd = Reg(rd_field(w));
    let rs1 = Reg(rs1_field(w));
    match funct3(w) {
        0b000 => Inst::Addiw { rd, rs1, imm: imm_i(w) as u32 },
        0b001 => if funct7(w) == 0 {
            Inst::Slliw { rd, rs1, shamt: shamt5(w) }
        } else {
            Inst::Unknown(w)
        },
        0b101 => if funct7(w) == 0 {
            Inst::Srliw { rd, rs1, shamt: shamt5(w) }
        } else if funct7(w) == 0b0100000 {
            Inst::Sraiw { rd, rs1, shamt: shamt5(w) }
        } else {
            Inst::Unknown(w)
        },
        _ => Inst::Unknown(w),
    }
}

pub open spec fn decode_store(w: u32) -> Inst {
    let rs1 = Reg(rs1_field(w));
    let rs2 = Reg(rs2_field(w));
    let offset = imm_s(w);
    match funct3(w) {
        0b000 => Inst::Sb { rs1, rs2, offset },
        0b001 => Inst::Sh { rs1, rs2, offset },
        0b010 => Inst::Sw { rs1, rs2, offset },
        0b011 => Inst::Sd { rs1, rs2, offset },
        _ => Inst::Unknown(w),
    }
}

pub open spec fn decode_float_store(w: u32) -> Inst {
    let rs1 = Reg(rs1_field(w));
    let rs2 = FReg(rs2_field(w));
    let offset = imm_s(w);
    match funct3(w) {
        0b010 => Inst::Fsw { rs1, rs2, offset },
        0b011 => Inst::Fsd { rs1, rs2, offset },
        _ => Inst::Unknown(w),
    }
}

pub open spec fn decode_op(w: u32) -> Inst {
    let rd = Reg(rd_field(w));
    let rs1 = Reg(rs1_field(w));
    let rs2 = Reg(rs2_field(w));
    match (funct3(w), funct7(w)) {
        (0b000, 0b0000000) => Inst::Add { rd, rs1, rs2 },
        (0b000, 0b0100000) => Inst::Sub { rd, rs1, rs2 },
        (0b000, 0b0000001) => Inst::Mul { rd, rs1, rs2 },
        (0b001, 0b0000000) => Inst::Sll { rd, rs1, rs2 },
        (0b010, 0b0000000) => Inst::Slt { rd, rs1, rs2 },
        (0b011, 0b0000000) => Inst::Sltu { rd, rs1, rs2 },
        (0b011, 0b0000001) => Inst::Mulhu { rd, rs1, rs2 },
        (0b100, 0b0000000) => Inst::Xor { rd, rs1, rs2 },
        (0b100, 0b0000001) => Inst::Div { rd, rs1, rs2 },
        (0b101, 0b0000000) => Inst::Srl { rd, rs1, rs2 },
        (0b101, 0b0000001) => Inst::Divu { rd, rs1, rs2 },
        (0b101, 0b0100000) => Inst::Sra { rd, rs1, rs2 },
        (0b110, 0b0000000) => Inst::Or { rd, rs1, rs2 },
        (0b111, 0b0000000) => Inst::And { rd, rs1, rs2 },
        (0b111, 0b0000001) => Inst::Remu { rd, rs1, rs2 },
        _ => Inst::Unknown(w),
    }
}

pub open spec fn decode_op_32(w: u32) -> Inst {
    let rd = Reg(rd_field(w));
    let rs1 = Reg(rs1_field(w));
    let rs2 = Reg(rs2_field(w));
    match (funct3(w), funct7(w)) {
        (0b000, 0b0000000) => Inst::Addw { rd, rs1, rs2 },
        (0b000, 0b0100000) => Inst::Subw { rd, rs1, rs2 },
        (0b001, 0b0000000) => Inst::Sllw { rd, rs1, rs2 },
        (0b100, 0b0000001) => Inst::Divw { rd, rs1, rs2 },
        (0b101, 0b0000000) => Inst::Srlw { rd, rs1, rs2 },
        (0b101, 0b0000001) => Inst::Divuw { rd, rs1, rs2 },
        (0b101, 0b0100000) => Inst::Sraw { rd, rs1, rs2 },
        (0b110, 0b0000001) => Inst::Remw { rd, rs1, rs2 },
        (0b111, 0b0000001) => Inst::Remuw { rd, rs1, rs2 },
        _ => Inst::Unknown(w),
    }
}

/// The atomic operations; the ordering bits `w[26:25]` are not kept.
pub open spec fn decode_atomic(w: u32) -> Inst {
    let rd = Reg(rd_field(w));
    let rs1 = Reg(rs1_field(w));
    let rs2 = Reg(rs2_field(w));
    match (funct3(w), funct5(w)) {
        (0b010, 0b00000) => Inst::Amoaddw { rd, rs1, rs2 },
        (0b010, 0b00001) => Inst::Amoswapw { rd, rs1, rs2 },
        (0b010, 0b00010) => Inst::Lrw { rd, rs1 },
        (0b010, 0b00011) => Inst::Scw { rd, rs1, rs2 },
        (0b010, 0b01000) => Inst::Amoorw { rd, rs1, rs2 },
        (0b010, 0b11100) => Inst::Amomaxuw { rd, rs1, rs2 },
        (0b011, 0b00000) => Inst::Amoaddd { rd, rs1, rs2 },
        (0b011, 0b00001) => Inst::Amoswapd { rd, rs1, rs2 },
        (0b011, 0b00010) => Inst::Lrd { rd, rs1 },
        (0b011, 0b00011) => Inst::Scd { rd, rs1, rs2 },
        (0b011, 0b11100) => Inst::Amomaxud { rd, rs1, rs2 },
        _ => Inst::Unknown(w),
    }
}

/// The floating-point computations; `funct3` is the rounding mode.
pub open spec fn decode_op_fp(w: u32) -> Inst {
    if funct7(w) == 0b0001101 {
        Inst::Fdivd { rd: FReg(rd_field(w)), rs1: FReg(rs1_field(w)), rs2: FReg(rs2_field(w)) }
    } else if funct7(w) == 0b1010001 && funct3(w) == 0 {
        Inst::Fled { rd: Reg(rd_field(w)), rs1: FReg(rs1_field(w)), rs2: FReg(rs2_field(w)) }
    } else if funct7(w) == 0b1101001 && rs2_field(w) == 3 {
        Inst::Fcvtdlu { rd: Reg(rd_field(w)), rs1: FReg(rs1_field(w)), rm: funct3(w) as u8 }
    } else {
        Inst::Unknown(w)
    }
}

pub open spec fn decode_branch(w: u32) -> Inst {
    let rs1 = Reg(rs1_field(w));
    let rs2 = Reg(rs2_field(w));
    let offset = imm_b(w);
    match funct3(w) {
        0b000 => Inst::Beq { rs1, rs2, offset },
        0b001 => Inst::Bne { rs1, rs2, offset },
        0b100 => Inst::Blt { rs1, rs2, offset },
        0b101 => Inst::Bge { rs1, rs2, offset },
        0b110 => Inst::Bltu { rs1, rs2, offset },
        0b111 => Inst::Bgeu { rs1, rs2, offset },
        _ => Inst::Unknown(w),
    }
}

/// The environment call and the breakpoint are single words; every other word
/// of the system opcode is unknown to this decoder.
pub open spec fn decode_system(w: u32) -> Inst {
    if w == 0x0000_0073 {
        Inst::Ecall
    } else if w == 0x0010_0073 {
        Inst::Ebreak
    } else {
        Inst::Unknown(w)
    }
}

/// The instruction that a 32-bit word encodes.
pub open spec fn decode_normal_spec(w: u32) -> Inst {
    match opcode(w) {
        0b0000011 => decode_load(w),
        0b0000111 => decode_float_load(w),
        0b0001111 => Inst::Fence,
        0b0010011 => decode_op_imm(w),
        0b0010111 => Inst::Auipc { rd: Reg(rd_field(w)), imm: imm_u(w) },
        0b0011011 => decode_op_imm_32(w),
        0b0100011 => decode_store(w),
        0b0100111 => decode_float_store(w),
        0b0101111 => decode_atomic(w),
        0b0110011 => decode_op(w),
        0b0110111 => Inst::Lui { rd: Reg(rd_field(w)), imm: imm_u(w) },
        0b0111011 => decode_op_32(w),
        0b1010011 => decode_op_fp(w),
        0b1100011 => decode_branch(w),
        0b1100111 => if funct3(w) == 0 {
            Inst::Jalr { rd: Reg(rd_field(w)), rs1: Reg(rs1_field(w)), offset: imm_i(w) }
        } else {
            Inst::Unknown(w)
        },
        0b1101111 => Inst::Jal { rd: Reg(rd_field(w)), offset: imm_j(w) },
        0b1110011 => decode_system(w),
        _ => Inst::Unknown(w),
    }
}

/// What the masks and shifts of the executable decoder extract from a word,
/// field by field.
pub proof fn lemma_fields(inst: u32)
    by (bit_vector)
    ensures
        inst & 0b1111111 == bits(inst, 6, 0),
        (inst >> 7) & 0b11111 == bits(inst, 11, 7),
        (inst >> 15) & 0b11111 == bits(inst, 19, 15),
        (inst >> 20) & 0b11111 == bits(inst, 24, 20),
        (inst >> 12) & 0b111 == bits(inst, 14, 12),
        (inst >> 27) & 0b11111 == bits(inst, 31, 27),
        (inst >> 26) & 0b111111 == bits(inst, 31, 26),
        (inst >> 25) & 0b1111111 == bits(inst, 31, 25),
        (inst >> 20) & 0b111111 == bits(inst, 25, 20),
        bits(inst, 11, 7) < 32,
        bits(inst, 19, 15) < 32,
        bits(inst, 24, 20) < 32,
        bits(inst, 25, 20) < 64,
        bits(inst, 14, 12) < 8,
{
}

/// What the masks and shifts of the executable decoder compute for each
/// immediate format.
pub proof fn lemma_immediates(inst: u32)
    by (bit_vector)
    ensures
        ((inst & 0xFFF00000) as i32) >> 20 == sign_extend(bits(inst, 31, 20), 12),
        (((inst & 0xFE000000) as i32) >> 20) | (((inst & 0xF80) as i32) >> 7) == sign_extend(
            bits(inst, 31, 25) << 5 | bits(inst, 11, 7),
            12,
        ),
        (((inst & 0x7E000000) >> 20) as i32) | (((inst & 0x80000000) as i32) >> 19) | (((inst
            & 0x80) << 4) as i32) | (((inst & 0xF00) >> 7) as i32) == sign_extend(
            bit(inst, 31) << 12 | bit(inst, 7) << 11 | bits(inst, 30, 25) << 5 | bits(inst, 11, 8)
                << 1,
            13,
        ),
        (inst & 0xFFFFF000) as i32 == sign_extend(bits(inst, 31, 12) << 12, 32),
        ((inst & 0xFF000) as i32) | (((inst & 0x100000) >> 9) as i32) | (((inst & 0x7FE00000)
            >> 20) as i32) | (((inst & 0x80000000) as i32) >> 11) == sign_extend(
            bit(inst, 31) << 20 | bits(inst, 19, 12) << 12 | bit(inst, 20) << 11 | bits(
                inst,
                30,
                21,
            ) << 1,
            21,
        ),
{
}

impl Inst {
    /// Decodes a 32-bit instruction word. Decoding is total: a word that encodes
    /// none of the known operations gives `Unknown` with the word itself.
    pub fn decode_normal(inst: u32) -> (decoded: Inst)
        ensures
            decoded == decode_normal_spec(inst),
            decoded.well_formed(),
    {
        proof {
            lemma_fields(inst);
            lemma_immediates(inst);
        }
        let opcode = inst & 0b1111111;
        let rd = Reg(((inst >> 7) & 0b11111) as u8);
        let rs1 = Reg(((inst >> 15) & 0b11111) as u8);
        let rs2 = Reg(((inst >> 20) & 0b11111) as u8);
        let funct3 = (inst >> 12) & 0b111;
        let funct5 = (inst >> 27) & 0b11111;
        let funct6 = (inst >> 26) & 0b111111;
        let funct7 = (inst >> 25) & 0b1111111;

        match opcode {
            0b0000011 => {
                let offset = ((inst & 0xFFF00000) as i32) >> 20;
                match funct3 {
                    0b000 => Inst::Lb { rd, rs1, offset },
                    0b010 => Inst::Lw { rd, rs1, offset },
                    0b011 => Inst::Ld { rd, rs1, offset },
                    0b100 => Inst::Lbu { rd, rs1, offset },
                    0b101 => Inst::Lhu { rd, rs1, offset },
                    0b110 => Inst::Lwu { rd, rs1, offset },
                    _ => Inst::Unknown(inst),
                }
            },
            0b0000111 => {
                let offset = ((inst & 0xFFF00000) as i32) >> 20;
                match funct3 {
                    0b010 => Inst::Flw { rd: FReg(rd.0), rs1, offset },
                    0b011 => Inst::Fld { rd: FReg(rd.0), rs1, offset },
                    _ => Inst::Unknown(inst),
                }
            },
            0b0001111 => Inst::Fence,
            0b0010011 => {
                let imm = ((inst & 0xFFF00000) as i32) >> 20;
                let shamt = (inst >> 20) & 0b111111;
                match funct3 {
                    0b000 => Inst::Addi { rd, rs1, imm },
                    0b001 => match funct6 {
                        0b000000 => Inst::Slli { rd, rs1, shamt },
                        _ => Inst::Unknown(inst),
                    },
                    0b010 => Inst::Slti { rd, rs1, imm },
                    0b011 => Inst::Sltiu { rd, rs1, imm: imm as u32 },
                    0b100 => Inst::Xori { rd, rs1, imm },
                    0b101 => match funct6 {
                        0b000000 => Inst::Srli { rd, rs1, shamt },
                        0b010000 => Inst::Srai { rd, rs1, shamt },
                        _ => Inst::Unknown(inst),
                    },
                    0b110 => Inst::Ori { rd, rs1, imm },
                    _ => Inst::Andi { rd, rs1, imm },
                }
            },
            0b0010111 => {
                let imm = (inst & 0xFFFFF000) as i32;
                Inst::Auipc { rd, imm }
            },
            0b0011011 => {
                let shamt = (inst >> 20) & 0b11111;
                match funct3 {
                    0b000 => {
                        let imm = (((inst & 0xFFF00000) as i32) >> 20) as u32;
                        Inst::Addiw { rd, rs1, imm }
                    },
                    0b001 => match funct7 {
                        0b0000000 => Inst::Slliw { rd, rs1, shamt },
                        _ => Inst::Unknown(inst),
                    },
                    0b101 => match funct7 {
                        0b0000000 => Inst::Srliw { rd, rs1, shamt },
                        0b0100000 => Inst::Sraiw { rd, rs1, shamt },
                        _ => Inst::Unknown(inst),
                    },
                    _ => Inst::Unknown(inst),
                }
            },
            0b0100011 => {
                let offset = (((inst & 0xFE000000) as i32) >> 20) | (((inst & 0xF80) as i32) >> 7);
                match funct3 {
                    0b011 => Inst::Sd { rs1, rs2, offset },
                    0b010 => Inst::Sw { rs1, rs2, offset },
                    0b001 => Inst::Sh { rs1, rs2, offset },
                    0b000 => Inst::Sb { rs1, rs2, offset },
                    _ => Inst::Unknown(inst),
                }
            },
            0b0100111 => {
                let offset = (((inst & 0xFE000000) as i32) >> 20) | (((inst & 0xF80) as i32) >> 7);
                match funct3 {
                    0b010 => Inst::Fsw { rs2: FReg(rs2.0), rs1, offset },
                    0b011 => Inst::Fsd { rs2: FReg(rs2.0), rs1, offset },
                    _ => Inst::Unknown(inst),
                }
            },
            0b0110011 => match funct3 {
                0b000 => match funct7 {
                    0b0000000 => Inst::Add { rd, rs1, rs2 },
                    0b0100000 => Inst::Sub { rd, rs1, rs2 },
                    0b0000001 => Inst::Mul { rd, rs1, rs2 },
                    _ => Inst::Unknown(inst),
                },
                0b001 => match funct7 {
                    0b0000000 => Inst::Sll { rd, rs1, rs2 },
                    _ => Inst::Unknown(inst),
                },
                0b010 => match funct7 {
                    0b0000000 => Inst::Slt { rd, rs1, rs2 },
                    _ => Inst::Unknown(inst),
                },
                0b011 => match funct7 {
                    0b0000000 => Inst::Sltu { rd, rs1, rs2 },
                    0b0000001 => Inst::Mulhu { rd, rs1, rs2 },
                    _ => Inst::Unknown(inst),
                },
                0b100 => match funct7 {
                    0b0000000 => Inst::Xor { rd, rs1, rs2 },
                    0b0000001 => Inst::Div { rd, rs1, rs2 },
                    _ => Inst::Unknown(inst),
                },
                0b101 => match funct7 {
                    0b0000000 => Inst::Srl { rd, rs1, rs2 },
                    0b0000001 => Inst::Divu { rd, rs1, rs2 },
                    0b0100000 => Inst::Sra { rd, rs1, rs2 },
                    _ => Inst::Unknown(inst),
                },
                0b110 => match funct7 {
                    0b0000000 => Inst::Or { rd, rs1, rs2 },
                    _ => Inst::Unknown(inst),
                },
                _ => match funct7 {
                    0b0000000 => Inst::And { rd, rs1, rs2 },
                    0b0000001 => Inst::Remu { rd, rs1, rs2 },
                    _ => Inst::Unknown(inst),
                },
            },
            0b0110111 => {
                let imm = (inst & 0xFFFFF000) as i32;
                Inst::Lui { rd, imm }
            },
            0b0111011 => match funct3 {
                0b000 => match funct7 {
                    0b0000000 => Inst::Addw { rd, rs1, rs2 },
                    0b0100000 => Inst::Subw { rd, rs1, rs2 },
                    _ => Inst::Unknown(inst),
                },
                0b001 => match funct7 {
                    0b0000000 => Inst::Sllw { rd, rs1, rs2 },
                    _ => Inst::Unknown(inst),
                },
                0b100 => match funct7 {
                    0b0000001 => Inst::Divw { rd, rs1, rs2 },
                    _ => Inst::Unknown(inst),
                },
                0b101 => match funct7 {
                    0b0000000 => Inst::Srlw { rd, rs1, rs2 },
                    0b0000001 => Inst::Divuw { rd, rs1, rs2 },
                    0b0100000 => Inst::Sraw { rd, rs1, rs2 },
                    _ => Inst::Unknown(inst),
                },
                0b110 => match funct7 {
                    0b0000001 => Inst::Remw { rd, rs1, rs2 },
                    _ => Inst::Unknown(inst),
                },
                0b111 => match funct7 {
                    0b0000001 => Inst::Remuw { rd, rs1, rs2 },
                    _ => Inst::Unknown(inst),
                },
                _ => Inst::Unknown(inst),
            },
            0b0101111 => match funct3 {
                0b010 => match funct5 {
                    0b00000 => Inst::Amoaddw { rd, rs1, rs2 },
                    0b00001 => Inst::Amoswapw { rd, rs1, rs2 },
                    0b00010 => Inst::Lrw { rd, rs1 },
                    0b00011 => Inst::Scw { rd, rs1, rs2 },
                    0b01000 => Inst::Amoorw { rd, rs1, rs2 },
                    0b11100 => Inst::Amomaxuw { rd, rs1, rs2 },
                    _ => Inst::Unknown(inst),
                },
                0b011 => match funct5 {
                    0b00000 => Inst::Amoaddd { rd, rs1, rs2 },
                    0b00001 => Inst::Amoswapd { rd, rs1, rs2 },
                    0b00010 => Inst::Lrd { rd, rs1 },
                    0b00011 => Inst::Scd { rd, rs1, rs2 },
                    0b11100 => Inst::Amomaxud { rd, rs1, rs2 },
                    _ => Inst::Unknown(inst),
                },
                _ => Inst::Unknown(inst),
            },
            0b1010011 => {
                let rm = funct3 as u8;
                if funct7 == 0b0001101 {
                    Inst::Fdivd { rd: FReg(rd.0), rs1: FReg(rs1.0), rs2: FReg(rs2.0) }
                } else if funct7 == 0b1010001 && rm == 0 {
                    Inst::Fled { rd, rs1: FReg(rs1.0), rs2: FReg(rs2.0) }
                } else if funct7 == 0b1101001 && rs2.0 == 0b00011 {
                    Inst::Fcvtdlu { rd, rs1: FReg(rs1.0), rm }
                } else {
                    Inst::Unknown(inst)
                }
            },
            0b1100011 => {
                let offset = (((inst & 0x7E000000) >> 20) as i32) | (((inst & 0x80000000) as i32)
                    >> 19) | (((inst & 0x80) << 4) as i32) | (((inst & 0xF00) >> 7) as i32);
                match funct3 {
                    0b000 => Inst::Beq { rs1, rs2, offset },
                    0b001 => Inst::Bne { rs1, rs2, offset },
                    0b100 => Inst::Blt { rs1, rs2, offset },
                    0b101 => Inst::Bge { rs1, rs2, offset },
                    0b110 => Inst::Bltu { rs1, rs2, offset },
                    0b111 => Inst::Bgeu { rs1, rs2, offset },
                    _ => Inst::Unknown(inst),
                }
            },
            0b1100111 => {
                let offset = ((inst & 0xFFF00000) as i32) >> 20;
                match funct3 {
                    0b000 => Inst::Jalr { rd, rs1, offset },
                    _ => Inst::Unknown(inst),
                }
            },
            0b1101111 => {
                let offset = ((inst & 0xFF000) as i32) | (((inst & 0x100000) >> 9) as i32) | (((inst
                    & 0x7FE00000) >> 20) as i32) | (((inst & 0x80000000) as i32) >> 11);
                Inst::Jal { rd, offset }
            },
            0b1110011 => {
                if inst == 0x0000_0073 {
                    Inst::Ecall
                } else if inst == 0x0010_0073 {
                    Inst::Ebreak
                } else {
                    Inst::Unknown(inst)
                }
            },
            _ => Inst::Unknown(inst),
        }
    }
}

} // verus!
