//! The instruction record: one variant for each operation of the RV64GC subset
//! that the interpreter executes, carrying only the operands that the
//! operation uses.

use vstd::prelude::*;
use crate::register::{FReg, Reg};

verus! {

#[allow(inconsistent_fields)]
#[derive(Clone, Copy, Debug, PartialEq, Eq, Structural)]
pub enum Inst {
    // Miscellaneous
    Fence,
    Ecall,
    Ebreak,
    /// An encoding that the decoder does not recognise, with the raw word.
    Unknown(u32),
    Lui { rd: Reg, imm: i32 },

    // Loads and stores
    Ld { rd: Reg, rs1: Reg, offset: i32 },
    Lw { rd: Reg, rs1: Reg, offset: i32 },
    Lwu { rd: Reg, rs1: Reg, offset: i32 },
    Lhu { rd: Reg, rs1: Reg, offset: i32 },
    Lb { rd: Reg, rs1: Reg, offset: i32 },
    Lbu { rd: Reg, rs1: Reg, offset: i32 },
    Sd { rs1: Reg, rs2: Reg, offset: i32 },
    Sw { rs1: Reg, rs2: Reg, offset: i32 },
    Sh { rs1: Reg, rs2: Reg, offset: i32 },
    Sb { rs1: Reg, rs2: Reg, offset: i32 },

    // Integer arithmetic
    Add { rd: Reg, rs1: Reg, rs2: Reg },
    Addw { rd: Reg, rs1: Reg, rs2: Reg },
    Addi { rd: Reg, rs1: Reg, imm: i32 },
    Addiw { rd: Reg, rs1: Reg, imm: u32 },
    Div { rd: Reg, rs1: Reg, rs2: Reg },
    Divw { rd: Reg, rs1: Reg, rs2: Reg },
    Divu { rd: Reg, rs1: Reg, rs2: Reg },
    Divuw { rd: Reg, rs1: Reg, rs2: Reg },
    And { rd: Reg, rs1: Reg, rs2: Reg },
    Andi { rd: Reg, rs1: Reg, imm: i32 },
    Sub { rd: Reg, rs1: Reg, rs2: Reg },
    Subw { rd: Reg, rs1: Reg, rs2: Reg },
    Sll { rd: Reg, rs1: Reg, rs2: Reg },
    Sllw { rd: Reg, rs1: Reg, rs2: Reg },
    Slli { rd: Reg, rs1: Reg, shamt: u32 },
    Slliw { rd: Reg, rs1: Reg, shamt: u32 },
    Srl { rd: Reg, rs1: Reg, rs2: Reg },
    Srlw { rd: Reg, rs1: Reg, rs2: Reg },
    Srli { rd: Reg, rs1: Reg, shamt: u32 },
    Srliw { rd: Reg, rs1: Reg, shamt: u32 },
    Sra { rd: Reg, rs1: Reg, rs2: Reg },
    Sraw { rd: Reg, rs1: Reg, rs2: Reg },
    Srai { rd: Reg, rs1: Reg, shamt: u32 },
    Sraiw { rd: Reg, rs1: Reg, shamt: u32 },
    Or { rd: Reg, rs1: Reg, rs2: Reg },
    Ori { rd: Reg, rs1: Reg, imm: i32 },
    Xor { rd: Reg, rs1: Reg, rs2: Reg },
    Xori { rd: Reg, rs1: Reg, imm: i32 },

    // Jumps
    Auipc { rd: Reg, imm: i32 },
    Jal { rd: Reg, offset: i32 },
    Jalr { rd: Reg, rs1: Reg, offset: i32 },

    // Branches
    Beq { rs1: Reg, rs2: Reg, offset: i32 },
    Bne { rs1: Reg, rs2: Reg, offset: i32 },
    Blt { rs1: Reg, rs2: Reg, offset: i32 },
    Bltu { rs1: Reg, rs2: Reg, offset: i32 },
    Bge { rs1: Reg, rs2: Reg, offset: i32 },
    Bgeu { rs1: Reg, rs2: Reg, offset: i32 },

    // Multiplication, remainder, comparison
    Mul { rd: Reg, rs1: Reg, rs2: Reg },
    Mulhu { rd: Reg, rs1: Reg, rs2: Reg },
    Remw { rd: Reg, rs1: Reg, rs2: Reg },
    Remu { rd: Reg, rs1: Reg, rs2: Reg },
    Remuw { rd: Reg, rs1: Reg, rs2: Reg },
    Slt { rd: Reg, rs1: Reg, rs2: Reg },
    Sltu { rd: Reg, rs1: Reg, rs2: Reg },
    Slti { rd: Reg, rs1: Reg, imm: i32 },
    Sltiu { rd: Reg, rs1: Reg, imm: u32 },

    // Atomics
    Amoswapw { rd: Reg, rs1: Reg, rs2: Reg },
    Amoswapd { rd: Reg, rs1: Reg, rs2: Reg },
    Amoaddw { rd: Reg, rs1: Reg, rs2: Reg },
    Amoaddd { rd: Reg, rs1: Reg, rs2: Reg },
    Amoorw { rd: Reg, rs1: Reg, rs2: Reg },
    Amomaxuw { rd: Reg, rs1: Reg, rs2: Reg },
    Amomaxud { rd: Reg, rs1: Reg, rs2: Reg },
    Lrw { rd: Reg, rs1: Reg },
    Lrd { rd: Reg, rs1: Reg },
    Scw { rd: Reg, rs1: Reg, rs2: Reg },
    Scd { rd: Reg, rs1: Reg, rs2: Reg },

    // Floating point
    Fsd { rs1: Reg, rs2: FReg, offset: i32 },
    Fsw { rs1: Reg, rs2: FReg, offset: i32 },
    Fld { rd: FReg, rs1: Reg, offset: i32 },
    Flw { rd: FReg, rs1: Reg, offset: i32 },
    Fcvtdlu { rd: Reg, rs1: FReg, rm: u8 },
    Fcvtds { rd: Reg, rs1: FReg, rm: u8 },
    Fled { rd: Reg, rs1: FReg, rs2: FReg },
    Fdivd { rd: FReg, rs1: FReg, rs2: FReg },
}

impl Inst {
    /// Every register index names one of the 32 registers, and every shift
    /// amount fits the width that the operation shifts.
    pub open spec fn well_formed(self) -> bool {
        match self {
            Inst::Fence | Inst::Ecall | Inst::Ebreak | Inst::Unknown(_) => true,
            Inst::Lui { rd, .. } | Inst::Auipc { rd, .. } | Inst::Jal { rd, .. } => rd.valid(),
            Inst::Ld { rd, rs1, .. }
            | Inst::Lw { rd, rs1, .. }
            | Inst::Lwu { rd, rs1, .. }
            | Inst::Lhu { rd, rs1, .. }
            | Inst::Lb { rd, rs1, .. }
            | Inst::Lbu { rd, rs1, .. }
            | Inst::Addi { rd, rs1, .. }
            | Inst::Addiw { rd, rs1, .. }
            | Inst::Andi { rd, rs1, .. }
            | Inst::Ori { rd, rs1, .. }
            | Inst::Xori { rd, rs1, .. }
            | Inst::Slti { rd, rs1, .. }
            | Inst::Sltiu { rd, rs1, .. }
            | Inst::Jalr { rd, rs1, .. }
            | Inst::Lrw { rd, rs1 }
            | Inst::Lrd { rd, rs1 } => rd.valid() && rs1.valid(),
            Inst::Sd { rs1, rs2, .. }
            | Inst::Sw { rs1, rs2, .. }
            | Inst::Sh { rs1, rs2, .. }
            | Inst::Sb { rs1, rs2, .. }
            | Inst::Beq { rs1, rs2, .. }
            | Inst::Bne { rs1, rs2, .. }
            | Inst::Blt { rs1, rs2, .. }
            | Inst::Bltu { rs1, rs2, .. }
            | Inst::Bge { rs1, rs2, .. }
            | Inst::Bgeu { rs1, rs2, .. } => rs1.valid() && rs2.valid(),
            Inst::Add { rd, rs1, rs2 }
            | Inst::Addw { rd, rs1, rs2 }
            | Inst::Div { rd, rs1, rs2 }
            | Inst::Divw { rd, rs1, rs2 }
            | Inst::Divu { rd, rs1, rs2 }
            | Inst::Divuw { rd, rs1, rs2 }
            | Inst::And { rd, rs1, rs2 }
            | Inst::Sub { rd, rs1, rs2 }
            | Inst::Subw { rd, rs1, rs2 }
            | Inst::Sll { rd, rs1, rs2 }
            | Inst::Sllw { rd, rs1, rs2 }
            | Inst::Srl { rd, rs1, rs2 }
            | Inst::Srlw { rd, rs1, rs2 }
            | Inst::Sra { rd, rs1, rs2 }
            | Inst::Sraw { rd, rs1, rs2 }
            | Inst::Or { rd, rs1, rs2 }
            | Inst::Xor { rd, rs1, rs2 }
            | Inst::Mul { rd, rs1, rs2 }
            | Inst::Mulhu { rd, rs1, rs2 }
            | Inst::Remw { rd, rs1, rs2 }
            | Inst::Remu { rd, rs1, rs2 }
            | Inst::Remuw { rd, rs1, rs2 }
            | Inst::Slt { rd, rs1, rs2 }
            | Inst::Sltu { rd, rs1, rs2 }
            | Inst::Amoswapw { rd, rs1, rs2 }
            | Inst::Amoswapd { rd, rs1, rs2 }
            | Inst::Amoaddw { rd, rs1, rs2 }
            | Inst::Amoaddd { rd, rs1, rs2 }
            | Inst::Amoorw { rd, rs1, rs2 }
            | Inst::Amomaxuw { rd, rs1, rs2 }
            | Inst::Amomaxud { rd, rs1, rs2 }
            | Inst::Scw { rd, rs1, rs2 }
            | Inst::Scd { rd, rs1, rs2 } => rd.valid() && rs1.valid() && rs2.valid(),
            Inst::Slli { rd, rs1, shamt }
            | Inst::Srli { rd, rs1, shamt }
            | Inst::Srai { rd, rs1, shamt } => rd.valid() && rs1.valid() && shamt < 64,
            Inst::Slliw { rd, rs1, shamt }
            | Inst::Srliw { rd, rs1, shamt }
            | Inst::Sraiw { rd, rs1, shamt } => rd.valid() && rs1.valid() && shamt < 32,
            Inst::Fsd { rs1, rs2, .. } | Inst::Fsw { rs1, rs2, .. } => rs1.valid() && rs2.valid(),
            Inst::Fld { rd, rs1, .. } | Inst::Flw { rd, rs1, .. } => rd.valid() && rs1.valid(),
            Inst::Fcvtdlu { rd, rs1, .. } | Inst::Fcvtds { rd, rs1, .. } => rd.valid()
                && rs1.valid(),
            Inst::Fled { rd, rs1, rs2 } => rd.valid() && rs1.valid() && rs2.valid(),
            Inst::Fdivd { rd, rs1, rs2 } => rd.valid() && rs1.valid() && rs2.valid(),
        }
    }
}

} // verus!
