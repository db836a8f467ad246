//! The text of an instruction, as a disassembly shows it: the mnemonic in a
//! column of its own, then the operands with the registers by their ABI names.

use vstd::prelude::*;
use crate::instruction::Inst;
use crate::register::{f_name, x_name};
use crate::text::{
    digits, pad_left, pad_right, push_char, push_number, push_padded, push_signed, signed_decimal,
};

verus! {

/// The width of the column that holds the mnemonic.
pub const MNEMONIC_WIDTH: usize = 5;

/// The mnemonic of an instruction.
pub open spec fn mnemonic(inst: Inst) -> Seq<char> {
    match inst {
        Inst::Unknown(_) => "error:"@,
        Inst::Fence => "fence"@,
        Inst::Ecall => "ecall"@,
        Inst::Ebreak => "ebreak"@,
        Inst::Lui { .. } => "lui"@,
        Inst::Ld { .. } => "ld"@,
        Inst::Lw { .. } => "lw"@,
        Inst::Lwu { .. } => "lwu"@,
        Inst::Lhu { .. } => "lhu"@,
        Inst::Lb { .. } => "lb"@,
        Inst::Lbu { .. } => "lbu"@,
        Inst::Sd { .. } => "sd"@,
        Inst::Sw { .. } => "sw"@,
        Inst::Sh { .. } => "sh"@,
        Inst::Sb { .. } => "sb"@,
        Inst::Add { .. } => "add"@,
        Inst::Addw { .. } => "addw"@,
        Inst::Addi { .. } => "addi"@,
        Inst::Addiw { .. } => "addiw"@,
        Inst::Div { .. } => "div"@,
        Inst::Divw { .. } => "divw"@,
        Inst::Divu { .. } => "divu"@,
        Inst::Divuw { .. } => "divuw"@,
        Inst::And { .. } => "and"@,
        Inst::Andi { .. } => "andi"@,
        Inst::Sub { .. } => "sub"@,
        Inst::Subw { .. } => "subw"@,
        Inst::Sll { .. } => "sll"@,
        Inst::Sllw { .. } => "sllw"@,
        Inst::Slli { .. } => "slli"@,
        Inst::Slliw { .. } => "slliw"@,
        Inst::Srl { .. } => "srl"@,
        Inst::Srlw { .. } => "srlw"@,
        Inst::Srli { .. } => "srli"@,
        Inst::Srliw { .. } => "srliw"@,
        Inst::Sra { .. } => "sra"@,
        Inst::Sraw { .. } => "sraw"@,
        Inst::Srai { .. } => "srai"@,
        Inst::Sraiw { .. } => "sraiw"@,
        Inst::Or { .. } => "or"@,
        Inst::Ori { .. } => "ori"@,
        Inst::Xor { .. } => "xor"@,
        Inst::Xori { .. } => "xori"@,
        Inst::Auipc { .. } => "auipc"@,
        Inst::Jal { .. } => "jal"@,
        Inst::Jalr { .. } => "jalr"@,
        Inst::Beq { .. } => "beq"@,
        Inst::Bne { .. } => "bne"@,
        Inst::Blt { .. } => "blt"@,
        Inst::Bltu { .. } => "bltu"@,
        Inst::Bge { .. } => "bge"@,
        Inst::Bgeu { .. } => "bgeu"@,
        Inst::Mul { .. } => "mul"@,
        Inst::Mulhu { .. } => "mulhu"@,
        Inst::Remw { .. } => "remw"@,
        Inst::Remu { .. } => "remu"@,
        Inst::Remuw { .. } => "remuw"@,
        Inst::Slt { .. } => "slt"@,
        Inst::Sltu { .. } => "sltu"@,
        Inst::Slti { .. } => "slti"@,
        Inst::Sltiu { .. } => "sltiu"@,
        Inst::Amoswapw { .. } => "amoswap.w"@,
        Inst::Amoswapd { .. } => "amoswap.d"@,
        Inst::Amoaddw { .. } => "amoadd.w"@,
        Inst::Amoaddd { .. } => "amoadd.d"@,
        Inst::Amoorw { .. } => "amoor.w"@,
        Inst::Amomaxuw { .. } => "amomaxu.w"@,
        Inst::Amomaxud { .. } => "amomaxu.d"@,
        Inst::Lrw { .. } => "lr.w"@,
        Inst::Lrd { .. } => "lr.d"@,
        Inst::Scw { .. } => "sc.w"@,
        Inst::Scd { .. } => "sc.d"@,
        Inst::Fsd { .. } => "fsd"@,
        Inst::Fsw { .. } => "fsw"@,
        Inst::Fld { .. } => "fld"@,
        Inst::Flw { .. } => "flw"@,
        Inst::Fcvtdlu { .. } => "fcvt.d.lu"@,
        Inst::Fcvtds { .. } => "fcvt.d.s"@,
        Inst::Fled { .. } => "fle.d"@,
        Inst::Fdivd { .. } => "fdiv.d"@,
    }
}

/// A register, an offset and a base register: `rd, offset(rs1)`.
pub open spec fn memory_operands(reg: Seq<char>, offset: i32, base: Seq<char>) -> Seq<char> {
    reg + ", "@ + signed_decimal(offset as int) + "("@ + base + ")"@
}

/// Three names: `rd, rs1, rs2`.
pub open spec fn three_operands(first: Seq<char>, second: Seq<char>, third: Seq<char>) -> Seq<
    char,
> {
    first + ", "@ + second + ", "@ + third
}

/// The address that a jump or branch at `pc` with this offset goes to.
pub open spec fn target_of(pc: u64, offset: i32) -> u64 {
    pc.wrapping_add(offset as u64)
}

/// The operands of an instruction at `pc`.
pub open spec fn operands(inst: Inst, pc: u64) -> Seq<char> {
    match inst {
        Inst::Fence | Inst::Ecall | Inst::Ebreak => Seq::empty(),
        Inst::Unknown(raw) => pad_left(digits(raw as nat, 16), 8, '0'),
        Inst::Lui { rd, imm } => x_name(rd.0) + ", "@ + digits(((imm >> 12) as u32) as nat, 16),
        Inst::Auipc { rd, imm } => x_name(rd.0) + ", 0x"@ + digits(
            ((imm as u64) >> 12) as nat,
            16,
        ),
        Inst::Ld { rd, rs1, offset }
        | Inst::Lw { rd, rs1, offset }
        | Inst::Lwu { rd, rs1, offset }
        | Inst::Lhu { rd, rs1, offset }
        | Inst::Lb { rd, rs1, offset }
        | Inst::Lbu { rd, rs1, offset }
        | Inst::Jalr { rd, rs1, offset } => memory_operands(x_name(rd.0), offset, x_name(rs1.0)),
        Inst::Sd { rs1, rs2, offset }
        | Inst::Sw { rs1, rs2, offset }
        | Inst::Sh { rs1, rs2, offset }
        | Inst::Sb { rs1, rs2, offset } => memory_operands(x_name(rs2.0), offset, x_name(rs1.0)),
        Inst::Fsd { rs1, rs2, offset } | Inst::Fsw { rs1, rs2, offset } => memory_operands(
            f_name(rs2.0),
            offset,
            x_name(rs1.0),
        ),
        Inst::Fld { rd, rs1, offset } | Inst::Flw { rd, rs1, offset } => memory_operands(
            f_name(rd.0),
            offset,
            x_name(rs1.0),
        ),
        Inst::Add { rd, rs1, rs2 }
        | Inst::Addw { rd, rs1, rs2 }
        | Inst::Div { rd, rs1, rs2 }
        | Inst::Divw { rd, rs1, rs2 }
        | Inst::Divu { rd, rs1, rs2 }
        | Inst::Divuw { rd, rs1, rs2 }
        | Inst::And { rd, rs1, rs2 }
        | Inst::Sub { rd, rs1, rs2 }
        | Inst::Subw { rd, rs1, rs2 }
        | Inst::Sll { rd, rs1, rs2 }
        | Inst::Sllw { rd, rs1, rs2 }
        | Inst::Srl { rd, rs1, rs2 }
        | Inst::Srlw { rd, rs1, rs2 }
        | Inst::Sra { rd, rs1, rs2 }
        | Inst::Sraw { rd, rs1, rs2 }
        | Inst::Or { rd, rs1, rs2 }
        | Inst::Xor { rd, rs1, rs2 }
        | Inst::Mul { rd, rs1, rs2 }
        | Inst::Mulhu { rd, rs1, rs2 }
        | Inst::Remw { rd, rs1, rs2 }
        | Inst::Remu { rd, rs1, rs2 }
        | Inst::Remuw { rd, rs1, rs2 }
        | Inst::Slt { rd, rs1, rs2 }
        | Inst::Sltu { rd, rs1, rs2 }
        | Inst::Amoswapw { rd, rs1, rs2 }
        | Inst::Amoswapd { rd, rs1, rs2 }
        | Inst::Amoaddw { rd, rs1, rs2 }
        | Inst::Amoaddd { rd, rs1, rs2 }
        | Inst::Amoorw { rd, rs1, rs2 }
        | Inst::Amomaxuw { rd, rs1, rs2 }
        | Inst::Amomaxud { rd, rs1, rs2 } => three_operands(x_name(rd.0), x_name(rs1.0), x_name(rs2.0)),
        Inst::Addi { rd, rs1, imm }
        | Inst::Andi { rd, rs1, imm }
        | Inst::Ori { rd, rs1, imm }
        | Inst::Xori { rd, rs1, imm }
        | Inst::Slti { rd, rs1, imm } => three_operands(
            x_name(rd.0),
            x_name(rs1.0),
            signed_decimal(imm as int),
        ),
        Inst::Addiw { rd, rs1, imm } => three_operands(
            x_name(rd.0),
            x_name(rs1.0),
            signed_decimal((imm as i32) as int),
        ),
        Inst::Sltiu { rd, rs1, imm } => three_operands(
            x_name(rd.0),
            x_name(rs1.0),
            digits(imm as nat, 10),
        ),
        Inst::Slli { rd, rs1, shamt }
        | Inst::Slliw { rd, rs1, shamt }
        | Inst::Srli { rd, rs1, shamt }
        | Inst::Srliw { rd, rs1, shamt }
        | Inst::Srai { rd, rs1, shamt }
        | Inst::Sraiw { rd, rs1, shamt } => three_operands(
            x_name(rd.0),
            x_name(rs1.0),
            digits(shamt as nat, 10),
        ),
        Inst::Jal { rd, offset } => x_name(rd.0) + ", "@ + digits(target_of(pc, offset) as nat, 16),
        Inst::Beq { rs1, rs2, offset }
        | Inst::Bne { rs1, rs2, offset }
        | Inst::Blt { rs1, rs2, offset }
        | Inst::Bltu { rs1, rs2, offset }
        | Inst::Bge { rs1, rs2, offset }
        | Inst::Bgeu { rs1, rs2, offset } => three_operands(
            x_name(rs1.0),
            x_name(rs2.0),
            digits(target_of(pc, offset) as nat, 16),
        ),
        Inst::Lrw { rd, rs1 } | Inst::Lrd { rd, rs1 } => x_name(rd.0) + ", ("@ + x_name(rs1.0)
            + ")"@,
        Inst::Scw { rd, rs1, rs2 } | Inst::Scd { rd, rs1, rs2 } => x_name(rd.0) + ", "@ + x_name(
            rs2.0,
        ) + ",("@ + x_name(rs1.0) + ")"@,
        Inst::Fcvtdlu { rd, rs1, rm } | Inst::Fcvtds { rd, rs1, rm } => x_name(rd.0) + ", "@
            + f_name(rs1.0) + " rm="@ + pad_left(digits(rm as nat, 2), 3, '0'),
        Inst::Fled { rd, rs1, rs2 } => x_name(rd.0) + ", "@ + f_name(rs1.0) + " "@ + f_name(rs2.0),
        Inst::Fdivd { rd, rs1, rs2 } => f_name(rd.0) + ", "@ + f_name(rs1.0) + " "@ + f_name(rs2.0),
    }
}

/// The text of an instruction at `pc`: the mnemonic alone where there are no
/// operands; else the mnemonic, filled up with spaces to its column, a space,
/// and the operands.
pub open spec fn fmt_spec(inst: Inst, pc: u64) -> Seq<char> {
    match inst {
        Inst::Fence | Inst::Ecall | Inst::Ebreak => mnemonic(inst),
        _ => pad_right(mnemonic(inst), MNEMONIC_WIDTH as int) + " "@ + operands(inst, pc),
    }
}

/// Appends `reg, offset(base)`.
fn push_memory_operands(text: &mut String, reg: &str, offset: i32, base: &str)
    ensures
        final(text)@ == old(text)@ + memory_operands(reg@, offset, base@),
{
    text.append(reg);
    text.append(", ");
    push_signed(text, offset as i64);
    text.append("(");
    text.append(base);
    text.append(")");
    assert(text@ =~= old(text)@ + memory_operands(reg@, offset, base@));
}

/// Appends `first, second, `.
fn push_two_names(text: &mut String, first: &str, second: &str)
    ensures
        final(text)@ == old(text)@ + (first@ + ", "@ + second@ + ", "@),
{
    text.append(first);
    text.append(", ");
    text.append(second);
    text.append(", ");
    assert(text@ =~= old(text)@ + (first@ + ", "@ + second@ + ", "@));
}

/// Appends `first, second, third`.
fn push_three_names(text: &mut String, first: &str, second: &str, third: &str)
    ensures
        final(text)@ == old(text)@ + three_operands(first@, second@, third@),
{
    push_two_names(text, first, second);
    text.append(third);
    assert(text@ =~= old(text)@ + three_operands(first@, second@, third@));
}

impl Inst {
    /// Returns the mnemonic of the instruction.
    pub fn mnemonic_text(&self) -> (text: &'static str)
        ensures
            text@ == mnemonic(*self),
    {
        match self {
            Inst::Unknown(_) => "error:",
            Inst::Fence => "fence",
            Inst::Ecall => "ecall",
            Inst::Ebreak => "ebreak",
            Inst::Lui { .. } => "lui",
            Inst::Ld { .. } => "ld",
            Inst::Lw { .. } => "lw",
            Inst::Lwu { .. } => "lwu",
            Inst::Lhu { .. } => "lhu",
            Inst::Lb { .. } => "lb",
            Inst::Lbu { .. } => "lbu",
            Inst::Sd { .. } => "sd",
            Inst::Sw { .. } => "sw",
            Inst::Sh { .. } => "sh",
            Inst::Sb { .. } => "sb",
            Inst::Add { .. } => "add",
            Inst::Addw { .. } => "addw",
            Inst::Addi { .. } => "addi",
            Inst::Addiw { .. } => "addiw",
            Inst::Div { .. } => "div",
            Inst::Divw { .. } => "divw",
            Inst::Divu { .. } => "divu",
            Inst::Divuw { .. } => "divuw",
            Inst::And { .. } => "and",
            Inst::Andi { .. } => "andi",
            Inst::Sub { .. } => "sub",
            Inst::Subw { .. } => "subw",
            Inst::Sll { .. } => "sll",
            Inst::Sllw { .. } => "sllw",
            Inst::Slli { .. } => "slli",
            Inst::Slliw { .. } => "slliw",
            Inst::Srl { .. } => "srl",
            Inst::Srlw { .. } => "srlw",
            Inst::Srli { .. } => "srli",
            Inst::Srliw { .. } => "srliw",
            Inst::Sra { .. } => "sra",
            Inst::Sraw { .. } => "sraw",
            Inst::Srai { .. } => "srai",
            Inst::Sraiw { .. } => "sraiw",
            Inst::Or { .. } => "or",
            Inst::Ori { .. } => "ori",
            Inst::Xor { .. } => "xor",
            Inst::Xori { .. } => "xori",
            Inst::Auipc { .. } => "auipc",
            Inst::Jal { .. } => "jal",
            Inst::Jalr { .. } => "jalr",
            Inst::Beq { .. } => "beq",
            Inst::Bne { .. } => "bne",
            Inst::Blt { .. } => "blt",
            Inst::Bltu { .. } => "bltu",
            Inst::Bge { .. } => "bge",
            Inst::Bgeu { .. } => "bgeu",
            Inst::Mul { .. } => "mul",
            Inst::Mulhu { .. } => "mulhu",
            Inst::Remw { .. } => "remw",
            Inst::Remu { .. } => "remu",
            Inst::Remuw { .. } => "remuw",
            Inst::Slt { .. } => "slt",
            Inst::Sltu { .. } => "sltu",
            Inst::Slti { .. } => "slti",
            Inst::Sltiu { .. } => "sltiu",
            Inst::Amoswapw { .. } => "amoswap.w",
            Inst::Amoswapd { .. } => "amoswap.d",
            Inst::Amoaddw { .. } => "amoadd.w",
            Inst::Amoaddd { .. } => "amoadd.d",
            Inst::Amoorw { .. } => "amoor.w",
            Inst::Amomaxuw { .. } => "amomaxu.w",
            Inst::Amomaxud { .. } => "amomaxu.d",
            Inst::Lrw { .. } => "lr.w",
            Inst::Lrd { .. } => "lr.d",
            Inst::Scw { .. } => "sc.w",
            Inst::Scd { .. } => "sc.d",
            Inst::Fsd { .. } => "fsd",
            Inst::Fsw { .. } => "fsw",
            Inst::Fld { .. } => "fld",
            Inst::Flw { .. } => "flw",
            Inst::Fcvtdlu { .. } => "fcvt.d.lu",
            Inst::Fcvtds { .. } => "fcvt.d.s",
            Inst::Fled { .. } => "fle.d",
            Inst::Fdivd { .. } => "fdiv.d",
        }
    }

    /// Appends the operands of the instruction at `pc`.
    fn push_operands(&self, text: &mut String, pc: u64)
        requires
            self.well_formed(),
        ensures
            final(text)@ == old(text)@ + operands(*self, pc),
    {
        match *self {
            Inst::Fence | Inst::Ecall | Inst::Ebreak => {
                assert(text@ =~= old(text)@ + operands(*self, pc));
            },
            Inst::Unknown(raw) => {
                push_number(text, raw as u64, 16, 8, '0');
            },
            Inst::Lui { rd, imm } => {
                text.append(rd.name());
                text.append(", ");
                push_number(text, ((imm >> 12) as u32) as u64, 16, 0, ' ');
                assert(text@ =~= old(text)@ + operands(*self, pc));
            },
            Inst::Auipc { rd, imm } => {
                text.append(rd.name());
                text.append(", 0x");
                push_number(text, (imm as u64) >> 12, 16, 0, ' ');
                assert(text@ =~= old(text)@ + operands(*self, pc));
            },
            Inst::Ld { rd, rs1, offset }
            | Inst::Lw { rd, rs1, offset }
            | Inst::Lwu { rd, rs1, offset }
            | Inst::Lhu { rd, rs1, offset }
            | Inst::Lb { rd, rs1, offset }
            | Inst::Lbu { rd, rs1, offset }
            | Inst::Jalr { rd, rs1, offset } => {
                push_memory_operands(text, rd.name(), offset, rs1.name());
            },
            Inst::Sd { rs1, rs2, offset }
            | Inst::Sw { rs1, rs2, offset }
            | Inst::Sh { rs1, rs2, offset }
            | Inst::Sb { rs1, rs2, offset } => {
                push_memory_operands(text, rs2.name(), offset, rs1.name());
            },
            Inst::Fsd { rs1, rs2, offset } | Inst::Fsw { rs1, rs2, offset } => {
                push_memory_operands(text, rs2.name(), offset, rs1.name());
            },
            Inst::Fld { rd, rs1, offset } | Inst::Flw { rd, rs1, offset } => {
                push_memory_operands(text, rd.name(), offset, rs1.name());
            },
            Inst::Add { rd, rs1, rs2 }
            | Inst::Addw { rd, rs1, rs2 }
            | Inst::Div { rd, rs1, rs2 }
            | Inst::Divw { rd, rs1, rs2 }
            | Inst::Divu { rd, rs1, rs2 }
            | Inst::Divuw { rd, rs1, rs2 }
            | Inst::And { rd, rs1, rs2 }
            | Inst::Sub { rd, rs1, rs2 }
            | Inst::Subw { rd, rs1, rs2 }
            | Inst::Sll { rd, rs1, rs2 }
            | Inst::Sllw { rd, rs1, rs2 }
            | Inst::Srl { rd, rs1, rs2 }
            | Inst::Srlw { rd, rs1, rs2 }
            | Inst::Sra { rd, rs1, rs2 }
            | Inst::Sraw { rd, rs1, rs2 }
            | Inst::Or { rd, rs1, rs2 }
            | Inst::Xor { rd, rs1, rs2 }
            | Inst::Mul { rd, rs1, rs2 }
            | Inst::Mulhu { rd, rs1, rs2 }
            | Inst::Remw { rd, rs1, rs2 }
            | Inst::Remu { rd, rs1, rs2 }
            | Inst::Remuw { rd, rs1, rs2 }
            | Inst::Slt { rd, rs1, rs2 }
            | Inst::Sltu { rd, rs1, rs2 }
            | Inst::Amoswapw { rd, rs1, rs2 }
            | Inst::Amoswapd { rd, rs1, rs2 }
            | Inst::Amoaddw { rd, rs1, rs2 }
            | Inst::Amoaddd { rd, rs1, rs2 }
            | Inst::Amoorw { rd, rs1, rs2 }
            | Inst::Amomaxuw { rd, rs1, rs2 }
            | Inst::Amomaxud { rd, rs1, rs2 } => {
                push_three_names(text, rd.name(), rs1.name(), rs2.name());
            },
            Inst::Addi { rd, rs1, imm }
            | Inst::Andi { rd, rs1, imm }
            | Inst::Ori { rd, rs1, imm }
            | Inst::Xori { rd, rs1, imm }
            | Inst::Slti { rd, rs1, imm } => {
                push_two_names(text, rd.name(), rs1.name());
                push_signed(text, imm as i64);
                assert(text@ =~= old(text)@ + operands(*self, pc));
            },
            Inst::Addiw { rd, rs1, imm } => {
                push_two_names(text, rd.name(), rs1.name());
                push_signed(text, (imm as i32) as i64);
                assert(text@ =~= old(text)@ + operands(*self, pc));
            },
            Inst::Sltiu { rd, rs1, imm } => {
                push_two_names(text, rd.name(), rs1.name());
                push_number(text, imm as u64, 10, 0, ' ');
                assert(text@ =~= old(text)@ + operands(*self, pc));
            },
            Inst::Slli { rd, rs1, shamt }
            | Inst::Slliw { rd, rs1, shamt }
            | Inst::Srli { rd, rs1, shamt }
            | Inst::Srliw { rd, rs1, shamt }
            | Inst::Srai { rd, rs1, shamt }
            | Inst::Sraiw { rd, rs1, shamt } => {
                push_two_names(text, rd.name(), rs1.name());
                push_number(text, shamt as u64, 10, 0, ' ');
                assert(text@ =~= old(text)@ + operands(*self, pc));
            },
            Inst::Jal { rd, offset } => {
                text.append(rd.name());
                text.append(", ");
                push_number(text, pc.wrapping_add(offset as u64), 16, 0, ' ');
                assert(text@ =~= old(text)@ + operands(*self, pc));
            },
            Inst::Beq { rs1, rs2, offset }
            | Inst::Bne { rs1, rs2, offset }
            | Inst::Blt { rs1, rs2, offset }
            | Inst::Bltu { rs1, rs2, offset }
            | Inst::Bge { rs1, rs2, offset }
            | Inst::Bgeu { rs1, rs2, offset } => {
                push_two_names(text, rs1.name(), rs2.name());
                push_number(text, pc.wrapping_add(offset as u64), 16, 0, ' ');
                assert(text@ =~= old(text)@ + operands(*self, pc));
            },
            Inst::Lrw { rd, rs1 } | Inst::Lrd { rd, rs1 } => {
                text.append(rd.name());
                text.append(", (");
                text.append(rs1.name());
                text.append(")");
                assert(text@ =~= old(text)@ + operands(*self, pc));
            },
            Inst::Scw { rd, rs1, rs2 } | Inst::Scd { rd, rs1, rs2 } => {
                text.append(rd.name());
                text.append(", ");
                text.append(rs2.name());
                text.append(",(");
                text.append(rs1.name());
                text.append(")");
                assert(text@ =~= old(text)@ + operands(*self, pc));
            },
            Inst::Fcvtdlu { rd, rs1, rm } | Inst::Fcvtds { rd, rs1, rm } => {
                text.append(rd.name());
                text.append(", ");
                text.append(rs1.name());
                text.append(" rm=");
                push_number(text, rm as u64, 2, 3, '0');
                assert(text@ =~= old(text)@ + operands(*self, pc));
            },
            Inst::Fled { rd, rs1, rs2 } => {
                text.append(rd.name());
                text.append(", ");
                text.append(rs1.name());
                text.append(" ");
                text.append(rs2.name());
                assert(text@ =~= old(text)@ + operands(*self, pc));
            },
            Inst::Fdivd { rd, rs1, rs2 } => {
                text.append(rd.name());
                text.append(", ");
                text.append(rs1.name());
                text.append(" ");
                text.append(rs2.name());
                assert(text@ =~= old(text)@ + operands(*self, pc));
            },
        }
    }

    /// Returns the text of the instruction as a disassembly shows it; `pc` is
    /// its address, from which the targets of jumps and branches are counted.
    pub fn fmt(&self, pc: u64) -> (text: String)
        requires
            self.well_formed(),
        ensures
            text@ == fmt_spec(*self, pc),
    {
        let mut text = String::new();
        match self {
            Inst::Fence | Inst::Ecall | Inst::Ebreak => {
                text.append(self.mnemonic_text());
                assert(text@ =~= fmt_spec(*self, pc));
            },
            _ => {
                push_padded(&mut text, self.mnemonic_text(), MNEMONIC_WIDTH);
                push_char(&mut text, ' ');
                proof {
                    reveal_strlit(" ");
                }
                let ghost head = text@;
                assert(head =~= pad_right(mnemonic(*self), MNEMONIC_WIDTH as int) + " "@);
                self.push_operands(&mut text, pc);
            },
        }
        text
    }
}

} // verus!
