//! What each instruction does, as a value: the effect that the interpreter
//! then commits to registers and memory. Computing the effect reads the
//! registers and changes nothing.

use vstd::prelude::*;
use crate::instruction::Inst;
use crate::register::{FReg, Reg};

verus! {

/// The operation of an atomic read-modify-write.
#[derive(Clone, Copy, Debug, PartialEq, Eq, Structural)]
pub enum AmoOp {
    Swap,
    Add,
    Or,
    MaxUnsigned,
}

/// A floating-point computation, on the bit patterns of its operands. The
/// interpreter holds floating-point registers as bit patterns of doubles and
/// hands these computations to the floating-point unit of its caller.
#[derive(Clone, Copy, Debug, PartialEq, Eq, Structural)]
pub enum FloatOp {
    /// The double with the value of a single; the result is its bit pattern.
    SingleToDouble(u32),
    /// The single nearest to a double; the result is its bit pattern, in the
    /// low 32 bits.
    DoubleToSingle(u64),
    /// The double as an unsigned integer, rounded towards zero.
    DoubleToUnsigned(u64),
    /// Whether the first double is less than or equal to the second; the
    /// result is 1 or 0.
    LessOrEqual(u64, u64),
    /// The quotient of two doubles; the result is its bit pattern.
    Divide(u64, u64),
}

/// What an instruction does.
#[allow(inconsistent_fields)]
#[derive(Clone, Copy, Debug, PartialEq, Eq, Structural)]
pub enum Effect {
    Nop,
    /// Reports a word that encodes no known instruction, and goes on.
    Report { raw: u32 },
    /// Writes `value` to `rd`.
    Write { rd: Reg, value: u64 },
    /// Loads `size` bytes at `addr` into `rd`, sign-extended or zero-extended.
    Load { rd: Reg, addr: u64, size: u8, signed: bool },
    /// Stores the low `size` bytes of `value` at `addr`.
    Store { addr: u64, value: u64, size: u8 },
    /// Writes the address of the next instruction to `rd` and goes to `target`.
    Jump { rd: Reg, target: u64 },
    /// Goes to `target` if `taken`, else to the next instruction.
    Branch { taken: bool, target: u64 },
    /// Loads `size` bytes at `addr` into `rd`, sign-extended, and stores the
    /// result of `op` on them and `operand` in their place.
    Atomic { rd: Reg, addr: u64, size: u8, op: AmoOp, operand: u64 },
    /// Stores the low `size` bytes of `value` at `addr` and writes 0, for
    /// success, to `rd`.
    StoreConditional { rd: Reg, addr: u64, value: u64, size: u8 },
    /// Calls the system.
    Call,
    /// Loads the bit pattern of a double at `addr` into `rd`.
    LoadDouble { rd: FReg, addr: u64 },
    /// Loads the bit pattern of a single at `addr` and writes the double of
    /// the same value to `rd`.
    LoadSingle { rd: FReg, addr: u64 },
    /// Stores at `addr` the single nearest to the double `value`.
    StoreSingle { addr: u64, value: u64 },
    /// Writes the result of a floating-point computation to `rd`.
    FloatToInt { rd: Reg, op: FloatOp },
    /// Writes the result of a floating-point computation to `rd`.
    FloatToFloat { rd: FReg, op: FloatOp },
}

/// The low 32 bits of `v`, sign-extended to 64 bits.
pub open spec fn word(v: u64) -> u64 {
    (((v as u32) as i32) as i64) as u64
}

/// An immediate, sign-extended to 64 bits.
pub open spec fn imm64(imm: i32) -> u64 {
    (imm as i64) as u64
}

/// Whether `v` is negative as a signed 64-bit number.
pub open spec fn is_negative(v: u64) -> bool {
    v >= 0x8000_0000_0000_0000
}

/// The magnitude of `v` as a signed 64-bit number.
pub open spec fn magnitude(v: u64) -> u64 {
    if is_negative(v) {
        0u64.wrapping_sub(v)
    } else {
        v
    }
}

/// `v` with the sign that `negative` tells.
pub open spec fn with_sign(v: u64, negative: bool) -> u64 {
    if negative {
        0u64.wrapping_sub(v)
    } else {
        v
    }
}

/// The signed quotient: all ones for a divisor of zero; else the quotient of
/// the magnitudes with the sign of the exact quotient, which for the lowest
/// number divided by -1 is the lowest number again.
pub open spec fn div_signed(a: u64, b: u64) -> u64 {
    if b == 0 {
        u64::MAX
    } else {
        with_sign(magnitude(a) / magnitude(b), is_negative(a) != is_negative(b))
    }
}

/// The signed remainder: the dividend for a divisor of zero; else the
/// remainder of the magnitudes with the sign of the dividend.
pub open spec fn rem_signed(a: u64, b: u64) -> u64 {
    if b == 0 {
        a
    } else {
        with_sign(magnitude(a) % magnitude(b), is_negative(a))
    }
}

/// The unsigned quotient: all ones for a divisor of zero.
pub open spec fn div_unsigned(a: u64, b: u64) -> u64 {
    if b == 0 {
        u64::MAX
    } else {
        a / b
    }
}

/// The unsigned remainder: the dividend for a divisor of zero.
pub open spec fn rem_unsigned(a: u64, b: u64) -> u64 {
    if b == 0 {
        a
    } else {
        a % b
    }
}

/// The low 32 bits of `v`, zero-extended.
pub open spec fn low_word(v: u64) -> u64 {
    (v as u32) as u64
}

/// The result of an atomic operation on the value in memory and the operand,
/// both `size` bytes wide.
pub open spec fn amo_result(op: AmoOp, held: u64, operand: u64, size: u8) -> u64 {
    let a = if size == 4 { low_word(held) } else { held };
    let b = if size == 4 { low_word(operand) } else { operand };
    match op {
        AmoOp::Swap => b,
        AmoOp::Add => b.wrapping_add(a),
        AmoOp::Or => b | a,
        AmoOp::MaxUnsigned => if b >= a { b } else { a },
    }
}

/// A loaded value of `size` bytes as the register holds it.
pub open spec fn extended(value: u64, size: u8, signed: bool) -> u64 {
    if !signed || size == 8 {
        value
    } else if size == 4 {
        word(value)
    } else if size == 2 {
        (((value as u16) as i16) as i64) as u64
    } else {
        (((value as u8) as i8) as i64) as u64
    }
}

/// The effect of `inst` at `pc`, with the integer registers `x` and the
/// floating-point registers `f`.
pub open spec fn effect_of(inst: Inst, x: Seq<u64>, f: Seq<u64>, pc: u64) -> Effect {
    match inst {
        Inst::Fence | Inst::Ebreak => Effect::Nop,
        Inst::Unknown(raw) => Effect::Report { raw },
        Inst::Ecall => Effect::Call,
        Inst::Lui { rd, imm } => Effect::Write { rd, value: imm64(imm) },
        Inst::Auipc { rd, imm } => Effect::Write { rd, value: pc.wrapping_add(imm64(imm)) },
        Inst::Ld { rd, rs1, offset } => Effect::Load {
            rd,
            addr: x[rs1.0 as int].wrapping_add(imm64(offset)),
            size: 8,
            signed: false,
        },
        Inst::Lw { rd, rs1, offset } => Effect::Load {
            rd,
            addr: x[rs1.0 as int].wrapping_add(imm64(offset)),
            size: 4,
            signed: true,
        },
        Inst::Lwu { rd, rs1, offset } => Effect::Load {
            rd,
            addr: x[rs1.0 as int].wrapping_add(imm64(offset)),
            size: 4,
            signed: false,
        },
        Inst::Lhu { rd, rs1, offset } => Effect::Load {
            rd,
            addr: x[rs1.0 as int].wrapping_add(imm64(offset)),
            size: 2,
            signed: false,
        },
        Inst::Lb { rd, rs1, offset } => Effect::Load {
            rd,
            addr: x[rs1.0 as int].wrapping_add(imm64(offset)),
            size: 1,
            signed: true,
        },
        Inst::Lbu { rd, rs1, offset } => Effect::Load {
            rd,
            addr: x[rs1.0 as int].wrapping_add(imm64(offset)),
            size: 1,
            signed: false,
        },
        Inst::Sd { rs1, rs2, offset } => Effect::Store {
            addr: x[rs1.0 as int].wrapping_add(imm64(offset)),
            value: x[rs2.0 as int],
            size: 8,
        },
        Inst::Sw { rs1, rs2, offset } => Effect::Store {
            addr: x[rs1.0 as int].wrapping_add(imm64(offset)),
            value: x[rs2.0 as int],
            size: 4,
        },
        Inst::Sh { rs1, rs2, offset } => Effect::Store {
            addr: x[rs1.0 as int].wrapping_add(imm64(offset)),
            value: x[rs2.0 as int],
            size: 2,
        },
        Inst::Sb { rs1, rs2, offset } => Effect::Store {
            addr: x[rs1.0 as int].wrapping_add(imm64(offset)),
            value: x[rs2.0 as int],
            size: 1,
        },
        Inst::Add { rd, rs1, rs2 } => Effect::Write {
            rd,
            value: x[rs1.0 as int].wrapping_add(x[rs2.0 as int]),
        },
        Inst::Addw { rd, rs1, rs2 } => Effect::Write {
            rd,
            value: word(x[rs1.0 as int].wrapping_add(x[rs2.0 as int])),
        },
        Inst::Addi { rd, rs1, imm } => Effect::Write {
            rd,
            value: x[rs1.0 as int].wrapping_add(imm64(imm)),
        },
        Inst::Addiw { rd, rs1, imm } => Effect::Write {
            rd,
            value: word(x[rs1.0 as int].wrapping_add(imm as u64)),
        },
        Inst::Sub { rd, rs1, rs2 } => Effect::Write {
            rd,
            value: x[rs1.0 as int].wrapping_sub(x[rs2.0 as int]),
        },
        Inst::Subw { rd, rs1, rs2 } => Effect::Write {
            rd,
            value: word(x[rs1.0 as int].wrapping_sub(x[rs2.0 as int])),
        },
        Inst::And { rd, rs1, rs2 } => Effect::Write { rd, value: x[rs1.0 as int] & x[rs2.0 as int] },
        Inst::Andi { rd, rs1, imm } => Effect::Write { rd, value: x[rs1.0 as int] & imm64(imm) },
        Inst::Or { rd, rs1, rs2 } => Effect::Write { rd, value: x[rs1.0 as int] | x[rs2.0 as int] },
        Inst::Ori { rd, rs1, imm } => Effect::Write { rd, value: x[rs1.0 as int] | imm64(imm) },
        Inst::Xor { rd, rs1, rs2 } => Effect::Write { rd, value: x[rs1.0 as int] ^ x[rs2.0 as int] },
        Inst::Xori { rd, rs1, imm } => Effect::Write { rd, value: x[rs1.0 as int] ^ imm64(imm) },
        Inst::Sll { rd, rs1, rs2 } => Effect::Write {
            rd,
            value: x[rs1.0 as int].wrapping_shl(x[rs2.0 as int] as u32),
        },
        Inst::Sllw { rd, rs1, rs2 } => Effect::Write {
            rd,
            value: word((x[rs1.0 as int] as u32).wrapping_shl(x[rs2.0 as int] as u32) as u64),
        },
        Inst::Slli { rd, rs1, shamt } => Effect::Write {
            rd,
            value: x[rs1.0 as int].wrapping_shl(shamt),
        },
        Inst::Slliw { rd, rs1, shamt } => Effect::Write {
            rd,
            value: word((x[rs1.0 as int] as u32).wrapping_shl(shamt) as u64),
        },
        Inst::Srl { rd, rs1, rs2 } => Effect::Write {
            rd,
            value: x[rs1.0 as int].wrapping_shr(x[rs2.0 as int] as u32),
        },
        Inst::Srlw { rd, rs1, rs2 } => Effect::Write {
            rd,
            value: word((x[rs1.0 as int] as u32).wrapping_shr(x[rs2.0 as int] as u32) as u64),
        },
        Inst::Srli { rd, rs1, shamt } => Effect::Write {
            rd,
            value: x[rs1.0 as int].wrapping_shr(shamt),
        },
        Inst::Srliw { rd, rs1, shamt } => Effect::Write {
            rd,
            value: word((x[rs1.0 as int] as u32).wrapping_shr(shamt) as u64),
        },
        Inst::Sra { rd, rs1, rs2 } => Effect::Write {
            rd,
            value: (x[rs1.0 as int] as i64).wrapping_shr(x[rs2.0 as int] as u32) as u64,
        },
        Inst::Sraw { rd, rs1, rs2 } => Effect::Write {
            rd,
            value: (((x[rs1.0 as int] as u32) as i32).wrapping_shr(x[rs2.0 as int] as u32)
                as i64) as u64,
        },
        Inst::Srai { rd, rs1, shamt } => Effect::Write {
            rd,
            value: (x[rs1.0 as int] as i64).wrapping_shr(shamt) as u64,
        },
        Inst::Sraiw { rd, rs1, shamt } => Effect::Write {
            rd,
            value: (((x[rs1.0 as int] as u32) as i32).wrapping_shr(shamt) as i64) as u64,
        },
        Inst::Slt { rd, rs1, rs2 } => Effect::Write {
            rd,
            value: if (x[rs1.0 as int] as i64) < (x[rs2.0 as int] as i64) { 1 } else { 0 },
        },
        Inst::Sltu { rd, rs1, rs2 } => Effect::Write {
            rd,
            value: if x[rs1.0 as int] < x[rs2.0 as int] { 1 } else { 0 },
        },
        Inst::Slti { rd, rs1, imm } => Effect::Write {
            rd,
            value: if (x[rs1.0 as int] as i64) < (imm as i64) { 1 } else { 0 },
        },
        Inst::Sltiu { rd, rs1, imm } => Effect::Write {
            rd,
            value: if x[rs1.0 as int] < imm64(imm as i32) { 1 } else { 0 },
        },
        Inst::Mul { rd, rs1, rs2 } => Effect::Write {
            rd,
            value: x[rs1.0 as int].wrapping_mul(x[rs2.0 as int]),
        },
        Inst::Mulhu { rd, rs1, rs2 } => Effect::Write {
            rd,
            value: ((x[rs1.0 as int] * x[rs2.0 as int]) / 0x1_0000_0000_0000_0000) as u64,
        },
        Inst::Div { rd, rs1, rs2 } => Effect::Write {
            rd,
            value: div_signed(x[rs1.0 as int], x[rs2.0 as int]),
        },
        Inst::Divw { rd, rs1, rs2 } => Effect::Write {
            rd,
            value: word(div_signed(word(x[rs1.0 as int]), word(x[rs2.0 as int]))),
        },
        Inst::Divu { rd, rs1, rs2 } => Effect::Write {
            rd,
            value: div_unsigned(x[rs1.0 as int], x[rs2.0 as int]),
        },
        Inst::Divuw { rd, rs1, rs2 } => Effect::Write {
            rd,
            value: word(div_unsigned(low_word(x[rs1.0 as int]), low_word(x[rs2.0 as int]))),
        },
        Inst::Remw { rd, rs1, rs2 } => Effect::Write {
            rd,
            value: word(rem_signed(word(x[rs1.0 as int]), word(x[rs2.0 as int]))),
        },
        Inst::Remu { rd, rs1, rs2 } => Effect::Write {
            rd,
            value: rem_unsigned(x[rs1.0 as int], x[rs2.0 as int]),
        },
        Inst::Remuw { rd, rs1, rs2 } => Effect::Write {
            rd,
            value: word(rem_unsigned(low_word(x[rs1.0 as int]), low_word(x[rs2.0 as int]))),
        },
        Inst::Jal { rd, offset } => Effect::Jump { rd, target: pc.wrapping_add(imm64(offset)) },
        Inst::Jalr { rd, rs1, offset } => Effect::Jump {
            rd,
            target: x[rs1.0 as int].wrapping_add(imm64(offset)) & 0xFFFF_FFFF_FFFF_FFFE,
        },
        Inst::Beq { rs1, rs2, offset } => Effect::Branch {
            taken: x[rs1.0 as int] == x[rs2.0 as int],
            target: pc.wrapping_add(imm64(offset)),
        },
        Inst::Bne { rs1, rs2, offset } => Effect::Branch {
            taken: x[rs1.0 as int] != x[rs2.0 as int],
            target: pc.wrapping_add(imm64(offset)),
        },
        Inst::Blt { rs1, rs2, offset } => Effect::Branch {
            taken: (x[rs1.0 as int] as i64) < (x[rs2.0 as int] as i64),
            target: pc.wrapping_add(imm64(offset)),
        },
        Inst::Bltu { rs1, rs2, offset } => Effect::Branch {
            taken: x[rs1.0 as int] < x[rs2.0 as int],
            target: pc.wrapping_add(imm64(offset)),
        },
        Inst::Bge { rs1, rs2, offset } => Effect::Branch {
            taken: (x[rs1.0 as int] as i64) >= (x[rs2.0 as int] as i64),
            target: pc.wrapping_add(imm64(offset)),
        },
        Inst::Bgeu { rs1, rs2, offset } => Effect::Branch {
            taken: x[rs1.0 as int] >= x[rs2.0 as int],
            target: pc.wrapping_add(imm64(offset)),
        },
        Inst::Amoswapw { rd, rs1, rs2 } => Effect::Atomic {
            rd,
            addr: x[rs1.0 as int],
            size: 4,
            op: AmoOp::Swap,
            operand: x[rs2.0 as int],
        },
        Inst::Amoswapd { rd, rs1, rs2 } => Effect::Atomic {
            rd,
            addr: x[rs1.0 as int],
            size: 8,
            op: AmoOp::Swap,
            operand: x[rs2.0 as int],
        },
        Inst::Amoaddw { rd, rs1, rs2 } => Effect::Atomic {
            rd,
            addr: x[rs1.0 as int],
            size: 4,
            op: AmoOp::Add,
            operand: x[rs2.0 as int],
        },
        Inst::Amoaddd { rd, rs1, rs2 } => Effect::Atomic {
            rd,
            addr: x[rs1.0 as int],
            size: 8,
            op: AmoOp::Add,
            operand: x[rs2.0 as int],
        },
        Inst::Amoorw { rd, rs1, rs2 } => Effect::Atomic {
            rd,
            addr: x[rs1.0 as int],
            size: 4,
            op: AmoOp::Or,
            operand: x[rs2.0 as int],
        },
        Inst::Amomaxuw { rd, rs1, rs2 } => Effect::Atomic {
            rd,
            addr: x[rs1.0 as int],
            size: 4,
            op: AmoOp::MaxUnsigned,
            operand: x[rs2.0 as int],
        },
        Inst::Amomaxud { rd, rs1, rs2 } => Effect::Atomic {
            rd,
            addr: x[rs1.0 as int],
            size: 8,
            op: AmoOp::MaxUnsigned,
            operand: x[rs2.0 as int],
        },
        Inst::Lrw { rd, rs1 } => Effect::Load { rd, addr: x[rs1.0 as int], size: 4, signed: true },
        Inst::Lrd { rd, rs1 } => Effect::Load { rd, addr: x[rs1.0 as int], size: 8, signed: false },
        Inst::Scw { rd, rs1, rs2 } => Effect::StoreConditional {
            rd,
            addr: x[rs1.0 as int],
            value: x[rs2.0 as int],
            size: 4,
        },
        Inst::Scd { rd, rs1, rs2 } => Effect::StoreConditional {
            rd,
            addr: x[rs1.0 as int],
            value: x[rs2.0 as int],
            size: 8,
        },
        Inst::Fsd { rs1, rs2, offset } => Effect::Store {
            addr: x[rs1.0 as int].wrapping_add(imm64(offset)),
            value: f[rs2.0 as int],
            size: 8,
        },
        Inst::Fsw { rs1, rs2, offset } => Effect::StoreSingle {
            addr: x[rs1.0 as int].wrapping_add(imm64(offset)),
            value: f[rs2.0 as int],
        },
        Inst::Fld { rd, rs1, offset } => Effect::LoadDouble {
            rd,
            addr: x[rs1.0 as int].wrapping_add(imm64(offset)),
        },
        Inst::Flw { rd, rs1, offset } => Effect::LoadSingle {
            rd,
            addr: x[rs1.0 as int].wrapping_add(imm64(offset)),
        },
        Inst::Fcvtdlu { rd, rs1, .. } | Inst::Fcvtds { rd, rs1, .. } => Effect::FloatToInt {
            rd,
            op: FloatOp::DoubleToUnsigned(f[rs1.0 as int]),
        },
        Inst::Fled { rd, rs1, rs2 } => Effect::FloatToInt {
            rd,
            op: FloatOp::LessOrEqual(f[rs1.0 as int], f[rs2.0 as int]),
        },
        Inst::Fdivd { rd, rs1, rs2 } => Effect::FloatToFloat {
            rd,
            op: FloatOp::Divide(f[rs1.0 as int], f[rs2.0 as int]),
        },
    }
}

impl Effect {
    /// Every register of the effect is one of the 32, and every access is 1,
    /// 2, 4 or 8 bytes wide; atomic accesses are 4 or 8 bytes wide.
    pub open spec fn well_formed(self) -> bool {
        match self {
            Effect::Nop
            | Effect::Report { .. }
            | Effect::Call
            | Effect::Branch { .. }
            | Effect::StoreSingle { .. } => true,
            Effect::Write { rd, .. } | Effect::Jump { rd, .. } | Effect::FloatToInt { rd, .. } =>
                rd.valid(),
            Effect::Load { rd, size, .. } => rd.valid() && (size == 1 || size == 2 || size == 4
                || size == 8),
            Effect::Store { size, .. } => size == 1 || size == 2 || size == 4 || size == 8,
            Effect::Atomic { rd, size, .. } | Effect::StoreConditional { rd, size, .. } =>
                rd.valid() && (size == 4 || size == 8),
            Effect::LoadDouble { rd, .. } | Effect::LoadSingle { rd, .. } | Effect::FloatToFloat {
                rd,
                ..
            } => rd.valid(),
        }
    }
}

/// Returns the low 32 bits of `v`, sign-extended to 64 bits.
pub fn sign_extend_word(v: u64) -> (r: u64)
    ensures
        r == word(v),
{
    (((v as u32) as i32) as i64) as u64
}

/// Returns `v` negated where `negative` holds.
fn apply_sign(v: u64, negative: bool) -> (r: u64)
    ensures
        r == with_sign(v, negative),
{
    if negative {
        0u64.wrapping_sub(v)
    } else {
        v
    }
}

/// Returns the magnitude of `v` as a signed 64-bit number.
pub fn magnitude_of(v: u64) -> (r: u64)
    ensures
        r == magnitude(v),
        v != 0 ==> r != 0,
{
    let r = apply_sign(v, v >= 0x8000_0000_0000_0000);
    assert(v != 0 && v >= 0x8000_0000_0000_0000u64 ==> 0u64.wrapping_sub(v) != 0) by {
        if v != 0 && v >= 0x8000_0000_0000_0000u64 {
            assert(0u64.wrapping_sub(v) == 0x1_0000_0000_0000_0000 - v);
        }
    }
    r
}

/// Returns the signed quotient as the DIV instruction defines it.
pub fn divide_signed(a: u64, b: u64) -> (r: u64)
    ensures
        r == div_signed(a, b),
{
    if b == 0 {
        u64::MAX
    } else {
        let quotient = magnitude_of(a) / magnitude_of(b);
        apply_sign(quotient, (a >= 0x8000_0000_0000_0000) != (b >= 0x8000_0000_0000_0000))
    }
}

/// Returns the signed remainder as the REM instruction defines it.
pub fn remainder_signed(a: u64, b: u64) -> (r: u64)
    ensures
        r == rem_signed(a, b),
{
    if b == 0 {
        a
    } else {
        let remainder = magnitude_of(a) % magnitude_of(b);
        apply_sign(remainder, a >= 0x8000_0000_0000_0000)
    }
}

/// Returns the unsigned quotient as the DIVU instruction defines it.
pub fn divide_unsigned(a: u64, b: u64) -> (r: u64)
    ensures
        r == div_unsigned(a, b),
{
    if b == 0 {
        u64::MAX
    } else {
        a / b
    }
}

/// Returns the unsigned remainder as the REMU instruction defines it.
pub fn remainder_unsigned(a: u64, b: u64) -> (r: u64)
    ensures
        r == rem_unsigned(a, b),
{
    if b == 0 {
        a
    } else {
        a % b
    }
}

/// Returns the upper half of the 128-bit product of two unsigned numbers.
pub fn multiply_high(a: u64, b: u64) -> (r: u64)
    ensures
        r == ((a * b) / 0x1_0000_0000_0000_0000) as u64,
{
    assert(a * b <= 0xFFFF_FFFF_FFFF_FFFF * 0xFFFF_FFFF_FFFF_FFFF) by (nonlinear_arith)
        requires
            a <= 0xFFFF_FFFF_FFFF_FFFF,
            b <= 0xFFFF_FFFF_FFFF_FFFF,
    ;
    let product: u128 = (a as u128) * (b as u128);
    (product / 0x1_0000_0000_0000_0000u128) as u64
}

/// Returns the result of an atomic operation.
pub fn amo(op: AmoOp, held: u64, operand: u64, size: u8) -> (r: u64)
    ensures
        r == amo_result(op, held, operand, size),
{
    let a = if size == 4 {
        (held as u32) as u64
    } else {
        held
    };
    let b = if size == 4 {
        (operand as u32) as u64
    } else {
        operand
    };
    match op {
        AmoOp::Swap => b,
        AmoOp::Add => b.wrapping_add(a),
        AmoOp::Or => b | a,
        AmoOp::MaxUnsigned => if b >= a {
            b
        } else {
            a
        },
    }
}

/// Returns a loaded value as the register holds it.
pub fn extend(value: u64, size: u8, signed: bool) -> (r: u64)
    ensures
        r == extended(value, size, signed),
{
    if !signed || size == 8 {
        value
    } else if size == 4 {
        sign_extend_word(value)
    } else if size == 2 {
        (((value as u16) as i16) as i64) as u64
    } else {
        (((value as u8) as i8) as i64) as u64
    }
}


/// Returns the effect of `inst` at `pc`, with the integer registers `x` and
/// the floating-point registers `f`.
pub fn plan(inst: Inst, x: &[u64; 32], f: &[u64; 32], pc: u64) -> (effect: Effect)
    requires
        inst.well_formed(),
    ensures
        effect == effect_of(inst, x@, f@, pc),
        effect.well_formed(),
{
    match inst {
        Inst::Fence | Inst::Ebreak => Effect::Nop,
        Inst::Unknown(raw) => Effect::Report { raw },
        Inst::Ecall => Effect::Call,
        Inst::Lui { rd, imm } => Effect::Write { rd, value: ((imm as i64) as u64) },
        Inst::Auipc { rd, imm } => Effect::Write { rd, value: pc.wrapping_add(((imm as i64) as u64)) },
        Inst::Ld { rd, rs1, offset } => Effect::Load {
            rd,
            addr: x[rs1.0 as usize].wrapping_add(((offset as i64) as u64)),
            size: 8,
            signed: false,
        },
        Inst::Lw { rd, rs1, offset } => Effect::Load {
            rd,
            addr: x[rs1.0 as usize].wrapping_add(((offset as i64) as u64)),
            size: 4,
            signed: true,
        },
        Inst::Lwu { rd, rs1, offset } => Effect::Load {
            rd,
            addr: x[rs1.0 as usize].wrapping_add(((offset as i64) as u64)),
            size: 4,
            signed: false,
        },
        Inst::Lhu { rd, rs1, offset } => Effect::Load {
            rd,
            addr: x[rs1.0 as usize].wrapping_add(((offset as i64) as u64)),
            size: 2,
            signed: false,
        },
        Inst::Lb { rd, rs1, offset } => Effect::Load {
            rd,
            addr: x[rs1.0 as usize].wrapping_add(((offset as i64) as u64)),
            size: 1,
            signed: true,
        },
        Inst::Lbu { rd, rs1, offset } => Effect::Load {
            rd,
            addr: x[rs1.0 as usize].wrapping_add(((offset as i64) as u64)),
            size: 1,
            signed: false,
        },
        Inst::Sd { rs1, rs2, offset } => Effect::Store {
            addr: x[rs1.0 as usize].wrapping_add(((offset as i64) as u64)),
            value: x[rs2.0 as usize],
            size: 8,
        },
        Inst::Sw { rs1, rs2, offset } => Effect::Store {
            addr: x[rs1.0 as usize].wrapping_add(((offset as i64) as u64)),
            value: x[rs2.0 as usize],
            size: 4,
        },
        Inst::Sh { rs1, rs2, offset } => Effect::Store {
            addr: x[rs1.0 as usize].wrapping_add(((offset as i64) as u64)),
            value: x[rs2.0 as usize],
            size: 2,
        },
        Inst::Sb { rs1, rs2, offset } => Effect::Store {
            addr: x[rs1.0 as usize].wrapping_add(((offset as i64) as u64)),
            value: x[rs2.0 as usize],
            size: 1,
        },
        Inst::Add { rd, rs1, rs2 } => Effect::Write {
            rd,
            value: x[rs1.0 as usize].wrapping_add(x[rs2.0 as usize]),
        },
        Inst::Addw { rd, rs1, rs2 } => Effect::Write {
            rd,
            value: sign_extend_word(x[rs1.0 as usize].wrapping_add(x[rs2.0 as usize])),
        },
        Inst::Addi { rd, rs1, imm } => Effect::Write {
            rd,
            value: x[rs1.0 as usize].wrapping_add(((imm as i64) as u64)),
        },
        Inst::Addiw { rd, rs1, imm } => Effect::Write {
            rd,
            value: sign_extend_word(x[rs1.0 as usize].wrapping_add(imm as u64)),
        },
        Inst::Sub { rd, rs1, rs2 } => Effect::Write {
            rd,
            value: x[rs1.0 as usize].wrapping_sub(x[rs2.0 as usize]),
        },
        Inst::Subw { rd, rs1, rs2 } => Effect::Write {
            rd,
            value: sign_extend_word(x[rs1.0 as usize].wrapping_sub(x[rs2.0 as usize])),
        },
        Inst::And { rd, rs1, rs2 } => Effect::Write { rd, value: x[rs1.0 as usize] & x[rs2.0 as usize] },
        Inst::Andi { rd, rs1, imm } => Effect::Write { rd, value: x[rs1.0 as usize] & ((imm as i64) as u64) },
        Inst::Or { rd, rs1, rs2 } => Effect::Write { rd, value: x[rs1.0 as usize] | x[rs2.0 as usize] },
        Inst::Ori { rd, rs1, imm } => Effect::Write { rd, value: x[rs1.0 as usize] | ((imm as i64) as u64) },
        Inst::Xor { rd, rs1, rs2 } => Effect::Write { rd, value: x[rs1.0 as usize] ^ x[rs2.0 as usize] },
        Inst::Xori { rd, rs1, imm } => Effect::Write { rd, value: x[rs1.0 as usize] ^ ((imm as i64) as u64) },
        Inst::Sll { rd, rs1, rs2 } => Effect::Write {
            rd,
            value: x[rs1.0 as usize].wrapping_shl(x[rs2.0 as usize] as u32),
        },
        Inst::Sllw { rd, rs1, rs2 } => Effect::Write {
            rd,
            value: sign_extend_word((x[rs1.0 as usize] as u32).wrapping_shl(x[rs2.0 as usize] as u32) as u64),
        },
        Inst::Slli { rd, rs1, shamt } => Effect::Write {
            rd,
            value: x[rs1.0 as usize].wrapping_shl(shamt),
        },
        Inst::Slliw { rd, rs1, shamt } => Effect::Write {
            rd,
            value: sign_extend_word((x[rs1.0 as usize] as u32).wrapping_shl(shamt) as u64),
        },
        Inst::Srl { rd, rs1, rs2 } => Effect::Write {
            rd,
            value: x[rs1.0 as usize].wrapping_shr(x[rs2.0 as usize] as u32),
        },
        Inst::Srlw { rd, rs1, rs2 } => Effect::Write {
            rd,
            value: sign_extend_word((x[rs1.0 as usize] as u32).wrapping_shr(x[rs2.0 as usize] as u32) as u64),
        },
        Inst::Srli { rd, rs1, shamt } => Effect::Write {
            rd,
            value: x[rs1.0 as usize].wrapping_shr(shamt),
        },
        Inst::Srliw { rd, rs1, shamt } => Effect::Write {
            rd,
            value: sign_extend_word((x[rs1.0 as usize] as u32).wrapping_shr(shamt) as u64),
        },
        Inst::Sra { rd, rs1, rs2 } => Effect::Write {
            rd,
            value: (x[rs1.0 as usize] as i64).wrapping_shr(x[rs2.0 as usize] as u32) as u64,
        },
        Inst::Sraw { rd, rs1, rs2 } => Effect::Write {
            rd,
            value: (((x[rs1.0 as usize] as u32) as i32).wrapping_shr(x[rs2.0 as usize] as u32)
                as i64) as u64,
        },
        Inst::Srai { rd, rs1, shamt } => Effect::Write {
            rd,
            value: (x[rs1.0 as usize] as i64).wrapping_shr(shamt) as u64,
        },
        Inst::Sraiw { rd, rs1, shamt } => Effect::Write {
            rd,
            value: (((x[rs1.0 as usize] as u32) as i32).wrapping_shr(shamt) as i64) as u64,
        },
        Inst::Slt { rd, rs1, rs2 } => Effect::Write {
            rd,
            value: if (x[rs1.0 as usize] as i64) < (x[rs2.0 as usize] as i64) { 1 } else { 0 },
        },
        Inst::Sltu { rd, rs1, rs2 } => Effect::Write {
            rd,
            value: if x[rs1.0 as usize] < x[rs2.0 as usize] { 1 } else { 0 },
        },
        Inst::Slti { rd, rs1, imm } => Effect::Write {
            rd,
            value: if (x[rs1.0 as usize] as i64) < (imm as i64) { 1 } else { 0 },
        },
        Inst::Sltiu { rd, rs1, imm } => Effect::Write {
            rd,
            value: if x[rs1.0 as usize] < (((imm as i32) as i64) as u64) { 1 } else { 0 },
        },
        Inst::Mul { rd, rs1, rs2 } => Effect::Write {
            rd,
            value: x[rs1.0 as usize].wrapping_mul(x[rs2.0 as usize]),
        },
        Inst::Mulhu { rd, rs1, rs2 } => Effect::Write {
            rd,
            value: multiply_high(x[rs1.0 as usize], x[rs2.0 as usize]),
        },
        Inst::Div { rd, rs1, rs2 } => Effect::Write {
            rd,
            value: divide_signed(x[rs1.0 as usize], x[rs2.0 as usize]),
        },
        Inst::Divw { rd, rs1, rs2 } => Effect::Write {
            rd,
            value: sign_extend_word(divide_signed(sign_extend_word(x[rs1.0 as usize]), sign_extend_word(x[rs2.0 as usize]))),
        },
        Inst::Divu { rd, rs1, rs2 } => Effect::Write {
            rd,
            value: divide_unsigned(x[rs1.0 as usize], x[rs2.0 as usize]),
        },
        Inst::Divuw { rd, rs1, rs2 } => Effect::Write {
            rd,
            value: sign_extend_word(divide_unsigned((x[rs1.0 as usize] as u32) as u64, (x[rs2.0 as usize] as u32) as u64)),
        },
        Inst::Remw { rd, rs1, rs2 } => Effect::Write {
            rd,
            value: sign_extend_word(remainder_signed(sign_extend_word(x[rs1.0 as usize]), sign_extend_word(x[rs2.0 as usize]))),
        },
        Inst::Remu { rd, rs1, rs2 } => Effect::Write {
            rd,
            value: remainder_unsigned(x[rs1.0 as usize], x[rs2.0 as usize]),
        },
        Inst::Remuw { rd, rs1, rs2 } => Effect::Write {
            rd,
            value: sign_extend_word(remainder_unsigned((x[rs1.0 as usize] as u32) as u64, (x[rs2.0 as usize] as u32) as u64)),
        },
        Inst::Jal { rd, offset } => Effect::Jump { rd, target: pc.wrapping_add(((offset as i64) as u64)) },
        Inst::Jalr { rd, rs1, offset } => Effect::Jump {
            rd,
            target: x[rs1.0 as usize].wrapping_add(((offset as i64) as u64)) & 0xFFFF_FFFF_FFFF_FFFE,
        },
        Inst::Beq { rs1, rs2, offset } => Effect::Branch {
            taken: x[rs1.0 as usize] == x[rs2.0 as usize],
            target: pc.wrapping_add(((offset as i64) as u64)),
        },
        Inst::Bne { rs1, rs2, offset } => Effect::Branch {
            taken: x[rs1.0 as usize] != x[rs2.0 as usize],
            target: pc.wrapping_add(((offset as i64) as u64)),
        },
        Inst::Blt { rs1, rs2, offset } => Effect::Branch {
            taken: (x[rs1.0 as usize] as i64) < (x[rs2.0 as usize] as i64),
            target: pc.wrapping_add(((offset as i64) as u64)),
        },
        Inst::Bltu { rs1, rs2, offset } => Effect::Branch {
            taken: x[rs1.0 as usize] < x[rs2.0 as usize],
            target: pc.wrapping_add(((offset as i64) as u64)),
        },
        Inst::Bge { rs1, rs2, offset } => Effect::Branch {
            taken: (x[rs1.0 as usize] as i64) >= (x[rs2.0 as usize] as i64),
            target: pc.wrapping_add(((offset as i64) as u64)),
        },
        Inst::Bgeu { rs1, rs2, offset } => Effect::Branch {
            taken: x[rs1.0 as usize] >= x[rs2.0 as usize],
            target: pc.wrapping_add(((offset as i64) as u64)),
        },
        Inst::Amoswapw { rd, rs1, rs2 } => Effect::Atomic {
            rd,
            addr: x[rs1.0 as usize],
            size: 4,
            op: AmoOp::Swap,
            operand: x[rs2.0 as usize],
        },
        Inst::Amoswapd { rd, rs1, rs2 } => Effect::Atomic {
            rd,
            addr: x[rs1.0 as usize],
            size: 8,
            op: AmoOp::Swap,
            operand: x[rs2.0 as usize],
        },
        Inst::Amoaddw { rd, rs1, rs2 } => Effect::Atomic {
            rd,
            addr: x[rs1.0 as usize],
            size: 4,
            op: AmoOp::Add,
            operand: x[rs2.0 as usize],
        },
        Inst::Amoaddd { rd, rs1, rs2 } => Effect::Atomic {
            rd,
            addr: x[rs1.0 as usize],
            size: 8,
            op: AmoOp::Add,
            operand: x[rs2.0 as usize],
        },
        Inst::Amoorw { rd, rs1, rs2 } => Effect::Atomic {
            rd,
            addr: x[rs1.0 as usize],
            size: 4,
            op: AmoOp::Or,
            operand: x[rs2.0 as usize],
        },
        Inst::Amomaxuw { rd, rs1, rs2 } => Effect::Atomic {
            rd,
            addr: x[rs1.0 as usize],
            size: 4,
            op: AmoOp::MaxUnsigned,
            operand: x[rs2.0 as usize],
        },
        Inst::Amomaxud { rd, rs1, rs2 } => Effect::Atomic {
            rd,
            addr: x[rs1.0 as usize],
            size: 8,
            op: AmoOp::MaxUnsigned,
            operand: x[rs2.0 as usize],
        },
        Inst::Lrw { rd, rs1 } => Effect::Load { rd, addr: x[rs1.0 as usize], size: 4, signed: true },
        Inst::Lrd { rd, rs1 } => Effect::Load { rd, addr: x[rs1.0 as usize], size: 8, signed: false },
        Inst::Scw { rd, rs1, rs2 } => Effect::StoreConditional {
            rd,
            addr: x[rs1.0 as usize],
            value: x[rs2.0 as usize],
            size: 4,
        },
        Inst::Scd { rd, rs1, rs2 } => Effect::StoreConditional {
            rd,
            addr: x[rs1.0 as usize],
            value: x[rs2.0 as usize],
            size: 8,
        },
        Inst::Fsd { rs1, rs2, offset } => Effect::Store {
            addr: x[rs1.0 as usize].wrapping_add(((offset as i64) as u64)),
            value: f[rs2.0 as usize],
            size: 8,
        },
        Inst::Fsw { rs1, rs2, offset } => Effect::StoreSingle {
            addr: x[rs1.0 as usize].wrapping_add(((offset as i64) as u64)),
            value: f[rs2.0 as usize],
        },
        Inst::Fld { rd, rs1, offset } => Effect::LoadDouble {
            rd,
            addr: x[rs1.0 as usize].wrapping_add(((offset as i64) as u64)),
        },
        Inst::Flw { rd, rs1, offset } => Effect::LoadSingle {
            rd,
            addr: x[rs1.0 as usize].wrapping_add(((offset as i64) as u64)),
        },
        Inst::Fcvtdlu { rd, rs1, .. } | Inst::Fcvtds { rd, rs1, .. } => Effect::FloatToInt {
            rd,
            op: FloatOp::DoubleToUnsigned(f[rs1.0 as usize]),
        },
        Inst::Fled { rd, rs1, rs2 } => Effect::FloatToInt {
            rd,
            op: FloatOp::LessOrEqual(f[rs1.0 as usize], f[rs2.0 as usize]),
        },
        Inst::Fdivd { rd, rs1, rs2 } => Effect::FloatToFloat {
            rd,
            op: FloatOp::Divide(f[rs1.0 as usize], f[rs2.0 as usize]),
        },
    }
}

} // verus!
