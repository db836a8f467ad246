use vstd::prelude::*;

verus! {

/// The number of integer registers, and of floating-point registers.
pub const REGISTER_COUNT: u8 = 32;

/// The index of an integer register, `x0` to `x31`.
#[derive(Clone, Copy, Debug, PartialEq, Eq, Structural)]
pub struct Reg(pub u8);

/// The index of a floating-point register, `f0` to `f31`.
#[derive(Clone, Copy, Debug, PartialEq, Eq, Structural)]
pub struct FReg(pub u8);

/// The indices of the registers that the ABI names, for use as `Reg(SP)`.
pub const ZERO: u8 = 0;
pub const RA: u8 = 1;
pub const SP: u8 = 2;
pub const S0: u8 = 8;
pub const S1: u8 = 9;
pub const A0: u8 = 10;
pub const A1: u8 = 11;
pub const A2: u8 = 12;
pub const A3: u8 = 13;
pub const A4: u8 = 14;
pub const A5: u8 = 15;
pub const A6: u8 = 16;
pub const A7: u8 = 17;
pub const S2: u8 = 18;
pub const S3: u8 = 19;
pub const S4: u8 = 20;
pub const S5: u8 = 21;
pub const S6: u8 = 22;
pub const S7: u8 = 23;
pub const S8: u8 = 24;
pub const S9: u8 = 25;
pub const S10: u8 = 26;
pub const S11: u8 = 27;

/// The ABI name of integer register `index`.
pub open spec fn x_name(index: u8) -> Seq<char> {
    if index == 0 { "x0"@ }
    else if index == 1 { "ra"@ }
    else if index == 2 { "sp"@ }
    else if index == 3 { "gp"@ }
    else if index == 4 { "tp"@ }
    else if index == 5 { "t0"@ }
    else if index == 6 { "t1"@ }
    else if index == 7 { "t2"@ }
    else if index == 8 { "s0"@ }
    else if index == 9 { "s1"@ }
    else if index == 10 { "a0"@ }
    else if index == 11 { "a1"@ }
    else if index == 12 { "a2"@ }
    else if index == 13 { "a3"@ }
    else if index == 14 { "a4"@ }
    else if index == 15 { "a5"@ }
    else if index == 16 { "a6"@ }
    else if index == 17 { "a7"@ }
    else if index == 18 { "s2"@ }
    else if index == 19 { "s3"@ }
    else if index == 20 { "s4"@ }
    else if index == 21 { "s5"@ }
    else if index == 22 { "s6"@ }
    else if index == 23 { "s7"@ }
    else if index == 24 { "s8"@ }
    else if index == 25 { "s9"@ }
    else if index == 26 { "s10"@ }
    else if index == 27 { "s11"@ }
    else if index == 28 { "t3"@ }
    else if index == 29 { "t4"@ }
    else if index == 30 { "t5"@ }
    else { "t6"@ }
}

/// The ABI name of floating-point register `index`.
pub open spec fn f_name(index: u8) -> Seq<char> {
    if index == 0 { "ft0"@ }
    else if index == 1 { "ft1"@ }
    else if index == 2 { "ft2"@ }
    else if index == 3 { "ft3"@ }
    else if index == 4 { "ft4"@ }
    else if index == 5 { "ft5"@ }
    else if index == 6 { "ft6"@ }
    else if index == 7 { "ft7"@ }
    else if index == 8 { "fs0"@ }
    else if index == 9 { "fs1"@ }
    else if index == 10 { "fa0"@ }
    else if index == 11 { "fa1"@ }
    else if index == 12 { "fa2"@ }
    else if index == 13 { "fa3"@ }
    else if index == 14 { "fa4"@ }
    else if index == 15 { "fa5"@ }
    else if index == 16 { "fa6"@ }
    else if index == 17 { "fa7"@ }
    else if index == 18 { "fs2"@ }
    else if index == 19 { "fs3"@ }
    else if index == 20 { "fs4"@ }
    else if index == 21 { "fs5"@ }
    else if index == 22 { "fs6"@ }
    else if index == 23 { "fs7"@ }
    else if index == 24 { "fs8"@ }
    else if index == 25 { "fs9"@ }
    else if index == 26 { "fs10"@ }
    else if index == 27 { "fs11"@ }
    else if index == 28 { "ft8"@ }
    else if index == 29 { "ft9"@ }
    else if index == 30 { "ft10"@ }
    else { "ft11"@ }
}

impl Reg {
    /// Whether the index names one of the 32 registers.
    pub open spec fn valid(self) -> bool {
        self.0 < REGISTER_COUNT
    }

    /// Returns the ABI name of the register.
    pub fn name(self) -> (text: &'static str)
        requires
            self.valid(),
        ensures
            text@ == x_name(self.0),
    {
        match self.0 {
            0 => "x0",
            1 => "ra",
            2 => "sp",
            3 => "gp",
            4 => "tp",
            5 => "t0",
            6 => "t1",
            7 => "t2",
            8 => "s0",
            9 => "s1",
            10 => "a0",
            11 => "a1",
            12 => "a2",
            13 => "a3",
            14 => "a4",
            15 => "a5",
            16 => "a6",
            17 => "a7",
            18 => "s2",
            19 => "s3",
            20 => "s4",
            21 => "s5",
            22 => "s6",
            23 => "s7",
            24 => "s8",
            25 => "s9",
            26 => "s10",
            27 => "s11",
            28 => "t3",
            29 => "t4",
            30 => "t5",
            _ => "t6",
        }
    }
}

impl FReg {
    /// Whether the index names one of the 32 registers.
    pub open spec fn valid(self) -> bool {
        self.0 < REGISTER_COUNT
    }

    /// Returns the ABI name of the register.
    pub fn name(self) -> (text: &'static str)
        requires
            self.valid(),
        ensures
            text@ == f_name(self.0),
    {
        match self.0 {
            0 => "ft0",
            1 => "ft1",
            2 => "ft2",
            3 => "ft3",
            4 => "ft4",
            5 => "ft5",
            6 => "ft6",
            7 => "ft7",
            8 => "fs0",
            9 => "fs1",
            10 => "fa0",
            11 => "fa1",
            12 => "fa2",
            13 => "fa3",
            14 => "fa4",
            15 => "fa5",
            16 => "fa6",
            17 => "fa7",
            18 => "fs2",
            19 => "fs3",
            20 => "fs4",
            21 => "fs5",
            22 => "fs6",
            23 => "fs7",
            24 => "fs8",
            25 => "fs9",
            26 => "fs10",
            27 => "fs11",
            28 => "ft8",
            29 => "ft9",
            30 => "ft10",
            _ => "ft11",
        }
    }
}

} // verus!
