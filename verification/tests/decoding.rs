use remu::instruction::Inst;
use remu::register::{FReg, Reg, A0, A1, A2, A3, A5, A6, RA, S1, S2, SP};

#[test]
fn cload_decoding() {
    let (inst, _) = Inst::decode(0x0000639c);
    assert_eq!(
        inst,
        Inst::Ld {
            rd: Reg(A5),
            rs1: Reg(A5),
            offset: 0
        }
    );

    // C.LWSP
    let (inst, _) = Inst::decode(0x000046ca);
    assert_eq!(
        inst,
        Inst::Lw {
            rd: Reg(A3),
            rs1: Reg(SP),
            offset: 144
        }
    );
}

#[test]
fn compressed_branch_decoding() {
    let (inst, _) = Inst::decode(0x0000dc85);
    assert_eq!(
        inst,
        Inst::Beq {
            rs1: Reg(S1),
            rs2: Reg(0),
            offset: -200,
        }
    );

    let (inst, _) = Inst::decode(0x0000fc85);
    assert_eq!(
        inst,
        Inst::Bne {
            rs1: Reg(S1),
            rs2: Reg(0),
            offset: -200,
        }
    );
}

#[test]
fn xori_decoding() {
    let (inst, _) = Inst::decode(0xfff64613);
    assert_eq!(
        inst,
        Inst::Xori {
            rd: Reg(A2),
            rs1: Reg(A2),
            imm: -1
        },
    );
}

#[test]
fn srliw_srli_decoding() {
    let (inst, _) = Inst::decode(0x0087d49b);
    assert_eq!(
        inst,
        Inst::Srliw {
            rd: Reg(S1),
            rs1: Reg(A5),
            shamt: 8,
        }
    );

    let (inst, _) = Inst::decode(0x0307d813);
    assert_eq!(
        inst,
        Inst::Srli {
            rd: Reg(A6),
            rs1: Reg(A5),
            shamt: 48
        }
    );

    let (inst, _) = Inst::decode(0x02091793);
    assert_eq!(
        inst,
        Inst::Slli {
            rd: Reg(A5),
            rs1: Reg(S2),
            shamt: 32
        }
    );
}

#[test]
fn add_sub_decoding() {
    let (inst, _) = Inst::decode(0x00c58533);
    assert_eq!(
        inst,
        Inst::Add {
            rd: Reg(A0),
            rs1: Reg(A1),
            rs2: Reg(A2)
        }
    );

    let (inst, _) = Inst::decode(0x40c58533);
    assert_eq!(
        inst,
        Inst::Sub {
            rd: Reg(A0),
            rs1: Reg(A1),
            rs2: Reg(A2)
        }
    );

    let (inst, _) = Inst::decode(0x02c5d533);
    assert_eq!(
        inst,
        Inst::Divu {
            rd: Reg(A0),
            rs1: Reg(A1),
            rs2: Reg(A2)
        }
    );

    let (inst, _) = Inst::decode(0x02c58533);
    assert_eq!(
        inst,
        Inst::Mul {
            rd: Reg(A0),
            rs1: Reg(A1),
            rs2: Reg(A2)
        }
    );

    let (inst, _) = Inst::decode(0x02c5f533);
    assert_eq!(
        inst,
        Inst::Remu {
            rd: Reg(A0),
            rs1: Reg(A1),
            rs2: Reg(A2)
        }
    );
}

#[test]
fn decoded_length_follows_low_bits() {
    assert_eq!(Inst::decode(0x003e8537).1, 4);
    assert_eq!(Inst::decode(0x000065a9).1, 2);
    // only the low half of the word is read for a compressed instruction
    assert_eq!(Inst::decode(0xffff_65a9).0, Inst::decode(0x0000_65a9).0);
}

#[test]
fn lui_and_compressed_lui() {
    assert_eq!(
        Inst::decode(0x003e8537).0,
        Inst::Lui {
            rd: Reg(A0),
            imm: 4_096_000
        }
    );
    assert_eq!(
        Inst::decode(0x000065a9).0,
        Inst::Lui {
            rd: Reg(A1),
            imm: 40_960
        }
    );
    // c.lui a1, -1: the immediate is negative
    assert_eq!(
        Inst::decode(0x000075fd).0,
        Inst::Lui {
            rd: Reg(A1),
            imm: -4096
        }
    );
}

#[test]
fn jalr_offset_is_sign_extended_immediate() {
    // jalr ra, 16(a0)
    assert_eq!(
        Inst::decode(0x010500e7).0,
        Inst::Jalr {
            rd: Reg(RA),
            rs1: Reg(A0),
            offset: 16
        }
    );
    // jalr x0, -4(ra)
    assert_eq!(
        Inst::decode(0xffc08067).0,
        Inst::Jalr {
            rd: Reg(0),
            rs1: Reg(RA),
            offset: -4
        }
    );
}

#[test]
fn jal_and_branch_offsets() {
    // jal ra, -8
    assert_eq!(
        Inst::decode(0xff9ff0ef).0,
        Inst::Jal {
            rd: Reg(RA),
            offset: -8
        }
    );
    // beq a0, a1, 16
    assert_eq!(
        Inst::decode(0x00b50863).0,
        Inst::Beq {
            rs1: Reg(A0),
            rs2: Reg(A1),
            offset: 16
        }
    );
    // bne a0, a1, -4
    assert_eq!(
        Inst::decode(0xfeb51ee3).0,
        Inst::Bne {
            rs1: Reg(A0),
            rs2: Reg(A1),
            offset: -4
        }
    );
    // c.j -2
    assert_eq!(
        Inst::decode(0x0000bffd).0,
        Inst::Jal {
            rd: Reg(0),
            offset: -2
        }
    );
}

#[test]
fn store_offsets() {
    // sd a0, -16(sp)
    assert_eq!(
        Inst::decode(0xfea13823).0,
        Inst::Sd {
            rs1: Reg(SP),
            rs2: Reg(A0),
            offset: -16
        }
    );
    // c.sdsp a0, 0
    assert_eq!(
        Inst::decode(0x0000e02a).0,
        Inst::Sd {
            rs1: Reg(SP),
            rs2: Reg(A0),
            offset: 0
        }
    );
    // fsd fa0, 8(sp)
    assert_eq!(
        Inst::decode(0x00a13427).0,
        Inst::Fsd {
            rs1: Reg(SP),
            rs2: FReg(10),
            offset: 8
        }
    );
}

#[test]
fn stack_pointer_adjustments() {
    // c.addi16sp 32
    assert_eq!(
        Inst::decode(0x00006105).0,
        Inst::Addi {
            rd: Reg(SP),
            rs1: Reg(SP),
            imm: 32
        }
    );
    // c.addi16sp -64
    assert_eq!(
        Inst::decode(0x00007139).0,
        Inst::Addi {
            rd: Reg(SP),
            rs1: Reg(SP),
            imm: -64
        }
    );
    // c.addi4spn a0, sp, 8
    assert_eq!(
        Inst::decode(0x00000028).0,
        Inst::Addi {
            rd: Reg(A0),
            rs1: Reg(SP),
            imm: 8
        }
    );
}

#[test]
fn system_words() {
    assert_eq!(Inst::decode(0x00000073).0, Inst::Ecall);
    assert_eq!(Inst::decode(0x00100073).0, Inst::Ebreak);
    // csrrs a0, fcsr, x0 is no environment call
    assert_eq!(Inst::decode(0x00302573).0, Inst::Unknown(0x00302573));
    assert_eq!(Inst::decode(0x0ff0000f).0, Inst::Fence);
}

#[test]
fn unknown_encodings_carry_the_raw_word() {
    assert_eq!(Inst::decode(0xffffffff).0, Inst::Unknown(0xffffffff));
    // c.srli with a shift amount of zero
    assert_eq!(Inst::decode(0x00008001).0, Inst::Unknown(0x8001));
    // c.lwsp with rd = x0
    assert_eq!(Inst::decode(0x00004002).0, Inst::Unknown(0x4002));
    // slli with a bit above the shift amount
    assert_eq!(Inst::decode(0x40051513).0, Inst::Unknown(0x40051513));
}

#[test]
fn compressed_register_moves() {
    // c.mv a0, a1
    assert_eq!(
        Inst::decode(0x0000852e).0,
        Inst::Add {
            rd: Reg(A0),
            rs1: Reg(0),
            rs2: Reg(A1)
        }
    );
    // c.add a0, a1
    assert_eq!(
        Inst::decode(0x0000952e).0,
        Inst::Add {
            rd: Reg(A0),
            rs1: Reg(A0),
            rs2: Reg(A1)
        }
    );
    // c.jr ra
    assert_eq!(
        Inst::decode(0x00008082).0,
        Inst::Jalr {
            rd: Reg(0),
            rs1: Reg(RA),
            offset: 0
        }
    );
    // c.jalr a0
    assert_eq!(
        Inst::decode(0x00009502).0,
        Inst::Jalr {
            rd: Reg(RA),
            rs1: Reg(A0),
            offset: 0
        }
    );
    // c.ebreak
    assert_eq!(Inst::decode(0x00009002).0, Inst::Ebreak);
}

#[test]
fn formatting() {
    assert_eq!(Inst::decode(0x00c58533).0.fmt(0), "add   a0, a1, a2");
    assert_eq!(Inst::decode(0x003e8537).0.fmt(0), "lui   a0, 3e8");
    assert_eq!(Inst::decode(0xfea13823).0.fmt(0), "sd    a0, -16(sp)");
    assert_eq!(Inst::decode(0x0000639c).0.fmt(0), "ld    a5, 0(a5)");
    assert_eq!(Inst::decode(0xff9ff0ef).0.fmt(0x1000), "jal   ra, ff8");
    assert_eq!(Inst::decode(0x00b50863).0.fmt(0x100), "beq   a0, a1, 110");
    assert_eq!(Inst::decode(0x0307d813).0.fmt(0), "srli  a6, a5, 48");
    assert_eq!(Inst::decode(0xfff64613).0.fmt(0), "xori  a2, a2, -1");
    assert_eq!(Inst::decode(0x00000073).0.fmt(0), "ecall");
    assert_eq!(Inst::decode(0xffffffff).0.fmt(0), "error: ffffffff");
    assert_eq!(Inst::Unknown(0x8001).fmt(0), "error: 00008001");
    assert_eq!(
        Inst::Amoswapw {
            rd: Reg(A0),
            rs1: Reg(A1),
            rs2: Reg(A2)
        }
        .fmt(0),
        "amoswap.w a0, a1, a2"
    );
    assert_eq!(
        Inst::Fcvtdlu {
            rd: Reg(A0),
            rs1: FReg(10),
            rm: 1
        }
        .fmt(0),
        "fcvt.d.lu a0, fa0 rm=001"
    );
}

#[test]
fn register_names() {
    assert_eq!(Reg(0).name(), "x0");
    assert_eq!(Reg(SP).name(), "sp");
    assert_eq!(Reg(A0).name(), "a0");
    assert_eq!(Reg(31).name(), "t6");
    assert_eq!(FReg(0).name(), "ft0");
    assert_eq!(FReg(10).name(), "fa0");
    assert_eq!(FReg(31).name(), "ft11");
}

#[test]
fn encoding_inverts_decoding() {
    let words = [
        0x003e8537u32, 0x00c58533, 0x40c58533, 0x02c5d533, 0x02c58533, 0x02c5f533, 0xfff64613,
        0x0087d49b, 0x0307d813, 0x02091793, 0x010500e7, 0xffc08067, 0xff9ff0ef, 0x00b50863,
        0xfeb51ee3, 0xfea13823, 0x00a13427, 0x00003503, 0x00802583, 0x00805583, 0x00804583,
        0x00a03023, 0x00a02023, 0x00000073, 0x00100073, 0x05d00893,
    ];
    for word in words {
        let (inst, length) = Inst::decode(word);
        assert_eq!(length, 4);
        assert_eq!(inst.encode(), Some(word), "{}", inst.fmt(0));
        assert_eq!(Inst::decode_normal(word), inst);
    }
    // a compressed instruction encodes as the word that it abbreviates
    let (inst, _) = Inst::decode(0x000065a9);
    assert_eq!(Inst::decode_compressed(0x65a9), inst);
    assert_eq!(inst.encode(), Some(0x0000a5b7));
    assert_eq!(Inst::decode(0x0000a5b7).0, inst);
    // what holds more than the record keeps has no encoding
    assert_eq!(Inst::Fence.encode(), None);
    assert_eq!(Inst::Unknown(7).encode(), None);
    assert_eq!(
        Inst::Amoswapw {
            rd: Reg(A0),
            rs1: Reg(A1),
            rs2: Reg(A2)
        }
        .encode(),
        None
    );
}
