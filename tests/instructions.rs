use riscv_encoder::{
    convert_bit_array_to_byte_array, Instruction, InstructionLiterals, InvalidRegister, Register,
};

/// The `N` lowest bits of `v`, most significant first.
fn bits<const N: usize>(v: i64) -> [bool; N] {
    let mut out = [false; N];
    for k in 0..N {
        out[N - 1 - k] = (v >> k) & 1 == 1;
    }
    out
}

fn reg(i: i64) -> Register {
    Register::from_index(i).unwrap()
}

fn word_of(ins: &Instruction) -> u32 {
    u32::from_be_bytes(convert_bit_array_to_byte_array(ins.to_word()))
}

fn sign_extend(v: u32, width: u32) -> i64 {
    let shift = 64 - width;
    ((v as i64) << shift) >> shift
}

#[test]
fn generate_register_x10() {
    let x10 = Register::new("x10").unwrap();
    assert_eq!(x10.0, [false, true, false, true, false])
}

#[test]
fn generate_register_x11() {
    let x10 = Register::new("x11").unwrap();
    assert_eq!(x10.0, [false, true, false, true, true])
}

#[test]
fn test_convert_bit_array_to_byte_array() {
    let input = [false; 32];
    assert_eq!(convert_bit_array_to_byte_array(input), [0x0; 4]);

    let input = [true; 32];
    assert_eq!(convert_bit_array_to_byte_array(input), [0xff; 4]);
    let input = [true, false, true, false, false, true, true, false,
                 false, true, true, false, true, false, true, true,
                 false, false, false, true, false, false, false, true,
                 true, true, true, false, true, true, true, true];
    let output = [0xa6, 0x6b, 0x11, 0xef];
    assert_eq!(convert_bit_array_to_byte_array(input), output);
}

#[test]
fn r_format_word() {
    let r_type = |rd: &str, rs1: &str, rs2: &str| Instruction::R {
        opcode: [false, true, true, false, false, true, true],
        rd: Register::new(rd).unwrap(),
        rs1: Register::new(rs1).unwrap(),
        rs2: Register::new(rs2).unwrap(),
        funct3: [false, false, false],
        funct7: [false, false, false, false, false, false, false],
    };
    // add x10, x11, x12
    let word = convert_bit_array_to_byte_array(r_type("x10", "x11", "x12").to_word());
    assert_eq!(word, [0x00, 0xc5, 0x85, 0x33]);
    // add x10, x11, x20
    let word = convert_bit_array_to_byte_array(r_type("x10", "x11", "x20").to_word());
    assert_eq!(word, [0x01, 0x45, 0x85, 0x33]);
    // sub x31, x1, x2
    let sub = Instruction::R {
        opcode: bits(0b0110011),
        rd: reg(31),
        funct3: bits(0),
        rs1: reg(1),
        rs2: reg(2),
        funct7: bits(0b0100000),
    };
    assert_eq!(word_of(&sub), 0x40208fb3);
}

#[test]
fn register_index_round_trip() {
    for i in 0..32i64 {
        let r = Register::from_index(i).unwrap();
        let mut v = 0i64;
        for b in r.0 {
            v = 2 * v + b as i64;
        }
        assert_eq!(v, i);
    }
}

#[test]
fn register_index_boundaries() {
    assert_eq!(Register::from_index(31).unwrap().0, [true; 5]);
    assert_eq!(Register::from_index(0).unwrap().0, [false; 5]);
    assert_eq!(Register::from_index(32), Err(InvalidRegister));
    assert_eq!(Register::from_index(-1), Err(InvalidRegister));
    assert_eq!(Register::from_index(i64::MAX), Err(InvalidRegister));
}

#[test]
fn register_names() {
    assert_eq!(Register::new("x31").unwrap().0, [true; 5]);
    assert_eq!(Register::new("x0").unwrap().0, [false; 5]);
    assert_eq!(Register::new("x007").unwrap().0, [false, false, true, true, true]);
    for bad in ["x32", "x-1", "x", "", "y1", "x1a", "1", "x+5", "x99999999999999999999"] {
        assert_eq!(Register::new(bad), Err(InvalidRegister), "{}", bad);
    }
}

#[test]
fn i_format_word() {
    // addi x1, x2, -1
    let ins = Instruction::I {
        opcode: bits(0b0010011),
        rd: reg(1),
        funct3: bits(0),
        rs1: reg(2),
        imm: bits(-1),
    };
    assert_eq!(word_of(&ins), 0xfff10093);
}

#[test]
fn s_format_word() {
    // sw x5, 8(x2)
    let ins = Instruction::S {
        opcode: bits(0b0100011),
        funct3: bits(0b010),
        rs1: reg(2),
        rs2: reg(5),
        imm: bits(8),
    };
    assert_eq!(word_of(&ins), 0x00512423);
    // sb x31, -3(x7)
    let ins = Instruction::S {
        opcode: bits(0b0100011),
        funct3: bits(0),
        rs1: reg(7),
        rs2: reg(31),
        imm: bits(-3),
    };
    assert_eq!(convert_bit_array_to_byte_array(ins.to_word()), [0xff, 0xf3, 0x8e, 0xa3]);
}

#[test]
fn sb_format_word() {
    let branch = |imm: i64, rs1: i64, rs2: i64, funct3: i64| Instruction::SB {
        opcode: bits(0b1100011),
        funct3: bits(funct3),
        rs1: reg(rs1),
        rs2: reg(rs2),
        imm: bits(imm),
    };
    assert_eq!(word_of(&branch(16, 1, 2, 0)), 0x00208863);
    assert_eq!(word_of(&branch(-4, 0, 0, 0)), 0xfe000ee3);
    assert_eq!(word_of(&branch(-2730, 8, 9, 1)), 0xd4941b63);
}

#[test]
fn u_format_word() {
    // lui x5, 0x12345
    let ins = Instruction::U { opcode: bits(0b0110111), rd: reg(5), imm: bits(0x12345) };
    assert_eq!(word_of(&ins), 0x123452b7);
}

#[test]
fn uj_format_word() {
    let jump = |imm: i64, rd: i64| Instruction::UJ {
        opcode: bits(0b1101111),
        rd: reg(rd),
        imm: bits(imm),
    };
    assert_eq!(word_of(&jump(2048, 1)), 0x001000ef);
    assert_eq!(word_of(&jump(-8, 0)), 0xff9ff06f);
    assert_eq!(word_of(&jump(0x12344, 1)), 0x344120ef);
}

#[test]
fn s_immediate_round_trip() {
    for imm in -2048..2048i64 {
        let ins = Instruction::S {
            opcode: bits(0b0100011),
            funct3: bits(0b010),
            rs1: reg(3),
            rs2: reg(4),
            imm: bits(imm),
        };
        let w = word_of(&ins);
        let back = ((w >> 25) << 5) | ((w >> 7) & 0x1f);
        assert_eq!(sign_extend(back, 12), imm);
    }
}

#[test]
fn sb_immediate_round_trip() {
    for imm in (-4096..4096i64).step_by(2) {
        let ins = Instruction::SB {
            opcode: bits(0b1100011),
            funct3: bits(0b001),
            rs1: reg(5),
            rs2: reg(6),
            imm: bits(imm),
        };
        let w = word_of(&ins);
        let back = ((w >> 31) << 12)
            | (((w >> 7) & 1) << 11)
            | (((w >> 25) & 0x3f) << 5)
            | (((w >> 8) & 0xf) << 1);
        assert_eq!(sign_extend(back, 13), imm);
    }
}

#[test]
fn uj_immediate_round_trip() {
    for imm in (-(1i64 << 20)..(1i64 << 20)).step_by(2 * 97) {
        let ins = Instruction::UJ { opcode: bits(0b1101111), rd: reg(1), imm: bits(imm) };
        let w = word_of(&ins);
        let back = ((w >> 31) << 20)
            | (((w >> 12) & 0xff) << 12)
            | (((w >> 20) & 1) << 11)
            | (((w >> 21) & 0x3ff) << 1);
        assert_eq!(sign_extend(back, 21), imm);
    }
    let top = (1i64 << 20) - 2;
    for imm in [top, -(1i64 << 20), 2, -2, 0] {
        let ins = Instruction::UJ { opcode: bits(0b1101111), rd: reg(1), imm: bits(imm) };
        let w = word_of(&ins);
        let back = ((w >> 31) << 20)
            | (((w >> 12) & 0xff) << 12)
            | (((w >> 20) & 1) << 11)
            | (((w >> 21) & 0x3ff) << 1);
        assert_eq!(sign_extend(back, 21), imm);
    }
}

#[test]
fn encoding_is_deterministic() {
    let ins = Instruction::SB {
        opcode: bits(0b1100011),
        funct3: bits(0b101),
        rs1: reg(10),
        rs2: reg(11),
        imm: bits(-100),
    };
    let copy = ins;
    assert_eq!(ins.to_word(), ins.to_word());
    assert_eq!(ins.to_word(), copy.to_word());
}

#[test]
fn instruction_literals_are_blank() {
    let lit = InstructionLiterals::new("add");
    assert_eq!(lit.opcode, [false; 7]);
    assert_eq!(lit.funct3, None);
    assert_eq!(lit.funct7, None);
}
