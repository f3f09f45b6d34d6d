//! Instructions of the six base formats and their 32-bit words.
use crate::bits::bit_range;
use crate::register::Register;
use vstd::prelude::*;

verus! {

/// The fixed fields that select an instruction: its opcode and, where the
/// format has them, its function-select fields.
#[derive(Debug, Clone, Copy, PartialEq, Eq)]
pub struct InstructionLiterals {
    pub opcode: [bool; 7],
    pub funct3: Option<[bool; 3]>,
    pub funct7: Option<[bool; 7]>,
}

impl InstructionLiterals {
    /// A blank set of literals: every opcode bit clear and no function-select
    /// fields. Looking up a mnemonic is left to the assembler front end.
    pub fn new(_name: &str) -> (r: Self)
        ensures
            r.opcode@ == seq![false; 7],
            r.funct3 is None,
            r.funct7 is None,
    {
        let opcode = [false; 7];
        let r = InstructionLiterals { opcode, funct3: None, funct7: None };
        assert(r.opcode@ =~= seq![false; 7]);
        r
    }
}

/// An instruction in one of the six base formats. Every field is a bit
/// vector, most significant bit first, already cut to its width.
#[derive(Debug, Clone, Copy, PartialEq, Eq)]
#[allow(inconsistent_fields)]
pub enum Instruction {
    /// Register-register operation.
    R {
        opcode: [bool; 7],
        rd: Register,
        funct3: [bool; 3],
        rs1: Register,
        rs2: Register,
        funct7: [bool; 7],
    },
    /// Operation with a 12-bit signed immediate `imm[11:0]`.
    I { opcode: [bool; 7], rd: Register, funct3: [bool; 3], rs1: Register, imm: [bool; 12] },
    /// Store, with a 12-bit signed immediate `imm[11:0]`.
    S { opcode: [bool; 7], funct3: [bool; 3], rs1: Register, rs2: Register, imm: [bool; 12] },
    /// Conditional branch, with a 13-bit signed offset `imm[12:0]` whose bit 0
    /// is left out of the word.
    SB { opcode: [bool; 7], funct3: [bool; 3], rs1: Register, rs2: Register, imm: [bool; 13] },
    /// Upper immediate: the 20 bits `imm[31:12]`.
    U { opcode: [bool; 7], rd: Register, imm: [bool; 20] },
    /// Jump, with a 21-bit signed offset `imm[20:0]` whose bit 0 is left out
    /// of the word.
    UJ { opcode: [bool; 7], rd: Register, imm: [bool; 21] },
}

/// The 32-bit word of an instruction, bit 31 first: its fields concatenated
/// in the order of the base encoding, with the immediate of S, SB and UJ
/// split as that encoding places it.
pub open spec fn word_of(ins: Instruction) -> Seq<bool> {
    match ins {
        Instruction::R { opcode, rd, funct3, rs1, rs2, funct7 } => funct7@ + rs2.0@ + rs1.0@
            + funct3@ + rd.0@ + opcode@,
        Instruction::I { opcode, rd, funct3, rs1, imm } => imm@ + rs1.0@ + funct3@ + rd.0@
            + opcode@,
        Instruction::S { opcode, funct3, rs1, rs2, imm } => bit_range(imm@, 11, 5) + rs2.0@
            + rs1.0@ + funct3@ + bit_range(imm@, 4, 0) + opcode@,
        Instruction::SB { opcode, funct3, rs1, rs2, imm } => bit_range(imm@, 12, 12) + bit_range(
            imm@,
            10,
            5,
        ) + rs2.0@ + rs1.0@ + funct3@ + bit_range(imm@, 4, 1) + bit_range(imm@, 11, 11)
            + opcode@,
        Instruction::U { opcode, rd, imm } => imm@ + rd.0@ + opcode@,
        Instruction::UJ { opcode, rd, imm } => bit_range(imm@, 20, 20) + bit_range(imm@, 10, 1)
            + bit_range(imm@, 11, 11) + bit_range(imm@, 19, 12) + rd.0@ + opcode@,
    }
}

/// Copies the bits `hi` down to `lo` of `src` into `word`, starting at
/// position `at`; every other position keeps its bit.
fn place(word: &mut [bool; 32], at: usize, src: &[bool], hi: usize, lo: usize) -> (next: usize)
    requires
        lo <= hi < src@.len(),
        at + (hi - lo + 1) <= 32,
    ensures
        next == at + (hi - lo + 1),
        final(word)@ == old(word)@.subrange(0, at as int) + bit_range(src@, hi as int, lo as int)
            + old(word)@.subrange(next as int, 32),
{
    let ghost w0 = old(word)@;
    let n = src.len();
    let first = n - 1 - hi;
    let mut k: usize = 0;
    while k < hi - lo + 1
        invariant
            lo <= hi < src@.len(),
            at + (hi - lo + 1) <= 32,
            n == src@.len(),
            first == n - 1 - hi,
            k <= hi - lo + 1,
            word@.len() == 32,
            w0.len() == 32,
            forall|j: int| 0 <= j < at ==> word@[j] == w0[j],
            forall|j: int| at + k <= j < 32 ==> word@[j] == w0[j],
            forall|j: int| at <= j < at + k ==> word@[j] == src@[first + j - at],
        decreases hi - lo + 1 - k,
    {
        word[at + k] = src[first + k];
        k += 1;
    }
    let next = at + (hi - lo + 1);
    assert(word@ =~= w0.subrange(0, at as int) + bit_range(src@, hi as int, lo as int)
        + w0.subrange(next as int, 32));
    next
}

impl Instruction {
    /// The 32-bit word of the instruction, bit 31 first.
    pub fn to_word(&self) -> (r: [bool; 32])
        ensures
            r@ == word_of(*self),
    {
        let mut output = [false; 32];
        match self {
            Instruction::R { opcode, rd, funct3, rs1, rs2, funct7 } => {
                let at = place(&mut output, 0, funct7, 6, 0);
                let at = place(&mut output, at, &rs2.0, 4, 0);
                let at = place(&mut output, at, &rs1.0, 4, 0);
                let at = place(&mut output, at, funct3, 2, 0);
                let at = place(&mut output, at, &rd.0, 4, 0);
                place(&mut output, at, opcode, 6, 0);
            },
            Instruction::I { opcode, rd, funct3, rs1, imm } => {
                let at = place(&mut output, 0, imm, 11, 0);
                let at = place(&mut output, at, &rs1.0, 4, 0);
                let at = place(&mut output, at, funct3, 2, 0);
                let at = place(&mut output, at, &rd.0, 4, 0);
                place(&mut output, at, opcode, 6, 0);
            },
            Instruction::S { opcode, funct3, rs1, rs2, imm } => {
                let at = place(&mut output, 0, imm, 11, 5);
                let at = place(&mut output, at, &rs2.0, 4, 0);
                let at = place(&mut output, at, &rs1.0, 4, 0);
                let at = place(&mut output, at, funct3, 2, 0);
                let at = place(&mut output, at, imm, 4, 0);
                place(&mut output, at, opcode, 6, 0);
            },
            Instruction::SB { opcode, funct3, rs1, rs2, imm } => {
                let at = place(&mut output, 0, imm, 12, 12);
                let at = place(&mut output, at, imm, 10, 5);
                let at = place(&mut output, at, &rs2.0, 4, 0);
                let at = place(&mut output, at, &rs1.0, 4, 0);
                let at = place(&mut output, at, funct3, 2, 0);
                let at = place(&mut output, at, imm, 4, 1);
                let at = place(&mut output, at, imm, 11, 11);
                place(&mut output, at, opcode, 6, 0);
            },
            Instruction::U { opcode, rd, imm } => {
                let at = place(&mut output, 0, imm, 19, 0);
                let at = place(&mut output, at, &rd.0, 4, 0);
                place(&mut output, at, opcode, 6, 0);
            },
            Instruction::UJ { opcode, rd, imm } => {
                let at = place(&mut output, 0, imm, 20, 20);
                let at = place(&mut output, at, imm, 10, 1);
                let at = place(&mut output, at, imm, 11, 11);
                let at = place(&mut output, at, imm, 19, 12);
                let at = place(&mut output, at, &rd.0, 4, 0);
                place(&mut output, at, opcode, 6, 0);
            },
        }
        assert(output@ =~= word_of(*self));
        output
    }
}

/// The immediate `imm[11:0]` that an S-format word holds: `imm[11:5]` in
/// bits 31 to 25 and `imm[4:0]` in bits 11 to 7.
pub open spec fn s_immediate(w: Seq<bool>) -> Seq<bool> {
    bit_range(w, 31, 25) + bit_range(w, 11, 7)
}

/// The offset `imm[12:0]` that an SB-format word holds: `imm[12]` in bit 31,
/// `imm[11]` in bit 7, `imm[10:5]` in bits 30 to 25, `imm[4:1]` in bits 11 to
/// 8, and a zero bit 0.
pub open spec fn sb_immediate(w: Seq<bool>) -> Seq<bool> {
    bit_range(w, 31, 31) + bit_range(w, 7, 7) + bit_range(w, 30, 25) + bit_range(w, 11, 8)
        + seq![false]
}

/// The offset `imm[20:0]` that a UJ-format word holds: `imm[20]` in bit 31,
/// `imm[19:12]` in bits 19 to 12, `imm[11]` in bit 20, `imm[10:1]` in bits 30
/// to 21, and a zero bit 0.
pub open spec fn uj_immediate(w: Seq<bool>) -> Seq<bool> {
    bit_range(w, 31, 31) + bit_range(w, 19, 12) + bit_range(w, 20, 20) + bit_range(w, 30, 21)
        + seq![false]
}

/// Reading the immediate of an S-format word back from its two places gives
/// the instruction's immediate, bit for bit.
pub proof fn lemma_s_immediate_round_trip(ins: Instruction)
    ensures
        ins matches Instruction::S { imm, .. } ==> s_immediate(word_of(ins)) == imm@,
{
    if let Instruction::S { imm, .. } = ins {
        assert(s_immediate(word_of(ins)) =~= imm@);
    }
}

/// Reading the offset of an SB-format word back from its four places, with
/// a zero bit 0, gives the instruction's offset bit for bit whenever that
/// offset is even.
pub proof fn lemma_sb_immediate_round_trip(ins: Instruction)
    ensures
        ins matches Instruction::SB { imm, .. } ==> (!imm@[12] ==> sb_immediate(word_of(ins))
            == imm@),
{
    if let Instruction::SB { imm, .. } = ins {
        if !imm@[12] {
            assert(sb_immediate(word_of(ins)) =~= imm@);
        }
    }
}

/// Reading the offset of a UJ-format word back from its four places, with a
/// zero bit 0, gives the instruction's offset bit for bit whenever that
/// offset is even.
pub proof fn lemma_uj_immediate_round_trip(ins: Instruction)
    ensures
        ins matches Instruction::UJ { imm, .. } ==> (!imm@[20] ==> uj_immediate(word_of(ins))
            == imm@),
{
    if let Instruction::UJ { imm, .. } = ins {
        if !imm@[20] {
            assert(uj_immediate(word_of(ins)) =~= imm@);
        }
    }
}

/// Encoding is deterministic: instructions with the same fields have the
/// same word.
pub proof fn lemma_encoding_deterministic(a: Instruction, b: Instruction)
    requires
        a == b,
    ensures
        word_of(a) == word_of(b),
{
}

} // verus!
