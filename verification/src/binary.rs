//! The object format and the 16-byte instruction record.
//!
//! Record layout, little-endian: `[0]` opcode, `[1]` rd, `[2]` rs1,
//! `[3]` rs2, `[4..8]` aux (vector width, activation function or CSR
//! number), `[8..16]` imm (immediate, offset or 64-bit operand).
//!
//! Object layout: magic `UBIT`, version u16, reserved u16, entry point u64
//! (an instruction index), instruction count u64, data segment count u64,
//! the instruction records, then each data segment as address u64, length
//! u64 and its bytes.
use vstd::prelude::*;
use crate::isa::{ActivationFn, Instruction, Width};
use crate::memory::{le_num, le_encode, read_le, encode_le, law_le_roundtrip, lemma_le_encode_len, pow256};
use crate::text::{dec_chars, hex_chars, pad_left, push_dec, push_hex_padded};

pub mod op;

verus! {

/// Bytes per encoded instruction.
pub const INSTRUCTION_BYTES: usize = 16;

/// Object format version.
pub const VERSION: u16 = 1;

/// Bytes of the object header.
pub const HEADER_BYTES: usize = 32;

/// The object magic number, `UBIT`.
pub open spec fn magic() -> Seq<u8> {
    seq![0x55u8, 0x42u8, 0x49u8, 0x54u8]
}

/// The object magic number, `UBIT`.
pub fn magic_bytes() -> (r: [u8; 4])
    ensures
        r@ == magic(),
{
    let r = [0x55u8, 0x42u8, 0x49u8, 0x54u8];
    assert(r@ =~= magic());
    r
}

// ─── Auxiliary field codes ──────────────────────────────────────────────────

/// Code of a vector width in the aux field.
pub open spec fn width_code_spec(w: Width) -> u32 {
    match w {
        Width::B8 => 0,
        Width::B16 => 1,
        Width::B32 => 2,
        Width::B64 => 3,
    }
}

/// Code of an activation function in the aux field.
pub open spec fn act_code_spec(f: ActivationFn) -> u32 {
    match f {
        ActivationFn::ReLU => 0,
        ActivationFn::Sigmoid => 1,
        ActivationFn::Tanh => 2,
        ActivationFn::GeLU => 3,
        ActivationFn::SiLU => 4,
    }
}

/// The width a code stands for, or the message for an invalid code.
pub open spec fn width_of_code(c: u32) -> Result<Width, Seq<char>> {
    if c == 0 {
        Ok(Width::B8)
    } else if c == 1 {
        Ok(Width::B16)
    } else if c == 2 {
        Ok(Width::B32)
    } else if c == 3 {
        Ok(Width::B64)
    } else {
        Err("invalid vector width code "@ + dec_chars(c as nat))
    }
}

/// The activation function a code stands for, or the message for an
/// invalid code.
pub open spec fn act_of_code(c: u32) -> Result<ActivationFn, Seq<char>> {
    if c == 0 {
        Ok(ActivationFn::ReLU)
    } else if c == 1 {
        Ok(ActivationFn::Sigmoid)
    } else if c == 2 {
        Ok(ActivationFn::Tanh)
    } else if c == 3 {
        Ok(ActivationFn::GeLU)
    } else if c == 4 {
        Ok(ActivationFn::SiLU)
    } else {
        Err("invalid activation function code "@ + dec_chars(c as nat))
    }
}

fn width_code(w: Width) -> (r: u32)
    ensures
        r == width_code_spec(w),
{
    match w {
        Width::B8 => 0,
        Width::B16 => 1,
        Width::B32 => 2,
        Width::B64 => 3,
    }
}

fn act_code(f: ActivationFn) -> (r: u32)
    ensures
        r == act_code_spec(f),
{
    match f {
        ActivationFn::ReLU => 0,
        ActivationFn::Sigmoid => 1,
        ActivationFn::Tanh => 2,
        ActivationFn::GeLU => 3,
        ActivationFn::SiLU => 4,
    }
}

fn width_from_code(c: u32) -> (r: Result<Width, String>)
    ensures
        match width_of_code(c) {
            Ok(w) => r == Ok::<Width, String>(w),
            Err(m) => r matches Err(e) && e@ == m,
        },
{
    match c {
        0 => Ok(Width::B8),
        1 => Ok(Width::B16),
        2 => Ok(Width::B32),
        3 => Ok(Width::B64),
        _ => {
            let mut e = String::from_str("invalid vector width code ");
            push_dec(&mut e, c as u64);
            Err(e)
        },
    }
}

fn act_from_code(c: u32) -> (r: Result<ActivationFn, String>)
    ensures
        match act_of_code(c) {
            Ok(f) => r == Ok::<ActivationFn, String>(f),
            Err(m) => r matches Err(e) && e@ == m,
        },
{
    match c {
        0 => Ok(ActivationFn::ReLU),
        1 => Ok(ActivationFn::Sigmoid),
        2 => Ok(ActivationFn::Tanh),
        3 => Ok(ActivationFn::GeLU),
        4 => Ok(ActivationFn::SiLU),
        _ => {
            let mut e = String::from_str("invalid activation function code ");
            push_dec(&mut e, c as u64);
            Err(e)
        },
    }
}

// ─── Instruction records ────────────────────────────────────────────────────

/// The fields of the record of `i`: opcode, rd, rs1, rs2, aux, imm.
pub open spec fn fields_of(i: Instruction) -> (u8, u8, u8, u8, u32, i64) {
    match i {
        Instruction::Add { rd, rs1, rs2 } => (1u8, rd, rs1, rs2, 0u32, 0i64),
        Instruction::Sub { rd, rs1, rs2 } => (2u8, rd, rs1, rs2, 0u32, 0i64),
        Instruction::Mul { rd, rs1, rs2 } => (3u8, rd, rs1, rs2, 0u32, 0i64),
        Instruction::MulH { rd, rs1, rs2 } => (4u8, rd, rs1, rs2, 0u32, 0i64),
        Instruction::Div { rd, rs1, rs2 } => (5u8, rd, rs1, rs2, 0u32, 0i64),
        Instruction::Rem { rd, rs1, rs2 } => (6u8, rd, rs1, rs2, 0u32, 0i64),
        Instruction::And { rd, rs1, rs2 } => (7u8, rd, rs1, rs2, 0u32, 0i64),
        Instruction::Or { rd, rs1, rs2 } => (8u8, rd, rs1, rs2, 0u32, 0i64),
        Instruction::Xor { rd, rs1, rs2 } => (9u8, rd, rs1, rs2, 0u32, 0i64),
        Instruction::Sll { rd, rs1, rs2 } => (10u8, rd, rs1, rs2, 0u32, 0i64),
        Instruction::Srl { rd, rs1, rs2 } => (11u8, rd, rs1, rs2, 0u32, 0i64),
        Instruction::Sra { rd, rs1, rs2 } => (12u8, rd, rs1, rs2, 0u32, 0i64),
        Instruction::Slt { rd, rs1, rs2 } => (13u8, rd, rs1, rs2, 0u32, 0i64),
        Instruction::Sltu { rd, rs1, rs2 } => (14u8, rd, rs1, rs2, 0u32, 0i64),
        Instruction::Addi { rd, rs1, imm } => (15u8, rd, rs1, 0u8, 0u32, imm),
        Instruction::Andi { rd, rs1, imm } => (16u8, rd, rs1, 0u8, 0u32, imm),
        Instruction::Ori { rd, rs1, imm } => (17u8, rd, rs1, 0u8, 0u32, imm),
        Instruction::Xori { rd, rs1, imm } => (18u8, rd, rs1, 0u8, 0u32, imm),
        Instruction::Slli { rd, rs1, imm } => (19u8, rd, rs1, 0u8, 0u32, imm),
        Instruction::Srli { rd, rs1, imm } => (20u8, rd, rs1, 0u8, 0u32, imm),
        Instruction::Srai { rd, rs1, imm } => (21u8, rd, rs1, 0u8, 0u32, imm),
        Instruction::Slti { rd, rs1, imm } => (22u8, rd, rs1, 0u8, 0u32, imm),
        Instruction::Sltiu { rd, rs1, imm } => (23u8, rd, rs1, 0u8, 0u32, imm),
        Instruction::Lui { rd, imm } => (24u8, rd, 0u8, 0u8, 0u32, imm),
        Instruction::Ld { rd, rs1, offset } => (25u8, rd, rs1, 0u8, 0u32, offset),
        Instruction::Lw { rd, rs1, offset } => (26u8, rd, rs1, 0u8, 0u32, offset),
        Instruction::Lh { rd, rs1, offset } => (27u8, rd, rs1, 0u8, 0u32, offset),
        Instruction::Lb { rd, rs1, offset } => (28u8, rd, rs1, 0u8, 0u32, offset),
        Instruction::Lbu { rd, rs1, offset } => (29u8, rd, rs1, 0u8, 0u32, offset),
        Instruction::Lq { rd, rs1, offset } => (30u8, rd, rs1, 0u8, 0u32, offset),
        Instruction::Sd { rs1, rs2, offset } => (31u8, 0u8, rs1, rs2, 0u32, offset),
        Instruction::Sw { rs1, rs2, offset } => (32u8, 0u8, rs1, rs2, 0u32, offset),
        Instruction::Sh { rs1, rs2, offset } => (33u8, 0u8, rs1, rs2, 0u32, offset),
        Instruction::Sb { rs1, rs2, offset } => (34u8, 0u8, rs1, rs2, 0u32, offset),
        Instruction::Sq { rs1, rs2, offset } => (35u8, 0u8, rs1, rs2, 0u32, offset),
        Instruction::Beq { rs1, rs2, offset } => (36u8, 0u8, rs1, rs2, 0u32, offset),
        Instruction::Bne { rs1, rs2, offset } => (37u8, 0u8, rs1, rs2, 0u32, offset),
        Instruction::Blt { rs1, rs2, offset } => (38u8, 0u8, rs1, rs2, 0u32, offset),
        Instruction::Bge { rs1, rs2, offset } => (39u8, 0u8, rs1, rs2, 0u32, offset),
        Instruction::Bltu { rs1, rs2, offset } => (40u8, 0u8, rs1, rs2, 0u32, offset),
        Instruction::Bgeu { rs1, rs2, offset } => (41u8, 0u8, rs1, rs2, 0u32, offset),
        Instruction::Jal { rd, offset } => (42u8, rd, 0u8, 0u8, 0u32, offset),
        Instruction::Jalr { rd, rs1, offset } => (43u8, rd, rs1, 0u8, 0u32, offset),
        Instruction::VAdd { rd, rs1, rs2, width } => (44u8, rd, rs1, rs2, width_code_spec(width), 0i64),
        Instruction::VSub { rd, rs1, rs2, width } => (45u8, rd, rs1, rs2, width_code_spec(width), 0i64),
        Instruction::VMul { rd, rs1, rs2, width } => (46u8, rd, rs1, rs2, width_code_spec(width), 0i64),
        Instruction::VDot { rd, rs1, rs2, width } => (47u8, rd, rs1, rs2, width_code_spec(width), 0i64),
        Instruction::VAnd { rd, rs1, rs2 } => (48u8, rd, rs1, rs2, 0u32, 0i64),
        Instruction::VOr { rd, rs1, rs2 } => (49u8, rd, rs1, rs2, 0u32, 0i64),
        Instruction::VXor { rd, rs1, rs2 } => (50u8, rd, rs1, rs2, 0u32, 0i64),
        Instruction::VNot { rd, rs1 } => (51u8, rd, rs1, 0u8, 0u32, 0i64),
        Instruction::VSplat { rd, rs1, width } => (52u8, rd, rs1, 0u8, width_code_spec(width), 0i64),
        Instruction::VReduce { rd, rs1, width } => (53u8, rd, rs1, 0u8, width_code_spec(width), 0i64),
        Instruction::Zipper { rd, rs1, rs2 } => (54u8, rd, rs1, rs2, 0u32, 0i64),
        Instruction::Zipper2 { rd, rs1, rs2 } => (83u8, rd, rs1, rs2, 0u32, 0i64),
        Instruction::Trunc { rd, rs1, eps_bits } => (55u8, rd, rs1, 0u8, 0u32, eps_bits as i64),
        Instruction::TMul { rd, rs1, rs2 } => (56u8, rd, rs1, rs2, 0u32, 0i64),
        Instruction::TDot { rd, rs1, rs2 } => (57u8, rd, rs1, rs2, 0u32, 0i64),
        Instruction::TAct { rd, rs1, func } => (58u8, rd, rs1, 0u8, act_code_spec(func), 0i64),
        Instruction::TSoftmax { rd, rs1 } => (59u8, rd, rs1, 0u8, 0u32, 0i64),
        Instruction::Ntt { rd, rs1 } => (60u8, rd, rs1, 0u8, 0u32, 0i64),
        Instruction::InvNtt { rd, rs1 } => (61u8, rd, rs1, 0u8, 0u32, 0i64),
        Instruction::PolyMul { rd, rs1, rs2 } => (62u8, rd, rs1, rs2, 0u32, 0i64),
        Instruction::ModRed { rd, rs1, modulus } => (63u8, rd, rs1, 0u8, 0u32, modulus as i64),
        Instruction::PolyAdd { rd, rs1, rs2 } => (64u8, rd, rs1, rs2, 0u32, 0i64),
        Instruction::Entropy { rd, rs1 } => (65u8, rd, rs1, 0u8, 0u32, 0i64),
        Instruction::Hamming { rd, rs1, rs2 } => (66u8, rd, rs1, rs2, 0u32, 0i64),
        Instruction::PopCnt { rd, rs1 } => (67u8, rd, rs1, 0u8, 0u32, 0i64),
        Instruction::QRand { rd } => (68u8, rd, 0u8, 0u8, 0u32, 0i64),
        Instruction::CAdd { rd, rs1, rs2 } => (69u8, rd, rs1, rs2, 0u32, 0i64),
        Instruction::CSub { rd, rs1, rs2 } => (70u8, rd, rs1, rs2, 0u32, 0i64),
        Instruction::CMul { rd, rs1, rs2 } => (71u8, rd, rs1, rs2, 0u32, 0i64),
        Instruction::CConj { rd, rs1 } => (72u8, rd, rs1, 0u8, 0u32, 0i64),
        Instruction::CNorm { rd, rs1 } => (73u8, rd, rs1, 0u8, 0u32, 0i64),
        Instruction::CMag { rd, rs1 } => (74u8, rd, rs1, 0u8, 0u32, 0i64),
        Instruction::Ecall => (75u8, 0u8, 0u8, 0u8, 0u32, 0i64),
        Instruction::Halt => (76u8, 0u8, 0u8, 0u8, 0u32, 0i64),
        Instruction::Nop => (77u8, 0u8, 0u8, 0u8, 0u32, 0i64),
        Instruction::Fence => (78u8, 0u8, 0u8, 0u8, 0u32, 0i64),
        Instruction::CsrR { rd, csr } => (79u8, rd, 0u8, 0u8, csr as u32, 0i64),
        Instruction::CsrW { csr, rs1 } => (80u8, 0u8, rs1, 0u8, csr as u32, 0i64),
        Instruction::Mv { rd, rs1 } => (81u8, rd, rs1, 0u8, 0u32, 0i64),
        Instruction::Li { rd, imm } => (82u8, rd, 0u8, 0u8, 0u32, imm),
    }
}

/// The 16-byte record of `i`.
pub open spec fn encode_spec(i: Instruction) -> Seq<u8> {
    let f = fields_of(i);
    seq![f.0, f.1, f.2, f.3] + le_encode(f.4 as nat, 4) + le_encode((f.5 as u64) as nat, 8)
}

/// Encodes one instruction into its 16-byte record.
pub fn encode_instruction(inst: &Instruction) -> (r: [u8; 16])
    ensures
        r@ == encode_spec(*inst),
{
    let f: (u8, u8, u8, u8, u32, i64) = match *inst {
        Instruction::Add { rd, rs1, rs2 } => (op::ADD, rd, rs1, rs2, 0u32, 0i64),
        Instruction::Sub { rd, rs1, rs2 } => (op::SUB, rd, rs1, rs2, 0u32, 0i64),
        Instruction::Mul { rd, rs1, rs2 } => (op::MUL, rd, rs1, rs2, 0u32, 0i64),
        Instruction::MulH { rd, rs1, rs2 } => (op::MULH, rd, rs1, rs2, 0u32, 0i64),
        Instruction::Div { rd, rs1, rs2 } => (op::DIV, rd, rs1, rs2, 0u32, 0i64),
        Instruction::Rem { rd, rs1, rs2 } => (op::REM, rd, rs1, rs2, 0u32, 0i64),
        Instruction::And { rd, rs1, rs2 } => (op::AND, rd, rs1, rs2, 0u32, 0i64),
        Instruction::Or { rd, rs1, rs2 } => (op::OR, rd, rs1, rs2, 0u32, 0i64),
        Instruction::Xor { rd, rs1, rs2 } => (op::XOR, rd, rs1, rs2, 0u32, 0i64),
        Instruction::Sll { rd, rs1, rs2 } => (op::SLL, rd, rs1, rs2, 0u32, 0i64),
        Instruction::Srl { rd, rs1, rs2 } => (op::SRL, rd, rs1, rs2, 0u32, 0i64),
        Instruction::Sra { rd, rs1, rs2 } => (op::SRA, rd, rs1, rs2, 0u32, 0i64),
        Instruction::Slt { rd, rs1, rs2 } => (op::SLT, rd, rs1, rs2, 0u32, 0i64),
        Instruction::Sltu { rd, rs1, rs2 } => (op::SLTU, rd, rs1, rs2, 0u32, 0i64),
        Instruction::Addi { rd, rs1, imm } => (op::ADDI, rd, rs1, 0u8, 0u32, imm),
        Instruction::Andi { rd, rs1, imm } => (op::ANDI, rd, rs1, 0u8, 0u32, imm),
        Instruction::Ori { rd, rs1, imm } => (op::ORI, rd, rs1, 0u8, 0u32, imm),
        Instruction::Xori { rd, rs1, imm } => (op::XORI, rd, rs1, 0u8, 0u32, imm),
        Instruction::Slli { rd, rs1, imm } => (op::SLLI, rd, rs1, 0u8, 0u32, imm),
        Instruction::Srli { rd, rs1, imm } => (op::SRLI, rd, rs1, 0u8, 0u32, imm),
        Instruction::Srai { rd, rs1, imm } => (op::SRAI, rd, rs1, 0u8, 0u32, imm),
        Instruction::Slti { rd, rs1, imm } => (op::SLTI, rd, rs1, 0u8, 0u32, imm),
        Instruction::Sltiu { rd, rs1, imm } => (op::SLTIU, rd, rs1, 0u8, 0u32, imm),
        Instruction::Lui { rd, imm } => (op::LUI, rd, 0u8, 0u8, 0u32, imm),
        Instruction::Ld { rd, rs1, offset } => (op::LD, rd, rs1, 0u8, 0u32, offset),
        Instruction::Lw { rd, rs1, offset } => (op::LW, rd, rs1, 0u8, 0u32, offset),
        Instruction::Lh { rd, rs1, offset } => (op::LH, rd, rs1, 0u8, 0u32, offset),
        Instruction::Lb { rd, rs1, offset } => (op::LB, rd, rs1, 0u8, 0u32, offset),
        Instruction::Lbu { rd, rs1, offset } => (op::LBU, rd, rs1, 0u8, 0u32, offset),
        Instruction::Lq { rd, rs1, offset } => (op::LQ, rd, rs1, 0u8, 0u32, offset),
        Instruction::Sd { rs1, rs2, offset } => (op::SD, 0u8, rs1, rs2, 0u32, offset),
        Instruction::Sw { rs1, rs2, offset } => (op::SW, 0u8, rs1, rs2, 0u32, offset),
        Instruction::Sh { rs1, rs2, offset } => (op::SH, 0u8, rs1, rs2, 0u32, offset),
        Instruction::Sb { rs1, rs2, offset } => (op::SB, 0u8, rs1, rs2, 0u32, offset),
        Instruction::Sq { rs1, rs2, offset } => (op::SQ, 0u8, rs1, rs2, 0u32, offset),
        Instruction::Beq { rs1, rs2, offset } => (op::BEQ, 0u8, rs1, rs2, 0u32, offset),
        Instruction::Bne { rs1, rs2, offset } => (op::BNE, 0u8, rs1, rs2, 0u32, offset),
        Instruction::Blt { rs1, rs2, offset } => (op::BLT, 0u8, rs1, rs2, 0u32, offset),
        Instruction::Bge { rs1, rs2, offset } => (op::BGE, 0u8, rs1, rs2, 0u32, offset),
        Instruction::Bltu { rs1, rs2, offset } => (op::BLTU, 0u8, rs1, rs2, 0u32, offset),
        Instruction::Bgeu { rs1, rs2, offset } => (op::BGEU, 0u8, rs1, rs2, 0u32, offset),
        Instruction::Jal { rd, offset } => (op::JAL, rd, 0u8, 0u8, 0u32, offset),
        Instruction::Jalr { rd, rs1, offset } => (op::JALR, rd, rs1, 0u8, 0u32, offset),
        Instruction::VAdd { rd, rs1, rs2, width } => (op::VADD, rd, rs1, rs2, width_code(width), 0i64),
        Instruction::VSub { rd, rs1, rs2, width } => (op::VSUB, rd, rs1, rs2, width_code(width), 0i64),
        Instruction::VMul { rd, rs1, rs2, width } => (op::VMUL, rd, rs1, rs2, width_code(width), 0i64),
        Instruction::VDot { rd, rs1, rs2, width } => (op::VDOT, rd, rs1, rs2, width_code(width), 0i64),
        Instruction::VAnd { rd, rs1, rs2 } => (op::VAND, rd, rs1, rs2, 0u32, 0i64),
        Instruction::VOr { rd, rs1, rs2 } => (op::VOR, rd, rs1, rs2, 0u32, 0i64),
        Instruction::VXor { rd, rs1, rs2 } => (op::VXOR, rd, rs1, rs2, 0u32, 0i64),
        Instruction::VNot { rd, rs1 } => (op::VNOT, rd, rs1, 0u8, 0u32, 0i64),
        Instruction::VSplat { rd, rs1, width } => (op::VSPLAT, rd, rs1, 0u8, width_code(width), 0i64),
        Instruction::VReduce { rd, rs1, width } => (op::VREDUCE, rd, rs1, 0u8, width_code(width), 0i64),
        Instruction::Zipper { rd, rs1, rs2 } => (op::ZIPPER, rd, rs1, rs2, 0u32, 0i64),
        Instruction::Zipper2 { rd, rs1, rs2 } => (op::ZIPPER2, rd, rs1, rs2, 0u32, 0i64),
        Instruction::Trunc { rd, rs1, eps_bits } => (op::TRUNC, rd, rs1, 0u8, 0u32, eps_bits as i64),
        Instruction::TMul { rd, rs1, rs2 } => (op::TMUL, rd, rs1, rs2, 0u32, 0i64),
        Instruction::TDot { rd, rs1, rs2 } => (op::TDOT, rd, rs1, rs2, 0u32, 0i64),
        Instruction::TAct { rd, rs1, func } => (op::TACT, rd, rs1, 0u8, act_code(func), 0i64),
        Instruction::TSoftmax { rd, rs1 } => (op::TSOFTMAX, rd, rs1, 0u8, 0u32, 0i64),
        Instruction::Ntt { rd, rs1 } => (op::NTT, rd, rs1, 0u8, 0u32, 0i64),
        Instruction::InvNtt { rd, rs1 } => (op::INVNTT, rd, rs1, 0u8, 0u32, 0i64),
        Instruction::PolyMul { rd, rs1, rs2 } => (op::POLYMUL, rd, rs1, rs2, 0u32, 0i64),
        Instruction::ModRed { rd, rs1, modulus } => (op::MODRED, rd, rs1, 0u8, 0u32, modulus as i64),
        Instruction::PolyAdd { rd, rs1, rs2 } => (op::POLYADD, rd, rs1, rs2, 0u32, 0i64),
        Instruction::Entropy { rd, rs1 } => (op::ENTROPY, rd, rs1, 0u8, 0u32, 0i64),
        Instruction::Hamming { rd, rs1, rs2 } => (op::HAMMING, rd, rs1, rs2, 0u32, 0i64),
        Instruction::PopCnt { rd, rs1 } => (op::POPCNT, rd, rs1, 0u8, 0u32, 0i64),
        Instruction::QRand { rd } => (op::QRAND, rd, 0u8, 0u8, 0u32, 0i64),
        Instruction::CAdd { rd, rs1, rs2 } => (op::CADD, rd, rs1, rs2, 0u32, 0i64),
        Instruction::CSub { rd, rs1, rs2 } => (op::CSUB, rd, rs1, rs2, 0u32, 0i64),
        Instruction::CMul { rd, rs1, rs2 } => (op::CMUL, rd, rs1, rs2, 0u32, 0i64),
        Instruction::CConj { rd, rs1 } => (op::CCONJ, rd, rs1, 0u8, 0u32, 0i64),
        Instruction::CNorm { rd, rs1 } => (op::CNORM, rd, rs1, 0u8, 0u32, 0i64),
        Instruction::CMag { rd, rs1 } => (op::CMAG, rd, rs1, 0u8, 0u32, 0i64),
        Instruction::Ecall => (op::ECALL, 0u8, 0u8, 0u8, 0u32, 0i64),
        Instruction::Halt => (op::HALT, 0u8, 0u8, 0u8, 0u32, 0i64),
        Instruction::Nop => (op::NOP, 0u8, 0u8, 0u8, 0u32, 0i64),
        Instruction::Fence => (op::FENCE, 0u8, 0u8, 0u8, 0u32, 0i64),
        Instruction::CsrR { rd, csr } => (op::CSRR, rd, 0u8, 0u8, csr as u32, 0i64),
        Instruction::CsrW { csr, rs1 } => (op::CSRW, 0u8, rs1, 0u8, csr as u32, 0i64),
        Instruction::Mv { rd, rs1 } => (op::MV, rd, rs1, 0u8, 0u32, 0i64),
        Instruction::Li { rd, imm } => (op::LI, rd, 0u8, 0u8, 0u32, imm),
    };
    assert(f == fields_of(*inst));
    let mut out = [0u8; 16];
    out[0] = f.0;
    out[1] = f.1;
    out[2] = f.2;
    out[3] = f.3;
    let aux = encode_le(f.4 as u64, 4);
    let imm = encode_le(f.5 as u64, 8);
    proof {
        lemma_le_encode_len(f.4 as nat, 4);
        lemma_le_encode_len((f.5 as u64) as nat, 8);
    }
    let mut k: usize = 0;
    while k < 4
        invariant
            k <= 4,
            aux@ == le_encode(f.4 as nat, 4),
            aux@.len() == 4,
            out@.subrange(0, 4) == seq![f.0, f.1, f.2, f.3],
            forall|j: int| 0 <= j < k ==> #[trigger] out@[4 + j] == aux@[j],
        decreases 4 - k,
    {
        out[4 + k] = aux[k];
        assert(out@.subrange(0, 4) =~= seq![f.0, f.1, f.2, f.3]);
        k = k + 1;
    }
    let mut k: usize = 0;
    while k < 8
        invariant
            k <= 8,
            aux@ == le_encode(f.4 as nat, 4),
            imm@ == le_encode((f.5 as u64) as nat, 8),
            aux@.len() == 4,
            imm@.len() == 8,
            out@.subrange(0, 4) == seq![f.0, f.1, f.2, f.3],
            forall|j: int| 0 <= j < 4 ==> #[trigger] out@[4 + j] == aux@[j],
            forall|j: int| 0 <= j < k ==> #[trigger] out@[8 + j] == imm@[j],
        decreases 8 - k,
    {
        out[8 + k] = imm[k];
        assert(out@.subrange(0, 4) =~= seq![f.0, f.1, f.2, f.3]);
        k = k + 1;
    }
    proof {
        let e = encode_spec(*inst);
        let head = seq![f.0, f.1, f.2, f.3];
        assert(e == head + aux@ + imm@);
        assert forall|j: int| 0 <= j < 16 implies #[trigger] out@[j] == e[j] by {
            if j < 4 {
                assert(out@[j] == out@.subrange(0, 4)[j]);
            } else if j < 8 {
                assert(out@[4 + (j - 4)] == aux@[j - 4]);
            } else {
                assert(out@[8 + (j - 8)] == imm@[j - 8]);
            }
        }
        assert(out@ =~= e);
    }
    out
}

/// The instruction with opcode `op` and the given fields, or the message
/// for an unknown opcode or an invalid aux code.
pub open spec fn decode_fields(op: u8, rd: u8, rs1: u8, rs2: u8, aux: u32, imm: i64) -> Result<
    Instruction,
    Seq<char>,
> {
    if op == 1 {
        Ok(Instruction::Add { rd, rs1, rs2 })
    } else if op == 2 {
        Ok(Instruction::Sub { rd, rs1, rs2 })
    } else if op == 3 {
        Ok(Instruction::Mul { rd, rs1, rs2 })
    } else if op == 4 {
        Ok(Instruction::MulH { rd, rs1, rs2 })
    } else if op == 5 {
        Ok(Instruction::Div { rd, rs1, rs2 })
    } else if op == 6 {
        Ok(Instruction::Rem { rd, rs1, rs2 })
    } else if op == 7 {
        Ok(Instruction::And { rd, rs1, rs2 })
    } else if op == 8 {
        Ok(Instruction::Or { rd, rs1, rs2 })
    } else if op == 9 {
        Ok(Instruction::Xor { rd, rs1, rs2 })
    } else if op == 10 {
        Ok(Instruction::Sll { rd, rs1, rs2 })
    } else if op == 11 {
        Ok(Instruction::Srl { rd, rs1, rs2 })
    } else if op == 12 {
        Ok(Instruction::Sra { rd, rs1, rs2 })
    } else if op == 13 {
        Ok(Instruction::Slt { rd, rs1, rs2 })
    } else if op == 14 {
        Ok(Instruction::Sltu { rd, rs1, rs2 })
    } else if op == 15 {
        Ok(Instruction::Addi { rd, rs1, imm })
    } else if op == 16 {
        Ok(Instruction::Andi { rd, rs1, imm })
    } else if op == 17 {
        Ok(Instruction::Ori { rd, rs1, imm })
    } else if op == 18 {
        Ok(Instruction::Xori { rd, rs1, imm })
    } else if op == 19 {
        Ok(Instruction::Slli { rd, rs1, imm })
    } else if op == 20 {
        Ok(Instruction::Srli { rd, rs1, imm })
    } else if op == 21 {
        Ok(Instruction::Srai { rd, rs1, imm })
    } else if op == 22 {
        Ok(Instruction::Slti { rd, rs1, imm })
    } else if op == 23 {
        Ok(Instruction::Sltiu { rd, rs1, imm })
    } else if op == 24 {
        Ok(Instruction::Lui { rd, imm })
    } else if op == 25 {
        Ok(Instruction::Ld { rd, rs1, offset: imm })
    } else if op == 26 {
        Ok(Instruction::Lw { rd, rs1, offset: imm })
    } else if op == 27 {
        Ok(Instruction::Lh { rd, rs1, offset: imm })
    } else if op == 28 {
        Ok(Instruction::Lb { rd, rs1, offset: imm })
    } else if op == 29 {
        Ok(Instruction::Lbu { rd, rs1, offset: imm })
    } else if op == 30 {
        Ok(Instruction::Lq { rd, rs1, offset: imm })
    } else if op == 31 {
        Ok(Instruction::Sd { rs1, rs2, offset: imm })
    } else if op == 32 {
        Ok(Instruction::Sw { rs1, rs2, offset: imm })
    } else if op == 33 {
        Ok(Instruction::Sh { rs1, rs2, offset: imm })
    } else if op == 34 {
        Ok(Instruction::Sb { rs1, rs2, offset: imm })
    } else if op == 35 {
        Ok(Instruction::Sq { rs1, rs2, offset: imm })
    } else if op == 36 {
        Ok(Instruction::Beq { rs1, rs2, offset: imm })
    } else if op == 37 {
        Ok(Instruction::Bne { rs1, rs2, offset: imm })
    } else if op == 38 {
        Ok(Instruction::Blt { rs1, rs2, offset: imm })
    } else if op == 39 {
        Ok(Instruction::Bge { rs1, rs2, offset: imm })
    } else if op == 40 {
        Ok(Instruction::Bltu { rs1, rs2, offset: imm })
    } else if op == 41 {
        Ok(Instruction::Bgeu { rs1, rs2, offset: imm })
    } else if op == 42 {
        Ok(Instruction::Jal { rd, offset: imm })
    } else if op == 43 {
        Ok(Instruction::Jalr { rd, rs1, offset: imm })
    } else if op == 44 {
        match width_of_code(aux) {
            Ok(w) => Ok(Instruction::VAdd { rd, rs1, rs2, width: w }),
            Err(m) => Err(m),
        }
    } else if op == 45 {
        match width_of_code(aux) {
            Ok(w) => Ok(Instruction::VSub { rd, rs1, rs2, width: w }),
            Err(m) => Err(m),
        }
    } else if op == 46 {
        match width_of_code(aux) {
            Ok(w) => Ok(Instruction::VMul { rd, rs1, rs2, width: w }),
            Err(m) => Err(m),
        }
    } else if op == 47 {
        match width_of_code(aux) {
            Ok(w) => Ok(Instruction::VDot { rd, rs1, rs2, width: w }),
            Err(m) => Err(m),
        }
    } else if op == 48 {
        Ok(Instruction::VAnd { rd, rs1, rs2 })
    } else if op == 49 {
        Ok(Instruction::VOr { rd, rs1, rs2 })
    } else if op == 50 {
        Ok(Instruction::VXor { rd, rs1, rs2 })
    } else if op == 51 {
        Ok(Instruction::VNot { rd, rs1 })
    } else if op == 52 {
        match width_of_code(aux) {
            Ok(w) => Ok(Instruction::VSplat { rd, rs1, width: w }),
            Err(m) => Err(m),
        }
    } else if op == 53 {
        match width_of_code(aux) {
            Ok(w) => Ok(Instruction::VReduce { rd, rs1, width: w }),
            Err(m) => Err(m),
        }
    } else if op == 54 {
        Ok(Instruction::Zipper { rd, rs1, rs2 })
    } else if op == 83 {
        Ok(Instruction::Zipper2 { rd, rs1, rs2 })
    } else if op == 55 {
        Ok(Instruction::Trunc { rd, rs1, eps_bits: imm as u64 })
    } else if op == 56 {
        Ok(Instruction::TMul { rd, rs1, rs2 })
    } else if op == 57 {
        Ok(Instruction::TDot { rd, rs1, rs2 })
    } else if op == 58 {
        match act_of_code(aux) {
            Ok(a) => Ok(Instruction::TAct { rd, rs1, func: a }),
            Err(m) => Err(m),
        }
    } else if op == 59 {
        Ok(Instruction::TSoftmax { rd, rs1 })
    } else if op == 60 {
        Ok(Instruction::Ntt { rd, rs1 })
    } else if op == 61 {
        Ok(Instruction::InvNtt { rd, rs1 })
    } else if op == 62 {
        Ok(Instruction::PolyMul { rd, rs1, rs2 })
    } else if op == 63 {
        Ok(Instruction::ModRed { rd, rs1, modulus: imm as u64 })
    } else if op == 64 {
        Ok(Instruction::PolyAdd { rd, rs1, rs2 })
    } else if op == 65 {
        Ok(Instruction::Entropy { rd, rs1 })
    } else if op == 66 {
        Ok(Instruction::Hamming { rd, rs1, rs2 })
    } else if op == 67 {
        Ok(Instruction::PopCnt { rd, rs1 })
    } else if op == 68 {
        Ok(Instruction::QRand { rd })
    } else if op == 69 {
        Ok(Instruction::CAdd { rd, rs1, rs2 })
    } else if op == 70 {
        Ok(Instruction::CSub { rd, rs1, rs2 })
    } else if op == 71 {
        Ok(Instruction::CMul { rd, rs1, rs2 })
    } else if op == 72 {
        Ok(Instruction::CConj { rd, rs1 })
    } else if op == 73 {
        Ok(Instruction::CNorm { rd, rs1 })
    } else if op == 74 {
        Ok(Instruction::CMag { rd, rs1 })
    } else if op == 75 {
        Ok(Instruction::Ecall)
    } else if op == 76 {
        Ok(Instruction::Halt)
    } else if op == 77 {
        Ok(Instruction::Nop)
    } else if op == 78 {
        Ok(Instruction::Fence)
    } else if op == 79 {
        Ok(Instruction::CsrR { rd, csr: aux as u16 })
    } else if op == 80 {
        Ok(Instruction::CsrW { csr: aux as u16, rs1 })
    } else if op == 81 {
        Ok(Instruction::Mv { rd, rs1 })
    } else if op == 82 {
        Ok(Instruction::Li { rd, imm })
    } else {
        Err(unknown_opcode_msg(op))
    }
}

/// The message of an unknown opcode.
pub open spec fn unknown_opcode_msg(op: u8) -> Seq<char> {
    "unknown opcode 0x"@ + pad_left(hex_chars(op as nat), '0', 2)
}

/// The message of a record shorter than 16 bytes.
pub open spec fn truncated_record_msg(len: nat) -> Seq<char> {
    "instruction record truncated: got "@ + dec_chars(len) + " bytes, need 16"@
}

/// The instruction a record decodes to, or the message of the error.
pub open spec fn decode_spec(b: Seq<u8>) -> Result<Instruction, Seq<char>> {
    if b.len() < 16 {
        Err(truncated_record_msg(b.len()))
    } else {
        decode_fields(
            b[0],
            b[1],
            b[2],
            b[3],
            le_num(b.subrange(4, 8)) as u32,
            (le_num(b.subrange(8, 16)) as u64) as i64,
        )
    }
}

pub(crate) fn decode_from_fields(op: u8, rd: u8, rs1: u8, rs2: u8, aux: u32, imm: i64) -> (r: Result<Instruction, String>)
    ensures
        match decode_fields(op, rd, rs1, rs2, aux, imm) {
            Ok(i) => r == Ok::<Instruction, String>(i),
            Err(m) => r matches Err(e) && e@ == m,
        },
{
    match op {
        1 => Ok(Instruction::Add { rd, rs1, rs2 }),
        2 => Ok(Instruction::Sub { rd, rs1, rs2 }),
        3 => Ok(Instruction::Mul { rd, rs1, rs2 }),
        4 => Ok(Instruction::MulH { rd, rs1, rs2 }),
        5 => Ok(Instruction::Div { rd, rs1, rs2 }),
        6 => Ok(Instruction::Rem { rd, rs1, rs2 }),
        7 => Ok(Instruction::And { rd, rs1, rs2 }),
        8 => Ok(Instruction::Or { rd, rs1, rs2 }),
        9 => Ok(Instruction::Xor { rd, rs1, rs2 }),
        10 => Ok(Instruction::Sll { rd, rs1, rs2 }),
        11 => Ok(Instruction::Srl { rd, rs1, rs2 }),
        12 => Ok(Instruction::Sra { rd, rs1, rs2 }),
        13 => Ok(Instruction::Slt { rd, rs1, rs2 }),
        14 => Ok(Instruction::Sltu { rd, rs1, rs2 }),
        15 => Ok(Instruction::Addi { rd, rs1, imm }),
        16 => Ok(Instruction::Andi { rd, rs1, imm }),
        17 => Ok(Instruction::Ori { rd, rs1, imm }),
        18 => Ok(Instruction::Xori { rd, rs1, imm }),
        19 => Ok(Instruction::Slli { rd, rs1, imm }),
        20 => Ok(Instruction::Srli { rd, rs1, imm }),
        21 => Ok(Instruction::Srai { rd, rs1, imm }),
        22 => Ok(Instruction::Slti { rd, rs1, imm }),
        23 => Ok(Instruction::Sltiu { rd, rs1, imm }),
        24 => Ok(Instruction::Lui { rd, imm }),
        25 => Ok(Instruction::Ld { rd, rs1, offset: imm }),
        26 => Ok(Instruction::Lw { rd, rs1, offset: imm }),
        27 => Ok(Instruction::Lh { rd, rs1, offset: imm }),
        28 => Ok(Instruction::Lb { rd, rs1, offset: imm }),
        29 => Ok(Instruction::Lbu { rd, rs1, offset: imm }),
        30 => Ok(Instruction::Lq { rd, rs1, offset: imm }),
        31 => Ok(Instruction::Sd { rs1, rs2, offset: imm }),
        32 => Ok(Instruction::Sw { rs1, rs2, offset: imm }),
        33 => Ok(Instruction::Sh { rs1, rs2, offset: imm }),
        34 => Ok(Instruction::Sb { rs1, rs2, offset: imm }),
        35 => Ok(Instruction::Sq { rs1, rs2, offset: imm }),
        36 => Ok(Instruction::Beq { rs1, rs2, offset: imm }),
        37 => Ok(Instruction::Bne { rs1, rs2, offset: imm }),
        38 => Ok(Instruction::Blt { rs1, rs2, offset: imm }),
        39 => Ok(Instruction::Bge { rs1, rs2, offset: imm }),
        40 => Ok(Instruction::Bltu { rs1, rs2, offset: imm }),
        41 => Ok(Instruction::Bgeu { rs1, rs2, offset: imm }),
        42 => Ok(Instruction::Jal { rd, offset: imm }),
        43 => Ok(Instruction::Jalr { rd, rs1, offset: imm }),
        44 => {
            match width_from_code(aux) {
                Ok(w) => Ok(Instruction::VAdd { rd, rs1, rs2, width: w }),
                Err(e) => Err(e),
            }
        },
        45 => {
            match width_from_code(aux) {
                Ok(w) => Ok(Instruction::VSub { rd, rs1, rs2, width: w }),
                Err(e) => Err(e),
            }
        },
        46 => {
            match width_from_code(aux) {
                Ok(w) => Ok(Instruction::VMul { rd, rs1, rs2, width: w }),
                Err(e) => Err(e),
            }
        },
        47 => {
            match width_from_code(aux) {
                Ok(w) => Ok(Instruction::VDot { rd, rs1, rs2, width: w }),
                Err(e) => Err(e),
            }
        },
        48 => Ok(Instruction::VAnd { rd, rs1, rs2 }),
        49 => Ok(Instruction::VOr { rd, rs1, rs2 }),
        50 => Ok(Instruction::VXor { rd, rs1, rs2 }),
        51 => Ok(Instruction::VNot { rd, rs1 }),
        52 => {
            match width_from_code(aux) {
                Ok(w) => Ok(Instruction::VSplat { rd, rs1, width: w }),
                Err(e) => Err(e),
            }
        },
        53 => {
            match width_from_code(aux) {
                Ok(w) => Ok(Instruction::VReduce { rd, rs1, width: w }),
                Err(e) => Err(e),
            }
        },
        54 => Ok(Instruction::Zipper { rd, rs1, rs2 }),
        83 => Ok(Instruction::Zipper2 { rd, rs1, rs2 }),
        55 => Ok(Instruction::Trunc { rd, rs1, eps_bits: imm as u64 }),
        56 => Ok(Instruction::TMul { rd, rs1, rs2 }),
        57 => Ok(Instruction::TDot { rd, rs1, rs2 }),
        58 => {
            match act_from_code(aux) {
                Ok(a) => Ok(Instruction::TAct { rd, rs1, func: a }),
                Err(e) => Err(e),
            }
        },
        59 => Ok(Instruction::TSoftmax { rd, rs1 }),
        60 => Ok(Instruction::Ntt { rd, rs1 }),
        61 => Ok(Instruction::InvNtt { rd, rs1 }),
        62 => Ok(Instruction::PolyMul { rd, rs1, rs2 }),
        63 => Ok(Instruction::ModRed { rd, rs1, modulus: imm as u64 }),
        64 => Ok(Instruction::PolyAdd { rd, rs1, rs2 }),
        65 => Ok(Instruction::Entropy { rd, rs1 }),
        66 => Ok(Instruction::Hamming { rd, rs1, rs2 }),
        67 => Ok(Instruction::PopCnt { rd, rs1 }),
        68 => Ok(Instruction::QRand { rd }),
        69 => Ok(Instruction::CAdd { rd, rs1, rs2 }),
        70 => Ok(Instruction::CSub { rd, rs1, rs2 }),
        71 => Ok(Instruction::CMul { rd, rs1, rs2 }),
        72 => Ok(Instruction::CConj { rd, rs1 }),
        73 => Ok(Instruction::CNorm { rd, rs1 }),
        74 => Ok(Instruction::CMag { rd, rs1 }),
        75 => Ok(Instruction::Ecall),
        76 => Ok(Instruction::Halt),
        77 => Ok(Instruction::Nop),
        78 => Ok(Instruction::Fence),
        79 => Ok(Instruction::CsrR { rd, csr: aux as u16 }),
        80 => Ok(Instruction::CsrW { csr: aux as u16, rs1 }),
        81 => Ok(Instruction::Mv { rd, rs1 }),
        82 => Ok(Instruction::Li { rd, imm }),
        _ => {
            let mut e = String::from_str("unknown opcode 0x");
            push_hex_padded(&mut e, op as u64, 2);
            Err(e)
        },
    }
}

/// Decodes one 16-byte instruction record; longer input is read from its
/// first 16 bytes.
pub fn decode_instruction(bytes: &[u8]) -> (r: Result<Instruction, String>)
    ensures
        match decode_spec(bytes@) {
            Ok(i) => r == Ok::<Instruction, String>(i),
            Err(m) => r matches Err(e) && e@ == m,
        },
{
    if bytes.len() < INSTRUCTION_BYTES {
        let mut e = String::from_str("instruction record truncated: got ");
        push_dec(&mut e, bytes.len() as u64);
        e.append(" bytes, need 16");
        return Err(e);
    }
    let aux = read_le(bytes, 4, 4);
    let imm = read_le(bytes, 8, 8);
    proof {
        crate::memory::lemma_le_num_bound(bytes@.subrange(4, 8));
        reveal_with_fuel(pow256, 5);
    }
    decode_from_fields(bytes[0], bytes[1], bytes[2], bytes[3], aux as u32, imm as i64)
}

/// Decoding the record of an instruction gives the instruction back, for
/// every instruction.
pub proof fn law_decode_encode(i: Instruction)
    ensures
        decode_spec(encode_spec(i)) == Ok::<Instruction, Seq<char>>(i),
{
    let f = fields_of(i);
    let e = encode_spec(i);
    let head = seq![f.0, f.1, f.2, f.3];
    let aux = le_encode(f.4 as nat, 4);
    let imm = le_encode((f.5 as u64) as nat, 8);
    lemma_le_encode_len(f.4 as nat, 4);
    lemma_le_encode_len((f.5 as u64) as nat, 8);
    reveal_with_fuel(pow256, 9);
    law_le_roundtrip(f.4 as nat, 4);
    law_le_roundtrip((f.5 as u64) as nat, 8);
    assert(e.subrange(4, 8) =~= aux);
    assert(e.subrange(8, 16) =~= imm);
    let x = f.5;
    assert((x as u64) as i64 == x) by (bit_vector);
    lemma_fields_roundtrip(i);
}

#[verifier::rlimit(40)]
pub proof fn lemma_fields_roundtrip(i: Instruction)
    ensures
        decode_fields(
            fields_of(i).0,
            fields_of(i).1,
            fields_of(i).2,
            fields_of(i).3,
            fields_of(i).4,
            fields_of(i).5,
        ) == Ok::<Instruction, Seq<char>>(i),
{
    match i {
        Instruction::Trunc { rd, rs1, eps_bits } => {
            assert((eps_bits as i64) as u64 == eps_bits) by (bit_vector);
        },
        Instruction::ModRed { rd, rs1, modulus } => {
            assert((modulus as i64) as u64 == modulus) by (bit_vector);
        },
        _ => {},
    }
}

/// Whether two instructions are of the same kind, whatever their operands.
pub open spec fn same_kind(i1: Instruction, i2: Instruction) -> bool {
    match (i1, i2) {
        (Instruction::Add { .. }, Instruction::Add { .. }) => true,
        (Instruction::Sub { .. }, Instruction::Sub { .. }) => true,
        (Instruction::Mul { .. }, Instruction::Mul { .. }) => true,
        (Instruction::MulH { .. }, Instruction::MulH { .. }) => true,
        (Instruction::Div { .. }, Instruction::Div { .. }) => true,
        (Instruction::Rem { .. }, Instruction::Rem { .. }) => true,
        (Instruction::And { .. }, Instruction::And { .. }) => true,
        (Instruction::Or { .. }, Instruction::Or { .. }) => true,
        (Instruction::Xor { .. }, Instruction::Xor { .. }) => true,
        (Instruction::Sll { .. }, Instruction::Sll { .. }) => true,
        (Instruction::Srl { .. }, Instruction::Srl { .. }) => true,
        (Instruction::Sra { .. }, Instruction::Sra { .. }) => true,
        (Instruction::Slt { .. }, Instruction::Slt { .. }) => true,
        (Instruction::Sltu { .. }, Instruction::Sltu { .. }) => true,
        (Instruction::Addi { .. }, Instruction::Addi { .. }) => true,
        (Instruction::Andi { .. }, Instruction::Andi { .. }) => true,
        (Instruction::Ori { .. }, Instruction::Ori { .. }) => true,
        (Instruction::Xori { .. }, Instruction::Xori { .. }) => true,
        (Instruction::Slli { .. }, Instruction::Slli { .. }) => true,
        (Instruction::Srli { .. }, Instruction::Srli { .. }) => true,
        (Instruction::Srai { .. }, Instruction::Srai { .. }) => true,
        (Instruction::Slti { .. }, Instruction::Slti { .. }) => true,
        (Instruction::Sltiu { .. }, Instruction::Sltiu { .. }) => true,
        (Instruction::Lui { .. }, Instruction::Lui { .. }) => true,
        (Instruction::Ld { .. }, Instruction::Ld { .. }) => true,
        (Instruction::Lw { .. }, Instruction::Lw { .. }) => true,
        (Instruction::Lh { .. }, Instruction::Lh { .. }) => true,
        (Instruction::Lb { .. }, Instruction::Lb { .. }) => true,
        (Instruction::Lbu { .. }, Instruction::Lbu { .. }) => true,
        (Instruction::Lq { .. }, Instruction::Lq { .. }) => true,
        (Instruction::Sd { .. }, Instruction::Sd { .. }) => true,
        (Instruction::Sw { .. }, Instruction::Sw { .. }) => true,
        (Instruction::Sh { .. }, Instruction::Sh { .. }) => true,
        (Instruction::Sb { .. }, Instruction::Sb { .. }) => true,
        (Instruction::Sq { .. }, Instruction::Sq { .. }) => true,
        (Instruction::Beq { .. }, Instruction::Beq { .. }) => true,
        (Instruction::Bne { .. }, Instruction::Bne { .. }) => true,
        (Instruction::Blt { .. }, Instruction::Blt { .. }) => true,
        (Instruction::Bge { .. }, Instruction::Bge { .. }) => true,
        (Instruction::Bltu { .. }, Instruction::Bltu { .. }) => true,
        (Instruction::Bgeu { .. }, Instruction::Bgeu { .. }) => true,
        (Instruction::Jal { .. }, Instruction::Jal { .. }) => true,
        (Instruction::Jalr { .. }, Instruction::Jalr { .. }) => true,
        (Instruction::VAdd { .. }, Instruction::VAdd { .. }) => true,
        (Instruction::VSub { .. }, Instruction::VSub { .. }) => true,
        (Instruction::VMul { .. }, Instruction::VMul { .. }) => true,
        (Instruction::VDot { .. }, Instruction::VDot { .. }) => true,
        (Instruction::VAnd { .. }, Instruction::VAnd { .. }) => true,
        (Instruction::VOr { .. }, Instruction::VOr { .. }) => true,
        (Instruction::VXor { .. }, Instruction::VXor { .. }) => true,
        (Instruction::VNot { .. }, Instruction::VNot { .. }) => true,
        (Instruction::VSplat { .. }, Instruction::VSplat { .. }) => true,
        (Instruction::VReduce { .. }, Instruction::VReduce { .. }) => true,
        (Instruction::Zipper { .. }, Instruction::Zipper { .. }) => true,
        (Instruction::Zipper2 { .. }, Instruction::Zipper2 { .. }) => true,
        (Instruction::Trunc { .. }, Instruction::Trunc { .. }) => true,
        (Instruction::TMul { .. }, Instruction::TMul { .. }) => true,
        (Instruction::TDot { .. }, Instruction::TDot { .. }) => true,
        (Instruction::TAct { .. }, Instruction::TAct { .. }) => true,
        (Instruction::TSoftmax { .. }, Instruction::TSoftmax { .. }) => true,
        (Instruction::Ntt { .. }, Instruction::Ntt { .. }) => true,
        (Instruction::InvNtt { .. }, Instruction::InvNtt { .. }) => true,
        (Instruction::PolyMul { .. }, Instruction::PolyMul { .. }) => true,
        (Instruction::ModRed { .. }, Instruction::ModRed { .. }) => true,
        (Instruction::PolyAdd { .. }, Instruction::PolyAdd { .. }) => true,
        (Instruction::Entropy { .. }, Instruction::Entropy { .. }) => true,
        (Instruction::Hamming { .. }, Instruction::Hamming { .. }) => true,
        (Instruction::PopCnt { .. }, Instruction::PopCnt { .. }) => true,
        (Instruction::QRand { .. }, Instruction::QRand { .. }) => true,
        (Instruction::CAdd { .. }, Instruction::CAdd { .. }) => true,
        (Instruction::CSub { .. }, Instruction::CSub { .. }) => true,
        (Instruction::CMul { .. }, Instruction::CMul { .. }) => true,
        (Instruction::CConj { .. }, Instruction::CConj { .. }) => true,
        (Instruction::CNorm { .. }, Instruction::CNorm { .. }) => true,
        (Instruction::CMag { .. }, Instruction::CMag { .. }) => true,
        (Instruction::Ecall { .. }, Instruction::Ecall { .. }) => true,
        (Instruction::Halt { .. }, Instruction::Halt { .. }) => true,
        (Instruction::Nop { .. }, Instruction::Nop { .. }) => true,
        (Instruction::Fence { .. }, Instruction::Fence { .. }) => true,
        (Instruction::CsrR { .. }, Instruction::CsrR { .. }) => true,
        (Instruction::CsrW { .. }, Instruction::CsrW { .. }) => true,
        (Instruction::Mv { .. }, Instruction::Mv { .. }) => true,
        (Instruction::Li { .. }, Instruction::Li { .. }) => true,
        _ => false,
    }
}

/// The opcode of an instruction's record.
pub open spec fn opcode(i: Instruction) -> u8 {
    fields_of(i).0
}

/// Decoding one opcode always gives instructions of one kind.
proof fn lemma_decode_one_kind(op: u8, a: (u8, u8, u8, u32, i64), b: (u8, u8, u8, u32, i64))
    requires
        decode_fields(op, a.0, a.1, a.2, a.3, a.4) is Ok,
        decode_fields(op, b.0, b.1, b.2, b.3, b.4) is Ok,
    ensures
        same_kind(decode_fields(op, a.0, a.1, a.2, a.3, a.4)->Ok_0, decode_fields(op, b.0, b.1, b.2, b.3, b.4)->Ok_0),
{
}

/// Every kind of instruction has an opcode of its own, from 1 to 83: two
/// instructions have the same opcode exactly when they are of the same kind.
proof fn lemma_opcode_range(i: Instruction)
    ensures
        1 <= opcode(i) <= 83,
{
}

proof fn lemma_same_kind_same_opcode(i1: Instruction, i2: Instruction)
    requires
        same_kind(i1, i2),
    ensures
        opcode(i1) == opcode(i2),
{
    match i1 {
        Instruction::Add { .. } => {
            assert(i2 is Add);
        },
        Instruction::Sub { .. } => {
            assert(i2 is Sub);
        },
        Instruction::Mul { .. } => {
            assert(i2 is Mul);
        },
        Instruction::MulH { .. } => {
            assert(i2 is MulH);
        },
        Instruction::Div { .. } => {
            assert(i2 is Div);
        },
        Instruction::Rem { .. } => {
            assert(i2 is Rem);
        },
        Instruction::And { .. } => {
            assert(i2 is And);
        },
        Instruction::Or { .. } => {
            assert(i2 is Or);
        },
        Instruction::Xor { .. } => {
            assert(i2 is Xor);
        },
        Instruction::Sll { .. } => {
            assert(i2 is Sll);
        },
        Instruction::Srl { .. } => {
            assert(i2 is Srl);
        },
        Instruction::Sra { .. } => {
            assert(i2 is Sra);
        },
        Instruction::Slt { .. } => {
            assert(i2 is Slt);
        },
        Instruction::Sltu { .. } => {
            assert(i2 is Sltu);
        },
        Instruction::Addi { .. } => {
            assert(i2 is Addi);
        },
        Instruction::Andi { .. } => {
            assert(i2 is Andi);
        },
        Instruction::Ori { .. } => {
            assert(i2 is Ori);
        },
        Instruction::Xori { .. } => {
            assert(i2 is Xori);
        },
        Instruction::Slli { .. } => {
            assert(i2 is Slli);
        },
        Instruction::Srli { .. } => {
            assert(i2 is Srli);
        },
        Instruction::Srai { .. } => {
            assert(i2 is Srai);
        },
        Instruction::Slti { .. } => {
            assert(i2 is Slti);
        },
        Instruction::Sltiu { .. } => {
            assert(i2 is Sltiu);
        },
        Instruction::Lui { .. } => {
            assert(i2 is Lui);
        },
        Instruction::Ld { .. } => {
            assert(i2 is Ld);
        },
        Instruction::Lw { .. } => {
            assert(i2 is Lw);
        },
        Instruction::Lh { .. } => {
            assert(i2 is Lh);
        },
        Instruction::Lb { .. } => {
            assert(i2 is Lb);
        },
        Instruction::Lbu { .. } => {
            assert(i2 is Lbu);
        },
        Instruction::Lq { .. } => {
            assert(i2 is Lq);
        },
        Instruction::Sd { .. } => {
            assert(i2 is Sd);
        },
        Instruction::Sw { .. } => {
            assert(i2 is Sw);
        },
        Instruction::Sh { .. } => {
            assert(i2 is Sh);
        },
        Instruction::Sb { .. } => {
            assert(i2 is Sb);
        },
        Instruction::Sq { .. } => {
            assert(i2 is Sq);
        },
        Instruction::Beq { .. } => {
            assert(i2 is Beq);
        },
        Instruction::Bne { .. } => {
            assert(i2 is Bne);
        },
        Instruction::Blt { .. } => {
            assert(i2 is Blt);
        },
        Instruction::Bge { .. } => {
            assert(i2 is Bge);
        },
        Instruction::Bltu { .. } => {
            assert(i2 is Bltu);
        },
        Instruction::Bgeu { .. } => {
            assert(i2 is Bgeu);
        },
        Instruction::Jal { .. } => {
            assert(i2 is Jal);
        },
        Instruction::Jalr { .. } => {
            assert(i2 is Jalr);
        },
        Instruction::VAdd { .. } => {
            assert(i2 is VAdd);
        },
        Instruction::VSub { .. } => {
            assert(i2 is VSub);
        },
        Instruction::VMul { .. } => {
            assert(i2 is VMul);
        },
        Instruction::VDot { .. } => {
            assert(i2 is VDot);
        },
        Instruction::VAnd { .. } => {
            assert(i2 is VAnd);
        },
        Instruction::VOr { .. } => {
            assert(i2 is VOr);
        },
        Instruction::VXor { .. } => {
            assert(i2 is VXor);
        },
        Instruction::VNot { .. } => {
            assert(i2 is VNot);
        },
        Instruction::VSplat { .. } => {
            assert(i2 is VSplat);
        },
        Instruction::VReduce { .. } => {
            assert(i2 is VReduce);
        },
        Instruction::Zipper { .. } => {
            assert(i2 is Zipper);
        },
        Instruction::Zipper2 { .. } => {
            assert(i2 is Zipper2);
        },
        Instruction::Trunc { .. } => {
            assert(i2 is Trunc);
        },
        Instruction::TMul { .. } => {
            assert(i2 is TMul);
        },
        Instruction::TDot { .. } => {
            assert(i2 is TDot);
        },
        Instruction::TAct { .. } => {
            assert(i2 is TAct);
        },
        Instruction::TSoftmax { .. } => {
            assert(i2 is TSoftmax);
        },
        Instruction::Ntt { .. } => {
            assert(i2 is Ntt);
        },
        Instruction::InvNtt { .. } => {
            assert(i2 is InvNtt);
        },
        Instruction::PolyMul { .. } => {
            assert(i2 is PolyMul);
        },
        Instruction::ModRed { .. } => {
            assert(i2 is ModRed);
        },
        Instruction::PolyAdd { .. } => {
            assert(i2 is PolyAdd);
        },
        Instruction::Entropy { .. } => {
            assert(i2 is Entropy);
        },
        Instruction::Hamming { .. } => {
            assert(i2 is Hamming);
        },
        Instruction::PopCnt { .. } => {
            assert(i2 is PopCnt);
        },
        Instruction::QRand { .. } => {
            assert(i2 is QRand);
        },
        Instruction::CAdd { .. } => {
            assert(i2 is CAdd);
        },
        Instruction::CSub { .. } => {
            assert(i2 is CSub);
        },
        Instruction::CMul { .. } => {
            assert(i2 is CMul);
        },
        Instruction::CConj { .. } => {
            assert(i2 is CConj);
        },
        Instruction::CNorm { .. } => {
            assert(i2 is CNorm);
        },
        Instruction::CMag { .. } => {
            assert(i2 is CMag);
        },
        Instruction::Ecall { .. } => {
            assert(i2 is Ecall);
        },
        Instruction::Halt { .. } => {
            assert(i2 is Halt);
        },
        Instruction::Nop { .. } => {
            assert(i2 is Nop);
        },
        Instruction::Fence { .. } => {
            assert(i2 is Fence);
        },
        Instruction::CsrR { .. } => {
            assert(i2 is CsrR);
        },
        Instruction::CsrW { .. } => {
            assert(i2 is CsrW);
        },
        Instruction::Mv { .. } => {
            assert(i2 is Mv);
        },
        Instruction::Li { .. } => {
            assert(i2 is Li);
        },
    }
}

proof fn lemma_same_opcode_same_kind(i1: Instruction, i2: Instruction)
    requires
        opcode(i1) == opcode(i2),
    ensures
        same_kind(i1, i2),
{
    lemma_fields_roundtrip(i1);
    lemma_fields_roundtrip(i2);
    let f1 = fields_of(i1);
    let f2 = fields_of(i2);
    lemma_decode_one_kind(f1.0, (f1.1, f1.2, f1.3, f1.4, f1.5), (f2.1, f2.2, f2.3, f2.4, f2.5));
}

/// Every kind of instruction has an opcode of its own, from 1 to 83: two
/// instructions have the same opcode exactly when they are of the same kind.
pub proof fn law_opcodes_distinct(i1: Instruction, i2: Instruction)
    ensures
        1 <= opcode(i1) <= 83,
        opcode(i1) == opcode(i2) <==> same_kind(i1, i2),
{
    lemma_opcode_range(i1);
    if opcode(i1) == opcode(i2) {
        lemma_same_opcode_same_kind(i1, i2);
    }
    if same_kind(i1, i2) {
        lemma_same_kind_same_opcode(i1, i2);
    }
}

// ─── Object files ───────────────────────────────────────────────────────────

/// An assembled program in loadable form.
#[derive(Clone, Debug, PartialEq, Eq)]
pub struct Object {
    pub entry_point: u64,
    pub code: Vec<Instruction>,
    pub data: Vec<(u64, Vec<u8>)>,
}

/// Data segments as addresses and byte sequences.
pub open spec fn segs_view(d: Seq<(u64, Vec<u8>)>) -> Seq<(u64, Seq<u8>)> {
    Seq::new(d.len(), |i: int| (d[i].0, d[i].1@))
}

impl Object {
    /// The data segments as addresses and byte sequences.
    pub open spec fn segs(&self) -> Seq<(u64, Seq<u8>)> {
        segs_view(self.data@)
    }
}

/// The records of a sequence of instructions, one after the other.
pub open spec fn code_bytes(code: Seq<Instruction>) -> Seq<u8>
    decreases code.len(),
{
    if code.len() == 0 {
        Seq::empty()
    } else {
        code_bytes(code.drop_last()) + encode_spec(code.last())
    }
}

/// The bytes of data segments: address, length, then the bytes, each.
pub open spec fn segs_bytes(segs: Seq<(u64, Seq<u8>)>) -> Seq<u8>
    decreases segs.len(),
{
    if segs.len() == 0 {
        Seq::empty()
    } else {
        segs_bytes(segs.drop_last()) + le_encode(segs.last().0 as nat, 8) + le_encode(
            segs.last().1.len(),
            8,
        ) + segs.last().1
    }
}

/// The object file of a program.
pub open spec fn object_bytes(entry: u64, code: Seq<Instruction>, segs: Seq<(u64, Seq<u8>)>) -> Seq<u8> {
    magic() + le_encode(1, 2) + le_encode(0, 2) + le_encode(entry as nat, 8) + le_encode(
        code.len(),
        8,
    ) + le_encode(segs.len(), 8) + code_bytes(code) + segs_bytes(segs)
}

fn push_all(out: &mut Vec<u8>, b: &[u8])
    ensures
        final(out)@ == old(out)@ + b@,
{
    let n = b.len();
    for i in 0..n
        invariant
            n == b@.len(),
            out@ == old(out)@ + b@.subrange(0, i as int),
    {
        out.push(b[i]);
        assert(out@ =~= old(out)@ + b@.subrange(0, i + 1));
    }
    assert(b@.subrange(0, n as int) =~= b@);
}

fn push_le(out: &mut Vec<u8>, v: u64, n: usize)
    ensures
        final(out)@ == old(out)@ + le_encode(v as nat, n as nat),
{
    let b = encode_le(v, n);
    push_all(out, b.as_slice());
}

/// Serialises a program into the object format.
pub fn write_object(obj: &Object) -> (r: Vec<u8>)
    ensures
        r@ == object_bytes(obj.entry_point, obj.code@, obj.segs()),
{
    let mut out: Vec<u8> = Vec::new();
    let m = magic_bytes();
    push_all(&mut out, &m);
    push_le(&mut out, VERSION as u64, 2);
    push_le(&mut out, 0, 2);
    push_le(&mut out, obj.entry_point, 8);
    push_le(&mut out, obj.code.len() as u64, 8);
    push_le(&mut out, obj.data.len() as u64, 8);
    let ghost head = out@;
    let n = obj.code.len();
    for i in 0..n
        invariant
            n == obj.code@.len(),
            out@ == head + code_bytes(obj.code@.subrange(0, i as int)),
    {
        let rec = encode_instruction(&obj.code[i]);
        push_all(&mut out, &rec);
        proof {
            let c = obj.code@.subrange(0, i + 1);
            assert(c.drop_last() =~= obj.code@.subrange(0, i as int));
        }
    }
    assert(obj.code@.subrange(0, n as int) =~= obj.code@);
    let ghost mid = out@;
    let d = obj.data.len();
    for i in 0..d
        invariant
            d == obj.data@.len(),
            out@ == mid + segs_bytes(obj.segs().subrange(0, i as int)),
    {
        let seg = &obj.data[i];
        push_le(&mut out, seg.0, 8);
        push_le(&mut out, seg.1.len() as u64, 8);
        push_all(&mut out, seg.1.as_slice());
        proof {
            let s = obj.segs().subrange(0, i + 1);
            assert(s.drop_last() =~= obj.segs().subrange(0, i as int));
            assert(s.last() == (seg.0, seg.1@));
        }
    }
    assert(obj.segs().subrange(0, d as int) =~= obj.segs());
    out
}

/// The message of a file shorter than the header.
pub open spec fn short_file_msg(len: nat) -> Seq<char> {
    "not a Unibit object: "@ + dec_chars(len) + " bytes is shorter than the 32-byte header"@
}

/// Debug form of four bytes: `[a, b, c, d]`.
pub open spec fn bytes4_chars(b: Seq<u8>) -> Seq<char> {
    "["@ + dec_chars(b[0] as nat) + ", "@ + dec_chars(b[1] as nat) + ", "@ + dec_chars(b[2] as nat)
        + ", "@ + dec_chars(b[3] as nat) + "]"@
}

/// The message of a wrong magic number.
pub open spec fn bad_magic_msg(found: Seq<u8>) -> Seq<char> {
    "bad magic: expected "@ + bytes4_chars(magic()) + ", found "@ + bytes4_chars(found)
}

/// The message of an unsupported format version.
pub open spec fn bad_version_msg(v: nat) -> Seq<char> {
    "unsupported object version "@ + dec_chars(v) + " (this build reads version 1)"@
}

/// The message of an instruction count whose byte size overflows.
pub open spec fn code_overflow_msg(n: nat) -> Seq<char> {
    "code length "@ + dec_chars(n) + " overflows"@
}

/// The message of a code section that runs past the end of the file.
pub open spec fn truncated_code_msg(n: nat, avail: nat) -> Seq<char> {
    "truncated code section: header declares "@ + dec_chars(n) + " instructions ("@ + dec_chars(
        n * 16,
    ) + " bytes), "@ + dec_chars(avail) + " bytes available"@
}

/// The message of a data segment header that runs past the end of the file.
pub open spec fn truncated_seg_header_msg(i: nat) -> Seq<char> {
    "truncated data segment header "@ + dec_chars(i)
}

/// The message of a data segment that runs past the end of the file.
pub open spec fn truncated_seg_msg(i: nat, len: nat, avail: nat) -> Seq<char> {
    "truncated data segment "@ + dec_chars(i) + ": declares "@ + dec_chars(len) + " bytes, "@
        + dec_chars(avail) + " available"@
}

/// The message of an instruction record that does not decode.
pub open spec fn bad_record_msg(i: nat, e: Seq<char>) -> Seq<char> {
    "instruction "@ + dec_chars(i) + ": "@ + e
}

/// The first `n` instruction records of `buf`, decoded, or the message of
/// the first one that does not decode.
pub open spec fn parse_code(buf: Seq<u8>, n: nat) -> Result<Seq<Instruction>, Seq<char>>
    decreases n,
{
    if n == 0 {
        Ok(Seq::empty())
    } else {
        match parse_code(buf, (n - 1) as nat) {
            Err(m) => Err(m),
            Ok(code) => {
                let at = 32 + (n - 1) * 16;
                match decode_spec(buf.subrange(at, at + 16)) {
                    Ok(i) => Ok(code.push(i)),
                    Err(e) => Err(bad_record_msg((n - 1) as nat, e)),
                }
            },
        }
    }
}

/// The first `n` data segments of `buf` starting at byte `start`, with
/// the position after them, or the message of the first one that is cut.
pub open spec fn parse_segs(buf: Seq<u8>, start: int, n: nat) -> Result<
    (Seq<(u64, Seq<u8>)>, int),
    Seq<char>,
>
    decreases n,
{
    if n == 0 {
        Ok((Seq::empty(), start))
    } else {
        match parse_segs(buf, start, (n - 1) as nat) {
            Err(m) => Err(m),
            Ok((segs, cur)) => {
                if cur + 16 > buf.len() {
                    Err(truncated_seg_header_msg((n - 1) as nat))
                } else {
                    let addr = le_num(buf.subrange(cur, cur + 8)) as u64;
                    let len = (le_num(buf.subrange(cur + 8, cur + 16)) as u64) as usize;
                    let body = cur + 16;
                    if body + len > buf.len() {
                        Err(truncated_seg_msg((n - 1) as nat, len as nat, (buf.len() - body) as nat))
                    } else {
                        Ok((segs.push((addr, buf.subrange(body, body + len))), body + len))
                    }
                }
            },
        }
    }
}

/// The program an object file holds, or the message of the first problem.
pub open spec fn parse_object(buf: Seq<u8>) -> Result<(u64, Seq<Instruction>, Seq<(u64, Seq<u8>)>), Seq<char>> {
    if buf.len() < 32 {
        Err(short_file_msg(buf.len()))
    } else if buf.subrange(0, 4) != magic() {
        Err(bad_magic_msg(buf.subrange(0, 4)))
    } else if le_num(buf.subrange(4, 6)) != 1 {
        Err(bad_version_msg(le_num(buf.subrange(4, 6))))
    } else {
        let entry = le_num(buf.subrange(8, 16)) as u64;
        let code_len = (le_num(buf.subrange(16, 24)) as u64) as usize;
        let data_len = le_num(buf.subrange(24, 32)) as u64;
        if code_len * 16 > usize::MAX {
            Err(code_overflow_msg(code_len as nat))
        } else if buf.len() < 32 + code_len * 16 {
            Err(truncated_code_msg(code_len as nat, (buf.len() - 32) as nat))
        } else {
            match parse_code(buf, code_len as nat) {
                Err(m) => Err(m),
                Ok(code) => match parse_segs(buf, 32 + code_len * 16, data_len as nat) {
                    Err(m) => Err(m),
                    Ok((segs, _)) => Ok((entry, code, segs)),
                },
            }
        }
    }
}

proof fn lemma_parse_code_err(buf: Seq<u8>, k: nat, n: nat)
    requires
        k <= n,
        parse_code(buf, k) is Err,
    ensures
        parse_code(buf, n) == parse_code(buf, k),
    decreases n,
{
    if n > k {
        lemma_parse_code_err(buf, k, (n - 1) as nat);
    }
}

proof fn lemma_parse_segs_err(buf: Seq<u8>, start: int, k: nat, n: nat)
    requires
        k <= n,
        parse_segs(buf, start, k) is Err,
    ensures
        parse_segs(buf, start, n) == parse_segs(buf, start, k),
    decreases n,
{
    if n > k {
        lemma_parse_segs_err(buf, start, k, (n - 1) as nat);
    }
}

fn push_bytes4(e: &mut String, b: &[u8])
    requires
        b@.len() >= 4,
    ensures
        final(e)@ == old(e)@ + bytes4_chars(b@.subrange(0, 4)),
{
    let ghost start = e@;
    e.append("[");
    push_dec(e, b[0] as u64);
    e.append(", ");
    push_dec(e, b[1] as u64);
    e.append(", ");
    push_dec(e, b[2] as u64);
    e.append(", ");
    push_dec(e, b[3] as u64);
    e.append("]");
    assert(e@ =~= start + bytes4_chars(b@.subrange(0, 4)));
}

/// Parses an object file. Every length is checked against the buffer
/// before it is used, so a truncated or hostile file gives an error.
pub fn read_object(buf: &[u8]) -> (r: Result<Object, String>)
    ensures
        match parse_object(buf@) {
            Ok(p) => r matches Ok(o) && o.entry_point == p.0 && o.code@ == p.1 && o.segs() == p.2,
            Err(m) => r matches Err(e) && e@ == m,
        },
{
    if buf.len() < HEADER_BYTES {
        let mut e = String::from_str("not a Unibit object: ");
        push_dec(&mut e, buf.len() as u64);
        e.append(" bytes is shorter than the 32-byte header");
        return Err(e);
    }
    let m = magic_bytes();
    if buf[0] != m[0] || buf[1] != m[1] || buf[2] != m[2] || buf[3] != m[3] {
        proof {
            if buf@.subrange(0, 4) == magic() {
                assert(buf@.subrange(0, 4)[0] == buf[0]);
                assert(buf@.subrange(0, 4)[1] == buf[1]);
                assert(buf@.subrange(0, 4)[2] == buf[2]);
                assert(buf@.subrange(0, 4)[3] == buf[3]);
            }
        }
        let mut e = String::from_str("bad magic: expected ");
        push_bytes4(&mut e, &m);
        e.append(", found ");
        push_bytes4(&mut e, buf);
        assert(m@.subrange(0, 4) =~= magic());
        return Err(e);
    }
    assert(buf@.subrange(0, 4) =~= magic());
    let version = read_le(buf, 4, 2);
    if version != VERSION as u64 {
        let mut e = String::from_str("unsupported object version ");
        push_dec(&mut e, version);
        e.append(" (this build reads version 1)");
        return Err(e);
    }
    let entry_point = read_le(buf, 8, 8);
    let code_len = read_le(buf, 16, 8) as usize;
    let data_len = read_le(buf, 24, 8);
    if code_len > usize::MAX / INSTRUCTION_BYTES {
        let mut e = String::from_str("code length ");
        push_dec(&mut e, code_len as u64);
        e.append(" overflows");
        return Err(e);
    }
    let code_bytes = code_len * INSTRUCTION_BYTES;
    if buf.len() - HEADER_BYTES < code_bytes {
        assert(buf@.len() < 32 + code_len * 16);
        let mut e = String::from_str("truncated code section: header declares ");
        push_dec(&mut e, code_len as u64);
        e.append(" instructions (");
        push_dec(&mut e, code_bytes as u64);
        e.append(" bytes), ");
        push_dec(&mut e, (buf.len() - HEADER_BYTES) as u64);
        e.append(" bytes available");
        return Err(e);
    }
    let ghost later = match parse_code(buf@, code_len as nat) {
        Err(m) => Err(m),
        Ok(code) => match parse_segs(buf@, 32 + code_len * 16, data_len as nat) {
            Err(m) => Err(m),
            Ok((segs, _)) => Ok((entry_point, code, segs)),
        },
    };
    assert(parse_object(buf@) == later);
    let mut code: Vec<Instruction> = Vec::new();
    let blen = buf.len();
    for i in 0..code_len
        invariant
            blen == buf@.len(),
            code_len * 16 <= buf@.len() - 32,
            buf@.len() >= 32,
            parse_object(buf@) == later,
            later == match parse_code(buf@, code_len as nat) {
                Err(m) => Err(m),
                Ok(code) => match parse_segs(buf@, 32 + code_len * 16, data_len as nat) {
                    Err(m) => Err(m),
                    Ok((segs, _)) => Ok((entry_point, code, segs)),
                },
            },
            parse_code(buf@, i as nat) == Ok::<Seq<Instruction>, Seq<char>>(code@),
    {
        assert((i as int) * 16 + 16 <= code_len * 16) by (nonlinear_arith)
            requires
                i < code_len,
        ;
        let at = HEADER_BYTES + i * INSTRUCTION_BYTES;
        let rec = vstd::slice::slice_subrange(buf, at, at + INSTRUCTION_BYTES);
        match decode_instruction(rec) {
            Ok(inst) => {
                code.push(inst);
            },
            Err(d) => {
                let mut e = String::from_str("instruction ");
                push_dec(&mut e, i as u64);
                e.append(": ");
                e.append(d.as_str());
                proof {
                    lemma_parse_code_err(buf@, (i + 1) as nat, code_len as nat);
                }
                return Err(e);
            },
        }
    }
    let mut cursor = HEADER_BYTES + code_bytes;
    let mut data: Vec<(u64, Vec<u8>)> = Vec::new();
    let mut i: u64 = 0;
    assert(segs_view(data@) =~= Seq::<(u64, Seq<u8>)>::empty());
    while i < data_len
        invariant
            i <= data_len,
            cursor <= buf@.len(),
            parse_object(buf@) == later,
            later == match parse_code(buf@, code_len as nat) {
                Err(m) => Err(m),
                Ok(code) => match parse_segs(buf@, 32 + code_len * 16, data_len as nat) {
                    Err(m) => Err(m),
                    Ok((segs, _)) => Ok((entry_point, code, segs)),
                },
            },
            parse_segs(buf@, 32 + code_len * 16, i as nat) == Ok::<
                (Seq<(u64, Seq<u8>)>, int),
                Seq<char>,
            >((segs_view(data@), cursor as int)),
            parse_code(buf@, code_len as nat) == Ok::<Seq<Instruction>, Seq<char>>(code@),
        decreases data_len - i,
    {
        if buf.len() - cursor < 16 {
            let mut e = String::from_str("truncated data segment header ");
            push_dec(&mut e, i);
            proof {
                lemma_parse_segs_err(buf@, 32 + code_len * 16, (i + 1) as nat, data_len as nat);
            }
            return Err(e);
        }
        let addr = read_le(buf, cursor, 8);
        let len = read_le(buf, cursor + 8, 8) as usize;
        cursor = cursor + 16;
        if buf.len() - cursor < len {
            let mut e = String::from_str("truncated data segment ");
            push_dec(&mut e, i);
            e.append(": declares ");
            push_dec(&mut e, len as u64);
            e.append(" bytes, ");
            push_dec(&mut e, (buf.len() - cursor) as u64);
            e.append(" available");
            proof {
                lemma_parse_segs_err(buf@, 32 + code_len * 16, (i + 1) as nat, data_len as nat);
            }
            return Err(e);
        }
        let seg = vstd::slice::slice_subrange(buf, cursor, cursor + len);
        let mut bytes: Vec<u8> = Vec::new();
        push_all(&mut bytes, seg);
        let ghost before = data@;
        data.push((addr, bytes));
        assert(segs_view(data@) =~= segs_view(before).push((addr, seg@)));
        cursor = cursor + len;
        i = i + 1;
    }
    Ok(Object { entry_point, code, data })
}


// ─── Round trip of object files ─────────────────────────────────────────────

proof fn lemma_encode_len(i: Instruction)
    ensures
        encode_spec(i).len() == 16,
{
    let f = fields_of(i);
    lemma_le_encode_len(f.4 as nat, 4);
    lemma_le_encode_len((f.5 as u64) as nat, 8);
}

proof fn lemma_code_bytes(code: Seq<Instruction>)
    ensures
        code_bytes(code).len() == 16 * code.len(),
        forall|j: int|
            0 <= j < code.len() ==> #[trigger] code_bytes(code).subrange(16 * j, 16 * j + 16)
                == encode_spec(code[j]),
    decreases code.len(),
{
    if code.len() > 0 {
        let init = code.drop_last();
        lemma_code_bytes(init);
        lemma_encode_len(code.last());
        let b = code_bytes(code);
        assert forall|j: int| 0 <= j < code.len() implies #[trigger] b.subrange(16 * j, 16 * j + 16)
            == encode_spec(code[j]) by {
            if j < code.len() - 1 {
                assert(b.subrange(16 * j, 16 * j + 16) =~= code_bytes(init).subrange(16 * j, 16 * j + 16));
                assert(code[j] == init[j]);
            } else {
                assert(b.subrange(16 * j, 16 * j + 16) =~= encode_spec(code.last()));
            }
        }
    }
}

proof fn lemma_parse_code_prefix(buf: Seq<u8>, code: Seq<Instruction>, k: nat)
    requires
        k <= code.len(),
        buf.len() >= 32 + 16 * code.len(),
        buf.subrange(32, 32 + 16 * code.len() as int) == code_bytes(code),
    ensures
        parse_code(buf, k) == Ok::<Seq<Instruction>, Seq<char>>(code.take(k as int)),
    decreases k,
{
    if k > 0 {
        lemma_parse_code_prefix(buf, code, (k - 1) as nat);
        lemma_code_bytes(code);
        let j = k - 1;
        let at = 32 + j * 16;
        assert(buf.subrange(at, at + 16) =~= code_bytes(code).subrange(16 * j, 16 * j + 16));
        law_decode_encode(code[j]);
        assert(code.take(j).push(code[j]) =~= code.take(k as int));
    } else {
        assert(code.take(0) =~= Seq::<Instruction>::empty());
    }
}

proof fn lemma_segs_prefix(segs: Seq<(u64, Seq<u8>)>, k: nat)
    requires
        k <= segs.len(),
    ensures
        segs_bytes(segs.take(k as int)).len() <= segs_bytes(segs).len(),
        segs_bytes(segs).subrange(0, segs_bytes(segs.take(k as int)).len() as int) == segs_bytes(
            segs.take(k as int),
        ),
    decreases segs.len(),
{
    if k == segs.len() {
        assert(segs.take(k as int) =~= segs);
        assert(segs_bytes(segs).subrange(0, segs_bytes(segs).len() as int) =~= segs_bytes(segs));
    } else {
        let init = segs.drop_last();
        lemma_segs_prefix(init, k);
        assert(init.take(k as int) =~= segs.take(k as int));
        let whole = segs_bytes(segs);
        assert(whole.subrange(0, segs_bytes(init).len() as int) =~= segs_bytes(init));
        assert(whole.subrange(0, segs_bytes(segs.take(k as int)).len() as int) =~= segs_bytes(
            init,
        ).subrange(0, segs_bytes(segs.take(k as int)).len() as int));
    }
}

/// Every segment of `segs` can be stored in an object file.
pub open spec fn segs_fit(segs: Seq<(u64, Seq<u8>)>) -> bool {
    forall|i: int| 0 <= i < segs.len() ==> #[trigger] segs[i].1.len() <= usize::MAX
}

proof fn lemma_parse_segs_prefix(buf: Seq<u8>, start: int, segs: Seq<(u64, Seq<u8>)>, k: nat)
    requires
        k <= segs.len(),
        segs_fit(segs),
        0 <= start,
        buf.len() == start + segs_bytes(segs).len(),
        buf.subrange(start, buf.len() as int) == segs_bytes(segs),
    ensures
        parse_segs(buf, start, k) == Ok::<(Seq<(u64, Seq<u8>)>, int), Seq<char>>(
            (segs.take(k as int), start + segs_bytes(segs.take(k as int)).len()),
        ),
    decreases k,
{
    if k == 0 {
        assert(segs.take(0) =~= Seq::<(u64, Seq<u8>)>::empty());
    } else {
        let j = (k - 1) as nat;
        lemma_parse_segs_prefix(buf, start, segs, j);
        lemma_segs_prefix(segs, k);
        let pk = segs.take(k as int);
        let pj = segs.take(j as int);
        assert(pk.drop_last() =~= pj);
        assert(pk.last() == segs[j as int]);
        let sg = segs[j as int];
        let a = le_encode(sg.0 as nat, 8);
        let l = le_encode(sg.1.len(), 8);
        lemma_le_encode_len(sg.0 as nat, 8);
        lemma_le_encode_len(sg.1.len(), 8);
        let cur = start + segs_bytes(pj).len();
        let whole = segs_bytes(segs);
        assert(segs_bytes(pk) == segs_bytes(pj) + a + l + sg.1);
        let off = segs_bytes(pj).len() as int;
        let p = segs_bytes(pk);
        assert(p.subrange(off, off + 8) =~= a);
        assert(p.subrange(off + 8, off + 16) =~= l);
        assert(p.subrange(off + 16, off + 16 + sg.1.len()) =~= sg.1);
        assert(whole.subrange(0, p.len() as int) == p);
        assert(whole.subrange(off, off + 8) =~= p.subrange(off, off + 8));
        assert(whole.subrange(off + 8, off + 16) =~= p.subrange(off + 8, off + 16));
        assert(whole.subrange(off + 16, off + 16 + sg.1.len()) =~= p.subrange(off + 16, off + 16 + sg.1.len()));
        assert(buf.subrange(cur, cur + 8) =~= a);
        assert(buf.subrange(cur + 8, cur + 16) =~= l);
        assert(buf.subrange(cur + 16, cur + 16 + sg.1.len()) =~= sg.1);
        reveal_with_fuel(pow256, 9);
        law_le_roundtrip(sg.0 as nat, 8);
        assert(sg.1.len() <= usize::MAX);
        assert(sg.1.len() < pow256(8));
        law_le_roundtrip(sg.1.len(), 8);
        assert(pj.push(sg) =~= pk);
    }
}

/// Reading back the object file of a program gives the program: its entry
/// point, its instructions and its data segments, for every program whose
/// code size and segment sizes fit the address space.
pub proof fn law_object_round_trip(entry: u64, code: Seq<Instruction>, segs: Seq<(u64, Seq<u8>)>)
    requires
        16 * code.len() <= usize::MAX,
        segs.len() <= u64::MAX,
        segs_fit(segs),
    ensures
        parse_object(object_bytes(entry, code, segs)) == Ok::<
            (u64, Seq<Instruction>, Seq<(u64, Seq<u8>)>),
            Seq<char>,
        >((entry, code, segs)),
{
    let buf = object_bytes(entry, code, segs);
    reveal_with_fuel(pow256, 9);
    lemma_le_encode_len(1, 2);
    lemma_le_encode_len(0, 2);
    lemma_le_encode_len(entry as nat, 8);
    lemma_le_encode_len(code.len(), 8);
    lemma_le_encode_len(segs.len(), 8);
    law_le_roundtrip(1, 2);
    law_le_roundtrip(entry as nat, 8);
    law_le_roundtrip(code.len(), 8);
    law_le_roundtrip(segs.len(), 8);
    lemma_code_bytes(code);
    let head = magic() + le_encode(1, 2) + le_encode(0, 2) + le_encode(entry as nat, 8) + le_encode(
        code.len(),
        8,
    ) + le_encode(segs.len(), 8);
    assert(head.len() == 32);
    assert(buf.subrange(0, 4) =~= magic());
    assert(buf.subrange(4, 6) =~= le_encode(1, 2));
    assert(buf.subrange(8, 16) =~= le_encode(entry as nat, 8));
    assert(buf.subrange(16, 24) =~= le_encode(code.len(), 8));
    assert(buf.subrange(24, 32) =~= le_encode(segs.len(), 8));
    let cl = code.len();
    assert(buf.subrange(32, 32 + 16 * cl as int) =~= code_bytes(code));
    lemma_parse_code_prefix(buf, code, cl);
    assert(code.take(cl as int) =~= code);
    let start: int = 32 + 16 * cl as int;
    assert(buf.subrange(start, buf.len() as int) =~= segs_bytes(segs));
    lemma_parse_segs_prefix(buf, start, segs, segs.len());
    assert(segs.take(segs.len() as int) =~= segs);
}

} // verus!
