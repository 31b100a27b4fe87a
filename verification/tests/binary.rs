use unibit::binary::{
    decode_instruction, encode_instruction, magic_bytes, read_object, write_object, Object,
    HEADER_BYTES,
};
use unibit::isa::{ActivationFn, Instruction, Width};

/// One canonical instance of every instruction in the ISA. Distinct field
/// values so a swapped rd/rs1/rs2 cannot round-trip by accident.
fn every_instruction() -> Vec<Instruction> {
    vec![
        Instruction::Add { rd: 1, rs1: 2, rs2: 3 },
        Instruction::Sub { rd: 1, rs1: 2, rs2: 3 },
        Instruction::Mul { rd: 1, rs1: 2, rs2: 3 },
        Instruction::MulH { rd: 1, rs1: 2, rs2: 3 },
        Instruction::Div { rd: 1, rs1: 2, rs2: 3 },
        Instruction::Rem { rd: 1, rs1: 2, rs2: 3 },
        Instruction::And { rd: 1, rs1: 2, rs2: 3 },
        Instruction::Or { rd: 1, rs1: 2, rs2: 3 },
        Instruction::Xor { rd: 1, rs1: 2, rs2: 3 },
        Instruction::Sll { rd: 1, rs1: 2, rs2: 3 },
        Instruction::Srl { rd: 1, rs1: 2, rs2: 3 },
        Instruction::Sra { rd: 1, rs1: 2, rs2: 3 },
        Instruction::Slt { rd: 1, rs1: 2, rs2: 3 },
        Instruction::Sltu { rd: 1, rs1: 2, rs2: 3 },
        Instruction::Addi { rd: 4, rs1: 5, imm: -1234 },
        Instruction::Andi { rd: 4, rs1: 5, imm: -1234 },
        Instruction::Ori { rd: 4, rs1: 5, imm: -1234 },
        Instruction::Xori { rd: 4, rs1: 5, imm: -1234 },
        Instruction::Slli { rd: 4, rs1: 5, imm: -1234 },
        Instruction::Srli { rd: 4, rs1: 5, imm: -1234 },
        Instruction::Srai { rd: 4, rs1: 5, imm: -1234 },
        Instruction::Slti { rd: 4, rs1: 5, imm: -1234 },
        Instruction::Sltiu { rd: 4, rs1: 5, imm: -1234 },
        Instruction::Lui { rd: 8, imm: -77 },
        Instruction::Ld { rd: 4, rs1: 5, offset: -1234 },
        Instruction::Lw { rd: 4, rs1: 5, offset: -1234 },
        Instruction::Lh { rd: 4, rs1: 5, offset: -1234 },
        Instruction::Lb { rd: 4, rs1: 5, offset: -1234 },
        Instruction::Lbu { rd: 4, rs1: 5, offset: -1234 },
        Instruction::Lq { rd: 4, rs1: 5, offset: -1234 },
        Instruction::Sd { rs1: 6, rs2: 7, offset: 4321 },
        Instruction::Sw { rs1: 6, rs2: 7, offset: 4321 },
        Instruction::Sh { rs1: 6, rs2: 7, offset: 4321 },
        Instruction::Sb { rs1: 6, rs2: 7, offset: 4321 },
        Instruction::Sq { rs1: 6, rs2: 7, offset: 4321 },
        Instruction::Beq { rs1: 6, rs2: 7, offset: 4321 },
        Instruction::Bne { rs1: 6, rs2: 7, offset: 4321 },
        Instruction::Blt { rs1: 6, rs2: 7, offset: 4321 },
        Instruction::Bge { rs1: 6, rs2: 7, offset: 4321 },
        Instruction::Bltu { rs1: 6, rs2: 7, offset: 4321 },
        Instruction::Bgeu { rs1: 6, rs2: 7, offset: 4321 },
        Instruction::Jal { rd: 8, offset: -77 },
        Instruction::Jalr { rd: 4, rs1: 5, offset: -1234 },
        Instruction::VAdd { rd: 12, rs1: 13, rs2: 14, width: Width::B16 },
        Instruction::VSub { rd: 12, rs1: 13, rs2: 14, width: Width::B16 },
        Instruction::VMul { rd: 12, rs1: 13, rs2: 14, width: Width::B16 },
        Instruction::VDot { rd: 12, rs1: 13, rs2: 14, width: Width::B16 },
        Instruction::VAnd { rd: 1, rs1: 2, rs2: 3 },
        Instruction::VOr { rd: 1, rs1: 2, rs2: 3 },
        Instruction::VXor { rd: 1, rs1: 2, rs2: 3 },
        Instruction::VNot { rd: 9, rs1: 10 },
        Instruction::VSplat { rd: 15, rs1: 16, width: Width::B32 },
        Instruction::VReduce { rd: 15, rs1: 16, width: Width::B32 },
        Instruction::Zipper { rd: 1, rs1: 2, rs2: 3 },
        Instruction::Zipper2 { rd: 4, rs1: 5, rs2: 6 },
        Instruction::Trunc { rd: 19, rs1: 20, eps_bits: 0xDEAD_BEEF_CAFE_F00D },
        Instruction::TMul { rd: 1, rs1: 2, rs2: 3 },
        Instruction::TDot { rd: 1, rs1: 2, rs2: 3 },
        Instruction::TAct { rd: 17, rs1: 18, func: ActivationFn::SiLU },
        Instruction::TSoftmax { rd: 9, rs1: 10 },
        Instruction::Ntt { rd: 9, rs1: 10 },
        Instruction::InvNtt { rd: 9, rs1: 10 },
        Instruction::PolyMul { rd: 1, rs1: 2, rs2: 3 },
        Instruction::ModRed { rd: 19, rs1: 20, modulus: 0xDEAD_BEEF_CAFE_F00D },
        Instruction::PolyAdd { rd: 1, rs1: 2, rs2: 3 },
        Instruction::Entropy { rd: 9, rs1: 10 },
        Instruction::Hamming { rd: 1, rs1: 2, rs2: 3 },
        Instruction::PopCnt { rd: 9, rs1: 10 },
        Instruction::QRand { rd: 11 },
        Instruction::CAdd { rd: 1, rs1: 2, rs2: 3 },
        Instruction::CSub { rd: 1, rs1: 2, rs2: 3 },
        Instruction::CMul { rd: 1, rs1: 2, rs2: 3 },
        Instruction::CConj { rd: 9, rs1: 10 },
        Instruction::CNorm { rd: 9, rs1: 10 },
        Instruction::CMag { rd: 9, rs1: 10 },
        Instruction::Ecall,
        Instruction::Halt,
        Instruction::Nop,
        Instruction::Fence,
        Instruction::CsrR { rd: 21, csr: 0x803 },
        Instruction::CsrW { csr: 0x800, rs1: 22 },
        Instruction::Mv { rd: 9, rs1: 10 },
        Instruction::Li { rd: 8, imm: -77 },
    ]
}

#[test]
fn test_encode_decode_covers_every_opcode() {
    for inst in every_instruction() {
        let bytes = encode_instruction(&inst);
        let back = decode_instruction(&bytes)
            .unwrap_or_else(|e| panic!("decoding {:?} failed: {}", inst, e));
        assert_eq!(back, inst, "round-trip changed {:?}", inst);
    }
}

#[test]
fn test_every_opcode_is_distinct() {
    let mut seen = std::collections::HashMap::new();
    for inst in every_instruction() {
        let opcode = encode_instruction(&inst)[0];
        if let Some(prev) = seen.insert(opcode, format!("{:?}", inst)) {
            panic!("opcode {} shared by {:?} and {}", opcode, inst, prev);
        }
    }
    assert_eq!(seen.len(), every_instruction().len());
}

#[test]
fn test_object_roundtrip() {
    let obj = Object {
        entry_point: 3,
        code: every_instruction(),
        data: vec![(0x1000, b"hello".to_vec()), (0x2000, vec![0xAA; 64])],
    };
    let bytes = write_object(&obj);
    assert_eq!(&bytes[0..4], &magic_bytes());
    assert_eq!(read_object(&bytes).expect("read back"), obj);
}

#[test]
fn test_rejects_bad_magic() {
    let mut bytes = write_object(&Object { entry_point: 0, code: vec![Instruction::Halt], data: vec![] });
    bytes[0] = b'X';
    assert!(read_object(&bytes).unwrap_err().contains("magic"));
}

#[test]
fn test_rejects_truncated_file() {
    let bytes = write_object(&Object {
        entry_point: 0,
        code: vec![Instruction::Halt, Instruction::Nop],
        data: vec![],
    });
    for cut in [0, 8, HEADER_BYTES, HEADER_BYTES + 4, bytes.len() - 1] {
        assert!(read_object(&bytes[..cut]).is_err(), "accepted a file cut to {} bytes", cut);
    }
}

#[test]
fn test_rejects_unknown_opcode() {
    let mut record = encode_instruction(&Instruction::Halt);
    record[0] = 0xFE;
    assert!(decode_instruction(&record).unwrap_err().contains("unknown opcode"));
}

#[test]
fn test_rejects_invalid_aux_codes() {
    let mut record = encode_instruction(&Instruction::VAdd { rd: 1, rs1: 2, rs2: 3, width: Width::B8 });
    record[4] = 9;
    assert!(decode_instruction(&record).unwrap_err().contains("width"));

    let mut record = encode_instruction(&Instruction::TAct { rd: 1, rs1: 2, func: ActivationFn::GeLU });
    record[4] = 9;
    assert!(decode_instruction(&record).unwrap_err().contains("activation"));
}

#[test]
fn records_are_little_endian_with_fixed_offsets() {
    let r = encode_instruction(&Instruction::Addi { rd: 4, rs1: 5, imm: -2 });
    assert_eq!(r[0], 15);
    assert_eq!(&r[1..4], &[4, 5, 0]);
    assert_eq!(&r[4..8], &[0, 0, 0, 0]);
    assert_eq!(&r[8..16], &[0xFE, 0xFF, 0xFF, 0xFF, 0xFF, 0xFF, 0xFF, 0xFF]);
    let v = encode_instruction(&Instruction::VSplat { rd: 1, rs1: 2, width: Width::B32 });
    assert_eq!(v[4], 2);
}

#[test]
fn object_header_and_errors_are_exact() {
    let bytes = write_object(&Object { entry_point: 7, code: vec![Instruction::Nop], data: vec![(0x10, vec![1, 2, 3])] });
    assert_eq!(bytes.len(), HEADER_BYTES + 16 + 16 + 3);
    assert_eq!(&bytes[4..6], &[1, 0]);
    assert_eq!(&bytes[8..16], &[7, 0, 0, 0, 0, 0, 0, 0]);
    assert_eq!(read_object(&bytes[..10]).unwrap_err(), "not a Unibit object: 10 bytes is shorter than the 32-byte header");
    let mut bad = bytes.clone();
    bad[4] = 99;
    assert!(read_object(&bad).is_err());
    let mut wrong = [0u8; 16];
    wrong[0] = 0xEE;
    assert_eq!(decode_instruction(&wrong).unwrap_err(), "unknown opcode 0xee");
    assert!(decode_instruction(&wrong[..15]).is_err());
}
