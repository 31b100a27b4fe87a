use unibit::isa::{parse_register, reg_name, Instruction, Reg256, Width};

#[test]
fn test_reg256_scalar() {
    let r = Reg256::from_u64(42);
    assert_eq!(r.as_u64(), 42);
    assert_eq!(r.as_i64(), 42);
    assert_eq!(r.d(0), 42);
    assert_eq!(r.d(1), 0);
}

#[test]
fn test_reg256_negative() {
    let r = Reg256::from_i64(-1);
    assert_eq!(r.as_i64(), -1);
    assert_eq!(r.as_u64(), u64::MAX);
}

#[test]
fn test_reg256_bytes() {
    let mut r = Reg256::zero();
    r.set_b(0, 0xAB);
    r.set_b(7, 0xCD);
    assert_eq!(r.b(0), 0xAB);
    assert_eq!(r.b(7), 0xCD);
    assert_eq!(r.b(1), 0x00);
}

#[test]
fn test_reg256_words() {
    let mut r = Reg256::zero();
    r.set_w(0, 0xDEAD_BEEF);
    assert_eq!(r.w(0), 0xDEAD_BEEF);
    assert_eq!(r.w(1), 0);
}

#[test]
fn test_popcount() {
    let r = Reg256::from_u64(0xFF);
    assert_eq!(r.popcount(), 8);
}

#[test]
fn test_hamming() {
    let a = Reg256::from_u64(0b1111);
    let b = Reg256::from_u64(0b0000);
    assert_eq!(a.hamming_distance(&b), 4);
}

#[test]
fn test_parse_register() {
    assert_eq!(parse_register("zero"), Some(0));
    assert_eq!(parse_register("a0"), Some(10));
    assert_eq!(parse_register("x31"), Some(31));
    assert_eq!(parse_register("invalid"), None);
}

#[test]
fn register_names_parse_back_to_their_index() {
    for i in 0u8..32 {
        assert_eq!(parse_register(reg_name(i)), Some(i));
        assert_eq!(parse_register(&format!("x{}", i)), Some(i));
    }
    assert_eq!(reg_name(32), "??");
    assert_eq!(reg_name(8), "fp");
}

#[test]
fn register_names_ignore_case_and_surrounding_space() {
    assert_eq!(parse_register("  SP\t"), Some(2));
    assert_eq!(parse_register("S0"), Some(8));
    assert_eq!(parse_register("X7"), Some(7));
    assert_eq!(parse_register("x05"), None);
    assert_eq!(parse_register("x32"), None);
    assert_eq!(parse_register(""), None);
}

#[test]
fn lanes_of_a_register_wrap_modulo_their_count() {
    let mut r = Reg256::zero();
    r.set_d(5, 9);
    assert_eq!(r.d(1), 9);
    r.set_b(33, 0x77);
    assert_eq!(r.b(1), 0x77);
    assert_eq!(r.d(0), 0x7700);
}

#[test]
fn widths_cover_the_whole_register() {
    for w in [Width::B8, Width::B16, Width::B32, Width::B64] {
        assert_eq!(w.lanes() * w.bits(), 256);
    }
    assert_eq!(Width::B16.lanes(), 16);
    assert_eq!(Width::B32.bits(), 32);
}

#[test]
fn destination_register_skips_x0_and_stores() {
    assert_eq!(Instruction::Add { rd: 5, rs1: 1, rs2: 2 }.dest_reg(), Some(5));
    assert_eq!(Instruction::Add { rd: 0, rs1: 1, rs2: 2 }.dest_reg(), None);
    assert_eq!(Instruction::Sd { rs1: 1, rs2: 2, offset: 0 }.dest_reg(), None);
    assert_eq!(Instruction::Halt.dest_reg(), None);
    assert_eq!(Instruction::CsrR { rd: 3, csr: 0xC00 }.dest_reg(), Some(3));
}
