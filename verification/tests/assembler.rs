use unibit::assembler::{Assembler, DATA_START};
use unibit::isa::{ActivationFn, Instruction, Width};

#[test]
fn test_assemble_simple() {
    let asm_code = r#"
        .text
        .global _start
    _start:
        addi a0, zero, 42
        addi a7, zero, 1
        ecall
        halt
    "#;
    let mut assembler = Assembler::new();
    let program = assembler.assemble(asm_code).unwrap();
    assert_eq!(program.instructions.len(), 4);
}

#[test]
fn test_assemble_loop() {
    let asm_code = r#"
        .text
    _start:
        addi t0, zero, 10
    loop:
        beq  t0, zero, done
        addi t0, t0, -1
        j    loop
    done:
        halt
    "#;
    let mut assembler = Assembler::new();
    let program = assembler.assemble(asm_code).unwrap();
    assert_eq!(program.instructions.len(), 5);
}

#[test]
fn assembler_rejects_broken_sources() {
    let cases: &[(&str, &str)] = &[
        ("unknown mnemonic", "        .text\n_start:\n        frobnicate t0, t1\n"),
        ("unknown label", "        .text\n_start:\n        beq t0, zero, nowhere\n"),
        ("unknown register", "        .text\n_start:\n        add q9, t1, t2\n"),
        ("unresolved la", "        .text\n_start:\n        la a0, missing_symbol\n"),
    ];
    for (what, src) in cases {
        assert!(
            Assembler::new().assemble(src).is_err(),
            "assembler accepted a source with {}",
            what
        );
    }
}

#[test]
fn labels_resolve_to_relative_offsets() {
    let src = "_start:\n  addi t0, zero, 3\nloop: addi t0, t0, -1\n  bne t0, zero, loop\n  call fn\n  halt\nfn: ret\n";
    let p = Assembler::new().assemble(src).unwrap();
    assert_eq!(p.entry_point, 0);
    assert_eq!(p.instructions[2], Instruction::Bne { rs1: 5, rs2: 0, offset: -1 });
    assert_eq!(p.instructions[3], Instruction::Jal { rd: 1, offset: 2 });
    assert_eq!(p.instructions[5], Instruction::Jalr { rd: 0, rs1: 1, offset: 0 });
    assert_eq!(p.symbol("loop"), Some(1));
    assert_eq!(p.symbol("fn"), Some(5));
    assert_eq!(p.symbol("nope"), None);
}

#[test]
fn operands_of_every_shape() {
    let src = "main:\n\
        LD a0, 8(sp)\n\
        sd a1, -16(s0)\n\
        lq t1, (a2)\n\
        jalr ra, a3\n\
        vadd.h v, x1, x2\n";
    let e = Assembler::new().assemble(src).unwrap_err();
    assert_eq!(e, "line 6: invalid or missing register argument 1 for vadd");
    let src = "main:\n ld a0, 8(sp)\n sd a1, -16(s0)\n lq t1, (a2)\n jalr ra, a3\n vadd.h x3, x1, x2\n vsplat.b a0, a1\n tact a0, a1, GELU\n csrr t0, cycle\n csrw 0x802, t1\n modred a0, a1, 0x10\n li a0, 'A'\n li a1, 0b101\n lui a2, 0xBFF0000000000000\n";
    let p = Assembler::new().assemble(src).unwrap();
    assert_eq!(p.instructions[0], Instruction::Ld { rd: 10, rs1: 2, offset: 8 });
    assert_eq!(p.instructions[1], Instruction::Sd { rs1: 8, rs2: 11, offset: -16 });
    assert_eq!(p.instructions[2], Instruction::Lq { rd: 6, rs1: 12, offset: 0 });
    assert_eq!(p.instructions[3], Instruction::Jalr { rd: 1, rs1: 13, offset: 0 });
    assert_eq!(p.instructions[4], Instruction::VAdd { rd: 3, rs1: 1, rs2: 2, width: Width::B16 });
    assert_eq!(p.instructions[5], Instruction::VSplat { rd: 10, rs1: 11, width: Width::B8 });
    assert_eq!(p.instructions[6], Instruction::TAct { rd: 10, rs1: 11, func: ActivationFn::GeLU });
    assert_eq!(p.instructions[7], Instruction::CsrR { rd: 5, csr: 0xC00 });
    assert_eq!(p.instructions[8], Instruction::CsrW { csr: 0x802, rs1: 6 });
    assert_eq!(p.instructions[9], Instruction::ModRed { rd: 10, rs1: 11, modulus: 16 });
    assert_eq!(p.instructions[10], Instruction::Li { rd: 10, imm: 65 });
    assert_eq!(p.instructions[11], Instruction::Li { rd: 11, imm: 5 });
    assert_eq!(p.instructions[12], Instruction::Lui { rd: 12, imm: 0xBFF0000000000000u64 as i64 });
    assert_eq!(p.entry_point, 0);
}

#[test]
fn data_directives_lay_out_the_data_section() {
    let src = ".data\nmsg: .asciiz \"hi\\n\"\nnums: .word 1, 0x102\npad: .align 8\nbuf: .zero 3\nb: .byte -1, 'z'\n.text\n_start: la a0, msg\n la a1, buf\n halt\n";
    let p = Assembler::new().assemble(src).unwrap();
    assert_eq!(p.data_segment.len(), 4);
    assert_eq!(p.data_segment[0], (DATA_START, vec![b'h', b'i', b'\n', 0]));
    assert_eq!(p.data_segment[1], (DATA_START + 4, vec![1, 0, 0, 0, 2, 1, 0, 0]));
    assert_eq!(p.data_segment[2], (DATA_START + 16, vec![0, 0, 0]));
    assert_eq!(p.data_segment[3], (DATA_START + 19, vec![0xFF, b'z']));
    assert_eq!(p.instructions[0], Instruction::Li { rd: 10, imm: DATA_START as i64 });
    assert_eq!(p.instructions[1], Instruction::Li { rd: 11, imm: (DATA_START + 16) as i64 });
    assert_eq!(p.entry_point, 0);
}

#[test]
fn strings_keep_their_utf8() {
    let src = ".data\ns: .ascii \"\u{2554}\u{2713}\\q\"\n";
    let p = Assembler::new().assemble(src).unwrap();
    assert_eq!(p.data_segment[0].1, "\u{2554}\u{2713}q".as_bytes().to_vec());
}

#[test]
fn error_messages_name_the_line() {
    let e = Assembler::new().assemble("  nop\n  bogus a0\n").unwrap_err();
    assert_eq!(e, "line 2: unknown instruction 'bogus'");
    let e = Assembler::new().assemble(".text\n .byte 1\n").unwrap_err();
    assert_eq!(e, "line 2: data directive '.byte' found inside .text section");
    let e = Assembler::new().assemble(".data\nx: .octa 1\n").unwrap_err();
    assert_eq!(e, "line 2: unknown data directive '.octa'");
    let e = Assembler::new().assemble(".data\nx: .ascii nothing\n").unwrap_err();
    assert_eq!(e, "line 2: invalid string literal in .ascii");
    let e = Assembler::new().assemble("addi a0, a0, 12z\n").unwrap_err();
    assert_eq!(e, "line 1: cannot parse immediate '12z': invalid digit found in string");
    let e = Assembler::new().assemble("li a0, 0x\n").unwrap_err();
    assert_eq!(e, "line 1: invalid hex number '0x': cannot parse integer from empty string");
    let e = Assembler::new().assemble("li a0, 99999999999999999999\n").unwrap_err();
    assert_eq!(e, "line 1: cannot parse immediate '99999999999999999999': number too large to fit in target type");
    let e = Assembler::new().assemble("ld a0\n").unwrap_err();
    assert_eq!(e, "line 1: missing memory operand");
    let e = Assembler::new().assemble("ld a0, 4(q)\n").unwrap_err();
    assert_eq!(e, "line 1: invalid register in address: 'q'");
    let e = Assembler::new().assemble("csrr a0, bogus\n").unwrap_err();
    assert_eq!(e, "line 1: unknown CSR name 'bogus': invalid digit found in string");
    let e = Assembler::new().assemble(".data\nx: .byte 1, zz\n").unwrap_err();
    assert_eq!(e, "line 2: cannot parse immediate 'zz': invalid digit found in string");
    let e = Assembler::new().assemble("tact a0, a1, swish\n").unwrap_err();
    assert_eq!(e, "line 1: unknown activation function 'swish'");
    let e = Assembler::new().assemble("beq a0, a1\n").unwrap_err();
    assert_eq!(e, "line 1: missing branch target");
}

#[test]
fn comments_and_case_are_ignored() {
    let src = "  ADDI A0, ZERO, 1 ; set a0\n  Halt // stop\n; nothing\n\n";
    let p = Assembler::new().assemble(src).unwrap();
    assert_eq!(p.instructions, vec![Instruction::Addi { rd: 10, rs1: 0, imm: 1 }, Instruction::Halt]);
}

#[test]
fn the_data_section_cannot_pass_the_address_limit() {
    let e = Assembler::new().assemble(".data\nbig: .zero -1\n").unwrap_err();
    assert_eq!(e, "line 2: data section overflows the address space");
}

#[test]
fn labels_and_data_persist_across_calls() {
    let mut a = Assembler::new();
    a.assemble(".data\nfirst: .byte 1\n").unwrap();
    let p = a.assemble(".text\n_start: la a0, first\n halt\n").unwrap();
    assert_eq!(p.instructions[0], Instruction::Li { rd: 10, imm: DATA_START as i64 });
    assert_eq!(p.data_segment.len(), 1);
}

#[test]
fn half_and_quad_lay_out_their_items() {
    let src = ".data\nh: .half 0x1234, -1\nq: .quad 7\n";
    let p = Assembler::new().assemble(src).unwrap();
    assert_eq!(p.data_segment[0], (DATA_START, vec![0x34, 0x12, 0xFF, 0xFF]));
    assert_eq!(p.data_segment[1], (DATA_START + 4, 7u64.to_le_bytes().to_vec()));
    assert_eq!(p.symbol("q"), Some(DATA_START + 4));
}

#[test]
fn every_rejected_source_names_its_line() {
    let cases: &[&str] = &[
        "        .text\n_start:\n        frobnicate t0, t1\n",
        "        .text\n_start:\n        beq t0, zero, nowhere\n",
        "        .text\n_start:\n        add q9, t1, t2\n",
        "        .text\n_start:\n        la a0, missing_symbol\n",
    ];
    for src in cases {
        let e = Assembler::new().assemble(src).unwrap_err();
        assert!(e.starts_with("line 3: "), "{}", e);
    }
}

#[test]
fn the_data_section_may_reach_high_addresses() {
    let p = Assembler::new().assemble(".data\na: .align 0x8000000000000000\nb: .byte 1\n").unwrap();
    assert_eq!(p.data_segment[0], (0x8000_0000_0000_0000, vec![1]));
}
