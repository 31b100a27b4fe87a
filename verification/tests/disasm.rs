use unibit::assembler::Assembler;
use unibit::binary::{write_object, Object};
use unibit::disasm::{targets_fit, Disassembler};
use unibit::isa::{ActivationFn, Instruction, Width};

#[test]
fn instructions_are_listed_with_labels() {
    let p = Assembler::new().assemble("_start:\n addi t0, zero, -3\nloop: bne t0, zero, loop\n vadd.w a0, a1, a2\n vreduce.d a0, a1\n ret\n halt\n").unwrap();
    let text = Disassembler::disassemble_instructions(&p.instructions, &p.symbols);
    let expected = "        .text\n\n_start:\n  [0x0000]  addi     t0, zero, -3\n\nloop:\n  [0x0001]  bne      t0, zero, <loop> (offset: 0)\n  [0x0002]  vadd.w   a0, a1, a2\n  [0x0003]  vreduce.da0, a1\n  [0x0004]  ret\n  [0x0005]  halt\n";
    assert_eq!(text, expected);
}

#[test]
fn operands_are_formatted_by_kind() {
    let code = vec![
        Instruction::Lui { rd: 5, imm: -1 },
        Instruction::Sd { rs1: 2, rs2: 8, offset: -8 },
        Instruction::Jal { rd: 0, offset: 2 },
        Instruction::Jal { rd: 1, offset: -1 },
        Instruction::Jalr { rd: 1, rs1: 5, offset: 4 },
        Instruction::TAct { rd: 1, rs1: 2, func: ActivationFn::SiLU },
        Instruction::CsrW { csr: 0x802, rs1: 3 },
        Instruction::VSplat { rd: 1, rs1: 2, width: Width::B8 },
    ];
    let text = Disassembler::disassemble_instructions(&code, &[]);
    assert!(text.contains("[0x0000]  lui      t0, 0xffffffffffffffff\n"));
    assert!(text.contains("[0x0001]  sd       fp, -8(sp)\n"));
    assert!(text.contains("[0x0002]  j        0x0004 (offset: 2)\n"));
    assert!(text.contains("[0x0003]  call     0x0002 (offset: -1)\n"));
    assert!(text.contains("[0x0004]  jalr     ra, 4(t0)\n"));
    assert!(text.contains("[0x0005]  tact     ra, sp, SiLU\n"));
    assert!(text.contains("[0x0006]  csrw     0x802, gp\n"));
    assert!(text.contains("[0x0007]  vsplat.b ra, sp\n"));
}

#[test]
fn objects_are_listed_with_their_data() {
    let obj = Object { entry_point: 1, code: vec![Instruction::Nop, Instruction::Ecall], data: vec![(0x10000, b"abc".to_vec())] };
    let bytes = write_object(&obj);
    let text = Disassembler::disassemble_object(&bytes).unwrap();
    assert!(text.starts_with(";; ====="));
    assert!(text.contains(";; Unibit DISASSEMBLY \u{2014} 2 instructions, 1 data segments, entry 0x0001\n"));
    assert!(text.contains("  [0x0001]  ecall\n"));
    assert!(text.ends_with("\n        .data\n  [0x00010000]  3 bytes\n"));
    assert!(Disassembler::disassemble_object(b"").is_err());
}

#[test]
fn control_flow_edges_are_reported() {
    let p = Assembler::new().assemble("a: beq t0, t1, a\n call f\n j a\nf: jalr zero, 0(ra)\n").unwrap();
    assert!(targets_fit(&p.instructions));
    let text = Disassembler::analyze_control_flow(&p.instructions);
    assert!(text.contains("Total Instructions: 4          Jump/Branch Edges: 3          Calls: 1     \u{2502}\n"));
    assert!(text.contains("[0x0000] \u{2500}\u{2500}\u{2500}(Conditional Branch  )\u{2500}\u{2500}\u{2500}\u{25ba} [0x0000]"));
    assert!(text.contains("(Function Call (jal ra))"));
    assert!(text.contains("(Indirect Jump (jalr))\u{2500}\u{2500}\u{2500}\u{25ba} [0x0000]"));
    assert!(text.contains("(Subroutine)"));
}

#[test]
fn far_jumps_are_detected() {
    assert!(!targets_fit(&[Instruction::Nop, Instruction::Jal { rd: 0, offset: i64::MAX }]));
    assert!(targets_fit(&[Instruction::Jal { rd: 0, offset: i64::MAX }]));
}
