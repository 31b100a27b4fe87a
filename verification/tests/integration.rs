use unibit::assembler::{AssembledProgram, Assembler};
use unibit::binary::{self, Object};
use unibit::cpu::{Cpu, Request};
use unibit::disasm::Disassembler;

const FIBONACCI: &str = "        .data
msg_comma: .asciiz \", \"
        .text
        .global _start
_start:
        li    s1, 0
        li    s2, 1
        li    t0, 25
fib_loop:
        beq   t0, zero, done
        add   t1, s1, s2
        mv    s1, s2
        mv    s2, t1
        mv    a0, s2
        li    a7, 1
        ecall
        la    a0, msg_comma
        li    a1, 2
        li    a7, 3
        ecall
        addi  t0, t0, -1
        j     fib_loop
done:
        halt
";

const HOT_LOOP: &str = "        .text
_start:
        li    t0, 2000
        li    t1, 0
outer:
        beq   t0, zero, done
        addi  t1, t1, 1
        addi  t0, t0, -1
        j     outer
done:
        mv    a0, t1
        li    a7, 1
        ecall
        halt
";

const TEXT_HEAVY: &str = "        .data
banner: .ascii \"\u{2554}\u{2550}\u{2550} the quick brown fox jumps over the lazy dog, 0123456789 \u{2713} \u{2557}\"
table:  .word 1, 2, 3, 4, 5, 6, 7, 8
        .text
_start:
        la    a0, banner
        li    a1, 16
        li    a7, 3
        ecall
        la    t0, table
        lw    a0, 4(t0)
        li    a7, 1
        ecall
        halt
";

const PROGRAMS: &[&str] = &[FIBONACCI, HOT_LOOP, TEXT_HEAVY];

fn assemble(src: &str) -> AssembledProgram {
    Assembler::new().assemble(src).unwrap_or_else(|e| panic!("failed to assemble: {}", e))
}

fn object(p: &AssembledProgram) -> Object {
    Object { entry_point: p.entry_point, code: p.instructions.clone(), data: p.data_segment.clone() }
}

/// Runs an object to completion, doing the printing it asks for.
fn run_object(obj: &Object) -> (Cpu, String) {
    let mut cpu = Cpu::new(1024 * 1024);
    cpu.capture_output = true;
    for (addr, seg) in &obj.data {
        cpu.memory.write_bytes(*addr, seg).expect("data segment fits in memory");
    }
    cpu.reset(obj.entry_point);
    let mut out = String::new();
    loop {
        match cpu.run_program(&obj.code, 10_000_000).expect("program ran without trapping") {
            Request::Done => break,
            Request::PrintInt(v) => out.push_str(&v.to_string()),
            Request::PrintStr(b) => out.push_str(&String::from_utf8(b).expect("utf-8")),
            other => panic!("unexpected request {:?}", other),
        }
    }
    (cpu, out)
}

fn build_and_run(src: &str) -> String {
    let bytes = binary::write_object(&object(&assemble(src)));
    let obj = binary::read_object(&bytes).unwrap_or_else(|e| panic!("object did not parse back: {}", e));
    run_object(&obj).1
}

#[test]
fn object_round_trip_is_lossless_for_every_program() {
    for src in PROGRAMS {
        let obj = object(&assemble(src));
        let back = binary::read_object(&binary::write_object(&obj)).expect("parses back");
        assert_eq!(back, obj);
    }
}

#[test]
fn encoded_and_direct_execution_agree() {
    for src in PROGRAMS {
        let direct = run_object(&object(&assemble(src))).1;
        assert_eq!(build_and_run(src), direct);
    }
}

#[test]
fn fibonacci_computes_the_real_sequence() {
    let out = build_and_run(FIBONACCI);
    assert!(out.starts_with("1, 2, 3, 5, 8, 13, 21, 34, 55, 89, "), "{}", out);
    assert!(out.contains("121393, "), "{}", out);
}

#[test]
fn non_ascii_strings_survive_assembly() {
    let out = build_and_run(TEXT_HEAVY);
    assert!(out.starts_with("\u{2554}\u{2550}\u{2550} "), "{}", out);
    assert!(out.ends_with('2'), "{}", out);
}

#[test]
fn branch_predictor_learns_a_hot_loop() {
    let (cpu, out) = run_object(&object(&assemble(HOT_LOOP)));
    assert_eq!(out, "2000");
    let m = cpu.metrics;
    assert!(m.branch_count > 1000, "expected a branch-heavy program");
    let accuracy = (m.branch_count - m.branch_mispredictions) as f64 / m.branch_count as f64 * 100.0;
    assert!(accuracy > 90.0, "branch accuracy regressed to {:.2}%", accuracy);
}

#[test]
fn memory_traffic_is_accounted_for() {
    let (cpu, _) = run_object(&object(&assemble(FIBONACCI)));
    assert!(cpu.memory.reads > 0, "string reads were not counted on the bus");
    assert_eq!(cpu.memory.bit_erasures, 0, "the loader was charged for erasures");
}

#[test]
fn disassembly_works_from_bytes_alone() {
    let program = assemble(FIBONACCI);
    let expected = program.instructions.len();
    let bytes = binary::write_object(&object(&program));
    let text = Disassembler::disassemble_object(&bytes).expect("disassembles");
    assert!(text.contains("ecall"), "no ecall in the disassembly:\n{}", text);
    let code_listing = text.split("\n        .data\n").next().unwrap();
    let decoded = code_listing.lines().filter(|l| l.trim_start().starts_with("[0x")).count();
    assert_eq!(decoded, expected, "disassembly lost instructions");
}

#[test]
fn disassembly_matches_the_assembler_listing() {
    for src in PROGRAMS {
        let program = assemble(src);
        let from_ast = Disassembler::disassemble_instructions(&program.instructions, &[]);
        let obj = binary::read_object(&binary::write_object(&object(&program))).unwrap();
        let from_bytes = Disassembler::disassemble_instructions(&obj.code, &[]);
        assert_eq!(from_ast, from_bytes);
    }
}

#[test]
fn object_parser_rejects_corrupt_input() {
    let good = binary::write_object(&object(&assemble(FIBONACCI)));

    let mut bad_magic = good.clone();
    bad_magic[2] = b'X';
    assert!(binary::read_object(&bad_magic).is_err(), "accepted bad magic");

    let mut bad_version = good.clone();
    bad_version[4] = 99;
    assert!(binary::read_object(&bad_version).is_err(), "accepted an unknown version");

    let mut bad_opcode = good.clone();
    bad_opcode[32] = 0xFD;
    assert!(binary::read_object(&bad_opcode).is_err(), "accepted an unknown opcode");

    assert!(binary::read_object(&good[..good.len() / 2]).is_err(), "accepted a truncated file");
    assert!(binary::read_object(b"").is_err(), "accepted an empty file");
}

#[test]
fn execution_is_deterministic() {
    for src in PROGRAMS {
        let a = build_and_run(src);
        let b = build_and_run(src);
        assert_eq!(a, b, "not deterministic across runs");
    }
}
