use unibit::assembler::Assembler;
use unibit::binary::{self, Object};
use unibit::cpu::{Cpu, Request};

/// Assembles `src`, sends it through the object format, runs it and does
/// the printing it asks for, as the command line tool does.
fn run(src: &str) -> String {
    let prog = Assembler::new().assemble(src).expect("assembles");
    let bytes = binary::write_object(&Object {
        entry_point: prog.entry_point,
        code: prog.instructions,
        data: prog.data_segment,
    });
    let obj = binary::read_object(&bytes).expect("round-trips");
    let mut cpu = Cpu::new(1024 * 1024);
    cpu.capture_output = true;
    for (addr, seg) in &obj.data {
        cpu.memory.write_bytes(*addr, seg).expect("data fits");
    }
    cpu.reset(obj.entry_point);
    let mut out = String::new();
    loop {
        match cpu.run_program(&obj.code, 100_000).expect("runs") {
            Request::Done => break,
            Request::PrintF32(bits) => out.push_str(&format!("{}", f32::from_bits(bits))),
            Request::PrintF64(bits) => out.push_str(&format!("{:.6}", f64::from_bits(bits))),
            other => panic!("unexpected request {:?}", other),
        }
    }
    out
}

fn print_bits(bits: u32) -> String {
    run(&format!(
        "        .text\n        .global _start\n_start:\n        li      a0, 0x{bits:08X}\n        li      a7, 7\n        ecall\n        halt\n"
    ))
}

#[test]
fn a_float_comes_out_as_a_float() {
    assert_eq!(print_bits(3.5f32.to_bits()), "3.5");
    assert_eq!(print_bits((-0.125f32).to_bits()), "-0.125");
    assert_eq!(print_bits(0f32.to_bits()), "0");
}

#[test]
fn what_it_prints_parses_back_to_the_bits_it_printed() {
    let awkward: [f32; 6] = [
        0.1,
        1.0 / 3.0,
        f32::from_bits(1),
        1.000_000_1,
        1.000_000_2,
        -1.234_567_8e-7,
    ];
    for v in awkward {
        let text = print_bits(v.to_bits());
        let back: f32 = text
            .parse()
            .unwrap_or_else(|e| panic!("`{text}` does not parse back: {e}"));
        assert_eq!(back.to_bits(), v.to_bits(), "`{text}` is not {v:e}");
    }
    assert_ne!(print_bits(1.000_000_1f32.to_bits()), print_bits(1.000_000_2f32.to_bits()));
}

#[test]
fn only_the_low_thirty_two_bits_are_the_float() {
    let f64_view = run(
        "        .text\n        .global _start\n_start:\n        li      a0, 0x40600000\n        li      a7, 5\n        ecall\n        halt\n",
    );
    assert_eq!(print_bits(0x4060_0000), "3.5");
    assert_ne!(f64_view, "3.5");
}

#[test]
fn the_f32_request_carries_only_the_low_word() {
    let p = Assembler::new()
        .assemble("_start:\n li a0, 0x7777777740600000\n li a7, 7\n ecall\n halt\n")
        .unwrap();
    let mut cpu = Cpu::new(4096);
    cpu.reset(p.entry_point);
    assert_eq!(cpu.run_program(&p.instructions, 100).unwrap(), Request::PrintF32(0x4060_0000));
    assert_eq!(cpu.pc, 3);
}
