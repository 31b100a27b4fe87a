use unibit::assembler::Assembler;
use unibit::cpu::{BranchPredictor, Cpu, CpuStatus, FloatOp, Request};
use unibit::isa::{Instruction, Reg256};

/// Runs `src` to completion, performing the printing requests, and returns
/// the processor and what was printed.
fn run(src: &str) -> (Cpu, String) {
    let p = Assembler::new().assemble(src).expect("assembles");
    let mut cpu = Cpu::new(64 * 1024 + 4096 * 16 + 256);
    for (addr, seg) in &p.data_segment {
        cpu.memory.write_bytes(*addr, seg).expect("data fits");
    }
    cpu.reset(p.entry_point);
    let mut out = String::new();
    loop {
        match cpu.run_program(&p.instructions, 100_000).expect("runs") {
            Request::Done => break,
            Request::PrintInt(v) => out.push_str(&v.to_string()),
            Request::PrintChar(c) => out.push(c as char),
            Request::PrintStr(b) => out.push_str(&String::from_utf8_lossy(&b)),
            Request::PrintHex(v) => out.push_str(&format!("0x{:016x}", v)),
            other => panic!("unexpected request {:?}", other),
        }
    }
    (cpu, out)
}

#[test]
fn a_program_prints_and_halts() {
    let (cpu, out) = run("_start:\n li a0, -42\n li a7, 1\n ecall\n li a0, 33\n li a7, 2\n ecall\n li a0, 255\n li a7, 4\n ecall\n halt\n");
    assert_eq!(out, "-42!0x00000000000000ff");
    assert_eq!(cpu.status, CpuStatus::Halted);
    assert_eq!(cpu.metrics.instructions_retired, 10);
}

#[test]
fn fibonacci_runs_on_the_machine() {
    let src = "_start:\n li s1, 0\n li s2, 1\n li t0, 10\nloop:\n beq t0, zero, done\n add t1, s1, s2\n mv s1, s2\n mv s2, t1\n addi t0, t0, -1\n j loop\ndone:\n mv a0, s2\n li a7, 1\n ecall\n halt\n";
    let (cpu, out) = run(src);
    assert_eq!(out, "89");
    assert!(cpu.metrics.branch_count >= 11);
}

#[test]
fn strings_come_from_memory() {
    let (cpu, out) = run(".data\nmsg: .ascii \"hello\"\n.text\n_start: la a0, msg\n li a1, 5\n li a7, 3\n ecall\n halt\n");
    assert_eq!(out, "hello");
    assert_eq!(cpu.memory.reads, 1);
    assert_eq!(cpu.memory.bit_erasures, 0);
}

#[test]
fn exit_traps_with_the_code() {
    let (cpu, _) = run("_start: li a0, 7\n li a7, 93\n ecall\n nop\n");
    assert_eq!(cpu.status, CpuStatus::Trapped(7));
}

#[test]
fn unknown_syscall_is_an_error() {
    let p = Assembler::new().assemble("li a7, 6\necall\n").unwrap();
    let mut cpu = Cpu::new(4096);
    assert_eq!(cpu.run_program(&p.instructions, 1000).unwrap_err(), "unknown syscall number: 6");
    assert_eq!(cpu.pc, 1);
    assert_eq!(cpu.metrics.instructions_retired, 2);
}

#[test]
fn the_cycle_budget_is_enforced() {
    let p = Assembler::new().assemble("loop: j loop\n").unwrap();
    let mut cpu = Cpu::new(4096);
    assert_eq!(cpu.run_program(&p.instructions, 50).unwrap_err(), "execution timed out after 50 cycles");
}

#[test]
fn register_zero_stays_zero() {
    let mut cpu = Cpu::new(4096);
    cpu.set_reg(0, Reg256::from_u64(5));
    assert_eq!(cpu.get_reg(0), Reg256::zero());
    cpu.execute_instruction(&Instruction::Li { rd: 0, imm: 9 }).unwrap();
    assert_eq!(cpu.get_reg(0), Reg256::zero());
    assert_eq!(cpu.get_reg(2).as_u64(), 4096 - 256);
}

#[test]
fn register_writes_count_erased_bits() {
    let mut cpu = Cpu::new(4096);
    cpu.set_reg(5, Reg256::from_u64(0xFF));
    assert_eq!(cpu.metrics.bit_erasures, 8);
    cpu.set_reg(5, Reg256::from_u64(0x0F));
    assert_eq!(cpu.metrics.bit_erasures, 12);
    cpu.set_reg(37, Reg256::from_u64(0));
    assert_eq!(cpu.get_reg(5), Reg256::zero());
}

#[test]
fn memory_errors_leave_only_the_counters() {
    let mut cpu = Cpu::new(4096);
    let r = cpu.execute_instruction(&Instruction::Ld { rd: 5, rs1: 0, offset: 5000 });
    assert_eq!(r.unwrap_err(), "memory access out of bounds: addr=0x1388, width=8, mem_size=0x1000");
    assert_eq!(cpu.pc, 0);
    assert_eq!(cpu.metrics.instructions_retired, 1);
    assert_eq!(cpu.metrics.cycles, 1);
}

#[test]
fn float_work_is_handed_to_the_host() {
    let mut cpu = Cpu::new(4096);
    cpu.set_reg(6, Reg256::from_u64(3));
    let r = cpu.execute_instruction(&Instruction::CMag { rd: 5, rs1: 6 }).unwrap();
    assert_eq!(
        r,
        Request::Float { op: FloatOp::CMag, rd: 5, x: Reg256::from_u64(3), y: Reg256::zero(), z: Reg256::zero(), imm: 0 }
    );
    assert_eq!(cpu.metrics.complex_ops, 1);
    assert_eq!(cpu.pc, 1);
    let r = cpu.execute_instruction(&Instruction::CsrR { rd: 5, csr: 0x802 }).unwrap();
    assert_eq!(r, Request::ReadTemp { rd: 5 });
}

#[test]
fn division_costs_extra_cycles_and_csrs_read_counters() {
    let mut cpu = Cpu::new(4096);
    cpu.execute_instruction(&Instruction::Div { rd: 5, rs1: 0, rs2: 0 }).unwrap();
    assert_eq!(cpu.metrics.cycles, 4);
    cpu.execute_instruction(&Instruction::CsrR { rd: 6, csr: 0xC00 }).unwrap();
    assert_eq!(cpu.get_reg(6).as_u64(), 5);
    cpu.execute_instruction(&Instruction::CsrR { rd: 7, csr: 0xC02 }).unwrap();
    assert_eq!(cpu.get_reg(7).as_u64(), 3);
}

#[test]
fn branch_predictor_saturates() {
    let mut p = BranchPredictor::new();
    assert_eq!(p.predict(40), (true, 0));
    p.update(40, true, 99);
    p.update(40, true, 99);
    assert_eq!(p.predict(40), (true, 99));
    p.update(40, false, 0);
    p.update(40, false, 0);
    assert_eq!(p.predict(40), (false, 99));
    p.update(40, false, 0);
    p.update(40, false, 0);
    p.update(40, true, 7);
    assert_eq!(p.predict(40), (false, 7));
}

#[test]
fn loads_and_stores_through_registers() {
    let mut cpu = Cpu::new(4096);
    cpu.set_reg(5, Reg256::from_u64(0x8000_0000_0000_00F0));
    cpu.execute_instruction(&Instruction::Sd { rs1: 0, rs2: 5, offset: 16 }).unwrap();
    cpu.execute_instruction(&Instruction::Lw { rd: 6, rs1: 0, offset: 16 }).unwrap();
    assert_eq!(cpu.get_reg(6).as_u64(), 0xF0);
    cpu.execute_instruction(&Instruction::Lb { rd: 7, rs1: 0, offset: 16 }).unwrap();
    assert_eq!(cpu.get_reg(7).as_i64(), -16);
    cpu.execute_instruction(&Instruction::Ld { rd: 8, rs1: 0, offset: 16 }).unwrap();
    assert_eq!(cpu.get_reg(8).as_u64(), 0x8000_0000_0000_00F0);
    assert_eq!(cpu.memory.writes, 1);
    assert_eq!(cpu.memory.reads, 3);
}

#[test]
fn the_predictor_learns_at_the_branch_itself() {
    let mut cpu = Cpu::new(1024);
    let bne = Instruction::Bne { rs1: 0, rs2: 0, offset: 5 };
    cpu.reset(32);
    assert_eq!(cpu.execute_instruction(&bne), Ok(Request::Done));
    assert_eq!(cpu.pc, 33);
    assert_eq!(cpu.metrics.branch_mispredictions, 1);
    cpu.reset(32);
    assert_eq!(cpu.execute_instruction(&bne), Ok(Request::Done));
    assert_eq!(cpu.pc, 33);
    assert_eq!(cpu.metrics.branch_count, 2);
    assert_eq!(cpu.metrics.branch_mispredictions, 1);
}
