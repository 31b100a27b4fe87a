//! The processor core: 32 registers of 256 bits (x0 reads as zero), a
//! branch predictor, execution counters, and the execution of every
//! instruction.
//!
//! Execution of the integer instructions is complete here. The
//! floating-point units, the operating temperature and the output device
//! belong to the host: an instruction that needs them completes its own
//! bookkeeping and hands back a `Request` that says what the host must do.
use vstd::prelude::*;
use vstd::arithmetic::div_mod::lemma_mod_add_multiples_vanish;
use crate::isa::{
    ActivationFn, Instruction, Reg256, Width, two64, signed, wrap64, wadd, lemma_wrap_add_any,
    lemma_as_i64,
    REG_SP, REG_A0, REG_A1, REG_A7,
};
use crate::isa::csr;
use crate::isa::syscall;
use crate::alu::{
    ScalarAlu, VectorUnit, InfoUnit, LatticeUnit, LaneOp, lanewise_rel, splat_rel, lane_dot,
    lane_sum, trunc_div, trunc_rem, rng_lanes, ring_coeff, eff_q, root_of, ntt_coeff, intt_coeff,
    KYBER_Q,
};
use crate::memory::{
    Memory, le_num, le_encode, lanes_bytes, loaded, stored, same_mem, oob_msg, lemma_le_encode_len,
    lemma_lanes_prefix_len,
};
use crate::text::{dec_chars, push_dec};

pub mod loads;
pub mod branches;

verus! {

/// Execution state of the processor.
#[derive(Clone, Copy, Debug, PartialEq, Eq, Structural)]
pub enum CpuStatus {
    Ready,
    Running,
    Halted,
    Trapped(u64),
    Error,
}

// ─── Branch predictor ───────────────────────────────────────────────────────

/// Branch history table of 2-bit saturating counters (0 strongly not taken,
/// 3 strongly taken) and a branch target buffer, both indexed by a hash of
/// the program counter.
pub struct BranchPredictor {
    bht: [u8; 512],
    btb: [u64; 512],
}

/// The table slot of a program counter.
pub open spec fn slot(pc: u64) -> int {
    ((pc ^ (pc >> 4u64)) % 512) as int
}

impl BranchPredictor {
    /// Counter of slot `i`.
    pub closed spec fn counter(&self, i: int) -> u8 {
        self.bht[i]
    }

    /// Predicted target of slot `i`.
    pub closed spec fn target(&self, i: int) -> u64 {
        self.btb[i]
    }

    /// Every counter is within 0..=3.
    pub open spec fn wf(&self) -> bool {
        forall|i: int| 0 <= i < 512 ==> #[trigger] self.counter(i) <= 3
    }

    /// `b` is `a` after recording an outcome at slot `i`: the counter moves
    /// one step toward the outcome, saturating, and a taken branch records
    /// its target; every other slot is unchanged.
    pub open spec fn recorded(a: BranchPredictor, b: BranchPredictor, i: int, taken: bool, target: u64) -> bool {
        &&& forall|j: int|
            0 <= j < 512 && j != i ==> #[trigger] b.counter(j) == a.counter(j) && b.target(j)
                == a.target(j)
        &&& b.counter(i) == if taken {
            if a.counter(i) < 3 {
                (a.counter(i) + 1) as u8
            } else {
                a.counter(i)
            }
        } else {
            if a.counter(i) > 0 {
                (a.counter(i) - 1) as u8
            } else {
                a.counter(i)
            }
        }
        &&& b.target(i) == if taken {
            target
        } else {
            a.target(i)
        }
    }

    /// A predictor with every counter weakly taken and every target 0.
    pub fn new() -> (p: BranchPredictor)
        ensures
            p.wf(),
            forall|i: int| 0 <= i < 512 ==> #[trigger] p.counter(i) == 2 && p.target(i) == 0,
    {
        BranchPredictor { bht: [2u8; 512], btb: [0u64; 512] }
    }

    fn hash(pc: u64) -> (r: usize)
        ensures
            r == slot(pc),
            r < 512,
    {
        let h = pc ^ (pc >> 4u64);
        assert((h & 511) == h % 512) by (bit_vector);
        (h & 511) as usize
    }

    /// Whether the branch at `pc` is predicted taken, and its predicted target.
    pub fn predict(&self, pc: u64) -> (r: (bool, u64))
        ensures
            r == (self.counter(slot(pc)) >= 2, self.target(slot(pc))),
    {
        let idx = Self::hash(pc);
        let taken = self.bht[idx] >= 2;
        let target = self.btb[idx];
        (taken, target)
    }

    /// Records the outcome of the branch at `pc`.
    pub fn update(&mut self, pc: u64, actual_taken: bool, actual_target: u64)
        ensures
            BranchPredictor::recorded(*old(self), *final(self), slot(pc), actual_taken, actual_target),
            old(self).wf() ==> final(self).wf(),
    {
        let idx = Self::hash(pc);
        if actual_taken {
            if self.bht[idx] < 3 {
                self.bht[idx] = self.bht[idx] + 1;
            }
            self.btb[idx] = actual_target;
        } else {
            if self.bht[idx] > 0 {
                self.bht[idx] = self.bht[idx] - 1;
            }
        }
    }
}

// ─── Counters ───────────────────────────────────────────────────────────────

/// Execution counters. They wrap around modulo 2^64.
#[derive(Clone, Copy, Debug, Default, PartialEq, Eq, Structural)]
pub struct CpuMetrics {
    pub cycles: u64,
    pub instructions_retired: u64,
    pub branch_count: u64,
    pub branch_mispredictions: u64,
    pub pipeline_stalls: u64,
    pub data_forwards: u64,
    pub bit_erasures: u64,
    pub vector_ops: u64,
    pub complex_ops: u64,
    pub lattice_ops: u64,
    pub tensor_ops: u64,
    pub info_ops: u64,
}

/// All counters zero.
pub open spec fn zero_metrics() -> CpuMetrics {
    CpuMetrics {
        cycles: 0,
        instructions_retired: 0,
        branch_count: 0,
        branch_mispredictions: 0,
        pipeline_stalls: 0,
        data_forwards: 0,
        bit_erasures: 0,
        vector_ops: 0,
        complex_ops: 0,
        lattice_ops: 0,
        tensor_ops: 0,
        info_ops: 0,
    }
}

/// `m` with the erasure count replaced by `e`.
pub open spec fn with_erasures(m: CpuMetrics, e: u64) -> CpuMetrics {
    CpuMetrics { bit_erasures: e, ..m }
}

/// The execution unit an instruction is counted against.
#[derive(Clone, Copy, Debug, PartialEq, Eq, Structural)]
pub enum Unit {
    Base,
    Vector,
    Complex,
    Lattice,
    Tensor,
    Info,
}

/// `m` after retiring one instruction of `unit` that costs `extra` cycles
/// beyond the first, with `erasures` as the new erasure count.
pub open spec fn counted(m: CpuMetrics, unit: Unit, extra: int, erasures: u64) -> CpuMetrics {
    CpuMetrics {
        cycles: wrap64(m.cycles + 1 + extra),
        instructions_retired: wrap64(m.instructions_retired + 1),
        branch_count: m.branch_count,
        branch_mispredictions: m.branch_mispredictions,
        pipeline_stalls: m.pipeline_stalls,
        data_forwards: m.data_forwards,
        bit_erasures: erasures,
        vector_ops: if unit == Unit::Vector { wrap64(m.vector_ops + 1) } else { m.vector_ops },
        complex_ops: if unit == Unit::Complex { wrap64(m.complex_ops + 1) } else { m.complex_ops },
        lattice_ops: if unit == Unit::Lattice { wrap64(m.lattice_ops + 1) } else { m.lattice_ops },
        tensor_ops: if unit == Unit::Tensor { wrap64(m.tensor_ops + 1) } else { m.tensor_ops },
        info_ops: if unit == Unit::Info { wrap64(m.info_ops + 1) } else { m.info_ops },
    }
}

// ─── Requests to the host ───────────────────────────────────────────────────

/// The floating-point operations the host computes.
#[derive(Clone, Copy, Debug, PartialEq, Eq, Structural)]
pub enum FloatOp {
    CAdd,
    CSub,
    CMul,
    CConj,
    CNorm,
    CMag,
    Entropy,
    Zipper,
    Zipper2,
    Trunc,
    TAct(ActivationFn),
    TSoftmax,
}

/// What an executed instruction leaves to the host.
#[derive(Clone, Debug, PartialEq, Eq)]
pub enum Request {
    /// Nothing: the instruction is complete.
    Done,
    /// Compute `op` on the operands and write the result to `rd` with
    /// `Cpu::set_reg`. The operands are, in order: for the complex and
    /// tensor operations rs1 and rs2; for the zipper steps rd (the transfer
    /// matrix), rs1 and rs2; `imm` is the threshold of `Trunc`.
    Float { op: FloatOp, rd: u8, x: Reg256, y: Reg256, z: Reg256, imm: u64 },
    /// Write the operating temperature in kelvin, as an integer, to `rd`.
    ReadTemp { rd: u8 },
    /// Write the Landauer limit at the operating temperature, in
    /// yoctojoules, to `rd`.
    ReadLandauer { rd: u8 },
    /// Set the operating temperature to `value` kelvin.
    WriteTemp { value: u64 },
    /// Emit a signed decimal integer.
    PrintInt(i64),
    /// Emit one character.
    PrintChar(u8),
    /// Emit bytes as text.
    PrintStr(Vec<u8>),
    /// Emit a value as 16 hexadecimal digits.
    PrintHex(u64),
    /// Emit an f64 given by its bits.
    PrintF64(u64),
    /// Emit an f32 given by its bits, in the shortest form that reads back
    /// as the same bits.
    PrintF32(u32),
    /// Emit a full register.
    PrintReg { index: u8, value: Reg256 },
}

/// The message of an unknown system call.
pub open spec fn unknown_syscall_msg(n: u64) -> Seq<char> {
    "unknown syscall number: "@ + dec_chars(n as nat)
}

/// The message of a transform whose modulus has no suitable root of unity.
pub open spec fn no_root_msg() -> Seq<char> {
    "modulus has no primitive 2N-th root of unity"@
}

/// The message of a run that used up its cycle budget.
pub open spec fn timeout_msg(max_cycles: u64) -> Seq<char> {
    "execution timed out after "@ + dec_chars(max_cycles as nat) + " cycles"@
}

// ─── Processor ──────────────────────────────────────────────────────────────

/// The processor: registers, program counter, memory, counters, branch
/// predictor and generator seed.
pub struct Cpu {
    pub regs: [Reg256; 32],
    pub pc: u64,
    pub memory: Memory,
    pub status: CpuStatus,
    pub metrics: CpuMetrics,
    pub branch_predictor: BranchPredictor,
    pub rng_seed: u64,
    pub trace: bool,
    pub stdout_buffer: Vec<u8>,
    pub capture_output: bool,
}

/// Target of a relative jump: `pc + offset` modulo 2^64.
pub open spec fn rel_target(pc: u64, offset: i64) -> u64 {
    wrap64(pc + offset)
}

/// Value of an arithmetic-logic instruction on operands `x` and `y` (for
/// the immediate forms, `y` is the immediate).
pub open spec fn alu_value(inst: Instruction, x: u64, y: u64) -> u64 {
    match inst {
        Instruction::Add { .. } => wrap64(x + y),
        Instruction::Sub { .. } => wrap64(x - y),
        Instruction::Mul { .. } => wrap64(x * y),
        Instruction::MulH { .. } => ((x * y) / two64()) as u64,
        Instruction::Div { .. } => if y == 0 { 0 } else { wrap64(trunc_div(signed(x), signed(y))) },
        Instruction::Rem { .. } => if y == 0 { 0 } else { wrap64(trunc_rem(signed(x), signed(y))) },
        Instruction::And { .. } => x & y,
        Instruction::Or { .. } => x | y,
        Instruction::Xor { .. } => x ^ y,
        Instruction::Sll { .. } => x << (y % 64),
        Instruction::Srl { .. } => x >> (y % 64),
        Instruction::Sra { .. } => ((x as i64) >> (y % 64)) as u64,
        Instruction::Slt { .. } => if signed(x) < signed(y) { 1 } else { 0 },
        Instruction::Sltu { .. } => if x < y { 1 } else { 0 },
        Instruction::Addi { .. } => wrap64(x + y),
        Instruction::Andi { .. } => x & y,
        Instruction::Ori { .. } => x | y,
        Instruction::Xori { .. } => x ^ y,
        Instruction::Slli { .. } => x << (y % 64),
        Instruction::Srli { .. } => x >> (y % 64),
        Instruction::Srai { .. } => ((x as i64) >> (y % 64)) as u64,
        Instruction::Slti { .. } => if signed(x) < signed(y) { 1 } else { 0 },
        Instruction::Sltiu { .. } => if x < y { 1 } else { 0 },
        _ => 0,
    }
}

impl Cpu {
    /// Memory and predictor are well formed.
    pub open spec fn wf(&self) -> bool {
        self.memory.wf() && self.branch_predictor.wf()
    }

    /// The value register `r` reads: zero for x0, else register `r mod 32`.
    pub open spec fn reg(&self, r: u8) -> Reg256 {
        if r == 0 {
            Reg256::scalar(0)
        } else {
            self.regs[(r % 32) as int]
        }
    }

    /// Everything but registers, counters, program counter and memory is
    /// the same in `a` and `b`.
    pub open spec fn rest_same(a: Cpu, b: Cpu) -> bool {
        &&& b.status == a.status
        &&& b.branch_predictor == a.branch_predictor
        &&& b.rng_seed == a.rng_seed
        &&& b.trace == a.trace
        &&& b.stdout_buffer@ == a.stdout_buffer@
        &&& b.capture_output == a.capture_output
    }

    /// Registers and counters of `b` are those of `a` after an instruction
    /// of `unit` costing `extra` further cycles wrote register `rd` (a
    /// write to x0 is discarded); the value written is `b.regs[rd mod 32]`.
    pub open spec fn wrote(a: Cpu, b: Cpu, rd: u8, unit: Unit, extra: int) -> bool {
        if rd == 0 {
            &&& b.regs@ == a.regs@
            &&& b.metrics == counted(a.metrics, unit, extra, a.metrics.bit_erasures)
        } else {
            &&& b.regs@ == a.regs@.update((rd % 32) as int, b.regs[(rd % 32) as int])
            &&& b.metrics == counted(
                a.metrics,
                unit,
                extra,
                wrap64(
                    a.metrics.bit_erasures + a.regs[(rd % 32) as int].distance(
                        b.regs[(rd % 32) as int],
                    ),
                ),
            )
        }
    }

    /// `b` is `a` after writing `v` to `rd`, with the program counter set to
    /// `pc` and memory untouched.
    pub open spec fn wrote_value(a: Cpu, b: Cpu, rd: u8, v: Reg256, unit: Unit, extra: int, pc: u64) -> bool {
        &&& Cpu::wrote(a, b, rd, unit, extra)
        &&& (rd != 0 ==> b.regs[(rd % 32) as int] == v)
        &&& b.pc == pc
        &&& same_mem(a.memory, b.memory)
        &&& Cpu::rest_same(a, b)
    }

    /// `b` is `a` after an instruction of `unit` that changed nothing but the
    /// counters, with the program counter set to `pc`.
    pub open spec fn only_counted(a: Cpu, b: Cpu, unit: Unit, pc: u64) -> bool {
        &&& b.regs@ == a.regs@
        &&& b.metrics == counted(a.metrics, unit, 0, a.metrics.bit_erasures)
        &&& b.pc == pc
        &&& same_mem(a.memory, b.memory)
        &&& Cpu::rest_same(a, b)
    }

    /// `b` is `a` after an instruction that failed: it was retired and
    /// counted, nothing else changed.
    pub open spec fn failed(a: Cpu, b: Cpu) -> bool {
        Cpu::only_counted(a, b, Unit::Base, a.pc)
    }

    /// Effect of a load of `n` bytes into `rd` from `rs1 + offset`; `v` is
    /// the register value made from the loaded bytes.
    pub open spec fn load_post(a: Cpu, b: Cpu, rd: u8, rs1: u8, offset: i64, n: nat, v: spec_fn(Seq<u8>) -> Reg256, r: Result<Request, String>) -> bool {
        let addr = rel_target(a.reg(rs1).lanes[0], offset);
        if a.memory.in_range(addr, n) {
            &&& r == Ok::<Request, String>(Request::Done)
            &&& Cpu::wrote(a, b, rd, Unit::Base, 0)
            &&& (rd != 0 ==> b.regs[(rd % 32) as int] == v(a.memory.contents().subrange(addr as int, addr + n)))
            &&& b.pc == wrap64(a.pc + 1)
            &&& loaded(a.memory, b.memory)
            &&& Cpu::rest_same(a, b)
        } else {
            &&& r matches Err(e) && e@ == oob_msg(addr, n as usize, a.memory.size)
            &&& Cpu::failed(a, b)
        }
    }

    /// Effect of a store of `bytes` at `rs1 + offset`.
    pub open spec fn store_post(a: Cpu, b: Cpu, rs1: u8, offset: i64, bytes: Seq<u8>, r: Result<Request, String>) -> bool {
        let addr = rel_target(a.reg(rs1).lanes[0], offset);
        if a.memory.in_range(addr, bytes.len()) {
            &&& r == Ok::<Request, String>(Request::Done)
            &&& b.regs@ == a.regs@
            &&& b.metrics == counted(a.metrics, Unit::Base, 0, a.metrics.bit_erasures)
            &&& b.pc == wrap64(a.pc + 1)
            &&& stored(a.memory, b.memory, addr as int, bytes)
            &&& Cpu::rest_same(a, b)
        } else {
            &&& r matches Err(e) && e@ == oob_msg(addr, bytes.len() as usize, a.memory.size)
            &&& Cpu::failed(a, b)
        }
    }

    /// Effect of a conditional branch by `offset` taken when `cond` holds;
    /// the predictor learns the outcome at the branch's own address.
    pub open spec fn branch_post(a: Cpu, b: Cpu, cond: bool, offset: i64) -> bool {
        let target = rel_target(a.pc, offset);
        let next = if cond { target } else { wrap64(a.pc + 1) };
        let predicted = a.branch_predictor.counter(slot(a.pc)) >= 2;
        let miss = cond != predicted;
        &&& b.regs@ == a.regs@
        &&& b.pc == next
        &&& b.metrics == CpuMetrics {
            branch_count: wrap64(a.metrics.branch_count + 1),
            branch_mispredictions: if miss {
                wrap64(a.metrics.branch_mispredictions + 1)
            } else {
                a.metrics.branch_mispredictions
            },
            pipeline_stalls: if miss {
                wrap64(a.metrics.pipeline_stalls + 3)
            } else {
                a.metrics.pipeline_stalls
            },
            ..counted(a.metrics, Unit::Base, if miss { 3 } else { 0 }, a.metrics.bit_erasures)
        }
        &&& BranchPredictor::recorded(a.branch_predictor, b.branch_predictor, slot(a.pc), cond, target)
        &&& same_mem(a.memory, b.memory)
        &&& b.status == a.status
        &&& b.rng_seed == a.rng_seed
        &&& b.trace == a.trace
        &&& b.stdout_buffer@ == a.stdout_buffer@
        &&& b.capture_output == a.capture_output
    }

    /// Effect of an instruction handed to the host as `req`.
    pub open spec fn requested(a: Cpu, b: Cpu, unit: Unit, req: Request, r: Result<Request, String>) -> bool {
        r == Ok::<Request, String>(req) && Cpu::only_counted(a, b, unit, wrap64(a.pc + 1))
    }

    /// Effect of a system call.
    pub open spec fn syscall_post(a: Cpu, b: Cpu, r: Result<Request, String>) -> bool {
        let num = a.reg(17).lanes[0];
        let a0 = a.reg(10).lanes[0];
        let npc = wrap64(a.pc + 1);
        if num == 1 {
            Cpu::requested(a, b, Unit::Base, Request::PrintInt(a0 as i64), r)
        } else if num == 2 {
            Cpu::requested(a, b, Unit::Base, Request::PrintChar((a0 & 0xff) as u8), r)
        } else if num == 3 {
            let len = a.reg(11).lanes[0] as usize;
            if a.memory.in_range(a0, len as nat) {
                &&& r matches Ok(Request::PrintStr(s)) && s@ == a.memory.contents().subrange(
                    a0 as int,
                    a0 + len,
                )
                &&& b.regs@ == a.regs@
                &&& b.metrics == counted(a.metrics, Unit::Base, 0, a.metrics.bit_erasures)
                &&& b.pc == npc
                &&& loaded(a.memory, b.memory)
                &&& Cpu::rest_same(a, b)
            } else {
                &&& r matches Err(e) && e@ == oob_msg(a0, len, a.memory.size)
                &&& Cpu::failed(a, b)
            }
        } else if num == 4 {
            Cpu::requested(a, b, Unit::Base, Request::PrintHex(a0), r)
        } else if num == 5 {
            Cpu::requested(a, b, Unit::Base, Request::PrintF64(a0), r)
        } else if num == 7 {
            Cpu::requested(a, b, Unit::Base, Request::PrintF32((a0 & 0xffff_ffff) as u32), r)
        } else if num == 20 {
            let idx = (a0 % 32) as u8;
            Cpu::requested(a, b, Unit::Base, Request::PrintReg { index: idx, value: a.reg(idx) }, r)
        } else if num == 93 {
            &&& r == Ok::<Request, String>(Request::Done)
            &&& b.regs@ == a.regs@
            &&& b.metrics == counted(a.metrics, Unit::Base, 0, a.metrics.bit_erasures)
            &&& b.pc == npc
            &&& same_mem(a.memory, b.memory)
            &&& b.status == CpuStatus::Trapped(a0)
            &&& b.branch_predictor == a.branch_predictor
            &&& b.rng_seed == a.rng_seed
            &&& b.trace == a.trace
            &&& b.stdout_buffer@ == a.stdout_buffer@
            &&& b.capture_output == a.capture_output
        } else {
            &&& r matches Err(e) && e@ == unknown_syscall_msg(num)
            &&& Cpu::failed(a, b)
        }
    }

    /// The effect of executing `inst` in state `a`: `b` is the state after
    /// and `r` what the execution returned.
    #[verifier::opaque]
    pub open spec fn step_post(a: Cpu, b: Cpu, inst: Instruction, r: Result<Request, String>) -> bool {
        let npc = wrap64(a.pc + 1);
        match inst {
            Instruction::Add { rd, rs1, rs2 } => r == Ok::<Request, String>(Request::Done) && Cpu::wrote_value(
                a,
                b,
                rd,
                Reg256::scalar(alu_value(inst, a.reg(rs1).lanes[0], a.reg(rs2).lanes[0])),
                Unit::Base,
                0,
                npc,
            ),
            Instruction::Sub { rd, rs1, rs2 } => r == Ok::<Request, String>(Request::Done) && Cpu::wrote_value(
                a,
                b,
                rd,
                Reg256::scalar(alu_value(inst, a.reg(rs1).lanes[0], a.reg(rs2).lanes[0])),
                Unit::Base,
                0,
                npc,
            ),
            Instruction::Mul { rd, rs1, rs2 } => r == Ok::<Request, String>(Request::Done) && Cpu::wrote_value(
                a,
                b,
                rd,
                Reg256::scalar(alu_value(inst, a.reg(rs1).lanes[0], a.reg(rs2).lanes[0])),
                Unit::Base,
                0,
                npc,
            ),
            Instruction::MulH { rd, rs1, rs2 } => r == Ok::<Request, String>(Request::Done) && Cpu::wrote_value(
                a,
                b,
                rd,
                Reg256::scalar(alu_value(inst, a.reg(rs1).lanes[0], a.reg(rs2).lanes[0])),
                Unit::Base,
                0,
                npc,
            ),
            Instruction::Div { rd, rs1, rs2 } => r == Ok::<Request, String>(Request::Done) && Cpu::wrote_value(
                a,
                b,
                rd,
                Reg256::scalar(alu_value(inst, a.reg(rs1).lanes[0], a.reg(rs2).lanes[0])),
                Unit::Base,
                3,
                npc,
            ),
            Instruction::Rem { rd, rs1, rs2 } => r == Ok::<Request, String>(Request::Done) && Cpu::wrote_value(
                a,
                b,
                rd,
                Reg256::scalar(alu_value(inst, a.reg(rs1).lanes[0], a.reg(rs2).lanes[0])),
                Unit::Base,
                3,
                npc,
            ),
            Instruction::And { rd, rs1, rs2 } => r == Ok::<Request, String>(Request::Done) && Cpu::wrote_value(
                a,
                b,
                rd,
                Reg256::scalar(alu_value(inst, a.reg(rs1).lanes[0], a.reg(rs2).lanes[0])),
                Unit::Base,
                0,
                npc,
            ),
            Instruction::Or { rd, rs1, rs2 } => r == Ok::<Request, String>(Request::Done) && Cpu::wrote_value(
                a,
                b,
                rd,
                Reg256::scalar(alu_value(inst, a.reg(rs1).lanes[0], a.reg(rs2).lanes[0])),
                Unit::Base,
                0,
                npc,
            ),
            Instruction::Xor { rd, rs1, rs2 } => r == Ok::<Request, String>(Request::Done) && Cpu::wrote_value(
                a,
                b,
                rd,
                Reg256::scalar(alu_value(inst, a.reg(rs1).lanes[0], a.reg(rs2).lanes[0])),
                Unit::Base,
                0,
                npc,
            ),
            Instruction::Sll { rd, rs1, rs2 } => r == Ok::<Request, String>(Request::Done) && Cpu::wrote_value(
                a,
                b,
                rd,
                Reg256::scalar(alu_value(inst, a.reg(rs1).lanes[0], a.reg(rs2).lanes[0])),
                Unit::Base,
                0,
                npc,
            ),
            Instruction::Srl { rd, rs1, rs2 } => r == Ok::<Request, String>(Request::Done) && Cpu::wrote_value(
                a,
                b,
                rd,
                Reg256::scalar(alu_value(inst, a.reg(rs1).lanes[0], a.reg(rs2).lanes[0])),
                Unit::Base,
                0,
                npc,
            ),
            Instruction::Sra { rd, rs1, rs2 } => r == Ok::<Request, String>(Request::Done) && Cpu::wrote_value(
                a,
                b,
                rd,
                Reg256::scalar(alu_value(inst, a.reg(rs1).lanes[0], a.reg(rs2).lanes[0])),
                Unit::Base,
                0,
                npc,
            ),
            Instruction::Slt { rd, rs1, rs2 } => r == Ok::<Request, String>(Request::Done) && Cpu::wrote_value(
                a,
                b,
                rd,
                Reg256::scalar(alu_value(inst, a.reg(rs1).lanes[0], a.reg(rs2).lanes[0])),
                Unit::Base,
                0,
                npc,
            ),
            Instruction::Sltu { rd, rs1, rs2 } => r == Ok::<Request, String>(Request::Done) && Cpu::wrote_value(
                a,
                b,
                rd,
                Reg256::scalar(alu_value(inst, a.reg(rs1).lanes[0], a.reg(rs2).lanes[0])),
                Unit::Base,
                0,
                npc,
            ),
            Instruction::Addi { rd, rs1, imm } => r == Ok::<Request, String>(Request::Done) && Cpu::wrote_value(
                a,
                b,
                rd,
                Reg256::scalar(alu_value(inst, a.reg(rs1).lanes[0], imm as u64)),
                Unit::Base,
                0,
                npc,
            ),
            Instruction::Andi { rd, rs1, imm } => r == Ok::<Request, String>(Request::Done) && Cpu::wrote_value(
                a,
                b,
                rd,
                Reg256::scalar(alu_value(inst, a.reg(rs1).lanes[0], imm as u64)),
                Unit::Base,
                0,
                npc,
            ),
            Instruction::Ori { rd, rs1, imm } => r == Ok::<Request, String>(Request::Done) && Cpu::wrote_value(
                a,
                b,
                rd,
                Reg256::scalar(alu_value(inst, a.reg(rs1).lanes[0], imm as u64)),
                Unit::Base,
                0,
                npc,
            ),
            Instruction::Xori { rd, rs1, imm } => r == Ok::<Request, String>(Request::Done) && Cpu::wrote_value(
                a,
                b,
                rd,
                Reg256::scalar(alu_value(inst, a.reg(rs1).lanes[0], imm as u64)),
                Unit::Base,
                0,
                npc,
            ),
            Instruction::Slli { rd, rs1, imm } => r == Ok::<Request, String>(Request::Done) && Cpu::wrote_value(
                a,
                b,
                rd,
                Reg256::scalar(alu_value(inst, a.reg(rs1).lanes[0], imm as u64)),
                Unit::Base,
                0,
                npc,
            ),
            Instruction::Srli { rd, rs1, imm } => r == Ok::<Request, String>(Request::Done) && Cpu::wrote_value(
                a,
                b,
                rd,
                Reg256::scalar(alu_value(inst, a.reg(rs1).lanes[0], imm as u64)),
                Unit::Base,
                0,
                npc,
            ),
            Instruction::Srai { rd, rs1, imm } => r == Ok::<Request, String>(Request::Done) && Cpu::wrote_value(
                a,
                b,
                rd,
                Reg256::scalar(alu_value(inst, a.reg(rs1).lanes[0], imm as u64)),
                Unit::Base,
                0,
                npc,
            ),
            Instruction::Slti { rd, rs1, imm } => r == Ok::<Request, String>(Request::Done) && Cpu::wrote_value(
                a,
                b,
                rd,
                Reg256::scalar(alu_value(inst, a.reg(rs1).lanes[0], imm as u64)),
                Unit::Base,
                0,
                npc,
            ),
            Instruction::Sltiu { rd, rs1, imm } => r == Ok::<Request, String>(Request::Done) && Cpu::wrote_value(
                a,
                b,
                rd,
                Reg256::scalar(alu_value(inst, a.reg(rs1).lanes[0], imm as u64)),
                Unit::Base,
                0,
                npc,
            ),
            Instruction::Lui { rd, imm } => r == Ok::<Request, String>(Request::Done) && Cpu::wrote_value(
                a,
                b,
                rd,
                Reg256::scalar((imm as u64) << 12u64),
                Unit::Base,
                0,
                npc,
            ),
            Instruction::Ld { rd, rs1, offset } => Cpu::load_post(a, b, rd, rs1, offset, 8, |s: Seq<u8>| Reg256::scalar(le_num(s) as u64), r),
            Instruction::Lw { rd, rs1, offset } => Cpu::load_post(a, b, rd, rs1, offset, 4, |s: Seq<u8>| Reg256::scalar((((le_num(s) as u32) as i32) as i64) as u64), r),
            Instruction::Lh { rd, rs1, offset } => Cpu::load_post(a, b, rd, rs1, offset, 2, |s: Seq<u8>| Reg256::scalar((((le_num(s) as u16) as i16) as i64) as u64), r),
            Instruction::Lb { rd, rs1, offset } => Cpu::load_post(a, b, rd, rs1, offset, 1, |s: Seq<u8>| Reg256::scalar(((s[0] as i8) as i64) as u64), r),
            Instruction::Lbu { rd, rs1, offset } => Cpu::load_post(a, b, rd, rs1, offset, 1, |s: Seq<u8>| Reg256::scalar(s[0] as u64), r),
            Instruction::Lq { rd, rs1, offset } => Cpu::load_post(a, b, rd, rs1, offset, 32, |s: Seq<u8>| Reg256 { lanes: [le_num(s.subrange(0, 8)) as u64, le_num(s.subrange(8, 16)) as u64, le_num(s.subrange(16, 24)) as u64, le_num(s.subrange(24, 32)) as u64] }, r),
            Instruction::Sd { rs1, rs2, offset } => Cpu::store_post(a, b, rs1, offset, le_encode(a.reg(rs2).lanes[0] as nat, 8), r),
            Instruction::Sw { rs1, rs2, offset } => Cpu::store_post(a, b, rs1, offset, le_encode((a.reg(rs2).lanes[0] as u32) as nat, 4), r),
            Instruction::Sh { rs1, rs2, offset } => Cpu::store_post(a, b, rs1, offset, le_encode((a.reg(rs2).lanes[0] as u16) as nat, 2), r),
            Instruction::Sb { rs1, rs2, offset } => Cpu::store_post(a, b, rs1, offset, le_encode((a.reg(rs2).lanes[0] as u8) as nat, 1), r),
            Instruction::Sq { rs1, rs2, offset } => Cpu::store_post(a, b, rs1, offset, lanes_bytes(a.reg(rs2).lanes), r),
            Instruction::Beq { rs1, rs2, offset } => r == Ok::<Request, String>(Request::Done) && Cpu::branch_post(a, b, a.reg(rs1) == a.reg(rs2), offset),
            Instruction::Bne { rs1, rs2, offset } => r == Ok::<Request, String>(Request::Done) && Cpu::branch_post(a, b, a.reg(rs1) != a.reg(rs2), offset),
            Instruction::Blt { rs1, rs2, offset } => r == Ok::<Request, String>(Request::Done) && Cpu::branch_post(a, b, signed(a.reg(rs1).lanes[0]) < signed(a.reg(rs2).lanes[0]), offset),
            Instruction::Bge { rs1, rs2, offset } => r == Ok::<Request, String>(Request::Done) && Cpu::branch_post(a, b, signed(a.reg(rs1).lanes[0]) >= signed(a.reg(rs2).lanes[0]), offset),
            Instruction::Bltu { rs1, rs2, offset } => r == Ok::<Request, String>(Request::Done) && Cpu::branch_post(a, b, a.reg(rs1).lanes[0] < a.reg(rs2).lanes[0], offset),
            Instruction::Bgeu { rs1, rs2, offset } => r == Ok::<Request, String>(Request::Done) && Cpu::branch_post(a, b, a.reg(rs1).lanes[0] >= a.reg(rs2).lanes[0], offset),
            Instruction::Jal { rd, offset } => r == Ok::<Request, String>(Request::Done) && Cpu::wrote_value(a, b, rd, Reg256::scalar(npc), Unit::Base, 0, rel_target(a.pc, offset)),
            Instruction::Jalr { rd, rs1, offset } => r == Ok::<Request, String>(Request::Done) && Cpu::wrote_value(a, b, rd, Reg256::scalar(npc), Unit::Base, 0, rel_target(a.reg(rs1).lanes[0], offset)),
            Instruction::VAdd { rd, rs1, rs2, width } => r == Ok::<Request, String>(Request::Done) && Cpu::wrote(a, b, rd, Unit::Vector, 0) && (rd != 0 ==> lanewise_rel(LaneOp::Add, a.reg(rs1), a.reg(rs2), width, b.regs[(rd % 32) as int])) && b.pc == npc && same_mem(a.memory, b.memory) && Cpu::rest_same(a, b),
            Instruction::VSub { rd, rs1, rs2, width } => r == Ok::<Request, String>(Request::Done) && Cpu::wrote(a, b, rd, Unit::Vector, 0) && (rd != 0 ==> lanewise_rel(LaneOp::Sub, a.reg(rs1), a.reg(rs2), width, b.regs[(rd % 32) as int])) && b.pc == npc && same_mem(a.memory, b.memory) && Cpu::rest_same(a, b),
            Instruction::VMul { rd, rs1, rs2, width } => r == Ok::<Request, String>(Request::Done) && Cpu::wrote(a, b, rd, Unit::Vector, 0) && (rd != 0 ==> lanewise_rel(LaneOp::Mul, a.reg(rs1), a.reg(rs2), width, b.regs[(rd % 32) as int])) && b.pc == npc && same_mem(a.memory, b.memory) && Cpu::rest_same(a, b),
            Instruction::VAnd { rd, rs1, rs2 } => r == Ok::<Request, String>(Request::Done) && Cpu::wrote(a, b, rd, Unit::Vector, 0) && (rd != 0 ==> forall|i: int| 0 <= i < 4 ==> #[trigger] b.regs[(rd % 32) as int].lanes[i] == a.reg(rs1).lanes[i] & a.reg(rs2).lanes[i]) && b.pc == npc && same_mem(a.memory, b.memory) && Cpu::rest_same(a, b),
            Instruction::VOr { rd, rs1, rs2 } => r == Ok::<Request, String>(Request::Done) && Cpu::wrote(a, b, rd, Unit::Vector, 0) && (rd != 0 ==> forall|i: int| 0 <= i < 4 ==> #[trigger] b.regs[(rd % 32) as int].lanes[i] == a.reg(rs1).lanes[i] | a.reg(rs2).lanes[i]) && b.pc == npc && same_mem(a.memory, b.memory) && Cpu::rest_same(a, b),
            Instruction::VXor { rd, rs1, rs2 } => r == Ok::<Request, String>(Request::Done) && Cpu::wrote(a, b, rd, Unit::Vector, 0) && (rd != 0 ==> forall|i: int| 0 <= i < 4 ==> #[trigger] b.regs[(rd % 32) as int].lanes[i] == a.reg(rs1).lanes[i] ^ a.reg(rs2).lanes[i]) && b.pc == npc && same_mem(a.memory, b.memory) && Cpu::rest_same(a, b),
            Instruction::VNot { rd, rs1 } => r == Ok::<Request, String>(Request::Done) && Cpu::wrote(a, b, rd, Unit::Vector, 0) && (rd != 0 ==> forall|i: int| 0 <= i < 4 ==> #[trigger] b.regs[(rd % 32) as int].lanes[i] == !a.reg(rs1).lanes[i]) && b.pc == npc && same_mem(a.memory, b.memory) && Cpu::rest_same(a, b),
            Instruction::VDot { rd, rs1, rs2, width } => r == Ok::<Request, String>(Request::Done) && Cpu::wrote_value(a, b, rd, Reg256::scalar(wrap64(lane_dot(a.reg(rs1), a.reg(rs2), width, width.lane_total()))), Unit::Vector, 0, npc),
            Instruction::VSplat { rd, rs1, width } => r == Ok::<Request, String>(Request::Done) && Cpu::wrote(a, b, rd, Unit::Vector, 0) && (rd != 0 ==> splat_rel(a.reg(rs1), width, b.regs[(rd % 32) as int])) && b.pc == npc && same_mem(a.memory, b.memory) && Cpu::rest_same(a, b),
            Instruction::VReduce { rd, rs1, width } => r == Ok::<Request, String>(Request::Done) && Cpu::wrote_value(a, b, rd, Reg256::scalar(wrap64(lane_sum(a.reg(rs1), width, width.lane_total()))), Unit::Vector, 0, npc),
            Instruction::Zipper { rd, rs1, rs2 } => Cpu::requested(a, b, Unit::Tensor, Request::Float { op: FloatOp::Zipper, rd, x: a.reg(rd), y: a.reg(rs1), z: a.reg(rs2), imm: 0 }, r),
            Instruction::Zipper2 { rd, rs1, rs2 } => Cpu::requested(a, b, Unit::Tensor, Request::Float { op: FloatOp::Zipper2, rd, x: a.reg(rd), y: a.reg(rs1), z: a.reg(rs2), imm: 0 }, r),
            Instruction::Trunc { rd, rs1, eps_bits } => Cpu::requested(a, b, Unit::Tensor, Request::Float { op: FloatOp::Trunc, rd, x: a.reg(rs1), y: Reg256::scalar(0), z: Reg256::scalar(0), imm: eps_bits }, r),
            Instruction::TMul { rd, rs1, rs2 } => r == Ok::<Request, String>(Request::Done) && Cpu::wrote(a, b, rd, Unit::Tensor, 0) && (rd != 0 ==> lanewise_rel(LaneOp::Mul, a.reg(rs1), a.reg(rs2), Width::B64, b.regs[(rd % 32) as int])) && b.pc == npc && same_mem(a.memory, b.memory) && Cpu::rest_same(a, b),
            Instruction::TDot { rd, rs1, rs2 } => r == Ok::<Request, String>(Request::Done) && Cpu::wrote_value(a, b, rd, Reg256::scalar(wrap64(lane_dot(a.reg(rs1), a.reg(rs2), Width::B64, 4))), Unit::Tensor, 0, npc),
            Instruction::TAct { rd, rs1, func } => Cpu::requested(a, b, Unit::Tensor, Request::Float { op: FloatOp::TAct(func), rd, x: a.reg(rs1), y: Reg256::scalar(0), z: Reg256::scalar(0), imm: 0 }, r),
            Instruction::TSoftmax { rd, rs1 } => Cpu::requested(a, b, Unit::Tensor, Request::Float { op: FloatOp::TSoftmax, rd, x: a.reg(rs1), y: Reg256::scalar(0), z: Reg256::scalar(0), imm: 0 }, r),
            Instruction::Ntt { rd, rs1 } => match root_of(KYBER_Q) {
                Some(psi) => r == Ok::<Request, String>(Request::Done) && Cpu::wrote(a, b, rd, Unit::Lattice, 0) && (rd != 0 ==> forall|k: int| 0 <= k < 4 ==> #[trigger] b.regs[(rd % 32) as int].lanes[k] == ntt_coeff(a.reg(rs1), KYBER_Q as int, psi as int, k)) && b.pc == npc && same_mem(a.memory, b.memory) && Cpu::rest_same(a, b),
                None => (r matches Err(e) && e@ == no_root_msg()) && Cpu::failed(a, b),
            },
            Instruction::InvNtt { rd, rs1 } => match root_of(KYBER_Q) {
                Some(psi) => r == Ok::<Request, String>(Request::Done) && Cpu::wrote(a, b, rd, Unit::Lattice, 0) && (rd != 0 ==> forall|k: int| 0 <= k < 4 ==> #[trigger] b.regs[(rd % 32) as int].lanes[k] == intt_coeff(a.reg(rs1), KYBER_Q as int, psi as int, k)) && b.pc == npc && same_mem(a.memory, b.memory) && Cpu::rest_same(a, b),
                None => (r matches Err(e) && e@ == no_root_msg()) && Cpu::failed(a, b),
            },
            Instruction::PolyMul { rd, rs1, rs2 } => r == Ok::<Request, String>(Request::Done) && Cpu::wrote(a, b, rd, Unit::Lattice, 0) && (rd != 0 ==> forall|k: int| 0 <= k < 4 ==> #[trigger] b.regs[(rd % 32) as int].lanes[k] == ring_coeff(a.reg(rs1), a.reg(rs2), KYBER_Q as int, k)) && b.pc == npc && same_mem(a.memory, b.memory) && Cpu::rest_same(a, b),
            Instruction::ModRed { rd, rs1, modulus } => r == Ok::<Request, String>(Request::Done) && Cpu::wrote(a, b, rd, Unit::Lattice, 0) && (rd != 0 ==> forall|k: int| 0 <= k < 4 ==> #[trigger] b.regs[(rd % 32) as int].lanes[k] == a.reg(rs1).lanes[k] as int % eff_q(modulus)) && b.pc == npc && same_mem(a.memory, b.memory) && Cpu::rest_same(a, b),
            Instruction::PolyAdd { rd, rs1, rs2 } => r == Ok::<Request, String>(Request::Done) && Cpu::wrote(a, b, rd, Unit::Lattice, 0) && (rd != 0 ==> forall|k: int| 0 <= k < 4 ==> #[trigger] b.regs[(rd % 32) as int].lanes[k] == (a.reg(rs1).lanes[k] + a.reg(rs2).lanes[k]) % (KYBER_Q as int)) && b.pc == npc && same_mem(a.memory, b.memory) && Cpu::rest_same(a, b),
            Instruction::Entropy { rd, rs1 } => Cpu::requested(a, b, Unit::Info, Request::Float { op: FloatOp::Entropy, rd, x: a.reg(rs1), y: Reg256::scalar(0), z: Reg256::scalar(0), imm: 0 }, r),
            Instruction::Hamming { rd, rs1, rs2 } => r == Ok::<Request, String>(Request::Done) && Cpu::wrote_value(a, b, rd, Reg256::scalar(a.reg(rs1).distance(a.reg(rs2)) as u64), Unit::Info, 0, npc),
            Instruction::PopCnt { rd, rs1 } => r == Ok::<Request, String>(Request::Done) && Cpu::wrote_value(a, b, rd, Reg256::scalar(a.reg(rs1).bit_count() as u64), Unit::Info, 0, npc),
            Instruction::QRand { rd } => r == Ok::<Request, String>(Request::Done) && Cpu::wrote(a, b, rd, Unit::Info, 0) && (rd != 0 ==> b.regs[(rd % 32) as int].lanes == rng_lanes(a.rng_seed)) && b.pc == npc && same_mem(a.memory, b.memory) && b.rng_seed == rng_lanes(a.rng_seed)[3] && b.status == a.status && b.branch_predictor == a.branch_predictor && b.trace == a.trace && b.stdout_buffer@ == a.stdout_buffer@ && b.capture_output == a.capture_output,
            Instruction::CAdd { rd, rs1, rs2 } => Cpu::requested(a, b, Unit::Complex, Request::Float { op: FloatOp::CAdd, rd, x: a.reg(rs1), y: a.reg(rs2), z: Reg256::scalar(0), imm: 0 }, r),
            Instruction::CSub { rd, rs1, rs2 } => Cpu::requested(a, b, Unit::Complex, Request::Float { op: FloatOp::CSub, rd, x: a.reg(rs1), y: a.reg(rs2), z: Reg256::scalar(0), imm: 0 }, r),
            Instruction::CMul { rd, rs1, rs2 } => Cpu::requested(a, b, Unit::Complex, Request::Float { op: FloatOp::CMul, rd, x: a.reg(rs1), y: a.reg(rs2), z: Reg256::scalar(0), imm: 0 }, r),
            Instruction::CConj { rd, rs1 } => Cpu::requested(a, b, Unit::Complex, Request::Float { op: FloatOp::CConj, rd, x: a.reg(rs1), y: Reg256::scalar(0), z: Reg256::scalar(0), imm: 0 }, r),
            Instruction::CNorm { rd, rs1 } => Cpu::requested(a, b, Unit::Complex, Request::Float { op: FloatOp::CNorm, rd, x: a.reg(rs1), y: Reg256::scalar(0), z: Reg256::scalar(0), imm: 0 }, r),
            Instruction::CMag { rd, rs1 } => Cpu::requested(a, b, Unit::Complex, Request::Float { op: FloatOp::CMag, rd, x: a.reg(rs1), y: Reg256::scalar(0), z: Reg256::scalar(0), imm: 0 }, r),
            Instruction::Ecall => Cpu::syscall_post(a, b, r),
            Instruction::Halt => r == Ok::<Request, String>(Request::Done) && b.regs@ == a.regs@ && b.metrics == counted(a.metrics, Unit::Base, 0, a.metrics.bit_erasures) && b.pc == a.pc && same_mem(a.memory, b.memory) && b.status == CpuStatus::Halted && b.branch_predictor == a.branch_predictor && b.rng_seed == a.rng_seed && b.trace == a.trace && b.stdout_buffer@ == a.stdout_buffer@ && b.capture_output == a.capture_output,
            Instruction::Nop | Instruction::Fence => r == Ok::<Request, String>(Request::Done) && Cpu::only_counted(a, b, Unit::Base, npc),
            Instruction::CsrR { rd, csr } => if csr == csr::TEMP_K {
                Cpu::requested(a, b, Unit::Base, Request::ReadTemp { rd }, r)
            } else if csr == csr::LANDAUER {
                Cpu::requested(a, b, Unit::Base, Request::ReadLandauer { rd }, r)
            } else {
                r == Ok::<Request, String>(Request::Done) && Cpu::wrote_value(
                    a,
                    b,
                    rd,
                    Reg256::scalar(
                        if csr == csr::CYCLE {
                            wrap64(a.metrics.cycles + 1)
                        } else if csr == csr::INSTRET {
                            wrap64(a.metrics.instructions_retired + 1)
                        } else if csr == csr::ENTROPY_ACC {
                            a.metrics.bit_erasures
                        } else {
                            0
                        },
                    ),
                    Unit::Base,
                    0,
                    npc,
                )
            },
            Instruction::CsrW { csr, rs1 } => if csr == csr::TEMP_K {
                Cpu::requested(a, b, Unit::Base, Request::WriteTemp { value: a.reg(rs1).lanes[0] }, r)
            } else {
                r == Ok::<Request, String>(Request::Done) && Cpu::only_counted(a, b, Unit::Base, npc)
            },
            Instruction::Mv { rd, rs1 } => r == Ok::<Request, String>(Request::Done) && Cpu::wrote_value(a, b, rd, a.reg(rs1), Unit::Base, 0, npc),
            Instruction::Li { rd, imm } => r == Ok::<Request, String>(Request::Done) && Cpu::wrote_value(a, b, rd, Reg256::scalar(imm as u64), Unit::Base, 0, npc),
        }
    }
}


impl Cpu {
    /// A processor with `mem_size` bytes of zeroed memory, every register
    /// zero but the stack pointer, which points 256 bytes below the top.
    pub fn new(mem_size: usize) -> (cpu: Cpu)
        requires
            mem_size >= 256,
        ensures
            cpu.wf(),
            forall|i: int|
                0 <= i < 32 && i != REG_SP ==> #[trigger] cpu.regs[i] == Reg256::scalar(0),
            cpu.regs[REG_SP as int] == Reg256::scalar((mem_size - 256) as u64),
            cpu.pc == 0,
            cpu.memory.size == mem_size,
            cpu.memory.contents() == Seq::new(mem_size as nat, |i: int| 0u8),
            cpu.memory.reads == 0 && cpu.memory.writes == 0 && cpu.memory.bit_erasures == 0,
            cpu.status == CpuStatus::Ready,
            cpu.metrics == zero_metrics(),
            forall|i: int|
                0 <= i < 512 ==> #[trigger] cpu.branch_predictor.counter(i) == 2
                    && cpu.branch_predictor.target(i) == 0,
            cpu.rng_seed == 0x1337_CAFE_BABE_F00Du64,
            !cpu.trace,
            cpu.stdout_buffer@ == Seq::<u8>::empty(),
            !cpu.capture_output,
    {
        let mut regs = [Reg256::zero(); 32];
        regs[2] = Reg256::from_u64((mem_size - 256) as u64);
        Cpu {
            regs,
            pc: 0,
            memory: Memory::new(mem_size),
            status: CpuStatus::Ready,
            metrics: CpuMetrics {
                cycles: 0,
                instructions_retired: 0,
                branch_count: 0,
                branch_mispredictions: 0,
                pipeline_stalls: 0,
                data_forwards: 0,
                bit_erasures: 0,
                vector_ops: 0,
                complex_ops: 0,
                lattice_ops: 0,
                tensor_ops: 0,
                info_ops: 0,
            },
            branch_predictor: BranchPredictor::new(),
            rng_seed: 0x1337_CAFE_BABE_F00D,
            trace: false,
            stdout_buffer: Vec::new(),
            capture_output: false,
        }
    }

    /// The value of register `r`: x0 reads as zero, other numbers are taken
    /// modulo 32.
    pub fn get_reg(&self, r: u8) -> (v: Reg256)
        ensures
            v == self.reg(r),
    {
        if r == 0 {
            Reg256::zero()
        } else {
            assert(r & 31 == r % 32) by (bit_vector);
            self.regs[(r & 31) as usize]
        }
    }

    /// Writes register `r` (taken modulo 32) and adds the number of bits
    /// that changed to the erasure count; a write to x0 is discarded.
    pub fn set_reg(&mut self, r: u8, val: Reg256)
        ensures
            r == 0 ==> *final(self) == *old(self),
            r != 0 ==> {
                &&& final(self).regs@ == old(self).regs@.update((r % 32) as int, val)
                &&& final(self).metrics == with_erasures(
                    old(self).metrics,
                    wrap64(old(self).metrics.bit_erasures + old(self).regs[(r % 32) as int].distance(val)),
                )
                &&& final(self).pc == old(self).pc
                &&& final(self).memory == old(self).memory
                &&& Cpu::rest_same(*old(self), *final(self))
            },
    {
        if r == 0 {
            return;
        }
        assert(r & 31 == r % 32) by (bit_vector);
        let idx = (r & 31) as usize;
        let flipped = self.regs[idx].hamming_distance(&val);
        self.metrics.bit_erasures = wadd(self.metrics.bit_erasures, flipped as u64);
        self.regs[idx] = val;
    }

    /// Sets the program counter to `entry_point` and the status to ready.
    pub fn reset(&mut self, entry_point: u64)
        ensures
            final(self).pc == entry_point,
            final(self).status == CpuStatus::Ready,
            final(self).regs == old(self).regs,
            final(self).memory == old(self).memory,
            final(self).metrics == old(self).metrics,
            final(self).branch_predictor == old(self).branch_predictor,
            final(self).rng_seed == old(self).rng_seed,
            final(self).trace == old(self).trace,
            final(self).stdout_buffer@ == old(self).stdout_buffer@,
            final(self).capture_output == old(self).capture_output,
    {
        self.pc = entry_point;
        self.status = CpuStatus::Ready;
    }

    /// Counts one retired instruction of `unit` costing `1 + extra` cycles.
    fn retire(&mut self, unit: Unit, extra: u64)
        ensures
            final(self).metrics == counted(old(self).metrics, unit, extra as int, old(self).metrics.bit_erasures),
            final(self).regs == old(self).regs,
            final(self).pc == old(self).pc,
            final(self).memory == old(self).memory,
            Cpu::rest_same(*old(self), *final(self)),
    {
        proof {
            lemma_wrap_add_any(old(self).metrics.cycles + 1, extra as int);
        }
        self.metrics.instructions_retired = wadd(self.metrics.instructions_retired, 1);
        self.metrics.cycles = wadd(wadd(self.metrics.cycles, 1), extra);
        match unit {
            Unit::Vector => { self.metrics.vector_ops = wadd(self.metrics.vector_ops, 1); },
            Unit::Complex => { self.metrics.complex_ops = wadd(self.metrics.complex_ops, 1); },
            Unit::Lattice => { self.metrics.lattice_ops = wadd(self.metrics.lattice_ops, 1); },
            Unit::Tensor => { self.metrics.tensor_ops = wadd(self.metrics.tensor_ops, 1); },
            Unit::Info => { self.metrics.info_ops = wadd(self.metrics.info_ops, 1); },
            Unit::Base => {},
        }
    }
}


/// `base + off` modulo 2^64.
fn rel(base: u64, off: i64) -> (r: u64)
    ensures
        r == rel_target(base, off),
{
    let o = off as u64;
    proof {
        lemma_as_i64(o);
        assert((off as u64) as i64 == off) by (bit_vector);
        if off < 0 {
            lemma_mod_add_multiples_vanish(base + off, two64());
        }
    }
    wadd(base, o)
}

/// The instruction is one of the scalar arithmetic-logic instructions.
pub open spec fn is_alu(inst: Instruction) -> bool {
    match inst {
        Instruction::Add { .. } | Instruction::Sub { .. } | Instruction::Mul { .. }
        | Instruction::MulH { .. } | Instruction::Div { .. } | Instruction::Rem { .. }
        | Instruction::And { .. } | Instruction::Or { .. } | Instruction::Xor { .. }
        | Instruction::Sll { .. } | Instruction::Srl { .. } | Instruction::Sra { .. }
        | Instruction::Slt { .. } | Instruction::Sltu { .. } | Instruction::Addi { .. }
        | Instruction::Andi { .. } | Instruction::Ori { .. } | Instruction::Xori { .. }
        | Instruction::Slli { .. } | Instruction::Srli { .. } | Instruction::Srai { .. }
        | Instruction::Slti { .. } | Instruction::Sltiu { .. } => true,
        _ => false,
    }
}

impl Cpu {
    /// Retires an instruction of `unit` that writes `v` to `rd` and moves on
    /// to the next one.
    fn finish_write(&mut self, rd: u8, v: Reg256, unit: Unit, extra: u64, next: u64)
        requires
            old(self).wf(),
        ensures
            final(self).wf(),
            Cpu::wrote_value(*old(self), *final(self), rd, v, unit, extra as int, next),
            final(self).memory == old(self).memory,
    {
        self.retire(unit, extra);
        self.set_reg(rd, v);
        self.pc = next;
    }

    /// Retires an instruction of `unit` that changes nothing else and moves
    /// on to the next one.
    fn finish(&mut self, unit: Unit)
        requires
            old(self).wf(),
        ensures
            final(self).wf(),
            Cpu::only_counted(*old(self), *final(self), unit, wrap64(old(self).pc + 1)),
            final(self).memory == old(self).memory,
    {
        self.retire(unit, 0);
        self.pc = wadd(self.pc, 1);
    }

    /// Executes a scalar arithmetic-logic instruction.
    fn exec_alu(&mut self, inst: &Instruction) -> (r: Result<Request, String>)
        requires
            old(self).wf(),
            is_alu(*inst),
        ensures
            final(self).wf(),
            Cpu::step_post(*old(self), *final(self), *inst, r),
    {
        reveal(Cpu::step_post);
        let (rd, x, y): (u8, u64, u64) = match *inst {
            Instruction::Add { rd, rs1, rs2 } | Instruction::Sub { rd, rs1, rs2 }
            | Instruction::Mul { rd, rs1, rs2 } | Instruction::MulH { rd, rs1, rs2 }
            | Instruction::Div { rd, rs1, rs2 } | Instruction::Rem { rd, rs1, rs2 }
            | Instruction::And { rd, rs1, rs2 } | Instruction::Or { rd, rs1, rs2 }
            | Instruction::Xor { rd, rs1, rs2 } | Instruction::Sll { rd, rs1, rs2 }
            | Instruction::Srl { rd, rs1, rs2 } | Instruction::Sra { rd, rs1, rs2 }
            | Instruction::Slt { rd, rs1, rs2 } | Instruction::Sltu { rd, rs1, rs2 } => (
                rd,
                self.get_reg(rs1).as_u64(),
                self.get_reg(rs2).as_u64(),
            ),
            Instruction::Addi { rd, rs1, imm } | Instruction::Andi { rd, rs1, imm }
            | Instruction::Ori { rd, rs1, imm } | Instruction::Xori { rd, rs1, imm }
            | Instruction::Slli { rd, rs1, imm } | Instruction::Srli { rd, rs1, imm }
            | Instruction::Srai { rd, rs1, imm } | Instruction::Slti { rd, rs1, imm }
            | Instruction::Sltiu { rd, rs1, imm } => (rd, self.get_reg(rs1).as_u64(), imm as u64),
            _ => (0, 0, 0),
        };
        let (v, extra): (u64, u64) = match *inst {
            Instruction::Add { .. } | Instruction::Addi { .. } => (ScalarAlu::add(x, y), 0),
            Instruction::Sub { .. } => (ScalarAlu::sub(x, y), 0),
            Instruction::Mul { .. } => (ScalarAlu::mul(x, y), 0),
            Instruction::MulH { .. } => (ScalarAlu::mulh(x, y), 0),
            Instruction::Div { .. } => (ScalarAlu::div(x, y), 3),
            Instruction::Rem { .. } => (ScalarAlu::rem(x, y), 3),
            Instruction::And { .. } | Instruction::Andi { .. } => (ScalarAlu::and(x, y), 0),
            Instruction::Or { .. } | Instruction::Ori { .. } => (ScalarAlu::or(x, y), 0),
            Instruction::Xor { .. } | Instruction::Xori { .. } => (ScalarAlu::xor(x, y), 0),
            Instruction::Sll { .. } | Instruction::Slli { .. } => (ScalarAlu::sll(x, y), 0),
            Instruction::Srl { .. } | Instruction::Srli { .. } => (ScalarAlu::srl(x, y), 0),
            Instruction::Sra { .. } | Instruction::Srai { .. } => (ScalarAlu::sra(x, y), 0),
            Instruction::Slt { .. } | Instruction::Slti { .. } => (ScalarAlu::slt(x, y), 0),
            _ => (ScalarAlu::sltu(x, y), 0),
        };
        assert(v == alu_value(*inst, x, y));
        let next = wadd(self.pc, 1);
        self.finish_write(rd, Reg256::from_u64(v), Unit::Base, extra, next);
        Ok(Request::Done)
    }
}


/// The instruction is a load.
pub open spec fn is_load(inst: Instruction) -> bool {
    match inst {
        Instruction::Ld { .. } | Instruction::Lw { .. } | Instruction::Lh { .. }
        | Instruction::Lb { .. } | Instruction::Lbu { .. } | Instruction::Lq { .. } => true,
        _ => false,
    }
}

/// The instruction is a store.
pub open spec fn is_store(inst: Instruction) -> bool {
    match inst {
        Instruction::Sd { .. } | Instruction::Sw { .. } | Instruction::Sh { .. }
        | Instruction::Sb { .. } | Instruction::Sq { .. } => true,
        _ => false,
    }
}

impl Cpu {
    /// Executes a load.
    fn exec_load(&mut self, inst: &Instruction) -> (r: Result<Request, String>)
        requires
            old(self).wf(),
            is_load(*inst),
        ensures
            final(self).wf(),
            Cpu::step_post(*old(self), *final(self), *inst, r),
    {
        reveal(Cpu::step_post);
        let (rd, rs1, offset): (u8, u8, i64) = match *inst {
            Instruction::Ld { rd, rs1, offset } | Instruction::Lw { rd, rs1, offset }
            | Instruction::Lh { rd, rs1, offset } | Instruction::Lb { rd, rs1, offset }
            | Instruction::Lbu { rd, rs1, offset } | Instruction::Lq { rd, rs1, offset } => (
                rd,
                rs1,
                offset,
            ),
            _ => (0, 0, 0),
        };
        let addr = rel(self.get_reg(rs1).as_u64(), offset);
        let ghost mem0 = self.memory;
        let value: Result<Reg256, String> = match *inst {
            Instruction::Ld { .. } => match self.memory.load_u64(addr) {
                Ok(v) => Ok(Reg256::from_u64(v)),
                Err(e) => Err(e),
            },
            Instruction::Lw { .. } => match self.memory.load_i32(addr) {
                Ok(v) => Ok(Reg256::from_u64(v as i64 as u64)),
                Err(e) => Err(e),
            },
            Instruction::Lh { .. } => match self.memory.load_i16(addr) {
                Ok(v) => Ok(Reg256::from_u64(v as i64 as u64)),
                Err(e) => Err(e),
            },
            Instruction::Lb { .. } => match self.memory.load_i8(addr) {
                Ok(v) => Ok(Reg256::from_u64(v as i64 as u64)),
                Err(e) => Err(e),
            },
            Instruction::Lbu { .. } => match self.memory.load_u8(addr) {
                Ok(v) => Ok(Reg256::from_u64(v as u64)),
                Err(e) => Err(e),
            },
            _ => match self.memory.load_256(addr) {
                Ok(lanes) => {
                    proof {
                        let c = mem0.contents();
                        let s = c.subrange(addr as int, addr + 32);
                        assert(s.subrange(0, 8) =~= c.subrange(addr as int, addr + 8));
                        assert(s.subrange(8, 16) =~= c.subrange(addr + 8, addr + 16));
                        assert(s.subrange(16, 24) =~= c.subrange(addr + 16, addr + 24));
                        assert(s.subrange(24, 32) =~= c.subrange(addr + 24, addr + 32));
                        assert(lanes[0] == le_num(c.subrange(addr + 8 * 0, addr + 8 * 0 + 8)));
                        assert(lanes[1] == le_num(c.subrange(addr + 8 * 1, addr + 8 * 1 + 8)));
                        assert(lanes[2] == le_num(c.subrange(addr + 8 * 2, addr + 8 * 2 + 8)));
                        assert(lanes[3] == le_num(c.subrange(addr + 8 * 3, addr + 8 * 3 + 8)));
                        assert(lanes =~= [
                            le_num(s.subrange(0, 8)) as u64,
                            le_num(s.subrange(8, 16)) as u64,
                            le_num(s.subrange(16, 24)) as u64,
                            le_num(s.subrange(24, 32)) as u64,
                        ]);
                    }
                    Ok(Reg256 { lanes })
                },
                Err(e) => Err(e),
            },
        };
        match value {
            Ok(v) => {
                let next = wadd(self.pc, 1);
                self.finish_write(rd, v, Unit::Base, 0, next);
                Ok(Request::Done)
            },
            Err(e) => {
                self.retire(Unit::Base, 0);
                Err(e)
            },
        }
    }

    /// Executes a store.
    fn exec_store(&mut self, inst: &Instruction) -> (r: Result<Request, String>)
        requires
            old(self).wf(),
            is_store(*inst),
        ensures
            final(self).wf(),
            Cpu::step_post(*old(self), *final(self), *inst, r),
    {
        reveal(Cpu::step_post);
        let ghost a = *self;
        let (rs1, rs2, offset): (u8, u8, i64) = match *inst {
            Instruction::Sd { rs1, rs2, offset } | Instruction::Sw { rs1, rs2, offset }
            | Instruction::Sh { rs1, rs2, offset } | Instruction::Sb { rs1, rs2, offset }
            | Instruction::Sq { rs1, rs2, offset } => (rs1, rs2, offset),
            _ => (0, 0, 0),
        };
        let addr = rel(self.get_reg(rs1).as_u64(), offset);
        let src = self.get_reg(rs2);
        let x = src.as_u64();
        let ghost bytes: Seq<u8> = match *inst {
            Instruction::Sd { .. } => le_encode(x as nat, 8),
            Instruction::Sw { .. } => le_encode((x as u32) as nat, 4),
            Instruction::Sh { .. } => le_encode((x as u16) as nat, 2),
            Instruction::Sb { .. } => le_encode((x as u8) as nat, 1),
            _ => lanes_bytes(src.lanes),
        };
        proof {
            lemma_le_encode_len(x as nat, 8);
            lemma_le_encode_len((x as u32) as nat, 4);
            lemma_le_encode_len((x as u16) as nat, 2);
            lemma_lanes_prefix_len(src.lanes, 4);
            reveal_with_fuel(le_encode, 2);
            assert(le_encode((x as u8) as nat, 1) =~= seq![x as u8]);
        }
        let res = match *inst {
            Instruction::Sd { .. } => self.memory.store_u64(addr, x),
            Instruction::Sw { .. } => self.memory.store_u32(addr, x as u32),
            Instruction::Sh { .. } => self.memory.store_u16(addr, x as u16),
            Instruction::Sb { .. } => self.memory.store_u8(addr, x as u8),
            _ => self.memory.store_256(addr, &src.lanes),
        };
        assert(match res {
            Ok(_) => a.memory.in_range(addr, bytes.len()) && stored(a.memory, self.memory, addr as int, bytes),
            Err(e) => !a.memory.in_range(addr, bytes.len()) && e@ == oob_msg(addr, bytes.len() as usize, a.memory.size) && self.memory == a.memory,
        });
        let r = match res {
            Ok(_) => {
                self.finish(Unit::Base);
                Ok(Request::Done)
            },
            Err(e) => {
                self.retire(Unit::Base, 0);
                Err(e)
            },
        };
        assert(Cpu::store_post(a, *self, rs1, offset, bytes, r));
        r
    }
}


/// Executable forms of the instruction classes.
fn is_alu_inst(inst: &Instruction) -> (r: bool)
    ensures
        r == is_alu(*inst),
{
    match *inst {
        Instruction::Add { .. } | Instruction::Sub { .. } | Instruction::Mul { .. }
        | Instruction::MulH { .. } | Instruction::Div { .. } | Instruction::Rem { .. }
        | Instruction::And { .. } | Instruction::Or { .. } | Instruction::Xor { .. }
        | Instruction::Sll { .. } | Instruction::Srl { .. } | Instruction::Sra { .. }
        | Instruction::Slt { .. } | Instruction::Sltu { .. } | Instruction::Addi { .. }
        | Instruction::Andi { .. } | Instruction::Ori { .. } | Instruction::Xori { .. }
        | Instruction::Slli { .. } | Instruction::Srli { .. } | Instruction::Srai { .. }
        | Instruction::Slti { .. } | Instruction::Sltiu { .. } => true,
        _ => false,
    }
}

fn is_load_inst(inst: &Instruction) -> (r: bool)
    ensures
        r == is_load(*inst),
{
    match *inst {
        Instruction::Ld { .. } | Instruction::Lw { .. } | Instruction::Lh { .. }
        | Instruction::Lb { .. } | Instruction::Lbu { .. } | Instruction::Lq { .. } => true,
        _ => false,
    }
}

fn is_store_inst(inst: &Instruction) -> (r: bool)
    ensures
        r == is_store(*inst),
{
    match *inst {
        Instruction::Sd { .. } | Instruction::Sw { .. } | Instruction::Sh { .. }
        | Instruction::Sb { .. } | Instruction::Sq { .. } => true,
        _ => false,
    }
}

fn is_branch_inst(inst: &Instruction) -> (r: bool)
    ensures
        r == is_branch(*inst),
{
    match *inst {
        Instruction::Beq { .. } | Instruction::Bne { .. } | Instruction::Blt { .. }
        | Instruction::Bge { .. } | Instruction::Bltu { .. } | Instruction::Bgeu { .. } => true,
        _ => false,
    }
}

fn is_vector_inst(inst: &Instruction) -> (r: bool)
    ensures
        r == is_vector(*inst),
{
    match *inst {
        Instruction::VAdd { .. } | Instruction::VSub { .. } | Instruction::VMul { .. }
        | Instruction::VAnd { .. } | Instruction::VOr { .. } | Instruction::VXor { .. }
        | Instruction::VNot { .. } | Instruction::VDot { .. } | Instruction::VSplat { .. }
        | Instruction::VReduce { .. } => true,
        _ => false,
    }
}

fn is_unit_inst(inst: &Instruction) -> (r: bool)
    ensures
        r == is_unit(*inst),
{
    match *inst {
        Instruction::Ntt { .. } | Instruction::InvNtt { .. } | Instruction::PolyMul { .. }
        | Instruction::ModRed { .. } | Instruction::PolyAdd { .. } | Instruction::Hamming { .. }
        | Instruction::PopCnt { .. } | Instruction::QRand { .. } | Instruction::TMul { .. }
        | Instruction::TDot { .. } => true,
        _ => false,
    }
}

fn is_float_inst(inst: &Instruction) -> (r: bool)
    ensures
        r == is_float(*inst),
{
    match *inst {
        Instruction::CAdd { .. } | Instruction::CSub { .. } | Instruction::CMul { .. }
        | Instruction::CConj { .. } | Instruction::CNorm { .. } | Instruction::CMag { .. }
        | Instruction::Entropy { .. } | Instruction::Zipper { .. } | Instruction::Zipper2 { .. }
        | Instruction::Trunc { .. } | Instruction::TAct { .. } | Instruction::TSoftmax { .. } => true,
        _ => false,
    }
}

fn is_move_inst(inst: &Instruction) -> (r: bool)
    ensures
        r == is_move(*inst),
{
    match *inst {
        Instruction::Lui { .. } | Instruction::Mv { .. } | Instruction::Li { .. }
        | Instruction::Jal { .. } | Instruction::Jalr { .. } => true,
        _ => false,
    }
}

/// Whether two registers hold the same 256 bits.
fn reg_eq(x: &Reg256, y: &Reg256) -> (r: bool)
    ensures
        r == (*x == *y),
{
    let r = x.lanes[0] == y.lanes[0] && x.lanes[1] == y.lanes[1] && x.lanes[2] == y.lanes[2]
        && x.lanes[3] == y.lanes[3];
    proof {
        if r {
            assert(x.lanes =~= y.lanes);
        }
    }
    r
}

/// The instruction is a conditional branch.
pub open spec fn is_branch(inst: Instruction) -> bool {
    match inst {
        Instruction::Beq { .. } | Instruction::Bne { .. } | Instruction::Blt { .. }
        | Instruction::Bge { .. } | Instruction::Bltu { .. } | Instruction::Bgeu { .. } => true,
        _ => false,
    }
}

/// The instruction is a vector instruction.
pub open spec fn is_vector(inst: Instruction) -> bool {
    match inst {
        Instruction::VAdd { .. } | Instruction::VSub { .. } | Instruction::VMul { .. }
        | Instruction::VAnd { .. } | Instruction::VOr { .. } | Instruction::VXor { .. }
        | Instruction::VNot { .. } | Instruction::VDot { .. } | Instruction::VSplat { .. }
        | Instruction::VReduce { .. } => true,
        _ => false,
    }
}

impl Cpu {
    /// Records a conditional branch by `offset`, taken when `cond` holds.
    fn handle_branch(&mut self, cond: bool, offset: i64)
        requires
            old(self).wf(),
        ensures
            final(self).wf(),
            Cpu::branch_post(*old(self), *final(self), cond, offset),
    {
        let pc = self.pc;
        let target = rel(pc, offset);
        let (predicted, _) = self.branch_predictor.predict(pc);
        let miss = cond != predicted;
        self.retire(Unit::Base, if miss { 3 } else { 0 });
        self.metrics.branch_count = wadd(self.metrics.branch_count, 1);
        if miss {
            self.metrics.branch_mispredictions = wadd(self.metrics.branch_mispredictions, 1);
            self.metrics.pipeline_stalls = wadd(self.metrics.pipeline_stalls, 3);
        }
        self.pc = if cond {
            target
        } else {
            wadd(self.pc, 1)
        };
        self.branch_predictor.update(pc, cond, target);
    }

    /// Executes a conditional branch.
    fn exec_branch(&mut self, inst: &Instruction) -> (r: Result<Request, String>)
        requires
            old(self).wf(),
            is_branch(*inst),
        ensures
            final(self).wf(),
            Cpu::step_post(*old(self), *final(self), *inst, r),
    {
        reveal(Cpu::step_post);
        let (rs1, rs2, offset): (u8, u8, i64) = match *inst {
            Instruction::Beq { rs1, rs2, offset } | Instruction::Bne { rs1, rs2, offset }
            | Instruction::Blt { rs1, rs2, offset } | Instruction::Bge { rs1, rs2, offset }
            | Instruction::Bltu { rs1, rs2, offset } | Instruction::Bgeu { rs1, rs2, offset } => (
                rs1,
                rs2,
                offset,
            ),
            _ => (0, 0, 0),
        };
        let x = self.get_reg(rs1);
        let y = self.get_reg(rs2);
        proof {
            lemma_as_i64(x.lanes[0]);
            lemma_as_i64(y.lanes[0]);
        }
        let cond = match *inst {
            Instruction::Beq { .. } => reg_eq(&x, &y),
            Instruction::Bne { .. } => !reg_eq(&x, &y),
            Instruction::Blt { .. } => x.as_i64() < y.as_i64(),
            Instruction::Bge { .. } => x.as_i64() >= y.as_i64(),
            Instruction::Bltu { .. } => x.as_u64() < y.as_u64(),
            _ => x.as_u64() >= y.as_u64(),
        };
        self.handle_branch(cond, offset);
        Ok(Request::Done)
    }

    /// Executes a vector instruction.
    fn exec_vector(&mut self, inst: &Instruction) -> (r: Result<Request, String>)
        requires
            old(self).wf(),
            is_vector(*inst),
        ensures
            final(self).wf(),
            Cpu::step_post(*old(self), *final(self), *inst, r),
    {
        reveal(Cpu::step_post);
        let (rd, rs1, rs2, width): (u8, u8, u8, Width) = match *inst {
            Instruction::VAdd { rd, rs1, rs2, width } | Instruction::VSub { rd, rs1, rs2, width }
            | Instruction::VMul { rd, rs1, rs2, width } | Instruction::VDot {
                rd,
                rs1,
                rs2,
                width,
            } => (rd, rs1, rs2, width),
            Instruction::VAnd { rd, rs1, rs2 } | Instruction::VOr { rd, rs1, rs2 }
            | Instruction::VXor { rd, rs1, rs2 } => (rd, rs1, rs2, Width::B64),
            Instruction::VSplat { rd, rs1, width } | Instruction::VReduce { rd, rs1, width } => (
                rd,
                rs1,
                0,
                width,
            ),
            Instruction::VNot { rd, rs1 } => (rd, rs1, 0, Width::B64),
            _ => (0, 0, 0, Width::B64),
        };
        let x = self.get_reg(rs1);
        let y = self.get_reg(rs2);
        let res = match *inst {
            Instruction::VAdd { .. } => VectorUnit::vadd(&x, &y, width),
            Instruction::VSub { .. } => VectorUnit::vsub(&x, &y, width),
            Instruction::VMul { .. } => VectorUnit::vmul(&x, &y, width),
            Instruction::VAnd { .. } => VectorUnit::vand(&x, &y),
            Instruction::VOr { .. } => VectorUnit::vor(&x, &y),
            Instruction::VXor { .. } => VectorUnit::vxor(&x, &y),
            Instruction::VNot { .. } => VectorUnit::vnot(&x),
            Instruction::VDot { .. } => VectorUnit::vdot(&x, &y, width),
            Instruction::VSplat { .. } => VectorUnit::vsplat(&x, width),
            _ => VectorUnit::vreduce(&x, width),
        };
        let next = wadd(self.pc, 1);
        self.finish_write(rd, res, Unit::Vector, 0, next);
        Ok(Request::Done)
    }
}


/// The instruction is computed by a unit of the library: lattice,
/// information or tensor arithmetic on integers.
pub open spec fn is_unit(inst: Instruction) -> bool {
    match inst {
        Instruction::Ntt { .. } | Instruction::InvNtt { .. } | Instruction::PolyMul { .. }
        | Instruction::ModRed { .. } | Instruction::PolyAdd { .. } | Instruction::Hamming { .. }
        | Instruction::PopCnt { .. } | Instruction::QRand { .. } | Instruction::TMul { .. }
        | Instruction::TDot { .. } => true,
        _ => false,
    }
}

/// The instruction is computed in floating point by the host.
pub open spec fn is_float(inst: Instruction) -> bool {
    match inst {
        Instruction::CAdd { .. } | Instruction::CSub { .. } | Instruction::CMul { .. }
        | Instruction::CConj { .. } | Instruction::CNorm { .. } | Instruction::CMag { .. }
        | Instruction::Entropy { .. } | Instruction::Zipper { .. } | Instruction::Zipper2 { .. }
        | Instruction::Trunc { .. } | Instruction::TAct { .. } | Instruction::TSoftmax { .. } => true,
        _ => false,
    }
}

/// The instruction moves a value or jumps.
pub open spec fn is_move(inst: Instruction) -> bool {
    match inst {
        Instruction::Lui { .. } | Instruction::Mv { .. } | Instruction::Li { .. }
        | Instruction::Jal { .. } | Instruction::Jalr { .. } => true,
        _ => false,
    }
}

impl Cpu {
    /// Executes a move, an immediate load or a jump.
    fn exec_move(&mut self, inst: &Instruction) -> (r: Result<Request, String>)
        requires
            old(self).wf(),
            is_move(*inst),
        ensures
            final(self).wf(),
            Cpu::step_post(*old(self), *final(self), *inst, r),
    {
        reveal(Cpu::step_post);
        let npc = wadd(self.pc, 1);
        match *inst {
            Instruction::Lui { rd, imm } => {
                let v = (imm as u64) << 12u64;
                self.finish_write(rd, Reg256::from_u64(v), Unit::Base, 0, npc);
            },
            Instruction::Mv { rd, rs1 } => {
                let v = self.get_reg(rs1);
                self.finish_write(rd, v, Unit::Base, 0, npc);
            },
            Instruction::Li { rd, imm } => {
                self.finish_write(rd, Reg256::from_i64(imm), Unit::Base, 0, npc);
            },
            Instruction::Jal { rd, offset } => {
                let target = rel(self.pc, offset);
                self.finish_write(rd, Reg256::from_u64(npc), Unit::Base, 0, target);
            },
            _ => {
                let (rd, rs1, offset): (u8, u8, i64) = match *inst {
                    Instruction::Jalr { rd, rs1, offset } => (rd, rs1, offset),
                    _ => (0, 0, 0),
                };
                let target = rel(self.get_reg(rs1).as_u64(), offset);
                self.finish_write(rd, Reg256::from_u64(npc), Unit::Base, 0, target);
            },
        }
        Ok(Request::Done)
    }

    /// Executes a lattice, information or integer tensor instruction.
    fn exec_unit(&mut self, inst: &Instruction) -> (r: Result<Request, String>)
        requires
            old(self).wf(),
            is_unit(*inst),
        ensures
            final(self).wf(),
            Cpu::step_post(*old(self), *final(self), *inst, r),
    {
        reveal(Cpu::step_post);
        let npc = wadd(self.pc, 1);
        let (rd, rs1, rs2): (u8, u8, u8) = match *inst {
            Instruction::PolyMul { rd, rs1, rs2 } | Instruction::PolyAdd { rd, rs1, rs2 }
            | Instruction::Hamming { rd, rs1, rs2 } | Instruction::TMul { rd, rs1, rs2 }
            | Instruction::TDot { rd, rs1, rs2 } => (rd, rs1, rs2),
            Instruction::Ntt { rd, rs1 } | Instruction::InvNtt { rd, rs1 }
            | Instruction::ModRed { rd, rs1, .. } | Instruction::PopCnt { rd, rs1 } => (rd, rs1, 0),
            Instruction::QRand { rd } => (rd, 0, 0),
            _ => (0, 0, 0),
        };
        let x = self.get_reg(rs1);
        let y = self.get_reg(rs2);
        let (res, unit): (Option<Reg256>, Unit) = match *inst {
            Instruction::Ntt { .. } => (LatticeUnit::ntt(&x, KYBER_Q), Unit::Lattice),
            Instruction::InvNtt { .. } => (LatticeUnit::inv_ntt(&x, KYBER_Q), Unit::Lattice),
            Instruction::PolyMul { .. } => (Some(LatticeUnit::poly_mul(&x, &y, KYBER_Q)), Unit::Lattice),
            Instruction::ModRed { modulus, .. } => (Some(LatticeUnit::mod_red(&x, modulus)), Unit::Lattice),
            Instruction::PolyAdd { .. } => (Some(LatticeUnit::poly_add(&x, &y, KYBER_Q)), Unit::Lattice),
            Instruction::Hamming { .. } => (Some(InfoUnit::hamming(&x, &y)), Unit::Info),
            Instruction::PopCnt { .. } => (Some(InfoUnit::popcount(&x)), Unit::Info),
            Instruction::QRand { .. } => (Some(InfoUnit::qrand(&mut self.rng_seed)), Unit::Info),
            Instruction::TMul { .. } => (Some(VectorUnit::vmul(&x, &y, Width::B64)), Unit::Tensor),
            _ => (Some(VectorUnit::vdot(&x, &y, Width::B64)), Unit::Tensor),
        };
        match res {
            Some(v) => {
                self.finish_write(rd, v, unit, 0, npc);
                Ok(Request::Done)
            },
            None => {
                self.retire(Unit::Base, 0);
                Err(String::from_str("modulus has no primitive 2N-th root of unity"))
            },
        }
    }

    /// Counts a floating-point instruction and hands its operands to the
    /// host.
    fn exec_float(&mut self, inst: &Instruction) -> (r: Result<Request, String>)
        requires
            old(self).wf(),
            is_float(*inst),
        ensures
            final(self).wf(),
            Cpu::step_post(*old(self), *final(self), *inst, r),
    {
        reveal(Cpu::step_post);
        let zero = Reg256::zero();
        let (op, rd, x, y, z, imm, unit): (FloatOp, u8, Reg256, Reg256, Reg256, u64, Unit) = match *inst {
            Instruction::CAdd { rd, rs1, rs2 } => (FloatOp::CAdd, rd, self.get_reg(rs1), self.get_reg(rs2), zero, 0, Unit::Complex),
            Instruction::CSub { rd, rs1, rs2 } => (FloatOp::CSub, rd, self.get_reg(rs1), self.get_reg(rs2), zero, 0, Unit::Complex),
            Instruction::CMul { rd, rs1, rs2 } => (FloatOp::CMul, rd, self.get_reg(rs1), self.get_reg(rs2), zero, 0, Unit::Complex),
            Instruction::CConj { rd, rs1 } => (FloatOp::CConj, rd, self.get_reg(rs1), zero, zero, 0, Unit::Complex),
            Instruction::CNorm { rd, rs1 } => (FloatOp::CNorm, rd, self.get_reg(rs1), zero, zero, 0, Unit::Complex),
            Instruction::CMag { rd, rs1 } => (FloatOp::CMag, rd, self.get_reg(rs1), zero, zero, 0, Unit::Complex),
            Instruction::Entropy { rd, rs1 } => (FloatOp::Entropy, rd, self.get_reg(rs1), zero, zero, 0, Unit::Info),
            Instruction::Zipper { rd, rs1, rs2 } => (FloatOp::Zipper, rd, self.get_reg(rd), self.get_reg(rs1), self.get_reg(rs2), 0, Unit::Tensor),
            Instruction::Zipper2 { rd, rs1, rs2 } => (FloatOp::Zipper2, rd, self.get_reg(rd), self.get_reg(rs1), self.get_reg(rs2), 0, Unit::Tensor),
            Instruction::Trunc { rd, rs1, eps_bits } => (FloatOp::Trunc, rd, self.get_reg(rs1), zero, zero, eps_bits, Unit::Tensor),
            Instruction::TAct { rd, rs1, func } => (FloatOp::TAct(func), rd, self.get_reg(rs1), zero, zero, 0, Unit::Tensor),
            Instruction::TSoftmax { rd, rs1 } => (FloatOp::TSoftmax, rd, self.get_reg(rs1), zero, zero, 0, Unit::Tensor),
            _ => (FloatOp::TSoftmax, 0, zero, zero, zero, 0, Unit::Tensor),
        };
        self.finish(unit);
        Ok(Request::Float { op, rd, x, y, z, imm })
    }
}


impl Cpu {
    /// Executes a system call: the number is in a7, the argument in a0
    /// (and the length of a string in a1).
    fn handle_syscall(&mut self) -> (r: Result<Request, String>)
        requires
            old(self).wf(),
        ensures
            final(self).wf(),
            Cpu::syscall_post(*old(self), *final(self), r),
    {
        let num = self.get_reg(REG_A7).as_u64();
        let a0 = self.get_reg(REG_A0).as_u64();
        if num == syscall::PRINT_INT {
            self.finish(Unit::Base);
            Ok(Request::PrintInt(a0 as i64))
        } else if num == syscall::PRINT_CHAR {
            self.finish(Unit::Base);
            Ok(Request::PrintChar((a0 & 0xff) as u8))
        } else if num == syscall::PRINT_STR {
            let len = self.get_reg(REG_A1).as_u64() as usize;
            self.retire(Unit::Base, 0);
            match self.memory.read_bytes(a0, len) {
                Ok(bytes) => {
                    let text = vstd::slice::slice_to_vec(bytes);
                    self.pc = wadd(self.pc, 1);
                    Ok(Request::PrintStr(text))
                },
                Err(e) => Err(e),
            }
        } else if num == syscall::PRINT_HEX {
            self.finish(Unit::Base);
            Ok(Request::PrintHex(a0))
        } else if num == syscall::PRINT_F64 {
            self.finish(Unit::Base);
            Ok(Request::PrintF64(a0))
        } else if num == syscall::PRINT_F32 {
            self.finish(Unit::Base);
            Ok(Request::PrintF32((a0 & 0xffff_ffff) as u32))
        } else if num == syscall::PRINT_REG256 {
            proof {
                assert(a0 & 31 == a0 % 32) by (bit_vector);
            }
            let index = (a0 & 31) as u8;
            let value = self.get_reg(index);
            self.finish(Unit::Base);
            Ok(Request::PrintReg { index, value })
        } else if num == syscall::EXIT {
            self.finish(Unit::Base);
            self.status = CpuStatus::Trapped(a0);
            Ok(Request::Done)
        } else {
            let mut e = String::from_str("unknown syscall number: ");
            push_dec(&mut e, num);
            self.retire(Unit::Base, 0);
            Err(e)
        }
    }

    /// Executes a system, control-register or no-operation instruction.
    fn exec_system(&mut self, inst: &Instruction) -> (r: Result<Request, String>)
        requires
            old(self).wf(),
            inst is Ecall || inst is Halt || inst is Nop || inst is Fence || inst is CsrR || inst is CsrW,
        ensures
            final(self).wf(),
            Cpu::step_post(*old(self), *final(self), *inst, r),
    {
        reveal(Cpu::step_post);
        match *inst {
            Instruction::Ecall => self.handle_syscall(),
            Instruction::Halt => {
                self.retire(Unit::Base, 0);
                self.status = CpuStatus::Halted;
                Ok(Request::Done)
            },
            Instruction::CsrR { rd, csr } => {
                if csr == csr::TEMP_K {
                    self.finish(Unit::Base);
                    Ok(Request::ReadTemp { rd })
                } else if csr == csr::LANDAUER {
                    self.finish(Unit::Base);
                    Ok(Request::ReadLandauer { rd })
                } else {
                    let npc = wadd(self.pc, 1);
                    self.retire(Unit::Base, 0);
                    let v = if csr == csr::CYCLE {
                        self.metrics.cycles
                    } else if csr == csr::INSTRET {
                        self.metrics.instructions_retired
                    } else if csr == csr::ENTROPY_ACC {
                        self.metrics.bit_erasures
                    } else {
                        0
                    };
                    self.set_reg(rd, Reg256::from_u64(v));
                    self.pc = npc;
                    Ok(Request::Done)
                }
            },
            Instruction::CsrW { csr, rs1 } => {
                let value = self.get_reg(rs1).as_u64();
                self.finish(Unit::Base);
                if csr == csr::TEMP_K {
                    Ok(Request::WriteTemp { value })
                } else {
                    Ok(Request::Done)
                }
            },
            _ => {
                self.finish(Unit::Base);
                Ok(Request::Done)
            },
        }
    }
}


impl Cpu {
    /// Executes one instruction: counts it, applies its effect and moves
    /// the program counter. What the host must still do is returned; an
    /// out-of-range memory access or an unknown system call is an error,
    /// after which only the counters have changed.
    pub fn execute_instruction(&mut self, inst: &Instruction) -> (r: Result<Request, String>)
        requires
            old(self).wf(),
        ensures
            final(self).wf(),
            Cpu::step_post(*old(self), *final(self), *inst, r),
    {
        if is_alu_inst(inst) {
            self.exec_alu(inst)
        } else if is_load_inst(inst) {
            self.exec_load(inst)
        } else if is_store_inst(inst) {
            self.exec_store(inst)
        } else if is_branch_inst(inst) {
            self.exec_branch(inst)
        } else if is_vector_inst(inst) {
            self.exec_vector(inst)
        } else if is_unit_inst(inst) {
            self.exec_unit(inst)
        } else if is_float_inst(inst) {
            self.exec_float(inst)
        } else if is_move_inst(inst) {
            self.exec_move(inst)
        } else {
            self.exec_system(inst)
        }
    }
}


/// `c` with its status replaced by `st`.
pub open spec fn with_status(c: Cpu, st: CpuStatus) -> Cpu {
    Cpu { status: st, ..c }
}

/// One completed step of a run of `prog` with cycle budget `max_cycles`:
/// `a` is running, its program counter is inside the program, the budget
/// is not used up, and the instruction at the program counter took `a` to
/// `b` with nothing left to the host.
pub open spec fn run_step(a: Cpu, b: Cpu, prog: Seq<Instruction>, max_cycles: u64) -> bool {
    &&& a.status == CpuStatus::Running
    &&& a.pc < prog.len()
    &&& a.metrics.cycles < max_cycles
    &&& Cpu::step_post(a, b, prog[a.pc as int], Ok(Request::Done))
}

/// `t` is a sequence of states, each one `run_step` from the one before.
pub open spec fn is_run(t: Seq<Cpu>, prog: Seq<Instruction>, max_cycles: u64) -> bool {
    &&& t.len() >= 1
    &&& forall|i: int| 0 <= i < t.len() - 1 ==> run_step(#[trigger] t[i], t[i + 1], prog, max_cycles)
}

/// How a run that reached state `last` ends in state `b` with result `r`:
/// a stopped processor stays as it is; a program counter past the end of
/// the program halts it; a used-up budget is a timeout; otherwise the
/// instruction at the program counter failed or left work to the host.
pub open spec fn run_end(last: Cpu, b: Cpu, prog: Seq<Instruction>, max_cycles: u64, r: Result<Request, String>) -> bool {
    if last.status != CpuStatus::Running {
        b == last && r == Ok::<Request, String>(Request::Done)
    } else if last.pc >= prog.len() {
        b == with_status(last, CpuStatus::Halted) && r == Ok::<Request, String>(Request::Done)
    } else if last.metrics.cycles >= max_cycles {
        b == last && (r matches Err(e) && e@ == timeout_msg(max_cycles))
    } else {
        Cpu::step_post(last, b, prog[last.pc as int], r) && r != Ok::<Request, String>(Request::Done)
    }
}

/// Every instruction costs one to four cycles.
pub proof fn lemma_step_cycles(a: Cpu, b: Cpu, inst: Instruction, r: Result<Request, String>)
    requires
        Cpu::step_post(a, b, inst, r),
        a.metrics.cycles + 4 <= u64::MAX,
    ensures
        a.metrics.cycles < b.metrics.cycles <= a.metrics.cycles + 4,
{
    let c = a.metrics.cycles;
    assert(wrap64(c + 1) == c + 1);
    assert(wrap64(c + 1 + 0) == c + 1);
    assert(wrap64(c + 1 + 3) == c + 4);
    reveal(Cpu::step_post);
    match inst {
        Instruction::Ecall => {},
        Instruction::Beq { .. } | Instruction::Bne { .. } | Instruction::Blt { .. }
        | Instruction::Bge { .. } | Instruction::Bltu { .. } | Instruction::Bgeu { .. } => {},
        _ => {},
    }
}

impl Cpu {
    /// Runs `instructions` from the current program counter until the
    /// processor stops, the program counter leaves the program (which halts
    /// it), the cycle count reaches `max_cycles`, an instruction fails, or
    /// an instruction leaves work to the host. In the last case the request
    /// is returned with the processor still running: the host does the work
    /// and calls `run_program` again to go on.
    pub fn run_program(&mut self, instructions: &[Instruction], max_cycles: u64) -> (r: Result<Request, String>)
        requires
            old(self).wf(),
            max_cycles <= u64::MAX - 3,
        ensures
            final(self).wf(),
            exists|t: Seq<Cpu>|
                {
                    &&& #[trigger] is_run(t, instructions@, max_cycles)
                    &&& t[0] == with_status(*old(self), CpuStatus::Running)
                    &&& run_end(t.last(), *final(self), instructions@, max_cycles, r)
                },
    {
        self.status = CpuStatus::Running;
        let ghost mut t: Seq<Cpu> = seq![*self];
        loop
            invariant
                self.wf(),
                max_cycles <= u64::MAX - 3,
                is_run(t, instructions@, max_cycles),
                t[0] == with_status(*old(self), CpuStatus::Running),
                t.last() == *self,
            decreases (if self.metrics.cycles < max_cycles { max_cycles - self.metrics.cycles } else { 0 }),
        {
            if self.status != CpuStatus::Running {
                return Ok(Request::Done);
            }
            if self.pc >= instructions.len() as u64 {
                self.status = CpuStatus::Halted;
                return Ok(Request::Done);
            }
            if self.metrics.cycles >= max_cycles {
                let mut e = String::from_str("execution timed out after ");
                push_dec(&mut e, max_cycles);
                e.append(" cycles");
                return Err(e);
            }
            let ghost before = *self;
            let r = self.execute_instruction(&instructions[self.pc as usize]);
            proof {
                lemma_step_cycles(before, *self, instructions@[before.pc as int], r);
            }
            match r {
                Ok(Request::Done) => {
                    proof {
                        assert(run_step(before, *self, instructions@, max_cycles));
                        t = t.push(*self);
                        assert forall|i: int| 0 <= i < t.len() - 1 implies run_step(#[trigger] t[i], t[i + 1], instructions@, max_cycles) by {
                            if i < t.len() - 2 {
                                assert(t[i] == t.drop_last()[i]);
                            }
                        }
                    }
                },
                _ => {
                    return r;
                },
            }
        }
    }
}

} // verus!
