//! Which way the conditional branches go.
use vstd::prelude::*;
use crate::cpu::{Cpu, Request, rel_target};
use crate::isa::{Instruction, wrap64};

verus! {

/// The top bit of a 64-bit register.
pub open spec fn sign_bit() -> u64 {
    0x8000_0000_0000_0000u64
}

/// The index a conditional branch at `a.pc` moves to: its target when
/// `taken`, else the next instruction.
pub open spec fn branch_next(a: Cpu, offset: i64, taken: bool) -> u64 {
    if taken {
        rel_target(a.pc, offset)
    } else {
        wrap64(a.pc + 1)
    }
}

proof fn lemma_flip(x: u64, y: u64)
    ensures
        crate::isa::signed(x) < crate::isa::signed(y) <==> (x ^ sign_bit()) < (y ^ sign_bit()),
{
    assert({
        &&& x < 0x8000_0000_0000_0000u64 ==> x ^ 0x8000_0000_0000_0000u64 == x + 0x8000_0000_0000_0000u64
        &&& x >= 0x8000_0000_0000_0000u64 ==> x ^ 0x8000_0000_0000_0000u64 == x - 0x8000_0000_0000_0000u64
        &&& y < 0x8000_0000_0000_0000u64 ==> y ^ 0x8000_0000_0000_0000u64 == y + 0x8000_0000_0000_0000u64
        &&& y >= 0x8000_0000_0000_0000u64 ==> y ^ 0x8000_0000_0000_0000u64 == y - 0x8000_0000_0000_0000u64
    }) by (bit_vector);
}

/// The conditional branches compare `rs1` with `rs2`: `beq`/`bne` the
/// whole registers for equality, and the others their low lanes,
/// `bltu`/`bgeu` as unsigned numbers and `blt`/`bge` as two's-complement
/// signed numbers, which is the unsigned order once the top bit of both is
/// flipped (so `-1 < 0` for `blt`, while `bltu` sees `2^64 - 1 > 0`). A
/// taken branch moves to its target, an untaken one to the next
/// instruction.
pub proof fn law_branch_directions(a: Cpu, b: Cpu, inst: Instruction, r: Result<Request, String>)
    requires
        Cpu::step_post(a, b, inst, r),
    ensures
        match inst {
            Instruction::Beq { rs1, rs2, offset } => b.pc == branch_next(a, offset, a.reg(rs1) == a.reg(rs2)),
            Instruction::Bne { rs1, rs2, offset } => b.pc == branch_next(a, offset, a.reg(rs1) != a.reg(rs2)),
            Instruction::Blt { rs1, rs2, offset } => b.pc == branch_next(
                a,
                offset,
                (a.reg(rs1).lanes[0] ^ sign_bit()) < (a.reg(rs2).lanes[0] ^ sign_bit()),
            ),
            Instruction::Bge { rs1, rs2, offset } => b.pc == branch_next(
                a,
                offset,
                !((a.reg(rs1).lanes[0] ^ sign_bit()) < (a.reg(rs2).lanes[0] ^ sign_bit())),
            ),
            Instruction::Bltu { rs1, rs2, offset } => b.pc == branch_next(a, offset, a.reg(rs1).lanes[0] < a.reg(rs2).lanes[0]),
            Instruction::Bgeu { rs1, rs2, offset } => b.pc == branch_next(a, offset, !(a.reg(rs1).lanes[0] < a.reg(rs2).lanes[0])),
            _ => true,
        },
{
    match inst {
        Instruction::Beq { rs1, rs2, offset } => lemma_step_beq(a, b, rs1, rs2, offset, r),
        Instruction::Bne { rs1, rs2, offset } => lemma_step_bne(a, b, rs1, rs2, offset, r),
        Instruction::Blt { rs1, rs2, offset } => {
            lemma_step_blt(a, b, rs1, rs2, offset, r);
            lemma_flip(a.reg(rs1).lanes[0], a.reg(rs2).lanes[0]);
        },
        Instruction::Bge { rs1, rs2, offset } => {
            lemma_step_bge(a, b, rs1, rs2, offset, r);
            lemma_flip(a.reg(rs1).lanes[0], a.reg(rs2).lanes[0]);
        },
        Instruction::Bltu { rs1, rs2, offset } => lemma_step_bltu(a, b, rs1, rs2, offset, r),
        Instruction::Bgeu { rs1, rs2, offset } => lemma_step_bgeu(a, b, rs1, rs2, offset, r),
        _ => {},
    }
}

proof fn lemma_step_beq(a: Cpu, b: Cpu, rs1: u8, rs2: u8, offset: i64, r: Result<Request, String>)
    requires
        Cpu::step_post(a, b, Instruction::Beq { rs1, rs2, offset }, r),
    ensures
        b.pc == branch_next(a, offset, a.reg(rs1) == a.reg(rs2)),
{
    reveal(Cpu::step_post);
}

proof fn lemma_step_bne(a: Cpu, b: Cpu, rs1: u8, rs2: u8, offset: i64, r: Result<Request, String>)
    requires
        Cpu::step_post(a, b, Instruction::Bne { rs1, rs2, offset }, r),
    ensures
        b.pc == branch_next(a, offset, a.reg(rs1) != a.reg(rs2)),
{
    reveal(Cpu::step_post);
}

proof fn lemma_step_blt(a: Cpu, b: Cpu, rs1: u8, rs2: u8, offset: i64, r: Result<Request, String>)
    requires
        Cpu::step_post(a, b, Instruction::Blt { rs1, rs2, offset }, r),
    ensures
        b.pc == branch_next(a, offset, crate::isa::signed(a.reg(rs1).lanes[0]) < crate::isa::signed(a.reg(rs2).lanes[0])),
{
    reveal(Cpu::step_post);
}

proof fn lemma_step_bge(a: Cpu, b: Cpu, rs1: u8, rs2: u8, offset: i64, r: Result<Request, String>)
    requires
        Cpu::step_post(a, b, Instruction::Bge { rs1, rs2, offset }, r),
    ensures
        b.pc == branch_next(a, offset, crate::isa::signed(a.reg(rs1).lanes[0]) >= crate::isa::signed(a.reg(rs2).lanes[0])),
{
    reveal(Cpu::step_post);
}

proof fn lemma_step_bltu(a: Cpu, b: Cpu, rs1: u8, rs2: u8, offset: i64, r: Result<Request, String>)
    requires
        Cpu::step_post(a, b, Instruction::Bltu { rs1, rs2, offset }, r),
    ensures
        b.pc == branch_next(a, offset, a.reg(rs1).lanes[0] < a.reg(rs2).lanes[0]),
{
    reveal(Cpu::step_post);
}

proof fn lemma_step_bgeu(a: Cpu, b: Cpu, rs1: u8, rs2: u8, offset: i64, r: Result<Request, String>)
    requires
        Cpu::step_post(a, b, Instruction::Bgeu { rs1, rs2, offset }, r),
    ensures
        b.pc == branch_next(a, offset, a.reg(rs1).lanes[0] >= a.reg(rs2).lanes[0]),
{
    reveal(Cpu::step_post);
}

} // verus!
