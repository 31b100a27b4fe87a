//! The control-flow report follows the processor.
use vstd::prelude::*;
use vstd::arithmetic::div_mod::*;
use crate::cpu::{Cpu, Request, rel_target};
use crate::disasm::{edge_of, inst_fits, jump_dest};
use crate::isa::{Instruction, lemma_as_i64, two64, wrap64};

verus! {

/// A jump destination that stays within signed 64-bit indices is the
/// processor's jump target.
proof fn lemma_jump_dest(pc: u64, offset: i64)
    requires
        i64::MIN <= (pc as i64) + offset <= i64::MAX,
    ensures
        jump_dest(pc, offset) == rel_target(pc, offset),
{
    let v: int = (pc as i64) + offset;
    let w: i64 = v as i64;
    assert(w as int == v);
    assert(w < 0 ==> (w as u64) as int == w as int + 0x1_0000_0000_0000_0000) by (bit_vector);
    assert(w >= 0 ==> (w as u64) as int == w as int) by (bit_vector);
    lemma_as_i64(pc);
    lemma_mod_multiples_vanish(1, v, two64());
    lemma_mod_multiples_vanish(-1, pc + offset, two64());
    if w < 0 {
        lemma_small_mod((v + two64()) as nat, two64() as nat);
    } else {
        lemma_small_mod(v as nat, two64() as nat);
    }
    assert(v % two64() == (pc + offset) % two64());
}

/// Every jump and branch edge of the control-flow report points where the
/// processor goes: executing the instruction at index `pc` either falls
/// through to `pc + 1` (a conditional branch not taken) or reaches the
/// edge's target, for every instruction whose target fits the address
/// range.
pub proof fn law_edges_follow_execution(a: Cpu, b: Cpu, inst: Instruction, r: Result<Request, String>)
    requires
        Cpu::step_post(a, b, inst, r),
        inst_fits(inst, a.pc),
    ensures
        match inst {
            Instruction::Beq { .. } | Instruction::Bne { .. } | Instruction::Blt { .. } | Instruction::Bge {
                ..
            } | Instruction::Bltu { .. } | Instruction::Bgeu { .. } => edge_of(inst, a.pc) matches Some(e) && !e.0
                && (b.pc == e.1 || b.pc == wrap64(a.pc + 1)),
            Instruction::Jal { .. } => edge_of(inst, a.pc) matches Some(e) && b.pc == e.1,
            _ => true,
        },
{
    reveal(Cpu::step_post);
    match inst {
        Instruction::Beq { offset, .. } | Instruction::Bne { offset, .. } | Instruction::Blt {
            offset,
            ..
        } | Instruction::Bge { offset, .. } | Instruction::Bltu { offset, .. } | Instruction::Bgeu {
            offset,
            ..
        } | Instruction::Jal { offset, .. } => {
            lemma_jump_dest(a.pc, offset);
        },
        _ => {},
    }
}

} // verus!
