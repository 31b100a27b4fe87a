//! What the loads write: the bytes at the address, as an unsigned or a
//! two's-complement signed number, widened to 64 bits; and what the stores
//! leave in memory.
use vstd::prelude::*;
use crate::cpu::{Cpu, Request, rel_target};
use crate::isa::{Instruction, signed};
use crate::memory::{law_store_then_load, le_num, lemma_le_num_bound, pow256};

verus! {

/// The `n` bytes a load of width `n` at `rs1 + offset` reads in state `a`.
pub open spec fn load_bytes(a: Cpu, rs1: u8, offset: i64, n: nat) -> Seq<u8> {
    let addr = rel_target(a.reg(rs1).lanes[0], offset);
    a.memory.contents().subrange(addr as int, addr + n)
}

proof fn lemma_sext16(x: u16)
    ensures
        signed((((x as i16) as i64) as u64)) == if x >= 0x8000 { x - 0x10000 } else { x as int },
{
    assert(x >= 0x8000 ==> ((x as i16) as i64) as u64 == (x as u64) | 0xFFFF_FFFF_FFFF_0000u64) by (bit_vector);
    assert((x as u64) | 0xFFFF_FFFF_FFFF_0000u64 == (x as u64) + 0xFFFF_FFFF_FFFF_0000u64) by (bit_vector);
    assert(x < 0x8000 ==> ((x as i16) as i64) as u64 == x as u64) by (bit_vector);
}

proof fn lemma_sext32(x: u32)
    ensures
        signed((((x as i32) as i64) as u64)) == if x >= 0x8000_0000 { x - 0x1_0000_0000 } else { x as int },
{
    assert(x >= 0x8000_0000 ==> ((x as i32) as i64) as u64 == (x as u64) | 0xFFFF_FFFF_0000_0000u64) by (bit_vector);
    assert((x as u64) | 0xFFFF_FFFF_0000_0000u64 == (x as u64) + 0xFFFF_FFFF_0000_0000u64) by (bit_vector);
    assert(x < 0x8000_0000 ==> ((x as i32) as i64) as u64 == x as u64) by (bit_vector);
}

proof fn lemma_sext8(x: u8)
    ensures
        signed((((x as i8) as i64) as u64)) == if x >= 0x80 { x - 0x100 } else { x as int },
{
    assert(x >= 0x80 ==> ((x as i8) as i64) as u64 == (x as u64) | 0xFFFF_FFFF_FFFF_FF00u64) by (bit_vector);
    assert((x as u64) | 0xFFFF_FFFF_FFFF_FF00u64 == (x as u64) + 0xFFFF_FFFF_FFFF_FF00u64) by (bit_vector);
    assert(x < 0x80 ==> ((x as i8) as i64) as u64 == x as u64) by (bit_vector);
}

/// Loads widen the little-endian value `h` of the bytes they read: `ld`
/// and `lbu` as unsigned numbers, `lw`, `lh` and `lb` as two's-complement
/// signed numbers of 32, 16 and 8 bits (`h - 2^n` when the top bit is set),
/// and in every case the rest of the register is zero.
pub proof fn law_loads_extend(a: Cpu, b: Cpu, inst: Instruction, r: Result<Request, String>)
    requires
        Cpu::step_post(a, b, inst, r),
        r is Ok,
    ensures
        match inst {
            Instruction::Ld { rd, rs1, offset } => rd != 0 ==> b.reg(rd).lanes[0] == le_num(load_bytes(a, rs1, offset, 8))
                && b.reg(rd).lanes[1] == 0 && b.reg(rd).lanes[2] == 0 && b.reg(rd).lanes[3] == 0,
            Instruction::Lw { rd, rs1, offset } => rd != 0 ==> {
                let h = le_num(load_bytes(a, rs1, offset, 4)) as int;
                &&& signed(b.reg(rd).lanes[0]) == if h >= 0x8000_0000 { h - 0x1_0000_0000 } else { h }
                &&& b.reg(rd).lanes[1] == 0 && b.reg(rd).lanes[2] == 0 && b.reg(rd).lanes[3] == 0
            },
            Instruction::Lh { rd, rs1, offset } => rd != 0 ==> {
                let h = le_num(load_bytes(a, rs1, offset, 2)) as int;
                &&& signed(b.reg(rd).lanes[0]) == if h >= 0x8000 { h - 0x1_0000 } else { h }
                &&& b.reg(rd).lanes[1] == 0 && b.reg(rd).lanes[2] == 0 && b.reg(rd).lanes[3] == 0
            },
            Instruction::Lb { rd, rs1, offset } => rd != 0 ==> {
                let h = load_bytes(a, rs1, offset, 1)[0] as int;
                &&& signed(b.reg(rd).lanes[0]) == if h >= 0x80 { h - 0x100 } else { h }
                &&& b.reg(rd).lanes[1] == 0 && b.reg(rd).lanes[2] == 0 && b.reg(rd).lanes[3] == 0
            },
            Instruction::Lbu { rd, rs1, offset } => rd != 0 ==> b.reg(rd).lanes[0] == load_bytes(a, rs1, offset, 1)[0]
                && b.reg(rd).lanes[1] == 0 && b.reg(rd).lanes[2] == 0 && b.reg(rd).lanes[3] == 0,
            _ => true,
        },
{
    reveal(Cpu::step_post);
    reveal_with_fuel(pow256, 9);
    match inst {
        Instruction::Ld { rd, rs1, offset } => {
            lemma_le_num_bound(load_bytes(a, rs1, offset, 8));
        },
        Instruction::Lw { rd, rs1, offset } => {
            let s = load_bytes(a, rs1, offset, 4);
            lemma_le_num_bound(s);
            lemma_sext32(le_num(s) as u32);
        },
        Instruction::Lh { rd, rs1, offset } => {
            let s = load_bytes(a, rs1, offset, 2);
            lemma_le_num_bound(s);
            lemma_sext16(le_num(s) as u16);
        },
        Instruction::Lb { rd, rs1, offset } => {
            let s = load_bytes(a, rs1, offset, 1);
            lemma_sext8(s[0]);
        },
        _ => {},
    }
}

proof fn lemma_low_parts(x: u64)
    ensures
        (x as u32) as u64 == x % 0x1_0000_0000,
        (x as u16) as u64 == x % 0x1_0000,
        (x as u8) as u64 == x % 0x100,
{
    assert((x as u32) as u64 == x % 0x1_0000_0000 && (x as u16) as u64 == x % 0x1_0000 && (x as u8) as u64 == x % 0x100)
        by (bit_vector);
}

/// Stores write the low bytes of the source register `rs2` at
/// `rs1 + offset`: read back as a little-endian number, the `n` bytes there
/// afterwards are the register's low lane modulo `2^(8n)` (all of it for
/// `sd`), and every other byte of memory is unchanged.
pub proof fn law_stores_write_low_bytes(a: Cpu, b: Cpu, inst: Instruction, r: Result<Request, String>)
    requires
        a.wf(),
        Cpu::step_post(a, b, inst, r),
        r is Ok,
    ensures
        match inst {
            Instruction::Sd { rs1, rs2, offset } => le_num(store_bytes(b, a, rs1, offset, 8)) == a.reg(rs2).lanes[0]
                && untouched_elsewhere(a, b, rs1, offset, 8),
            Instruction::Sw { rs1, rs2, offset } => le_num(store_bytes(b, a, rs1, offset, 4)) == a.reg(rs2).lanes[0]
                % 0x1_0000_0000 && untouched_elsewhere(a, b, rs1, offset, 4),
            Instruction::Sh { rs1, rs2, offset } => le_num(store_bytes(b, a, rs1, offset, 2)) == a.reg(rs2).lanes[0]
                % 0x1_0000 && untouched_elsewhere(a, b, rs1, offset, 2),
            Instruction::Sb { rs1, rs2, offset } => le_num(store_bytes(b, a, rs1, offset, 1)) == a.reg(rs2).lanes[0]
                % 0x100 && untouched_elsewhere(a, b, rs1, offset, 1),
            _ => true,
        },
{
    reveal(Cpu::step_post);
    reveal_with_fuel(pow256, 9);
    match inst {
        Instruction::Sd { rs1, rs2, offset } => {
            let x = a.reg(rs2).lanes[0];
            let addr = rel_target(a.reg(rs1).lanes[0], offset);
            crate::memory::lemma_le_encode_len(x as nat, 8);
            law_store_then_load(a.memory.contents(), addr as int, x as nat, 8);
        },
        Instruction::Sw { rs1, rs2, offset } => {
            let x = a.reg(rs2).lanes[0];
            let addr = rel_target(a.reg(rs1).lanes[0], offset);
            lemma_low_parts(x);
            crate::memory::lemma_le_encode_len((x as u32) as nat, 4);
            law_store_then_load(a.memory.contents(), addr as int, (x as u32) as nat, 4);
        },
        Instruction::Sh { rs1, rs2, offset } => {
            let x = a.reg(rs2).lanes[0];
            let addr = rel_target(a.reg(rs1).lanes[0], offset);
            lemma_low_parts(x);
            crate::memory::lemma_le_encode_len((x as u16) as nat, 2);
            law_store_then_load(a.memory.contents(), addr as int, (x as u16) as nat, 2);
        },
        Instruction::Sb { rs1, rs2, offset } => {
            let x = a.reg(rs2).lanes[0];
            let addr = rel_target(a.reg(rs1).lanes[0], offset);
            lemma_low_parts(x);
            crate::memory::lemma_le_encode_len((x as u8) as nat, 1);
            law_store_then_load(a.memory.contents(), addr as int, (x as u8) as nat, 1);
        },
        _ => {},
    }
}

/// The `n` bytes of state `b` at the address a store of width `n` at
/// `rs1 + offset` in state `a` writes.
pub open spec fn store_bytes(b: Cpu, a: Cpu, rs1: u8, offset: i64, n: nat) -> Seq<u8> {
    let addr = rel_target(a.reg(rs1).lanes[0], offset);
    b.memory.contents().subrange(addr as int, addr + n)
}

/// Every byte of memory outside the `n` bytes at `rs1 + offset` (taken in
/// state `a`) is the same in `b` as in `a`.
pub open spec fn untouched_elsewhere(a: Cpu, b: Cpu, rs1: u8, offset: i64, n: nat) -> bool {
    let addr = rel_target(a.reg(rs1).lanes[0], offset);
    &&& b.memory.contents().len() == a.memory.contents().len()
    &&& forall|i: int| 0 <= i < a.memory.contents().len() && !(addr <= i < addr + n) ==> #[trigger] b.memory.contents()[i]
        == a.memory.contents()[i]
}

} // verus!
