//! The disassembler: instruction text, listings of decoded programs and
//! objects, and the control-flow edge report.
use vstd::prelude::*;
use crate::isa::{ActivationFn, Instruction, Width, REG_RA, REG_ZERO, abi_name, reg_name};
use crate::assembler::{Symbols, syms_view, string_syms};
use crate::binary::{Object, parse_object, read_object, segs_view};
use crate::lex::{chars_of, push_chars};
use crate::text::{
    dec_chars, hex_chars, signed_chars, pad_left, pad_right, prefixed_hex, push_dec, push_hex,
    push_i64, push_hex_padded, push_padded,
};

pub mod from_bytes;
pub mod flow;
pub mod reread;

verus! {

// ─── Pieces of text ─────────────────────────────────────────────────────────

/// The name of register `r` as listings show it.
pub open spec fn rn(r: u8) -> Seq<char> {
    if r < 32 {
        abi_name(r as int)
    } else {
        seq!['?', '?']
    }
}

/// The suffix of a vector width.
pub open spec fn width_suffix(w: Width) -> Seq<char> {
    match w {
        Width::B8 => seq!['.', 'b'],
        Width::B16 => seq!['.', 'h'],
        Width::B32 => seq!['.', 'w'],
        Width::B64 => seq!['.', 'd'],
    }
}

/// The name of an activation function.
pub open spec fn act_name(f: ActivationFn) -> Seq<char> {
    match f {
        ActivationFn::ReLU => "ReLU"@,
        ActivationFn::Sigmoid => "Sigmoid"@,
        ActivationFn::Tanh => "Tanh"@,
        ActivationFn::GeLU => "GeLU"@,
        ActivationFn::SiLU => "SiLU"@,
    }
}

/// A mnemonic in a nine-character column, then its operands.
pub open spec fn with_ops(m: Seq<char>, ops: Seq<char>) -> Seq<char> {
    pad_right(m, 9) + ops
}

/// The label of the last entry of `t` at address `v`, if any.
pub open spec fn label_at(t: Symbols, v: u64) -> Option<Seq<char>>
    decreases t.len(),
{
    if t.len() == 0 {
        None
    } else if t.last().1 == v {
        Some(t.last().0)
    } else {
        label_at(t.drop_last(), v)
    }
}

/// Where a relative jump by `offset` from index `pc` lands.
pub open spec fn jump_dest(pc: u64, offset: i64) -> u64 {
    ((pc as i64) + offset) as u64
}

/// A jump target: its label or its index, and the offset.
pub open spec fn target_text(pc: u64, offset: i64, labels: Symbols) -> Seq<char> {
    let dst = jump_dest(pc, offset);
    match label_at(labels, dst) {
        Some(name) => "<"@ + name + "> (offset: "@ + signed_chars(offset as int) + ")"@,
        None => "0x"@ + pad_left(hex_chars(dst as nat), '0', 4) + " (offset: "@ + signed_chars(
            offset as int,
        ) + ")"@,
    }
}

/// The jump of `inst` at index `pc` stays within 64-bit signed indices.
pub open spec fn inst_fits(inst: Instruction, pc: u64) -> bool {
    match inst {
        Instruction::Beq { offset, .. } | Instruction::Bne { offset, .. } | Instruction::Blt {
            offset,
            ..
        } | Instruction::Bge { offset, .. } | Instruction::Bltu { offset, .. }
        | Instruction::Bgeu { offset, .. } | Instruction::Jal { offset, .. } => i64::MIN <= (
        pc as i64) + offset <= i64::MAX,
        _ => true,
    }
}

/// Every jump of `code` stays within 64-bit signed indices.
pub open spec fn code_fits(code: Seq<Instruction>) -> bool {
    forall|k: int| 0 <= k < code.len() ==> #[trigger] inst_fits(code[k], k as u64)
}

/// Whether every jump of `code` stays within 64-bit signed indices.
pub fn targets_fit(code: &[Instruction]) -> (r: bool)
    ensures
        r == code_fits(code@),
{
    let mut i: usize = 0;
    while i < code.len()
        invariant
            i <= code@.len(),
            forall|k: int| 0 <= k < i ==> #[trigger] inst_fits(code@[k], k as u64),
        decreases code@.len() - i,
    {
        let pc = i as u64;
        let ok = match code[i] {
            Instruction::Beq { offset, .. } | Instruction::Bne { offset, .. } | Instruction::Blt {
                offset,
                ..
            } | Instruction::Bge { offset, .. } | Instruction::Bltu { offset, .. }
            | Instruction::Bgeu { offset, .. } | Instruction::Jal { offset, .. } => {
                let p = pc as i64;
                (p as i128) + (offset as i128) <= i64::MAX as i128 && (p as i128) + (offset as i128)
                    >= i64::MIN as i128
            },
            _ => true,
        };
        if !ok {
            assert(!inst_fits(code@[i as int], i as u64));
            return false;
        }
        i = i + 1;
    }
    true
}

fn width_str(w: Width) -> (r: &'static str)
    ensures
        r@ == width_suffix(w),
{
    match w {
        Width::B8 => {
            proof {
                reveal_strlit(".b");
            }
            ".b"
        },
        Width::B16 => {
            proof {
                reveal_strlit(".h");
            }
            ".h"
        },
        Width::B32 => {
            proof {
                reveal_strlit(".w");
            }
            ".w"
        },
        Width::B64 => {
            proof {
                reveal_strlit(".d");
            }
            ".d"
        },
    }
}

fn act_str(f: ActivationFn) -> (r: &'static str)
    ensures
        r@ == act_name(f),
{
    match f {
        ActivationFn::ReLU => "ReLU",
        ActivationFn::Sigmoid => "Sigmoid",
        ActivationFn::Tanh => "Tanh",
        ActivationFn::GeLU => "GeLU",
        ActivationFn::SiLU => "SiLU",
    }
}

fn push_mnemonic(s: &mut String, m: &str)
    ensures
        final(s)@ == old(s)@ + pad_right(m@, 9),
{
    let len = m.unicode_len();
    push_padded(s, m, len, 9);
}

fn push_wide_mnemonic(s: &mut String, m: &str, w: Width)
    ensures
        final(s)@ == old(s)@ + pad_right(m@ + width_suffix(w), 9),
{
    let mut t = String::from_str(m);
    t.append(width_str(w));
    let len = t.as_str().unicode_len();
    push_padded(s, t.as_str(), len, 9);
}

/// The label of the last entry of `t` at address `v`.
fn label_at_x(t: &Vec<(Vec<char>, u64)>, v: u64) -> (r: Option<usize>)
    ensures
        match label_at(syms_view(t@), v) {
            Some(name) => r matches Some(i) && i < t@.len() && t@[i as int].0@ == name,
            None => r is None,
        },
{
    let mut j: usize = t.len();
    let ghost tv = syms_view(t@);
    assert(tv.subrange(0, j as int) =~= tv);
    while j > 0
        invariant
            j <= t@.len() == tv.len(),
            tv == syms_view(t@),
            label_at(tv, v) == label_at(tv.subrange(0, j as int), v),
        decreases j,
    {
        assert(tv.subrange(0, j as int).last() == tv[j - 1]);
        if t[j - 1].1 == v {
            return Some(j - 1);
        }
        assert(tv.subrange(0, j as int).drop_last() =~= tv.subrange(0, j - 1));
        j = j - 1;
    }
    None
}

/// Appends the text of a jump target.
fn push_target(s: &mut String, pc: u64, offset: i64, labels: &Vec<(Vec<char>, u64)>)
    requires
        i64::MIN <= (pc as i64) + offset <= i64::MAX,
    ensures
        final(s)@ == old(s)@ + target_text(pc, offset, syms_view(labels@)),
{
    let dst = ((pc as i64) + offset) as u64;
    match label_at_x(labels, dst) {
        Some(i) => {
            s.append("<");
            push_chars(s, labels[i].0.as_slice());
            s.append("> (offset: ");
            push_i64(s, offset);
            s.append(")");
        },
        None => {
            s.append("0x");
            push_hex_padded(s, dst, 4);
            s.append(" (offset: ");
            push_i64(s, offset);
            s.append(")");
        },
    }
}

/// `a, b`
pub open spec fn ops2(a: u8, b: u8) -> Seq<char> {
    rn(a) + ", "@ + rn(b)
}

/// `a, b, c`
pub open spec fn ops3(a: u8, b: u8, c: u8) -> Seq<char> {
    ops2(a, b) + ", "@ + rn(c)
}

/// `a, b, imm`
pub open spec fn ops3i(a: u8, b: u8, imm: i64) -> Seq<char> {
    ops2(a, b) + ", "@ + signed_chars(imm as int)
}

/// `a, 0x..`
pub open spec fn ops_rh(a: u8, v: u64) -> Seq<char> {
    rn(a) + ", "@ + prefixed_hex(v as nat)
}

/// `a, offset(base)`
pub open spec fn ops_mem(a: u8, offset: i64, base: u8) -> Seq<char> {
    rn(a) + ", "@ + signed_chars(offset as int) + "("@ + rn(base) + ")"@
}

fn push_2(s: &mut String, a: u8, b: u8)
    ensures
        final(s)@ == old(s)@ + ops2(a, b),
{
    let ghost s0 = s@;
    s.append(reg_name(a));
    s.append(", ");
    s.append(reg_name(b));
    assert(s@ =~= s0 + ops2(a, b));
}

fn push_hex_prefixed(s: &mut String, v: u64)
    ensures
        final(s)@ == old(s)@ + prefixed_hex(v as nat),
{
    let ghost s0 = s@;
    proof {
        reveal_strlit("0x");
    }
    s.append("0x");
    push_hex(s, v);
    assert(s@ =~= s0 + prefixed_hex(v as nat));
}

fn push_r3(s: &mut String, m: &str, a: u8, b: u8, c: u8)
    ensures
        final(s)@ == old(s)@ + with_ops(m@, ops3(a, b, c)),
{
    let ghost s0 = s@;
    push_mnemonic(s, m);
    push_2(s, a, b);
    s.append(", ");
    s.append(reg_name(c));
    assert(s@ =~= s0 + with_ops(m@, ops3(a, b, c)));
}

fn push_r3w(s: &mut String, m: &str, w: Width, a: u8, b: u8, c: u8)
    ensures
        final(s)@ == old(s)@ + with_ops(m@ + width_suffix(w), ops3(a, b, c)),
{
    let ghost s0 = s@;
    push_wide_mnemonic(s, m, w);
    push_2(s, a, b);
    s.append(", ");
    s.append(reg_name(c));
    assert(s@ =~= s0 + with_ops(m@ + width_suffix(w), ops3(a, b, c)));
}

fn push_r2(s: &mut String, m: &str, a: u8, b: u8)
    ensures
        final(s)@ == old(s)@ + with_ops(m@, ops2(a, b)),
{
    let ghost s0 = s@;
    push_mnemonic(s, m);
    push_2(s, a, b);
    assert(s@ =~= s0 + with_ops(m@, ops2(a, b)));
}

fn push_r2w(s: &mut String, m: &str, w: Width, a: u8, b: u8)
    ensures
        final(s)@ == old(s)@ + with_ops(m@ + width_suffix(w), ops2(a, b)),
{
    let ghost s0 = s@;
    push_wide_mnemonic(s, m, w);
    push_2(s, a, b);
    assert(s@ =~= s0 + with_ops(m@ + width_suffix(w), ops2(a, b)));
}

fn push_r1(s: &mut String, m: &str, a: u8)
    ensures
        final(s)@ == old(s)@ + with_ops(m@, rn(a)),
{
    let ghost s0 = s@;
    push_mnemonic(s, m);
    s.append(reg_name(a));
    assert(s@ =~= s0 + with_ops(m@, rn(a)));
}

fn push_ri(s: &mut String, m: &str, a: u8, b: u8, imm: i64)
    ensures
        final(s)@ == old(s)@ + with_ops(m@, ops3i(a, b, imm)),
{
    let ghost s0 = s@;
    push_mnemonic(s, m);
    push_2(s, a, b);
    s.append(", ");
    push_i64(s, imm);
    assert(s@ =~= s0 + with_ops(m@, ops3i(a, b, imm)));
}

fn push_rd_i(s: &mut String, m: &str, a: u8, imm: i64)
    ensures
        final(s)@ == old(s)@ + with_ops(m@, rn(a) + ", "@ + signed_chars(imm as int)),
{
    let ghost s0 = s@;
    push_mnemonic(s, m);
    s.append(reg_name(a));
    s.append(", ");
    push_i64(s, imm);
    assert(s@ =~= s0 + with_ops(m@, rn(a) + ", "@ + signed_chars(imm as int)));
}

fn push_rh(s: &mut String, m: &str, a: u8, v: u64)
    ensures
        final(s)@ == old(s)@ + with_ops(m@, ops_rh(a, v)),
{
    let ghost s0 = s@;
    push_mnemonic(s, m);
    s.append(reg_name(a));
    s.append(", ");
    push_hex_prefixed(s, v);
    assert(s@ =~= s0 + with_ops(m@, ops_rh(a, v)));
}

fn push_hr(s: &mut String, m: &str, v: u64, a: u8)
    ensures
        final(s)@ == old(s)@ + with_ops(m@, prefixed_hex(v as nat) + ", "@ + rn(a)),
{
    let ghost s0 = s@;
    push_mnemonic(s, m);
    push_hex_prefixed(s, v);
    s.append(", ");
    s.append(reg_name(a));
    assert(s@ =~= s0 + with_ops(m@, prefixed_hex(v as nat) + ", "@ + rn(a)));
}

fn push_rrh(s: &mut String, m: &str, a: u8, b: u8, v: u64)
    ensures
        final(s)@ == old(s)@ + with_ops(m@, ops2(a, b) + ", "@ + prefixed_hex(v as nat)),
{
    let ghost s0 = s@;
    push_mnemonic(s, m);
    push_2(s, a, b);
    s.append(", ");
    push_hex_prefixed(s, v);
    assert(s@ =~= s0 + with_ops(m@, ops2(a, b) + ", "@ + prefixed_hex(v as nat)));
}

fn push_rrd(s: &mut String, m: &str, a: u8, b: u8, v: u64)
    ensures
        final(s)@ == old(s)@ + with_ops(m@, ops2(a, b) + ", "@ + dec_chars(v as nat)),
{
    let ghost s0 = s@;
    push_mnemonic(s, m);
    push_2(s, a, b);
    s.append(", ");
    push_dec(s, v);
    assert(s@ =~= s0 + with_ops(m@, ops2(a, b) + ", "@ + dec_chars(v as nat)));
}

fn push_tact(s: &mut String, m: &str, a: u8, b: u8, f: ActivationFn)
    ensures
        final(s)@ == old(s)@ + with_ops(m@, ops2(a, b) + ", "@ + act_name(f)),
{
    let ghost s0 = s@;
    push_mnemonic(s, m);
    push_2(s, a, b);
    s.append(", ");
    s.append(act_str(f));
    assert(s@ =~= s0 + with_ops(m@, ops2(a, b) + ", "@ + act_name(f)));
}

fn push_paren_reg(s: &mut String, base: u8)
    ensures
        final(s)@ == old(s)@ + "("@ + rn(base) + ")"@,
{
    let ghost s0 = s@;
    s.append("(");
    s.append(reg_name(base));
    s.append(")");
    assert(s@ =~= s0 + "("@ + rn(base) + ")"@);
}

fn push_mem_ops(s: &mut String, a: u8, offset: i64, base: u8)
    ensures
        final(s)@ == old(s)@ + ops_mem(a, offset, base),
{
    let ghost s0 = s@;
    s.append(reg_name(a));
    s.append(", ");
    push_i64(s, offset);
    let ghost s1 = s@;
    push_paren_reg(s, base);
    assert(s1 =~= s0 + rn(a) + ", "@ + signed_chars(offset as int));
    assert(s@ =~= s0 + ops_mem(a, offset, base));
}

fn push_mem(s: &mut String, m: &str, a: u8, offset: i64, base: u8)
    ensures
        final(s)@ == old(s)@ + with_ops(m@, ops_mem(a, offset, base)),
{
    let ghost s0 = s@;
    push_mnemonic(s, m);
    push_mem_ops(s, a, offset, base);
    assert(s@ =~= s0 + with_ops(m@, ops_mem(a, offset, base)));
}

fn push_branch(s: &mut String, m: &str, a: u8, b: u8, pc: u64, offset: i64, labels: &Vec<(Vec<char>, u64)>)
    requires
        i64::MIN <= (pc as i64) + offset <= i64::MAX,
    ensures
        final(s)@ == old(s)@ + with_ops(m@, ops2(a, b) + ", "@ + target_text(pc, offset, syms_view(labels@))),
{
    let ghost s0 = s@;
    push_mnemonic(s, m);
    push_2(s, a, b);
    s.append(", ");
    push_target(s, pc, offset, labels);
    assert(s@ =~= s0 + with_ops(m@, ops2(a, b) + ", "@ + target_text(pc, offset, syms_view(labels@))));
}

fn push_jal(s: &mut String, rd: u8, pc: u64, offset: i64, labels: &Vec<(Vec<char>, u64)>)
    requires
        i64::MIN <= (pc as i64) + offset <= i64::MAX,
    ensures
        final(s)@ == old(s)@ + inst_text(Instruction::Jal { rd, offset }, pc, syms_view(labels@)),
{
    let ghost s0 = s@;
    let ghost t = target_text(pc, offset, syms_view(labels@));
    if rd == REG_ZERO {
        push_mnemonic(s, "j");
        push_target(s, pc, offset, labels);
        assert(s@ =~= s0 + with_ops("j"@, t));
    } else if rd == REG_RA {
        push_mnemonic(s, "call");
        push_target(s, pc, offset, labels);
        assert(s@ =~= s0 + with_ops("call"@, t));
    } else {
        push_mnemonic(s, "jal");
        s.append(reg_name(rd));
        s.append(", ");
        push_target(s, pc, offset, labels);
        assert(s@ =~= s0 + with_ops("jal"@, rn(rd) + ", "@ + t));
    }
}

fn push_jalr(s: &mut String, rd: u8, rs1: u8, offset: i64)
    ensures
        final(s)@ == old(s)@ + inst_text(Instruction::Jalr { rd, rs1, offset }, 0, Seq::empty()),
{
    if rd == REG_ZERO && rs1 == REG_RA && offset == 0 {
        s.append("ret");
    } else {
        push_mem(s, "jalr", rd, offset, rs1);
    }
}

/// The text of `inst` at index `pc`, with `labels` naming jump targets.
pub open spec fn inst_text(inst: Instruction, pc: u64, labels: Symbols) -> Seq<char> {
    match inst {
        Instruction::Add { rd, rs1, rs2 } => with_ops("add"@, ops3(rd, rs1, rs2)),
        Instruction::Sub { rd, rs1, rs2 } => with_ops("sub"@, ops3(rd, rs1, rs2)),
        Instruction::Mul { rd, rs1, rs2 } => with_ops("mul"@, ops3(rd, rs1, rs2)),
        Instruction::MulH { rd, rs1, rs2 } => with_ops("mulh"@, ops3(rd, rs1, rs2)),
        Instruction::Div { rd, rs1, rs2 } => with_ops("div"@, ops3(rd, rs1, rs2)),
        Instruction::Rem { rd, rs1, rs2 } => with_ops("rem"@, ops3(rd, rs1, rs2)),
        Instruction::And { rd, rs1, rs2 } => with_ops("and"@, ops3(rd, rs1, rs2)),
        Instruction::Or { rd, rs1, rs2 } => with_ops("or"@, ops3(rd, rs1, rs2)),
        Instruction::Xor { rd, rs1, rs2 } => with_ops("xor"@, ops3(rd, rs1, rs2)),
        Instruction::Sll { rd, rs1, rs2 } => with_ops("sll"@, ops3(rd, rs1, rs2)),
        Instruction::Srl { rd, rs1, rs2 } => with_ops("srl"@, ops3(rd, rs1, rs2)),
        Instruction::Sra { rd, rs1, rs2 } => with_ops("sra"@, ops3(rd, rs1, rs2)),
        Instruction::Slt { rd, rs1, rs2 } => with_ops("slt"@, ops3(rd, rs1, rs2)),
        Instruction::Sltu { rd, rs1, rs2 } => with_ops("sltu"@, ops3(rd, rs1, rs2)),
        Instruction::Addi { rd, rs1, imm } => with_ops("addi"@, ops3i(rd, rs1, imm)),
        Instruction::Andi { rd, rs1, imm } => with_ops("andi"@, ops3i(rd, rs1, imm)),
        Instruction::Ori { rd, rs1, imm } => with_ops("ori"@, ops3i(rd, rs1, imm)),
        Instruction::Xori { rd, rs1, imm } => with_ops("xori"@, ops3i(rd, rs1, imm)),
        Instruction::Slli { rd, rs1, imm } => with_ops("slli"@, ops3i(rd, rs1, imm)),
        Instruction::Srli { rd, rs1, imm } => with_ops("srli"@, ops3i(rd, rs1, imm)),
        Instruction::Srai { rd, rs1, imm } => with_ops("srai"@, ops3i(rd, rs1, imm)),
        Instruction::Slti { rd, rs1, imm } => with_ops("slti"@, ops3i(rd, rs1, imm)),
        Instruction::Sltiu { rd, rs1, imm } => with_ops("sltiu"@, ops3i(rd, rs1, imm)),
        Instruction::Lui { rd, imm } => with_ops("lui"@, ops_rh(rd, imm as u64)),
        Instruction::Ld { rd, rs1, offset } => with_ops("ld"@, ops_mem(rd, offset, rs1)),
        Instruction::Lw { rd, rs1, offset } => with_ops("lw"@, ops_mem(rd, offset, rs1)),
        Instruction::Lh { rd, rs1, offset } => with_ops("lh"@, ops_mem(rd, offset, rs1)),
        Instruction::Lb { rd, rs1, offset } => with_ops("lb"@, ops_mem(rd, offset, rs1)),
        Instruction::Lbu { rd, rs1, offset } => with_ops("lbu"@, ops_mem(rd, offset, rs1)),
        Instruction::Sd { rs1, rs2, offset } => with_ops("sd"@, ops_mem(rs2, offset, rs1)),
        Instruction::Sw { rs1, rs2, offset } => with_ops("sw"@, ops_mem(rs2, offset, rs1)),
        Instruction::Sh { rs1, rs2, offset } => with_ops("sh"@, ops_mem(rs2, offset, rs1)),
        Instruction::Sb { rs1, rs2, offset } => with_ops("sb"@, ops_mem(rs2, offset, rs1)),
        Instruction::Lq { rd, rs1, offset } => with_ops("lq"@, ops_mem(rd, offset, rs1)),
        Instruction::Sq { rs1, rs2, offset } => with_ops("sq"@, ops_mem(rs2, offset, rs1)),
        Instruction::Beq { rs1, rs2, offset } => with_ops("beq"@, ops2(rs1, rs2) + ", "@ + target_text(pc, offset, labels)),
        Instruction::Bne { rs1, rs2, offset } => with_ops("bne"@, ops2(rs1, rs2) + ", "@ + target_text(pc, offset, labels)),
        Instruction::Blt { rs1, rs2, offset } => with_ops("blt"@, ops2(rs1, rs2) + ", "@ + target_text(pc, offset, labels)),
        Instruction::Bge { rs1, rs2, offset } => with_ops("bge"@, ops2(rs1, rs2) + ", "@ + target_text(pc, offset, labels)),
        Instruction::Bltu { rs1, rs2, offset } => with_ops("bltu"@, ops2(rs1, rs2) + ", "@ + target_text(pc, offset, labels)),
        Instruction::Bgeu { rs1, rs2, offset } => with_ops("bgeu"@, ops2(rs1, rs2) + ", "@ + target_text(pc, offset, labels)),
        Instruction::Jal { rd, offset } => if rd == REG_ZERO {
            with_ops("j"@, target_text(pc, offset, labels))
        } else if rd == REG_RA {
            with_ops("call"@, target_text(pc, offset, labels))
        } else {
            with_ops("jal"@, rn(rd) + ", "@ + target_text(pc, offset, labels))
        },
        Instruction::Jalr { rd, rs1, offset } => if rd == REG_ZERO && rs1 == REG_RA && offset == 0 {
            "ret"@
        } else {
            with_ops("jalr"@, ops_mem(rd, offset, rs1))
        },
        Instruction::VAdd { rd, rs1, rs2, width } => with_ops("vadd"@ + width_suffix(width), ops3(rd, rs1, rs2)),
        Instruction::VSub { rd, rs1, rs2, width } => with_ops("vsub"@ + width_suffix(width), ops3(rd, rs1, rs2)),
        Instruction::VMul { rd, rs1, rs2, width } => with_ops("vmul"@ + width_suffix(width), ops3(rd, rs1, rs2)),
        Instruction::VAnd { rd, rs1, rs2 } => with_ops("vand"@, ops3(rd, rs1, rs2)),
        Instruction::VOr { rd, rs1, rs2 } => with_ops("vor"@, ops3(rd, rs1, rs2)),
        Instruction::VXor { rd, rs1, rs2 } => with_ops("vxor"@, ops3(rd, rs1, rs2)),
        Instruction::VNot { rd, rs1 } => with_ops("vnot"@, ops2(rd, rs1)),
        Instruction::VDot { rd, rs1, rs2, width } => with_ops("vdot"@ + width_suffix(width), ops3(rd, rs1, rs2)),
        Instruction::VSplat { rd, rs1, width } => with_ops("vsplat"@ + width_suffix(width), ops2(rd, rs1)),
        Instruction::VReduce { rd, rs1, width } => with_ops("vreduce"@ + width_suffix(width), ops2(rd, rs1)),
        Instruction::Zipper { rd, rs1, rs2 } => with_ops("zipper"@, ops3(rd, rs1, rs2)),
        Instruction::Zipper2 { rd, rs1, rs2 } => with_ops("zipper2"@, ops3(rd, rs1, rs2)),
        Instruction::Trunc { rd, rs1, eps_bits } => with_ops("trunc"@, ops2(rd, rs1) + ", "@ + prefixed_hex(eps_bits as nat)),
        Instruction::CAdd { rd, rs1, rs2 } => with_ops("cadd"@, ops3(rd, rs1, rs2)),
        Instruction::CSub { rd, rs1, rs2 } => with_ops("csub"@, ops3(rd, rs1, rs2)),
        Instruction::CMul { rd, rs1, rs2 } => with_ops("cmul"@, ops3(rd, rs1, rs2)),
        Instruction::CConj { rd, rs1 } => with_ops("cconj"@, ops2(rd, rs1)),
        Instruction::CNorm { rd, rs1 } => with_ops("cnorm"@, ops2(rd, rs1)),
        Instruction::CMag { rd, rs1 } => with_ops("cmag"@, ops2(rd, rs1)),
        Instruction::Entropy { rd, rs1 } => with_ops("entropy"@, ops2(rd, rs1)),
        Instruction::Hamming { rd, rs1, rs2 } => with_ops("hamming"@, ops3(rd, rs1, rs2)),
        Instruction::PopCnt { rd, rs1 } => with_ops("popcnt"@, ops2(rd, rs1)),
        Instruction::QRand { rd } => with_ops("qrand"@, rn(rd)),
        Instruction::Ntt { rd, rs1 } => with_ops("ntt"@, ops2(rd, rs1)),
        Instruction::InvNtt { rd, rs1 } => with_ops("invntt"@, ops2(rd, rs1)),
        Instruction::PolyMul { rd, rs1, rs2 } => with_ops("polymul"@, ops3(rd, rs1, rs2)),
        Instruction::ModRed { rd, rs1, modulus } => with_ops("modred"@, ops2(rd, rs1) + ", "@ + dec_chars(modulus as nat)),
        Instruction::PolyAdd { rd, rs1, rs2 } => with_ops("polyadd"@, ops3(rd, rs1, rs2)),
        Instruction::TAct { rd, rs1, func } => with_ops("tact"@, ops2(rd, rs1) + ", "@ + act_name(func)),
        Instruction::TSoftmax { rd, rs1 } => with_ops("tsoftmax"@, ops2(rd, rs1)),
        Instruction::TMul { rd, rs1, rs2 } => with_ops("tmul"@, ops3(rd, rs1, rs2)),
        Instruction::TDot { rd, rs1, rs2 } => with_ops("tdot"@, ops3(rd, rs1, rs2)),
        Instruction::Mv { rd, rs1 } => with_ops("mv"@, ops2(rd, rs1)),
        Instruction::Li { rd, imm } => with_ops("li"@, rn(rd) + ", "@ + signed_chars(imm as int)),
        Instruction::Ecall => "ecall"@,
        Instruction::Halt => "halt"@,
        Instruction::Nop => "nop"@,
        Instruction::Fence => "fence"@,
        Instruction::CsrR { rd, csr } => with_ops("csrr"@, ops_rh(rd, csr as u64)),
        Instruction::CsrW { csr, rs1 } => with_ops("csrw"@, prefixed_hex(csr as nat) + ", "@ + rn(rs1)),
    }
}

/// Appends the text of `inst` at index `pc`.
fn push_inst_text(s: &mut String, inst: &Instruction, pc: u64, labels: &Vec<(Vec<char>, u64)>)
    requires
        inst_fits(*inst, pc),
    ensures
        final(s)@ == old(s)@ + inst_text(*inst, pc, syms_view(labels@)),
{
    match *inst {
        Instruction::Add { rd, rs1, rs2 } => push_r3(s, "add", rd, rs1, rs2),
        Instruction::Sub { rd, rs1, rs2 } => push_r3(s, "sub", rd, rs1, rs2),
        Instruction::Mul { rd, rs1, rs2 } => push_r3(s, "mul", rd, rs1, rs2),
        Instruction::MulH { rd, rs1, rs2 } => push_r3(s, "mulh", rd, rs1, rs2),
        Instruction::Div { rd, rs1, rs2 } => push_r3(s, "div", rd, rs1, rs2),
        Instruction::Rem { rd, rs1, rs2 } => push_r3(s, "rem", rd, rs1, rs2),
        Instruction::And { rd, rs1, rs2 } => push_r3(s, "and", rd, rs1, rs2),
        Instruction::Or { rd, rs1, rs2 } => push_r3(s, "or", rd, rs1, rs2),
        Instruction::Xor { rd, rs1, rs2 } => push_r3(s, "xor", rd, rs1, rs2),
        Instruction::Sll { rd, rs1, rs2 } => push_r3(s, "sll", rd, rs1, rs2),
        Instruction::Srl { rd, rs1, rs2 } => push_r3(s, "srl", rd, rs1, rs2),
        Instruction::Sra { rd, rs1, rs2 } => push_r3(s, "sra", rd, rs1, rs2),
        Instruction::Slt { rd, rs1, rs2 } => push_r3(s, "slt", rd, rs1, rs2),
        Instruction::Sltu { rd, rs1, rs2 } => push_r3(s, "sltu", rd, rs1, rs2),
        Instruction::Addi { rd, rs1, imm } => push_ri(s, "addi", rd, rs1, imm),
        Instruction::Andi { rd, rs1, imm } => push_ri(s, "andi", rd, rs1, imm),
        Instruction::Ori { rd, rs1, imm } => push_ri(s, "ori", rd, rs1, imm),
        Instruction::Xori { rd, rs1, imm } => push_ri(s, "xori", rd, rs1, imm),
        Instruction::Slli { rd, rs1, imm } => push_ri(s, "slli", rd, rs1, imm),
        Instruction::Srli { rd, rs1, imm } => push_ri(s, "srli", rd, rs1, imm),
        Instruction::Srai { rd, rs1, imm } => push_ri(s, "srai", rd, rs1, imm),
        Instruction::Slti { rd, rs1, imm } => push_ri(s, "slti", rd, rs1, imm),
        Instruction::Sltiu { rd, rs1, imm } => push_ri(s, "sltiu", rd, rs1, imm),
        Instruction::Lui { rd, imm } => push_rh(s, "lui", rd, imm as u64),
        Instruction::Ld { rd, rs1, offset } => push_mem(s, "ld", rd, offset, rs1),
        Instruction::Lw { rd, rs1, offset } => push_mem(s, "lw", rd, offset, rs1),
        Instruction::Lh { rd, rs1, offset } => push_mem(s, "lh", rd, offset, rs1),
        Instruction::Lb { rd, rs1, offset } => push_mem(s, "lb", rd, offset, rs1),
        Instruction::Lbu { rd, rs1, offset } => push_mem(s, "lbu", rd, offset, rs1),
        Instruction::Sd { rs1, rs2, offset } => push_mem(s, "sd", rs2, offset, rs1),
        Instruction::Sw { rs1, rs2, offset } => push_mem(s, "sw", rs2, offset, rs1),
        Instruction::Sh { rs1, rs2, offset } => push_mem(s, "sh", rs2, offset, rs1),
        Instruction::Sb { rs1, rs2, offset } => push_mem(s, "sb", rs2, offset, rs1),
        Instruction::Lq { rd, rs1, offset } => push_mem(s, "lq", rd, offset, rs1),
        Instruction::Sq { rs1, rs2, offset } => push_mem(s, "sq", rs2, offset, rs1),
        Instruction::Beq { rs1, rs2, offset } => push_branch(s, "beq", rs1, rs2, pc, offset, labels),
        Instruction::Bne { rs1, rs2, offset } => push_branch(s, "bne", rs1, rs2, pc, offset, labels),
        Instruction::Blt { rs1, rs2, offset } => push_branch(s, "blt", rs1, rs2, pc, offset, labels),
        Instruction::Bge { rs1, rs2, offset } => push_branch(s, "bge", rs1, rs2, pc, offset, labels),
        Instruction::Bltu { rs1, rs2, offset } => push_branch(s, "bltu", rs1, rs2, pc, offset, labels),
        Instruction::Bgeu { rs1, rs2, offset } => push_branch(s, "bgeu", rs1, rs2, pc, offset, labels),
        Instruction::Jal { rd, offset } => push_jal(s, rd, pc, offset, labels),
        Instruction::Jalr { rd, rs1, offset } => push_jalr(s, rd, rs1, offset),
        Instruction::VAdd { rd, rs1, rs2, width } => push_r3w(s, "vadd", width, rd, rs1, rs2),
        Instruction::VSub { rd, rs1, rs2, width } => push_r3w(s, "vsub", width, rd, rs1, rs2),
        Instruction::VMul { rd, rs1, rs2, width } => push_r3w(s, "vmul", width, rd, rs1, rs2),
        Instruction::VAnd { rd, rs1, rs2 } => push_r3(s, "vand", rd, rs1, rs2),
        Instruction::VOr { rd, rs1, rs2 } => push_r3(s, "vor", rd, rs1, rs2),
        Instruction::VXor { rd, rs1, rs2 } => push_r3(s, "vxor", rd, rs1, rs2),
        Instruction::VNot { rd, rs1 } => push_r2(s, "vnot", rd, rs1),
        Instruction::VDot { rd, rs1, rs2, width } => push_r3w(s, "vdot", width, rd, rs1, rs2),
        Instruction::VSplat { rd, rs1, width } => push_r2w(s, "vsplat", width, rd, rs1),
        Instruction::VReduce { rd, rs1, width } => push_r2w(s, "vreduce", width, rd, rs1),
        Instruction::Zipper { rd, rs1, rs2 } => push_r3(s, "zipper", rd, rs1, rs2),
        Instruction::Zipper2 { rd, rs1, rs2 } => push_r3(s, "zipper2", rd, rs1, rs2),
        Instruction::Trunc { rd, rs1, eps_bits } => push_rrh(s, "trunc", rd, rs1, eps_bits),
        Instruction::CAdd { rd, rs1, rs2 } => push_r3(s, "cadd", rd, rs1, rs2),
        Instruction::CSub { rd, rs1, rs2 } => push_r3(s, "csub", rd, rs1, rs2),
        Instruction::CMul { rd, rs1, rs2 } => push_r3(s, "cmul", rd, rs1, rs2),
        Instruction::CConj { rd, rs1 } => push_r2(s, "cconj", rd, rs1),
        Instruction::CNorm { rd, rs1 } => push_r2(s, "cnorm", rd, rs1),
        Instruction::CMag { rd, rs1 } => push_r2(s, "cmag", rd, rs1),
        Instruction::Entropy { rd, rs1 } => push_r2(s, "entropy", rd, rs1),
        Instruction::Hamming { rd, rs1, rs2 } => push_r3(s, "hamming", rd, rs1, rs2),
        Instruction::PopCnt { rd, rs1 } => push_r2(s, "popcnt", rd, rs1),
        Instruction::QRand { rd } => push_r1(s, "qrand", rd),
        Instruction::Ntt { rd, rs1 } => push_r2(s, "ntt", rd, rs1),
        Instruction::InvNtt { rd, rs1 } => push_r2(s, "invntt", rd, rs1),
        Instruction::PolyMul { rd, rs1, rs2 } => push_r3(s, "polymul", rd, rs1, rs2),
        Instruction::ModRed { rd, rs1, modulus } => push_rrd(s, "modred", rd, rs1, modulus),
        Instruction::PolyAdd { rd, rs1, rs2 } => push_r3(s, "polyadd", rd, rs1, rs2),
        Instruction::TAct { rd, rs1, func } => push_tact(s, "tact", rd, rs1, func),
        Instruction::TSoftmax { rd, rs1 } => push_r2(s, "tsoftmax", rd, rs1),
        Instruction::TMul { rd, rs1, rs2 } => push_r3(s, "tmul", rd, rs1, rs2),
        Instruction::TDot { rd, rs1, rs2 } => push_r3(s, "tdot", rd, rs1, rs2),
        Instruction::Mv { rd, rs1 } => push_r2(s, "mv", rd, rs1),
        Instruction::Li { rd, imm } => push_rd_i(s, "li", rd, imm),
        Instruction::Ecall => s.append("ecall"),
        Instruction::Halt => s.append("halt"),
        Instruction::Nop => s.append("nop"),
        Instruction::Fence => s.append("fence"),
        Instruction::CsrR { rd, csr } => push_rh(s, "csrr", rd, csr as u64),
        Instruction::CsrW { csr, rs1 } => push_hr(s, "csrw", csr as u64, rs1),
    }
}


// ─── Listings ───────────────────────────────────────────────────────────────

/// The label line of index `pc`, if a label names it.
pub open spec fn label_line(labels: Symbols, pc: u64) -> Seq<char> {
    match label_at(labels, pc) {
        Some(name) => "\n"@ + name + ":\n"@,
        None => Seq::empty(),
    }
}

/// The listing lines of the instruction at index `pc`.
pub open spec fn entry_text(inst: Instruction, pc: u64, labels: Symbols) -> Seq<char> {
    label_line(labels, pc) + "  [0x"@ + pad_left(hex_chars(pc as nat), '0', 4) + "]  "@ + inst_text(
        inst,
        pc,
        labels,
    ) + "\n"@
}

/// The listing of the first `k` instructions of `code`.
pub open spec fn listing(code: Seq<Instruction>, labels: Symbols, k: nat) -> Seq<char>
    decreases k,
{
    if k == 0 {
        "        .text\n"@
    } else {
        listing(code, labels, (k - 1) as nat) + entry_text(code[k - 1], (k - 1) as u64, labels)
    }
}

/// The control-flow edge of the instruction at index `pc`, if it has one:
/// whether it is a call, where it goes (0 for an indirect jump) and what
/// kind of edge it is.
pub open spec fn edge_of(inst: Instruction, pc: u64) -> Option<(bool, u64, Seq<char>)> {
    match inst {
        Instruction::Beq { offset, .. } | Instruction::Bne { offset, .. } | Instruction::Blt {
            offset,
            ..
        } | Instruction::Bge { offset, .. } | Instruction::Bltu { offset, .. }
        | Instruction::Bgeu { offset, .. } => Some((false, jump_dest(pc, offset), "Conditional Branch"@)),
        Instruction::Jal { rd, offset } => if rd == REG_RA {
            Some((true, jump_dest(pc, offset), "Function Call (jal ra)"@))
        } else {
            Some((false, jump_dest(pc, offset), "Unconditional Jump"@))
        },
        Instruction::Jalr { .. } => Some((false, 0u64, "Indirect Jump (jalr)"@)),
        _ => None,
    }
}

/// The edges of the first `k` instructions that are calls (`calls`) or
/// not: source index, target and kind, in program order.
pub open spec fn edges(code: Seq<Instruction>, k: nat, calls: bool) -> Seq<(u64, u64, Seq<char>)>
    decreases k,
{
    if k == 0 {
        Seq::empty()
    } else {
        let before = edges(code, (k - 1) as nat, calls);
        match edge_of(code[k - 1], (k - 1) as u64) {
            Some(e) => if e.0 == calls {
                before.push(((k - 1) as u64, e.1, e.2))
            } else {
                before
            },
            None => before,
        }
    }
}

/// The report line of one edge.
pub open spec fn edge_line(e: (u64, u64, Seq<char>), call: bool) -> Seq<char> {
    "║  │ [0x"@ + pad_left(hex_chars(e.0 as nat), '0', 4) + "] ───("@ + pad_right(e.2, 20) + ")───► [0x"@
        + pad_left(hex_chars(e.1 as nat), '0', 4) + if call {
        "] (Subroutine)                 │  ║\n"@
    } else {
        "]                             │  ║\n"@
    }
}

/// The report lines of a list of edges.
pub open spec fn edge_lines(es: Seq<(u64, u64, Seq<char>)>, call: bool) -> Seq<char>
    decreases es.len(),
{
    if es.len() == 0 {
        Seq::empty()
    } else {
        edge_lines(es.drop_last(), call) + edge_line(es.last(), call)
    }
}

/// The control-flow report of `code`: counts of instructions, jump and
/// branch edges and calls, then every jump or branch edge and every call.
pub open spec fn cfg_report(code: Seq<Instruction>) -> Seq<char> {
    let jumps = edges(code, code.len(), false);
    let calls = edges(code, code.len(), true);
    "\n╔══════════════════════════════════════════════════════════════════════════════════╗\n"@ + "║              Unibit CONTROL FLOW GRAPH (CFG) REVERSE ANALYSIS                 ║\n"@ + "╠══════════════════════════════════════════════════════════════════════════════════╣\n"@ + "║  Total Instructions: "@ + pad_right(dec_chars(code.len()), 10) + " Jump/Branch Edges: "@
        + pad_right(dec_chars(jumps.len()), 10) + " Calls: "@ + pad_right(dec_chars(calls.len()), 6)
        + "│\n"@ + "║                                                                                  ║\n"@ + "║  ┌─ Control Flow Edges & Branch Targets ──────────────────────────────────────┐  ║\n"@ + edge_lines(jumps, false) + edge_lines(calls, true) + "║  └────────────────────────────────────────────────────────────────────────────┘  ║\n"@
        + "╚══════════════════════════════════════════════════════════════════════════════════╝\n"@
}


fn push_dec_padded(s: &mut String, n: u64, width: usize)
    ensures
        final(s)@ == old(s)@ + pad_right(dec_chars(n as nat), width as nat),
{
    let mut t = String::new();
    push_dec(&mut t, n);
    let len = t.as_str().unicode_len();
    push_padded(s, t.as_str(), len, width);
}

/// The labels as character sequences.
fn label_table(symbols: &[(String, u64)]) -> (r: Vec<(Vec<char>, u64)>)
    ensures
        syms_view(r@) == string_syms(symbols@),
{
    let mut out: Vec<(Vec<char>, u64)> = Vec::new();
    let mut i: usize = 0;
    while i < symbols.len()
        invariant
            i <= symbols@.len(),
            out@.len() == i,
            forall|k: int| 0 <= k < i ==> out@[k].0@ == symbols@[k].0@ && out@[k].1 == symbols@[k].1,
        decreases symbols@.len() - i,
    {
        let name = chars_of(symbols[i].0.as_str());
        out.push((name, symbols[i].1));
        i = i + 1;
    }
    assert(syms_view(out@) =~= string_syms(symbols@));
    out
}

fn push_entry(s: &mut String, inst: &Instruction, pc: u64, labels: &Vec<(Vec<char>, u64)>)
    requires
        inst_fits(*inst, pc),
    ensures
        final(s)@ == old(s)@ + entry_text(*inst, pc, syms_view(labels@)),
{
    let ghost s0 = s@;
    match label_at_x(labels, pc) {
        Some(i) => {
            s.append("\n");
            push_chars(s, labels[i].0.as_slice());
            s.append(":\n");
        },
        None => {},
    }
    let ghost s1 = s@;
    assert(s1 =~= s0 + label_line(syms_view(labels@), pc));
    s.append("  [0x");
    push_hex_padded(s, pc, 4);
    s.append("]  ");
    push_inst_text(s, inst, pc, labels);
    s.append("\n");
    assert(s@ =~= s0 + entry_text(*inst, pc, syms_view(labels@)));
}

fn push_edge(s: &mut String, src: u64, dst: u64, kind: &str, call: bool)
    ensures
        final(s)@ == old(s)@ + edge_line((src, dst, kind@), call),
{
    let ghost s0 = s@;
    s.append("║  │ [0x");
    push_hex_padded(s, src, 4);
    s.append("] ───(");
    let len = kind.unicode_len();
    push_padded(s, kind, len, 20);
    s.append(")───► [0x");
    push_hex_padded(s, dst, 4);
    if call {
        s.append("] (Subroutine)                 │  ║\n");
    } else {
        s.append("]                             │  ║\n");
    }
    assert(s@ =~= s0 + edge_line((src, dst, kind@), call));
}

/// The edge of an instruction.
fn edge_x(inst: &Instruction, pc: u64) -> (r: Option<(bool, u64, &'static str)>)
    requires
        inst_fits(*inst, pc),
    ensures
        match edge_of(*inst, pc) {
            Some(e) => r matches Some(x) && x.0 == e.0 && x.1 == e.1 && x.2@ == e.2,
            None => r is None,
        },
{
    match *inst {
        Instruction::Beq { offset, .. } | Instruction::Bne { offset, .. } | Instruction::Blt {
            offset,
            ..
        } | Instruction::Bge { offset, .. } | Instruction::Bltu { offset, .. }
        | Instruction::Bgeu { offset, .. } => Some((false, ((pc as i64) + offset) as u64, "Conditional Branch")),
        Instruction::Jal { rd, offset } => if rd == REG_RA {
            Some((true, ((pc as i64) + offset) as u64, "Function Call (jal ra)"))
        } else {
            Some((false, ((pc as i64) + offset) as u64, "Unconditional Jump"))
        },
        Instruction::Jalr { .. } => Some((false, 0u64, "Indirect Jump (jalr)")),
        _ => None,
    }
}

/// The edge lists as character sequences.
pub open spec fn edge_views(v: Seq<(u64, u64, &str)>) -> Seq<(u64, u64, Seq<char>)> {
    v.map_values(|e: (u64, u64, &str)| (e.0, e.1, e.2@))
}

fn push_edge_lines(s: &mut String, es: &Vec<(u64, u64, &str)>, call: bool)
    ensures
        final(s)@ == old(s)@ + edge_lines(edge_views(es@), call),
{
    let ghost s0 = s@;
    let ghost ev = edge_views(es@);
    let mut i: usize = 0;
    assert(ev.subrange(0, 0) =~= Seq::<(u64, u64, Seq<char>)>::empty());
    while i < es.len()
        invariant
            i <= es@.len() == ev.len(),
            ev == edge_views(es@),
            s@ == s0 + edge_lines(ev.subrange(0, i as int), call),
        decreases es@.len() - i,
    {
        let (a, b, k) = es[i];
        push_edge(s, a, b, k, call);
        assert(ev.subrange(0, i + 1).drop_last() =~= ev.subrange(0, i as int));
        assert(ev.subrange(0, i + 1).last() == ev[i as int]);
        assert(s@ =~= s0 + edge_lines(ev.subrange(0, i + 1), call));
        i = i + 1;
    }
    assert(ev.subrange(0, i as int) =~= ev);
}

/// Listings and control-flow reports.
pub struct Disassembler;

impl Disassembler {
    /// The listing of decoded instructions: a `.text` line, then each
    /// instruction at its index, under its label when `symbols` names its
    /// index (the label entered last, when several do).
    pub fn disassemble_instructions(instructions: &[Instruction], symbols: &[(String, u64)]) -> (r: String)
        requires
            code_fits(instructions@),
        ensures
            r@ == listing(instructions@, string_syms(symbols@), instructions@.len()),
    {
        let labels = label_table(symbols);
        let mut out = String::new();
        out.append("        .text\n");
        let mut i: usize = 0;
        while i < instructions.len()
            invariant
                i <= instructions@.len(),
                code_fits(instructions@),
                syms_view(labels@) == string_syms(symbols@),
                out@ == listing(instructions@, string_syms(symbols@), i as nat),
            decreases instructions@.len() - i,
        {
            assert(inst_fits(instructions@[i as int], i as u64));
            push_entry(&mut out, &instructions[i], i as u64, &labels);
            i = i + 1;
        }
        out
    }

    /// The control-flow report of `instructions`.
    pub fn analyze_control_flow(instructions: &[Instruction]) -> (r: String)
        requires
            code_fits(instructions@),
        ensures
            r@ == cfg_report(instructions@),
    {
        let mut jumps: Vec<(u64, u64, &str)> = Vec::new();
        let mut calls: Vec<(u64, u64, &str)> = Vec::new();
        let mut i: usize = 0;
        while i < instructions.len()
            invariant
                i <= instructions@.len(),
                code_fits(instructions@),
                edge_views(jumps@) == edges(instructions@, i as nat, false),
                edge_views(calls@) == edges(instructions@, i as nat, true),
            decreases instructions@.len() - i,
        {
            assert(inst_fits(instructions@[i as int], i as u64));
            match edge_x(&instructions[i], i as u64) {
                Some((is_call, dst, kind)) => {
                    if is_call {
                        let ghost before = calls@;
                        calls.push((i as u64, dst, kind));
                        assert(edge_views(calls@) =~= edge_views(before).push((i as u64, dst, kind@)));
                    } else {
                        let ghost before = jumps@;
                        jumps.push((i as u64, dst, kind));
                        assert(edge_views(jumps@) =~= edge_views(before).push((i as u64, dst, kind@)));
                    }
                },
                None => {},
            }
            i = i + 1;
        }
        let mut out = String::new();
        let ghost s0 = out@;
        out.append("\n╔══════════════════════════════════════════════════════════════════════════════════╗\n");
        out.append("║              Unibit CONTROL FLOW GRAPH (CFG) REVERSE ANALYSIS                 ║\n");
        out.append("╠══════════════════════════════════════════════════════════════════════════════════╣\n");
        out.append("║  Total Instructions: ");
        push_dec_padded(&mut out, instructions.len() as u64, 10);
        out.append(" Jump/Branch Edges: ");
        push_dec_padded(&mut out, jumps.len() as u64, 10);
        out.append(" Calls: ");
        push_dec_padded(&mut out, calls.len() as u64, 6);
        out.append("│\n");
        out.append("║                                                                                  ║\n");
        out.append("║  ┌─ Control Flow Edges & Branch Targets ──────────────────────────────────────┐  ║\n");
        let ghost s1 = out@;
        push_edge_lines(&mut out, &jumps, false);
        push_edge_lines(&mut out, &calls, true);
        out.append("║  └────────────────────────────────────────────────────────────────────────────┘  ║\n");
        out.append("╚══════════════════════════════════════════════════════════════════════════════════╝\n");
        assert(out@ =~= cfg_report(instructions@));
        out
    }

    /// The listing of an object file: a header with the instruction and
    /// segment counts and the entry point, the listing of its code, and the
    /// address and size of each data segment.
    pub fn disassemble_object(bytes: &[u8]) -> (r: Result<String, String>)
        requires
            parse_object(bytes@) matches Ok(p) ==> code_fits(p.1),
        ensures
            match parse_object(bytes@) {
                Ok(p) => r matches Ok(s) && s@ == object_listing(p.0, p.1, p.2),
                Err(m) => r matches Err(e) && e@ == m,
            },
    {
        let obj = read_object(bytes)?;
        let mut out = String::new();
        let ghost s0 = out@;
        out.append(";; ====================================================================\n");
        out.append(";; Unibit DISASSEMBLY — ");
        push_dec(&mut out, obj.code.len() as u64);
        out.append(" instructions, ");
        push_dec(&mut out, obj.data.len() as u64);
        out.append(" data segments, entry 0x");
        push_hex_padded(&mut out, obj.entry_point, 4);
        out.append("\n");
        out.append(";; ====================================================================\n");
        out.append("\n");
        let empty: Vec<(String, u64)> = Vec::new();
        assert(string_syms(empty@) =~= Seq::<(Seq<char>, u64)>::empty());
        let listing_text = Self::disassemble_instructions(obj.code.as_slice(), empty.as_slice());
        out.append(listing_text.as_str());
        let ghost s1 = out@;
        assert(s1 =~= object_header(obj.entry_point, obj.code@, obj.segs()) + listing(obj.code@, Seq::empty(), obj.code@.len()));
        if obj.data.len() > 0 {
            out.append("\n        .data\n");
            let mut i: usize = 0;
            let ghost segs = obj.segs();
            while i < obj.data.len()
                invariant
                    i <= obj.data@.len() == segs.len(),
                    segs == obj.segs(),
                    out@ == s1 + "\n        .data\n"@ + segment_lines(segs, i as nat),
                decreases obj.data@.len() - i,
            {
                let ghost o0 = out@;
                out.append("  [0x");
                push_hex_padded(&mut out, obj.data[i].0, 8);
                out.append("]  ");
                push_dec(&mut out, obj.data[i].1.len() as u64);
                out.append(" bytes\n");
                assert(out@ =~= o0 + segment_line(segs[i as int]));
                i = i + 1;
            }
        }
        Ok(out)
    }
}

/// The rule line of an object listing.
pub open spec fn rule() -> Seq<char> {
    ";; ====================================================================\n"@
}

/// The header of an object listing.
pub open spec fn object_header(entry: u64, code: Seq<Instruction>, segs: Seq<(u64, Seq<u8>)>) -> Seq<char> {
    rule() + ";; Unibit DISASSEMBLY — "@ + dec_chars(code.len()) + " instructions, "@ + dec_chars(
        segs.len(),
    ) + " data segments, entry 0x"@ + pad_left(hex_chars(entry as nat), '0', 4) + "\n"@ + rule()
        + "\n"@
}

/// The line of one data segment.
pub open spec fn segment_line(seg: (u64, Seq<u8>)) -> Seq<char> {
    "  [0x"@ + pad_left(hex_chars(seg.0 as nat), '0', 8) + "]  "@ + dec_chars(seg.1.len())
        + " bytes\n"@
}

/// The lines of the first `k` data segments.
pub open spec fn segment_lines(segs: Seq<(u64, Seq<u8>)>, k: nat) -> Seq<char>
    decreases k,
{
    if k == 0 {
        Seq::empty()
    } else {
        segment_lines(segs, (k - 1) as nat) + segment_line(segs[k - 1])
    }
}

/// The listing of an object with entry point `entry`, code `code` and data
/// segments `segs`.
pub open spec fn object_listing(entry: u64, code: Seq<Instruction>, segs: Seq<(u64, Seq<u8>)>) -> Seq<char> {
    object_header(entry, code, segs) + listing(code, Seq::empty(), code.len()) + if segs.len() > 0 {
        "\n        .data\n"@ + segment_lines(segs, segs.len())
    } else {
        Seq::empty()
    }
}

} // verus!
