//! The mnemonic table names the instructions the listing names.
use vstd::prelude::*;
use crate::assembler::mnemonic_of;
use crate::binary::{decode_fields, op};
use crate::disasm::{inst_text, with_ops};
use crate::lex::{eq_fold, fold};

verus! {

/// `m` in lowercase, as the assembler compares it.
pub open spec fn lower(m: Seq<char>) -> Seq<char> {
    m.map_values(|c: char| fold(c))
}

/// The word the listing uses for what mnemonic `w` assembles to: the
/// mnemonic itself, or for the pseudo-instructions `la`, `j`, `call` and
/// `ret` the instruction they stand for.
pub open spec fn listed_word(w: Seq<char>) -> Seq<char> {
    if w == "la"@ {
        "li"@
    } else if w == "j"@ || w == "call"@ {
        "jal"@
    } else if w == "ret"@ {
        "jalr"@
    } else {
        w
    }
}

/// Text `t` begins with the word `x`: `x` is followed by the end of the
/// text, a space, nothing when it fills the nine-column mnemonic field, or
/// the suffix `.d` of 64-bit lanes when `x` names a vector operation
/// without a width.
pub open spec fn begins_with_word(t: Seq<char>, x: Seq<char>) -> bool {
    &&& t.len() >= x.len()
    &&& t.take(x.len() as int) == x
    &&& (t.len() == x.len() || t[x.len() as int] == ' ' || x.len() == 9 || (t.len() >= x.len() + 2
        && t[x.len() as int] == '.' && t[x.len() + 1int] == 'd'))
}

/// The instruction that opcode `code` and aux field `aux` make, with
/// registers t0, t1, t2, is listed under the word mnemonic `m` stands for.
pub open spec fn lists_as(m: Seq<char>, code: u8, aux: u32) -> bool {
    decode_fields(code, 5, 6, 7, aux, 0) matches Ok(i) && begins_with_word(
        inst_text(i, 0, Seq::empty()),
        listed_word(lower(m)),
    )
}

proof fn lemma_lower(m: Seq<char>, w: Seq<char>)
    requires
        eq_fold(m, w),
    ensures
        lower(m) == w,
{
    assert(lower(m) =~= w);
}

proof fn lemma_word(d: Seq<char>)
    requires
        0 < d.len() <= 9,
    ensures
        forall|ops: Seq<char>|
            #![trigger with_ops(d, ops)]
            with_ops(d, ops).len() >= d.len() && with_ops(d, ops).take(d.len() as int) == d && (d.len()
                < 9 ==> with_ops(d, ops)[d.len() as int] == ' '),
{
    assert forall|ops: Seq<char>|
        #![trigger with_ops(d, ops)]
        with_ops(d, ops).len() >= d.len() && with_ops(d, ops).take(d.len() as int) == d && (d.len() < 9
            ==> with_ops(d, ops)[d.len() as int] == ' ') by {
        assert(with_ops(d, ops).take(d.len() as int) =~= d);
    }
}

proof fn lemma_prefix_word(w: Seq<char>, d: Seq<char>)
    requires
        d =~= w + seq!['.', 'd'],
        w.len() + 2 <= 9,
    ensures
        forall|ops: Seq<char>|
            #![trigger with_ops(d, ops)]
            with_ops(d, ops).len() >= w.len() + 2 && with_ops(d, ops).take(w.len() as int) == w
                && with_ops(d, ops)[w.len() as int] == '.' && with_ops(d, ops)[w.len() + 1int] == 'd',
{
    assert forall|ops: Seq<char>|
        #![trigger with_ops(d, ops)]
        with_ops(d, ops).len() >= w.len() + 2 && with_ops(d, ops).take(w.len() as int) == w && with_ops(
            d,
            ops,
        )[w.len() as int] == '.' && with_ops(d, ops)[w.len() + 1int] == 'd' by {
        assert(with_ops(d, ops).take(w.len() as int) =~= w);
        assert(with_ops(d, ops)[w.len() as int] == d[w.len() as int]);
        assert(with_ops(d, ops)[w.len() + 1int] == d[w.len() + 1int]);
    }
}

proof fn lemma_entry_0(m: Seq<char>)
    requires
        eq_fold(m, "add"@),
    ensures
        lists_as(m, op::ADD, 0u32),
{
    reveal_strlit("add");
    reveal_strlit("la");
    reveal_strlit("j");
    reveal_strlit("call");
    reveal_strlit("ret");
    assert("add"@[0] != "ret"@[0]);
    lemma_lower(m, "add"@);
    reveal_strlit("add");
    lemma_word("add"@);
}

proof fn lemma_entry_1(m: Seq<char>)
    requires
        eq_fold(m, "sub"@),
    ensures
        lists_as(m, op::SUB, 0u32),
{
    reveal_strlit("sub");
    reveal_strlit("la");
    reveal_strlit("j");
    reveal_strlit("call");
    reveal_strlit("ret");
    assert("sub"@[0] != "ret"@[0]);
    lemma_lower(m, "sub"@);
    reveal_strlit("sub");
    lemma_word("sub"@);
}

proof fn lemma_entry_2(m: Seq<char>)
    requires
        eq_fold(m, "mul"@),
    ensures
        lists_as(m, op::MUL, 0u32),
{
    reveal_strlit("mul");
    reveal_strlit("la");
    reveal_strlit("j");
    reveal_strlit("call");
    reveal_strlit("ret");
    assert("mul"@[0] != "ret"@[0]);
    lemma_lower(m, "mul"@);
    reveal_strlit("mul");
    lemma_word("mul"@);
}

proof fn lemma_entry_3(m: Seq<char>)
    requires
        eq_fold(m, "mulh"@),
    ensures
        lists_as(m, op::MULH, 0u32),
{
    reveal_strlit("mulh");
    reveal_strlit("la");
    reveal_strlit("j");
    reveal_strlit("call");
    reveal_strlit("ret");
    assert("mulh"@[0] != "call"@[0]);
    lemma_lower(m, "mulh"@);
    reveal_strlit("mulh");
    lemma_word("mulh"@);
}

proof fn lemma_entry_4(m: Seq<char>)
    requires
        eq_fold(m, "div"@),
    ensures
        lists_as(m, op::DIV, 0u32),
{
    reveal_strlit("div");
    reveal_strlit("la");
    reveal_strlit("j");
    reveal_strlit("call");
    reveal_strlit("ret");
    assert("div"@[0] != "ret"@[0]);
    lemma_lower(m, "div"@);
    reveal_strlit("div");
    lemma_word("div"@);
}

proof fn lemma_entry_5(m: Seq<char>)
    requires
        eq_fold(m, "rem"@),
    ensures
        lists_as(m, op::REM, 0u32),
{
    reveal_strlit("rem");
    reveal_strlit("la");
    reveal_strlit("j");
    reveal_strlit("call");
    reveal_strlit("ret");
    assert("rem"@[2] != "ret"@[2]);
    lemma_lower(m, "rem"@);
    reveal_strlit("rem");
    lemma_word("rem"@);
}

proof fn lemma_entry_6(m: Seq<char>)
    requires
        eq_fold(m, "and"@),
    ensures
        lists_as(m, op::AND, 0u32),
{
    reveal_strlit("and");
    reveal_strlit("la");
    reveal_strlit("j");
    reveal_strlit("call");
    reveal_strlit("ret");
    assert("and"@[0] != "ret"@[0]);
    lemma_lower(m, "and"@);
    reveal_strlit("and");
    lemma_word("and"@);
}

proof fn lemma_entry_7(m: Seq<char>)
    requires
        eq_fold(m, "or"@),
    ensures
        lists_as(m, op::OR, 0u32),
{
    reveal_strlit("or");
    reveal_strlit("la");
    reveal_strlit("j");
    reveal_strlit("call");
    reveal_strlit("ret");
    assert("or"@[0] != "la"@[0]);
    lemma_lower(m, "or"@);
    reveal_strlit("or");
    lemma_word("or"@);
}

proof fn lemma_entry_8(m: Seq<char>)
    requires
        eq_fold(m, "xor"@),
    ensures
        lists_as(m, op::XOR, 0u32),
{
    reveal_strlit("xor");
    reveal_strlit("la");
    reveal_strlit("j");
    reveal_strlit("call");
    reveal_strlit("ret");
    assert("xor"@[0] != "ret"@[0]);
    lemma_lower(m, "xor"@);
    reveal_strlit("xor");
    lemma_word("xor"@);
}

proof fn lemma_entry_9(m: Seq<char>)
    requires
        eq_fold(m, "sll"@),
    ensures
        lists_as(m, op::SLL, 0u32),
{
    reveal_strlit("sll");
    reveal_strlit("la");
    reveal_strlit("j");
    reveal_strlit("call");
    reveal_strlit("ret");
    assert("sll"@[0] != "ret"@[0]);
    lemma_lower(m, "sll"@);
    reveal_strlit("sll");
    lemma_word("sll"@);
}

proof fn lemma_entry_10(m: Seq<char>)
    requires
        eq_fold(m, "srl"@),
    ensures
        lists_as(m, op::SRL, 0u32),
{
    reveal_strlit("srl");
    reveal_strlit("la");
    reveal_strlit("j");
    reveal_strlit("call");
    reveal_strlit("ret");
    assert("srl"@[0] != "ret"@[0]);
    lemma_lower(m, "srl"@);
    reveal_strlit("srl");
    lemma_word("srl"@);
}

proof fn lemma_entry_11(m: Seq<char>)
    requires
        eq_fold(m, "sra"@),
    ensures
        lists_as(m, op::SRA, 0u32),
{
    reveal_strlit("sra");
    reveal_strlit("la");
    reveal_strlit("j");
    reveal_strlit("call");
    reveal_strlit("ret");
    assert("sra"@[0] != "ret"@[0]);
    lemma_lower(m, "sra"@);
    reveal_strlit("sra");
    lemma_word("sra"@);
}

proof fn lemma_entry_12(m: Seq<char>)
    requires
        eq_fold(m, "slt"@),
    ensures
        lists_as(m, op::SLT, 0u32),
{
    reveal_strlit("slt");
    reveal_strlit("la");
    reveal_strlit("j");
    reveal_strlit("call");
    reveal_strlit("ret");
    assert("slt"@[0] != "ret"@[0]);
    lemma_lower(m, "slt"@);
    reveal_strlit("slt");
    lemma_word("slt"@);
}

proof fn lemma_entry_13(m: Seq<char>)
    requires
        eq_fold(m, "sltu"@),
    ensures
        lists_as(m, op::SLTU, 0u32),
{
    reveal_strlit("sltu");
    reveal_strlit("la");
    reveal_strlit("j");
    reveal_strlit("call");
    reveal_strlit("ret");
    assert("sltu"@[0] != "call"@[0]);
    lemma_lower(m, "sltu"@);
    reveal_strlit("sltu");
    lemma_word("sltu"@);
}

proof fn lemma_entry_14(m: Seq<char>)
    requires
        eq_fold(m, "addi"@),
    ensures
        lists_as(m, op::ADDI, 0u32),
{
    reveal_strlit("addi");
    reveal_strlit("la");
    reveal_strlit("j");
    reveal_strlit("call");
    reveal_strlit("ret");
    assert("addi"@[0] != "call"@[0]);
    lemma_lower(m, "addi"@);
    reveal_strlit("addi");
    lemma_word("addi"@);
}

proof fn lemma_entry_15(m: Seq<char>)
    requires
        eq_fold(m, "andi"@),
    ensures
        lists_as(m, op::ANDI, 0u32),
{
    reveal_strlit("andi");
    reveal_strlit("la");
    reveal_strlit("j");
    reveal_strlit("call");
    reveal_strlit("ret");
    assert("andi"@[0] != "call"@[0]);
    lemma_lower(m, "andi"@);
    reveal_strlit("andi");
    lemma_word("andi"@);
}

proof fn lemma_entry_16(m: Seq<char>)
    requires
        eq_fold(m, "ori"@),
    ensures
        lists_as(m, op::ORI, 0u32),
{
    reveal_strlit("ori");
    reveal_strlit("la");
    reveal_strlit("j");
    reveal_strlit("call");
    reveal_strlit("ret");
    assert("ori"@[0] != "ret"@[0]);
    lemma_lower(m, "ori"@);
    reveal_strlit("ori");
    lemma_word("ori"@);
}

proof fn lemma_entry_17(m: Seq<char>)
    requires
        eq_fold(m, "xori"@),
    ensures
        lists_as(m, op::XORI, 0u32),
{
    reveal_strlit("xori");
    reveal_strlit("la");
    reveal_strlit("j");
    reveal_strlit("call");
    reveal_strlit("ret");
    assert("xori"@[0] != "call"@[0]);
    lemma_lower(m, "xori"@);
    reveal_strlit("xori");
    lemma_word("xori"@);
}

proof fn lemma_entry_18(m: Seq<char>)
    requires
        eq_fold(m, "slli"@),
    ensures
        lists_as(m, op::SLLI, 0u32),
{
    reveal_strlit("slli");
    reveal_strlit("la");
    reveal_strlit("j");
    reveal_strlit("call");
    reveal_strlit("ret");
    assert("slli"@[0] != "call"@[0]);
    lemma_lower(m, "slli"@);
    reveal_strlit("slli");
    lemma_word("slli"@);
}

proof fn lemma_entry_19(m: Seq<char>)
    requires
        eq_fold(m, "srli"@),
    ensures
        lists_as(m, op::SRLI, 0u32),
{
    reveal_strlit("srli");
    reveal_strlit("la");
    reveal_strlit("j");
    reveal_strlit("call");
    reveal_strlit("ret");
    assert("srli"@[0] != "call"@[0]);
    lemma_lower(m, "srli"@);
    reveal_strlit("srli");
    lemma_word("srli"@);
}

proof fn lemma_entry_20(m: Seq<char>)
    requires
        eq_fold(m, "srai"@),
    ensures
        lists_as(m, op::SRAI, 0u32),
{
    reveal_strlit("srai");
    reveal_strlit("la");
    reveal_strlit("j");
    reveal_strlit("call");
    reveal_strlit("ret");
    assert("srai"@[0] != "call"@[0]);
    lemma_lower(m, "srai"@);
    reveal_strlit("srai");
    lemma_word("srai"@);
}

proof fn lemma_entry_21(m: Seq<char>)
    requires
        eq_fold(m, "slti"@),
    ensures
        lists_as(m, op::SLTI, 0u32),
{
    reveal_strlit("slti");
    reveal_strlit("la");
    reveal_strlit("j");
    reveal_strlit("call");
    reveal_strlit("ret");
    assert("slti"@[0] != "call"@[0]);
    lemma_lower(m, "slti"@);
    reveal_strlit("slti");
    lemma_word("slti"@);
}

proof fn lemma_entry_22(m: Seq<char>)
    requires
        eq_fold(m, "sltiu"@),
    ensures
        lists_as(m, op::SLTIU, 0u32),
{
    reveal_strlit("sltiu");
    reveal_strlit("la");
    reveal_strlit("j");
    reveal_strlit("call");
    reveal_strlit("ret");
    lemma_lower(m, "sltiu"@);
    reveal_strlit("sltiu");
    lemma_word("sltiu"@);
}

proof fn lemma_entry_23(m: Seq<char>)
    requires
        eq_fold(m, "lui"@),
    ensures
        lists_as(m, op::LUI, 0u32),
{
    reveal_strlit("lui");
    reveal_strlit("la");
    reveal_strlit("j");
    reveal_strlit("call");
    reveal_strlit("ret");
    assert("lui"@[0] != "ret"@[0]);
    lemma_lower(m, "lui"@);
    reveal_strlit("lui");
    lemma_word("lui"@);
}

proof fn lemma_entry_24(m: Seq<char>)
    requires
        eq_fold(m, "ld"@),
    ensures
        lists_as(m, op::LD, 0u32),
{
    reveal_strlit("ld");
    reveal_strlit("la");
    reveal_strlit("j");
    reveal_strlit("call");
    reveal_strlit("ret");
    assert("ld"@[1] != "la"@[1]);
    lemma_lower(m, "ld"@);
    reveal_strlit("ld");
    lemma_word("ld"@);
}

proof fn lemma_entry_25(m: Seq<char>)
    requires
        eq_fold(m, "lw"@),
    ensures
        lists_as(m, op::LW, 0u32),
{
    reveal_strlit("lw");
    reveal_strlit("la");
    reveal_strlit("j");
    reveal_strlit("call");
    reveal_strlit("ret");
    assert("lw"@[1] != "la"@[1]);
    lemma_lower(m, "lw"@);
    reveal_strlit("lw");
    lemma_word("lw"@);
}

proof fn lemma_entry_26(m: Seq<char>)
    requires
        eq_fold(m, "lh"@),
    ensures
        lists_as(m, op::LH, 0u32),
{
    reveal_strlit("lh");
    reveal_strlit("la");
    reveal_strlit("j");
    reveal_strlit("call");
    reveal_strlit("ret");
    assert("lh"@[1] != "la"@[1]);
    lemma_lower(m, "lh"@);
    reveal_strlit("lh");
    lemma_word("lh"@);
}

proof fn lemma_entry_27(m: Seq<char>)
    requires
        eq_fold(m, "lb"@),
    ensures
        lists_as(m, op::LB, 0u32),
{
    reveal_strlit("lb");
    reveal_strlit("la");
    reveal_strlit("j");
    reveal_strlit("call");
    reveal_strlit("ret");
    assert("lb"@[1] != "la"@[1]);
    lemma_lower(m, "lb"@);
    reveal_strlit("lb");
    lemma_word("lb"@);
}

proof fn lemma_entry_28(m: Seq<char>)
    requires
        eq_fold(m, "lbu"@),
    ensures
        lists_as(m, op::LBU, 0u32),
{
    reveal_strlit("lbu");
    reveal_strlit("la");
    reveal_strlit("j");
    reveal_strlit("call");
    reveal_strlit("ret");
    assert("lbu"@[0] != "ret"@[0]);
    lemma_lower(m, "lbu"@);
    reveal_strlit("lbu");
    lemma_word("lbu"@);
}

proof fn lemma_entry_29(m: Seq<char>)
    requires
        eq_fold(m, "sd"@),
    ensures
        lists_as(m, op::SD, 0u32),
{
    reveal_strlit("sd");
    reveal_strlit("la");
    reveal_strlit("j");
    reveal_strlit("call");
    reveal_strlit("ret");
    assert("sd"@[0] != "la"@[0]);
    lemma_lower(m, "sd"@);
    reveal_strlit("sd");
    lemma_word("sd"@);
}

proof fn lemma_entry_30(m: Seq<char>)
    requires
        eq_fold(m, "sw"@),
    ensures
        lists_as(m, op::SW, 0u32),
{
    reveal_strlit("sw");
    reveal_strlit("la");
    reveal_strlit("j");
    reveal_strlit("call");
    reveal_strlit("ret");
    assert("sw"@[0] != "la"@[0]);
    lemma_lower(m, "sw"@);
    reveal_strlit("sw");
    lemma_word("sw"@);
}

proof fn lemma_entry_31(m: Seq<char>)
    requires
        eq_fold(m, "sh"@),
    ensures
        lists_as(m, op::SH, 0u32),
{
    reveal_strlit("sh");
    reveal_strlit("la");
    reveal_strlit("j");
    reveal_strlit("call");
    reveal_strlit("ret");
    assert("sh"@[0] != "la"@[0]);
    lemma_lower(m, "sh"@);
    reveal_strlit("sh");
    lemma_word("sh"@);
}

proof fn lemma_entry_32(m: Seq<char>)
    requires
        eq_fold(m, "sb"@),
    ensures
        lists_as(m, op::SB, 0u32),
{
    reveal_strlit("sb");
    reveal_strlit("la");
    reveal_strlit("j");
    reveal_strlit("call");
    reveal_strlit("ret");
    assert("sb"@[0] != "la"@[0]);
    lemma_lower(m, "sb"@);
    reveal_strlit("sb");
    lemma_word("sb"@);
}

proof fn lemma_entry_33(m: Seq<char>)
    requires
        eq_fold(m, "lq"@),
    ensures
        lists_as(m, op::LQ, 0u32),
{
    reveal_strlit("lq");
    reveal_strlit("la");
    reveal_strlit("j");
    reveal_strlit("call");
    reveal_strlit("ret");
    assert("lq"@[1] != "la"@[1]);
    lemma_lower(m, "lq"@);
    reveal_strlit("lq");
    lemma_word("lq"@);
}

proof fn lemma_entry_34(m: Seq<char>)
    requires
        eq_fold(m, "sq"@),
    ensures
        lists_as(m, op::SQ, 0u32),
{
    reveal_strlit("sq");
    reveal_strlit("la");
    reveal_strlit("j");
    reveal_strlit("call");
    reveal_strlit("ret");
    assert("sq"@[0] != "la"@[0]);
    lemma_lower(m, "sq"@);
    reveal_strlit("sq");
    lemma_word("sq"@);
}

proof fn lemma_entry_35(m: Seq<char>)
    requires
        eq_fold(m, "beq"@),
    ensures
        lists_as(m, op::BEQ, 0u32),
{
    reveal_strlit("beq");
    reveal_strlit("la");
    reveal_strlit("j");
    reveal_strlit("call");
    reveal_strlit("ret");
    assert("beq"@[0] != "ret"@[0]);
    lemma_lower(m, "beq"@);
    reveal_strlit("beq");
    lemma_word("beq"@);
}

proof fn lemma_entry_36(m: Seq<char>)
    requires
        eq_fold(m, "bne"@),
    ensures
        lists_as(m, op::BNE, 0u32),
{
    reveal_strlit("bne");
    reveal_strlit("la");
    reveal_strlit("j");
    reveal_strlit("call");
    reveal_strlit("ret");
    assert("bne"@[0] != "ret"@[0]);
    lemma_lower(m, "bne"@);
    reveal_strlit("bne");
    lemma_word("bne"@);
}

proof fn lemma_entry_37(m: Seq<char>)
    requires
        eq_fold(m, "blt"@),
    ensures
        lists_as(m, op::BLT, 0u32),
{
    reveal_strlit("blt");
    reveal_strlit("la");
    reveal_strlit("j");
    reveal_strlit("call");
    reveal_strlit("ret");
    assert("blt"@[0] != "ret"@[0]);
    lemma_lower(m, "blt"@);
    reveal_strlit("blt");
    lemma_word("blt"@);
}

proof fn lemma_entry_38(m: Seq<char>)
    requires
        eq_fold(m, "bge"@),
    ensures
        lists_as(m, op::BGE, 0u32),
{
    reveal_strlit("bge");
    reveal_strlit("la");
    reveal_strlit("j");
    reveal_strlit("call");
    reveal_strlit("ret");
    assert("bge"@[0] != "ret"@[0]);
    lemma_lower(m, "bge"@);
    reveal_strlit("bge");
    lemma_word("bge"@);
}

proof fn lemma_entry_39(m: Seq<char>)
    requires
        eq_fold(m, "bltu"@),
    ensures
        lists_as(m, op::BLTU, 0u32),
{
    reveal_strlit("bltu");
    reveal_strlit("la");
    reveal_strlit("j");
    reveal_strlit("call");
    reveal_strlit("ret");
    assert("bltu"@[0] != "call"@[0]);
    lemma_lower(m, "bltu"@);
    reveal_strlit("bltu");
    lemma_word("bltu"@);
}

proof fn lemma_entry_40(m: Seq<char>)
    requires
        eq_fold(m, "bgeu"@),
    ensures
        lists_as(m, op::BGEU, 0u32),
{
    reveal_strlit("bgeu");
    reveal_strlit("la");
    reveal_strlit("j");
    reveal_strlit("call");
    reveal_strlit("ret");
    assert("bgeu"@[0] != "call"@[0]);
    lemma_lower(m, "bgeu"@);
    reveal_strlit("bgeu");
    lemma_word("bgeu"@);
}

proof fn lemma_entry_41(m: Seq<char>)
    requires
        eq_fold(m, "jal"@),
    ensures
        lists_as(m, op::JAL, 0u32),
{
    reveal_strlit("jal");
    reveal_strlit("la");
    reveal_strlit("j");
    reveal_strlit("call");
    reveal_strlit("ret");
    assert("jal"@[0] != "ret"@[0]);
    lemma_lower(m, "jal"@);
    reveal_strlit("jal");
    lemma_word("jal"@);
}

proof fn lemma_entry_42(m: Seq<char>)
    requires
        eq_fold(m, "jalr"@),
    ensures
        lists_as(m, op::JALR, 0u32),
{
    reveal_strlit("jalr");
    reveal_strlit("la");
    reveal_strlit("j");
    reveal_strlit("call");
    reveal_strlit("ret");
    assert("jalr"@[0] != "call"@[0]);
    lemma_lower(m, "jalr"@);
    reveal_strlit("jalr");
    lemma_word("jalr"@);
}

proof fn lemma_entry_43(m: Seq<char>)
    requires
        eq_fold(m, "vadd"@),
    ensures
        lists_as(m, op::VADD, 3u32),
{
    reveal_strlit("vadd");
    reveal_strlit("la");
    reveal_strlit("j");
    reveal_strlit("call");
    reveal_strlit("ret");
    assert("vadd"@[0] != "call"@[0]);
    lemma_lower(m, "vadd"@);
    reveal_strlit("vadd");
    lemma_word("vadd"@ + seq!['.', 'd']);
    lemma_prefix_word("vadd"@, "vadd"@ + seq!['.', 'd']);
}

proof fn lemma_entry_44(m: Seq<char>)
    requires
        eq_fold(m, "vadd.b"@),
    ensures
        lists_as(m, op::VADD, 0u32),
{
    reveal_strlit("vadd.b");
    reveal_strlit("la");
    reveal_strlit("j");
    reveal_strlit("call");
    reveal_strlit("ret");
    lemma_lower(m, "vadd.b"@);
    reveal_strlit("vadd");
    lemma_word("vadd"@ + seq!['.', 'b']);
    assert("vadd"@ + seq!['.', 'b'] =~= "vadd.b"@);
}

proof fn lemma_entry_45(m: Seq<char>)
    requires
        eq_fold(m, "vadd.h"@),
    ensures
        lists_as(m, op::VADD, 1u32),
{
    reveal_strlit("vadd.h");
    reveal_strlit("la");
    reveal_strlit("j");
    reveal_strlit("call");
    reveal_strlit("ret");
    lemma_lower(m, "vadd.h"@);
    reveal_strlit("vadd");
    lemma_word("vadd"@ + seq!['.', 'h']);
    assert("vadd"@ + seq!['.', 'h'] =~= "vadd.h"@);
}

proof fn lemma_entry_46(m: Seq<char>)
    requires
        eq_fold(m, "vadd.w"@),
    ensures
        lists_as(m, op::VADD, 2u32),
{
    reveal_strlit("vadd.w");
    reveal_strlit("la");
    reveal_strlit("j");
    reveal_strlit("call");
    reveal_strlit("ret");
    lemma_lower(m, "vadd.w"@);
    reveal_strlit("vadd");
    lemma_word("vadd"@ + seq!['.', 'w']);
    assert("vadd"@ + seq!['.', 'w'] =~= "vadd.w"@);
}

proof fn lemma_entry_47(m: Seq<char>)
    requires
        eq_fold(m, "vadd.d"@),
    ensures
        lists_as(m, op::VADD, 3u32),
{
    reveal_strlit("vadd.d");
    reveal_strlit("la");
    reveal_strlit("j");
    reveal_strlit("call");
    reveal_strlit("ret");
    lemma_lower(m, "vadd.d"@);
    reveal_strlit("vadd");
    lemma_word("vadd"@ + seq!['.', 'd']);
    assert("vadd"@ + seq!['.', 'd'] =~= "vadd.d"@);
}

proof fn lemma_entry_48(m: Seq<char>)
    requires
        eq_fold(m, "vsub"@),
    ensures
        lists_as(m, op::VSUB, 3u32),
{
    reveal_strlit("vsub");
    reveal_strlit("la");
    reveal_strlit("j");
    reveal_strlit("call");
    reveal_strlit("ret");
    assert("vsub"@[0] != "call"@[0]);
    lemma_lower(m, "vsub"@);
    reveal_strlit("vsub");
    lemma_word("vsub"@ + seq!['.', 'd']);
    lemma_prefix_word("vsub"@, "vsub"@ + seq!['.', 'd']);
}

proof fn lemma_entry_49(m: Seq<char>)
    requires
        eq_fold(m, "vsub.b"@),
    ensures
        lists_as(m, op::VSUB, 0u32),
{
    reveal_strlit("vsub.b");
    reveal_strlit("la");
    reveal_strlit("j");
    reveal_strlit("call");
    reveal_strlit("ret");
    lemma_lower(m, "vsub.b"@);
    reveal_strlit("vsub");
    lemma_word("vsub"@ + seq!['.', 'b']);
    assert("vsub"@ + seq!['.', 'b'] =~= "vsub.b"@);
}

proof fn lemma_entry_50(m: Seq<char>)
    requires
        eq_fold(m, "vsub.h"@),
    ensures
        lists_as(m, op::VSUB, 1u32),
{
    reveal_strlit("vsub.h");
    reveal_strlit("la");
    reveal_strlit("j");
    reveal_strlit("call");
    reveal_strlit("ret");
    lemma_lower(m, "vsub.h"@);
    reveal_strlit("vsub");
    lemma_word("vsub"@ + seq!['.', 'h']);
    assert("vsub"@ + seq!['.', 'h'] =~= "vsub.h"@);
}

proof fn lemma_entry_51(m: Seq<char>)
    requires
        eq_fold(m, "vsub.w"@),
    ensures
        lists_as(m, op::VSUB, 2u32),
{
    reveal_strlit("vsub.w");
    reveal_strlit("la");
    reveal_strlit("j");
    reveal_strlit("call");
    reveal_strlit("ret");
    lemma_lower(m, "vsub.w"@);
    reveal_strlit("vsub");
    lemma_word("vsub"@ + seq!['.', 'w']);
    assert("vsub"@ + seq!['.', 'w'] =~= "vsub.w"@);
}

proof fn lemma_entry_52(m: Seq<char>)
    requires
        eq_fold(m, "vsub.d"@),
    ensures
        lists_as(m, op::VSUB, 3u32),
{
    reveal_strlit("vsub.d");
    reveal_strlit("la");
    reveal_strlit("j");
    reveal_strlit("call");
    reveal_strlit("ret");
    lemma_lower(m, "vsub.d"@);
    reveal_strlit("vsub");
    lemma_word("vsub"@ + seq!['.', 'd']);
    assert("vsub"@ + seq!['.', 'd'] =~= "vsub.d"@);
}

proof fn lemma_entry_53(m: Seq<char>)
    requires
        eq_fold(m, "vmul"@),
    ensures
        lists_as(m, op::VMUL, 3u32),
{
    reveal_strlit("vmul");
    reveal_strlit("la");
    reveal_strlit("j");
    reveal_strlit("call");
    reveal_strlit("ret");
    assert("vmul"@[0] != "call"@[0]);
    lemma_lower(m, "vmul"@);
    reveal_strlit("vmul");
    lemma_word("vmul"@ + seq!['.', 'd']);
    lemma_prefix_word("vmul"@, "vmul"@ + seq!['.', 'd']);
}

proof fn lemma_entry_54(m: Seq<char>)
    requires
        eq_fold(m, "vmul.b"@),
    ensures
        lists_as(m, op::VMUL, 0u32),
{
    reveal_strlit("vmul.b");
    reveal_strlit("la");
    reveal_strlit("j");
    reveal_strlit("call");
    reveal_strlit("ret");
    lemma_lower(m, "vmul.b"@);
    reveal_strlit("vmul");
    lemma_word("vmul"@ + seq!['.', 'b']);
    assert("vmul"@ + seq!['.', 'b'] =~= "vmul.b"@);
}

proof fn lemma_entry_55(m: Seq<char>)
    requires
        eq_fold(m, "vmul.h"@),
    ensures
        lists_as(m, op::VMUL, 1u32),
{
    reveal_strlit("vmul.h");
    reveal_strlit("la");
    reveal_strlit("j");
    reveal_strlit("call");
    reveal_strlit("ret");
    lemma_lower(m, "vmul.h"@);
    reveal_strlit("vmul");
    lemma_word("vmul"@ + seq!['.', 'h']);
    assert("vmul"@ + seq!['.', 'h'] =~= "vmul.h"@);
}

proof fn lemma_entry_56(m: Seq<char>)
    requires
        eq_fold(m, "vmul.w"@),
    ensures
        lists_as(m, op::VMUL, 2u32),
{
    reveal_strlit("vmul.w");
    reveal_strlit("la");
    reveal_strlit("j");
    reveal_strlit("call");
    reveal_strlit("ret");
    lemma_lower(m, "vmul.w"@);
    reveal_strlit("vmul");
    lemma_word("vmul"@ + seq!['.', 'w']);
    assert("vmul"@ + seq!['.', 'w'] =~= "vmul.w"@);
}

proof fn lemma_entry_57(m: Seq<char>)
    requires
        eq_fold(m, "vmul.d"@),
    ensures
        lists_as(m, op::VMUL, 3u32),
{
    reveal_strlit("vmul.d");
    reveal_strlit("la");
    reveal_strlit("j");
    reveal_strlit("call");
    reveal_strlit("ret");
    lemma_lower(m, "vmul.d"@);
    reveal_strlit("vmul");
    lemma_word("vmul"@ + seq!['.', 'd']);
    assert("vmul"@ + seq!['.', 'd'] =~= "vmul.d"@);
}

proof fn lemma_entry_58(m: Seq<char>)
    requires
        eq_fold(m, "vand"@),
    ensures
        lists_as(m, op::VAND, 0u32),
{
    reveal_strlit("vand");
    reveal_strlit("la");
    reveal_strlit("j");
    reveal_strlit("call");
    reveal_strlit("ret");
    assert("vand"@[0] != "call"@[0]);
    lemma_lower(m, "vand"@);
    reveal_strlit("vand");
    lemma_word("vand"@);
}

proof fn lemma_entry_59(m: Seq<char>)
    requires
        eq_fold(m, "vor"@),
    ensures
        lists_as(m, op::VOR, 0u32),
{
    reveal_strlit("vor");
    reveal_strlit("la");
    reveal_strlit("j");
    reveal_strlit("call");
    reveal_strlit("ret");
    assert("vor"@[0] != "ret"@[0]);
    lemma_lower(m, "vor"@);
    reveal_strlit("vor");
    lemma_word("vor"@);
}

proof fn lemma_entry_60(m: Seq<char>)
    requires
        eq_fold(m, "vxor"@),
    ensures
        lists_as(m, op::VXOR, 0u32),
{
    reveal_strlit("vxor");
    reveal_strlit("la");
    reveal_strlit("j");
    reveal_strlit("call");
    reveal_strlit("ret");
    assert("vxor"@[0] != "call"@[0]);
    lemma_lower(m, "vxor"@);
    reveal_strlit("vxor");
    lemma_word("vxor"@);
}

proof fn lemma_entry_61(m: Seq<char>)
    requires
        eq_fold(m, "vnot"@),
    ensures
        lists_as(m, op::VNOT, 0u32),
{
    reveal_strlit("vnot");
    reveal_strlit("la");
    reveal_strlit("j");
    reveal_strlit("call");
    reveal_strlit("ret");
    assert("vnot"@[0] != "call"@[0]);
    lemma_lower(m, "vnot"@);
    reveal_strlit("vnot");
    lemma_word("vnot"@);
}

proof fn lemma_entry_62(m: Seq<char>)
    requires
        eq_fold(m, "vdot"@),
    ensures
        lists_as(m, op::VDOT, 3u32),
{
    reveal_strlit("vdot");
    reveal_strlit("la");
    reveal_strlit("j");
    reveal_strlit("call");
    reveal_strlit("ret");
    assert("vdot"@[0] != "call"@[0]);
    lemma_lower(m, "vdot"@);
    reveal_strlit("vdot");
    lemma_word("vdot"@ + seq!['.', 'd']);
    lemma_prefix_word("vdot"@, "vdot"@ + seq!['.', 'd']);
}

proof fn lemma_entry_63(m: Seq<char>)
    requires
        eq_fold(m, "vdot.b"@),
    ensures
        lists_as(m, op::VDOT, 0u32),
{
    reveal_strlit("vdot.b");
    reveal_strlit("la");
    reveal_strlit("j");
    reveal_strlit("call");
    reveal_strlit("ret");
    lemma_lower(m, "vdot.b"@);
    reveal_strlit("vdot");
    lemma_word("vdot"@ + seq!['.', 'b']);
    assert("vdot"@ + seq!['.', 'b'] =~= "vdot.b"@);
}

proof fn lemma_entry_64(m: Seq<char>)
    requires
        eq_fold(m, "vdot.h"@),
    ensures
        lists_as(m, op::VDOT, 1u32),
{
    reveal_strlit("vdot.h");
    reveal_strlit("la");
    reveal_strlit("j");
    reveal_strlit("call");
    reveal_strlit("ret");
    lemma_lower(m, "vdot.h"@);
    reveal_strlit("vdot");
    lemma_word("vdot"@ + seq!['.', 'h']);
    assert("vdot"@ + seq!['.', 'h'] =~= "vdot.h"@);
}

proof fn lemma_entry_65(m: Seq<char>)
    requires
        eq_fold(m, "vdot.w"@),
    ensures
        lists_as(m, op::VDOT, 2u32),
{
    reveal_strlit("vdot.w");
    reveal_strlit("la");
    reveal_strlit("j");
    reveal_strlit("call");
    reveal_strlit("ret");
    lemma_lower(m, "vdot.w"@);
    reveal_strlit("vdot");
    lemma_word("vdot"@ + seq!['.', 'w']);
    assert("vdot"@ + seq!['.', 'w'] =~= "vdot.w"@);
}

proof fn lemma_entry_66(m: Seq<char>)
    requires
        eq_fold(m, "vdot.d"@),
    ensures
        lists_as(m, op::VDOT, 3u32),
{
    reveal_strlit("vdot.d");
    reveal_strlit("la");
    reveal_strlit("j");
    reveal_strlit("call");
    reveal_strlit("ret");
    lemma_lower(m, "vdot.d"@);
    reveal_strlit("vdot");
    lemma_word("vdot"@ + seq!['.', 'd']);
    assert("vdot"@ + seq!['.', 'd'] =~= "vdot.d"@);
}

proof fn lemma_entry_67(m: Seq<char>)
    requires
        eq_fold(m, "vsplat"@),
    ensures
        lists_as(m, op::VSPLAT, 3u32),
{
    reveal_strlit("vsplat");
    reveal_strlit("la");
    reveal_strlit("j");
    reveal_strlit("call");
    reveal_strlit("ret");
    lemma_lower(m, "vsplat"@);
    reveal_strlit("vsplat");
    lemma_word("vsplat"@ + seq!['.', 'd']);
    lemma_prefix_word("vsplat"@, "vsplat"@ + seq!['.', 'd']);
}

proof fn lemma_entry_68(m: Seq<char>)
    requires
        eq_fold(m, "vsplat.b"@),
    ensures
        lists_as(m, op::VSPLAT, 0u32),
{
    reveal_strlit("vsplat.b");
    reveal_strlit("la");
    reveal_strlit("j");
    reveal_strlit("call");
    reveal_strlit("ret");
    lemma_lower(m, "vsplat.b"@);
    reveal_strlit("vsplat");
    lemma_word("vsplat"@ + seq!['.', 'b']);
    assert("vsplat"@ + seq!['.', 'b'] =~= "vsplat.b"@);
}

proof fn lemma_entry_69(m: Seq<char>)
    requires
        eq_fold(m, "vsplat.h"@),
    ensures
        lists_as(m, op::VSPLAT, 1u32),
{
    reveal_strlit("vsplat.h");
    reveal_strlit("la");
    reveal_strlit("j");
    reveal_strlit("call");
    reveal_strlit("ret");
    lemma_lower(m, "vsplat.h"@);
    reveal_strlit("vsplat");
    lemma_word("vsplat"@ + seq!['.', 'h']);
    assert("vsplat"@ + seq!['.', 'h'] =~= "vsplat.h"@);
}

proof fn lemma_entry_70(m: Seq<char>)
    requires
        eq_fold(m, "vsplat.w"@),
    ensures
        lists_as(m, op::VSPLAT, 2u32),
{
    reveal_strlit("vsplat.w");
    reveal_strlit("la");
    reveal_strlit("j");
    reveal_strlit("call");
    reveal_strlit("ret");
    lemma_lower(m, "vsplat.w"@);
    reveal_strlit("vsplat");
    lemma_word("vsplat"@ + seq!['.', 'w']);
    assert("vsplat"@ + seq!['.', 'w'] =~= "vsplat.w"@);
}

proof fn lemma_entry_71(m: Seq<char>)
    requires
        eq_fold(m, "vsplat.d"@),
    ensures
        lists_as(m, op::VSPLAT, 3u32),
{
    reveal_strlit("vsplat.d");
    reveal_strlit("la");
    reveal_strlit("j");
    reveal_strlit("call");
    reveal_strlit("ret");
    lemma_lower(m, "vsplat.d"@);
    reveal_strlit("vsplat");
    lemma_word("vsplat"@ + seq!['.', 'd']);
    assert("vsplat"@ + seq!['.', 'd'] =~= "vsplat.d"@);
}

proof fn lemma_entry_72(m: Seq<char>)
    requires
        eq_fold(m, "vreduce"@),
    ensures
        lists_as(m, op::VREDUCE, 3u32),
{
    reveal_strlit("vreduce");
    reveal_strlit("la");
    reveal_strlit("j");
    reveal_strlit("call");
    reveal_strlit("ret");
    lemma_lower(m, "vreduce"@);
    reveal_strlit("vreduce");
    lemma_word("vreduce"@ + seq!['.', 'd']);
    lemma_prefix_word("vreduce"@, "vreduce"@ + seq!['.', 'd']);
}

proof fn lemma_entry_73(m: Seq<char>)
    requires
        eq_fold(m, "vreduce.b"@),
    ensures
        lists_as(m, op::VREDUCE, 0u32),
{
    reveal_strlit("vreduce.b");
    reveal_strlit("la");
    reveal_strlit("j");
    reveal_strlit("call");
    reveal_strlit("ret");
    lemma_lower(m, "vreduce.b"@);
    reveal_strlit("vreduce");
    lemma_word("vreduce"@ + seq!['.', 'b']);
    assert("vreduce"@ + seq!['.', 'b'] =~= "vreduce.b"@);
}

proof fn lemma_entry_74(m: Seq<char>)
    requires
        eq_fold(m, "vreduce.h"@),
    ensures
        lists_as(m, op::VREDUCE, 1u32),
{
    reveal_strlit("vreduce.h");
    reveal_strlit("la");
    reveal_strlit("j");
    reveal_strlit("call");
    reveal_strlit("ret");
    lemma_lower(m, "vreduce.h"@);
    reveal_strlit("vreduce");
    lemma_word("vreduce"@ + seq!['.', 'h']);
    assert("vreduce"@ + seq!['.', 'h'] =~= "vreduce.h"@);
}

proof fn lemma_entry_75(m: Seq<char>)
    requires
        eq_fold(m, "vreduce.w"@),
    ensures
        lists_as(m, op::VREDUCE, 2u32),
{
    reveal_strlit("vreduce.w");
    reveal_strlit("la");
    reveal_strlit("j");
    reveal_strlit("call");
    reveal_strlit("ret");
    lemma_lower(m, "vreduce.w"@);
    reveal_strlit("vreduce");
    lemma_word("vreduce"@ + seq!['.', 'w']);
    assert("vreduce"@ + seq!['.', 'w'] =~= "vreduce.w"@);
}

proof fn lemma_entry_76(m: Seq<char>)
    requires
        eq_fold(m, "vreduce.d"@),
    ensures
        lists_as(m, op::VREDUCE, 3u32),
{
    reveal_strlit("vreduce.d");
    reveal_strlit("la");
    reveal_strlit("j");
    reveal_strlit("call");
    reveal_strlit("ret");
    lemma_lower(m, "vreduce.d"@);
    reveal_strlit("vreduce");
    lemma_word("vreduce"@ + seq!['.', 'd']);
    assert("vreduce"@ + seq!['.', 'd'] =~= "vreduce.d"@);
}

proof fn lemma_entry_77(m: Seq<char>)
    requires
        eq_fold(m, "zipper"@),
    ensures
        lists_as(m, op::ZIPPER, 0u32),
{
    reveal_strlit("zipper");
    reveal_strlit("la");
    reveal_strlit("j");
    reveal_strlit("call");
    reveal_strlit("ret");
    lemma_lower(m, "zipper"@);
    reveal_strlit("zipper");
    lemma_word("zipper"@);
}

proof fn lemma_entry_78(m: Seq<char>)
    requires
        eq_fold(m, "zipper2"@),
    ensures
        lists_as(m, op::ZIPPER2, 0u32),
{
    reveal_strlit("zipper2");
    reveal_strlit("la");
    reveal_strlit("j");
    reveal_strlit("call");
    reveal_strlit("ret");
    lemma_lower(m, "zipper2"@);
    reveal_strlit("zipper2");
    lemma_word("zipper2"@);
}

proof fn lemma_entry_79(m: Seq<char>)
    requires
        eq_fold(m, "trunc"@),
    ensures
        lists_as(m, op::TRUNC, 0u32),
{
    reveal_strlit("trunc");
    reveal_strlit("la");
    reveal_strlit("j");
    reveal_strlit("call");
    reveal_strlit("ret");
    lemma_lower(m, "trunc"@);
    reveal_strlit("trunc");
    lemma_word("trunc"@);
}

proof fn lemma_entry_80(m: Seq<char>)
    requires
        eq_fold(m, "cadd"@),
    ensures
        lists_as(m, op::CADD, 0u32),
{
    reveal_strlit("cadd");
    reveal_strlit("la");
    reveal_strlit("j");
    reveal_strlit("call");
    reveal_strlit("ret");
    assert("cadd"@[2] != "call"@[2]);
    lemma_lower(m, "cadd"@);
    reveal_strlit("cadd");
    lemma_word("cadd"@);
}

proof fn lemma_entry_81(m: Seq<char>)
    requires
        eq_fold(m, "csub"@),
    ensures
        lists_as(m, op::CSUB, 0u32),
{
    reveal_strlit("csub");
    reveal_strlit("la");
    reveal_strlit("j");
    reveal_strlit("call");
    reveal_strlit("ret");
    assert("csub"@[1] != "call"@[1]);
    lemma_lower(m, "csub"@);
    reveal_strlit("csub");
    lemma_word("csub"@);
}

proof fn lemma_entry_82(m: Seq<char>)
    requires
        eq_fold(m, "cmul"@),
    ensures
        lists_as(m, op::CMUL, 0u32),
{
    reveal_strlit("cmul");
    reveal_strlit("la");
    reveal_strlit("j");
    reveal_strlit("call");
    reveal_strlit("ret");
    assert("cmul"@[1] != "call"@[1]);
    lemma_lower(m, "cmul"@);
    reveal_strlit("cmul");
    lemma_word("cmul"@);
}

proof fn lemma_entry_83(m: Seq<char>)
    requires
        eq_fold(m, "cconj"@),
    ensures
        lists_as(m, op::CCONJ, 0u32),
{
    reveal_strlit("cconj");
    reveal_strlit("la");
    reveal_strlit("j");
    reveal_strlit("call");
    reveal_strlit("ret");
    lemma_lower(m, "cconj"@);
    reveal_strlit("cconj");
    lemma_word("cconj"@);
}

proof fn lemma_entry_84(m: Seq<char>)
    requires
        eq_fold(m, "cnorm"@),
    ensures
        lists_as(m, op::CNORM, 0u32),
{
    reveal_strlit("cnorm");
    reveal_strlit("la");
    reveal_strlit("j");
    reveal_strlit("call");
    reveal_strlit("ret");
    lemma_lower(m, "cnorm"@);
    reveal_strlit("cnorm");
    lemma_word("cnorm"@);
}

proof fn lemma_entry_85(m: Seq<char>)
    requires
        eq_fold(m, "cmag"@),
    ensures
        lists_as(m, op::CMAG, 0u32),
{
    reveal_strlit("cmag");
    reveal_strlit("la");
    reveal_strlit("j");
    reveal_strlit("call");
    reveal_strlit("ret");
    assert("cmag"@[1] != "call"@[1]);
    lemma_lower(m, "cmag"@);
    reveal_strlit("cmag");
    lemma_word("cmag"@);
}

proof fn lemma_entry_86(m: Seq<char>)
    requires
        eq_fold(m, "entropy"@),
    ensures
        lists_as(m, op::ENTROPY, 0u32),
{
    reveal_strlit("entropy");
    reveal_strlit("la");
    reveal_strlit("j");
    reveal_strlit("call");
    reveal_strlit("ret");
    lemma_lower(m, "entropy"@);
    reveal_strlit("entropy");
    lemma_word("entropy"@);
}

proof fn lemma_entry_87(m: Seq<char>)
    requires
        eq_fold(m, "hamming"@),
    ensures
        lists_as(m, op::HAMMING, 0u32),
{
    reveal_strlit("hamming");
    reveal_strlit("la");
    reveal_strlit("j");
    reveal_strlit("call");
    reveal_strlit("ret");
    lemma_lower(m, "hamming"@);
    reveal_strlit("hamming");
    lemma_word("hamming"@);
}

proof fn lemma_entry_88(m: Seq<char>)
    requires
        eq_fold(m, "popcnt"@),
    ensures
        lists_as(m, op::POPCNT, 0u32),
{
    reveal_strlit("popcnt");
    reveal_strlit("la");
    reveal_strlit("j");
    reveal_strlit("call");
    reveal_strlit("ret");
    lemma_lower(m, "popcnt"@);
    reveal_strlit("popcnt");
    lemma_word("popcnt"@);
}

proof fn lemma_entry_89(m: Seq<char>)
    requires
        eq_fold(m, "qrand"@),
    ensures
        lists_as(m, op::QRAND, 0u32),
{
    reveal_strlit("qrand");
    reveal_strlit("la");
    reveal_strlit("j");
    reveal_strlit("call");
    reveal_strlit("ret");
    lemma_lower(m, "qrand"@);
    reveal_strlit("qrand");
    lemma_word("qrand"@);
}

proof fn lemma_entry_90(m: Seq<char>)
    requires
        eq_fold(m, "ntt"@),
    ensures
        lists_as(m, op::NTT, 0u32),
{
    reveal_strlit("ntt");
    reveal_strlit("la");
    reveal_strlit("j");
    reveal_strlit("call");
    reveal_strlit("ret");
    assert("ntt"@[0] != "ret"@[0]);
    lemma_lower(m, "ntt"@);
    reveal_strlit("ntt");
    lemma_word("ntt"@);
}

proof fn lemma_entry_91(m: Seq<char>)
    requires
        eq_fold(m, "invntt"@),
    ensures
        lists_as(m, op::INVNTT, 0u32),
{
    reveal_strlit("invntt");
    reveal_strlit("la");
    reveal_strlit("j");
    reveal_strlit("call");
    reveal_strlit("ret");
    lemma_lower(m, "invntt"@);
    reveal_strlit("invntt");
    lemma_word("invntt"@);
}

proof fn lemma_entry_92(m: Seq<char>)
    requires
        eq_fold(m, "polymul"@),
    ensures
        lists_as(m, op::POLYMUL, 0u32),
{
    reveal_strlit("polymul");
    reveal_strlit("la");
    reveal_strlit("j");
    reveal_strlit("call");
    reveal_strlit("ret");
    lemma_lower(m, "polymul"@);
    reveal_strlit("polymul");
    lemma_word("polymul"@);
}

proof fn lemma_entry_93(m: Seq<char>)
    requires
        eq_fold(m, "polyadd"@),
    ensures
        lists_as(m, op::POLYADD, 0u32),
{
    reveal_strlit("polyadd");
    reveal_strlit("la");
    reveal_strlit("j");
    reveal_strlit("call");
    reveal_strlit("ret");
    lemma_lower(m, "polyadd"@);
    reveal_strlit("polyadd");
    lemma_word("polyadd"@);
}

proof fn lemma_entry_94(m: Seq<char>)
    requires
        eq_fold(m, "modred"@),
    ensures
        lists_as(m, op::MODRED, 0u32),
{
    reveal_strlit("modred");
    reveal_strlit("la");
    reveal_strlit("j");
    reveal_strlit("call");
    reveal_strlit("ret");
    lemma_lower(m, "modred"@);
    reveal_strlit("modred");
    lemma_word("modred"@);
}

proof fn lemma_entry_95(m: Seq<char>)
    requires
        eq_fold(m, "tact"@),
    ensures
        lists_as(m, op::TACT, 0u32),
{
    reveal_strlit("tact");
    reveal_strlit("la");
    reveal_strlit("j");
    reveal_strlit("call");
    reveal_strlit("ret");
    assert("tact"@[0] != "call"@[0]);
    lemma_lower(m, "tact"@);
    reveal_strlit("tact");
    lemma_word("tact"@);
}

proof fn lemma_entry_96(m: Seq<char>)
    requires
        eq_fold(m, "tsoftmax"@),
    ensures
        lists_as(m, op::TSOFTMAX, 0u32),
{
    reveal_strlit("tsoftmax");
    reveal_strlit("la");
    reveal_strlit("j");
    reveal_strlit("call");
    reveal_strlit("ret");
    lemma_lower(m, "tsoftmax"@);
    reveal_strlit("tsoftmax");
    lemma_word("tsoftmax"@);
}

proof fn lemma_entry_97(m: Seq<char>)
    requires
        eq_fold(m, "tmul"@),
    ensures
        lists_as(m, op::TMUL, 0u32),
{
    reveal_strlit("tmul");
    reveal_strlit("la");
    reveal_strlit("j");
    reveal_strlit("call");
    reveal_strlit("ret");
    assert("tmul"@[0] != "call"@[0]);
    lemma_lower(m, "tmul"@);
    reveal_strlit("tmul");
    lemma_word("tmul"@);
}

proof fn lemma_entry_98(m: Seq<char>)
    requires
        eq_fold(m, "tdot"@),
    ensures
        lists_as(m, op::TDOT, 0u32),
{
    reveal_strlit("tdot");
    reveal_strlit("la");
    reveal_strlit("j");
    reveal_strlit("call");
    reveal_strlit("ret");
    assert("tdot"@[0] != "call"@[0]);
    lemma_lower(m, "tdot"@);
    reveal_strlit("tdot");
    lemma_word("tdot"@);
}

proof fn lemma_entry_99(m: Seq<char>)
    requires
        eq_fold(m, "li"@),
    ensures
        lists_as(m, op::LI, 0u32),
{
    reveal_strlit("li");
    reveal_strlit("la");
    reveal_strlit("j");
    reveal_strlit("call");
    reveal_strlit("ret");
    assert("li"@[1] != "la"@[1]);
    lemma_lower(m, "li"@);
    reveal_strlit("li");
    lemma_word("li"@);
}

proof fn lemma_entry_100(m: Seq<char>)
    requires
        eq_fold(m, "la"@),
    ensures
        lists_as(m, op::LI, 0u32),
{
    reveal_strlit("la");
    reveal_strlit("la");
    reveal_strlit("j");
    reveal_strlit("call");
    reveal_strlit("ret");
    lemma_lower(m, "la"@);
    reveal_strlit("li");
    lemma_word("li"@);
    reveal_strlit("li");
}

proof fn lemma_entry_101(m: Seq<char>)
    requires
        eq_fold(m, "mv"@),
    ensures
        lists_as(m, op::MV, 0u32),
{
    reveal_strlit("mv");
    reveal_strlit("la");
    reveal_strlit("j");
    reveal_strlit("call");
    reveal_strlit("ret");
    assert("mv"@[0] != "la"@[0]);
    lemma_lower(m, "mv"@);
    reveal_strlit("mv");
    lemma_word("mv"@);
}

proof fn lemma_entry_102(m: Seq<char>)
    requires
        eq_fold(m, "j"@),
    ensures
        lists_as(m, op::JAL, 0u32),
{
    reveal_strlit("j");
    reveal_strlit("la");
    reveal_strlit("j");
    reveal_strlit("call");
    reveal_strlit("ret");
    lemma_lower(m, "j"@);
    reveal_strlit("jal");
    lemma_word("jal"@);
    reveal_strlit("jal");
}

proof fn lemma_entry_103(m: Seq<char>)
    requires
        eq_fold(m, "call"@),
    ensures
        lists_as(m, op::JAL, 0u32),
{
    reveal_strlit("call");
    reveal_strlit("la");
    reveal_strlit("j");
    reveal_strlit("call");
    reveal_strlit("ret");
    lemma_lower(m, "call"@);
    reveal_strlit("jal");
    lemma_word("jal"@);
    reveal_strlit("jal");
}

proof fn lemma_entry_104(m: Seq<char>)
    requires
        eq_fold(m, "ret"@),
    ensures
        lists_as(m, op::JALR, 0u32),
{
    reveal_strlit("ret");
    reveal_strlit("la");
    reveal_strlit("j");
    reveal_strlit("call");
    reveal_strlit("ret");
    lemma_lower(m, "ret"@);
    reveal_strlit("jalr");
    lemma_word("jalr"@);
    reveal_strlit("jalr");
}

proof fn lemma_entry_105(m: Seq<char>)
    requires
        eq_fold(m, "nop"@),
    ensures
        lists_as(m, op::NOP, 0u32),
{
    reveal_strlit("nop");
    reveal_strlit("la");
    reveal_strlit("j");
    reveal_strlit("call");
    reveal_strlit("ret");
    assert("nop"@[0] != "ret"@[0]);
    lemma_lower(m, "nop"@);
    reveal_strlit("nop");
    assert("nop"@.take("nop"@.len() as int) =~= "nop"@);
}

proof fn lemma_entry_106(m: Seq<char>)
    requires
        eq_fold(m, "halt"@),
    ensures
        lists_as(m, op::HALT, 0u32),
{
    reveal_strlit("halt");
    reveal_strlit("la");
    reveal_strlit("j");
    reveal_strlit("call");
    reveal_strlit("ret");
    assert("halt"@[0] != "call"@[0]);
    lemma_lower(m, "halt"@);
    reveal_strlit("halt");
    assert("halt"@.take("halt"@.len() as int) =~= "halt"@);
}

proof fn lemma_entry_107(m: Seq<char>)
    requires
        eq_fold(m, "ecall"@),
    ensures
        lists_as(m, op::ECALL, 0u32),
{
    reveal_strlit("ecall");
    reveal_strlit("la");
    reveal_strlit("j");
    reveal_strlit("call");
    reveal_strlit("ret");
    lemma_lower(m, "ecall"@);
    reveal_strlit("ecall");
    assert("ecall"@.take("ecall"@.len() as int) =~= "ecall"@);
}

proof fn lemma_entry_108(m: Seq<char>)
    requires
        eq_fold(m, "fence"@),
    ensures
        lists_as(m, op::FENCE, 0u32),
{
    reveal_strlit("fence");
    reveal_strlit("la");
    reveal_strlit("j");
    reveal_strlit("call");
    reveal_strlit("ret");
    lemma_lower(m, "fence"@);
    reveal_strlit("fence");
    assert("fence"@.take("fence"@.len() as int) =~= "fence"@);
}

proof fn lemma_entry_109(m: Seq<char>)
    requires
        eq_fold(m, "csrr"@),
    ensures
        lists_as(m, op::CSRR, 0u32),
{
    reveal_strlit("csrr");
    reveal_strlit("la");
    reveal_strlit("j");
    reveal_strlit("call");
    reveal_strlit("ret");
    assert("csrr"@[1] != "call"@[1]);
    lemma_lower(m, "csrr"@);
    reveal_strlit("csrr");
    lemma_word("csrr"@);
}

proof fn lemma_entry_110(m: Seq<char>)
    requires
        eq_fold(m, "csrw"@),
    ensures
        lists_as(m, op::CSRW, 0u32),
{
    reveal_strlit("csrw");
    reveal_strlit("la");
    reveal_strlit("j");
    reveal_strlit("call");
    reveal_strlit("ret");
    assert("csrw"@[1] != "call"@[1]);
    lemma_lower(m, "csrw"@);
    reveal_strlit("csrw");
    lemma_word("csrw"@);
}

/// Every mnemonic the assembler accepts, in any letter case, assembles to
/// the instruction the listing writes under that name (under `li`, `jal`
/// and `jalr` for the pseudo-instructions `la`, `j`, `call` and `ret`, and
/// with the 64-bit suffix `.d` for a vector mnemonic without a width):
/// the table pairs each mnemonic with the opcode and width of its own
/// instruction.
pub proof fn law_mnemonics_name_their_instructions(m: Seq<char>)
    ensures
        mnemonic_of(m) matches Some(e) ==> lists_as(m, e.0, e.2),
{
    if eq_fold(m, "add"@) {
        lemma_entry_0(m);
    } else if eq_fold(m, "sub"@) {
        lemma_entry_1(m);
    } else if eq_fold(m, "mul"@) {
        lemma_entry_2(m);
    } else if eq_fold(m, "mulh"@) {
        lemma_entry_3(m);
    } else if eq_fold(m, "div"@) {
        lemma_entry_4(m);
    } else if eq_fold(m, "rem"@) {
        lemma_entry_5(m);
    } else if eq_fold(m, "and"@) {
        lemma_entry_6(m);
    } else if eq_fold(m, "or"@) {
        lemma_entry_7(m);
    } else if eq_fold(m, "xor"@) {
        lemma_entry_8(m);
    } else if eq_fold(m, "sll"@) {
        lemma_entry_9(m);
    } else if eq_fold(m, "srl"@) {
        lemma_entry_10(m);
    } else if eq_fold(m, "sra"@) {
        lemma_entry_11(m);
    } else if eq_fold(m, "slt"@) {
        lemma_entry_12(m);
    } else if eq_fold(m, "sltu"@) {
        lemma_entry_13(m);
    } else if eq_fold(m, "addi"@) {
        lemma_entry_14(m);
    } else if eq_fold(m, "andi"@) {
        lemma_entry_15(m);
    } else if eq_fold(m, "ori"@) {
        lemma_entry_16(m);
    } else if eq_fold(m, "xori"@) {
        lemma_entry_17(m);
    } else if eq_fold(m, "slli"@) {
        lemma_entry_18(m);
    } else if eq_fold(m, "srli"@) {
        lemma_entry_19(m);
    } else if eq_fold(m, "srai"@) {
        lemma_entry_20(m);
    } else if eq_fold(m, "slti"@) {
        lemma_entry_21(m);
    } else if eq_fold(m, "sltiu"@) {
        lemma_entry_22(m);
    } else if eq_fold(m, "lui"@) {
        lemma_entry_23(m);
    } else if eq_fold(m, "ld"@) {
        lemma_entry_24(m);
    } else if eq_fold(m, "lw"@) {
        lemma_entry_25(m);
    } else if eq_fold(m, "lh"@) {
        lemma_entry_26(m);
    } else if eq_fold(m, "lb"@) {
        lemma_entry_27(m);
    } else if eq_fold(m, "lbu"@) {
        lemma_entry_28(m);
    } else if eq_fold(m, "sd"@) {
        lemma_entry_29(m);
    } else if eq_fold(m, "sw"@) {
        lemma_entry_30(m);
    } else if eq_fold(m, "sh"@) {
        lemma_entry_31(m);
    } else if eq_fold(m, "sb"@) {
        lemma_entry_32(m);
    } else if eq_fold(m, "lq"@) {
        lemma_entry_33(m);
    } else if eq_fold(m, "sq"@) {
        lemma_entry_34(m);
    } else if eq_fold(m, "beq"@) {
        lemma_entry_35(m);
    } else if eq_fold(m, "bne"@) {
        lemma_entry_36(m);
    } else if eq_fold(m, "blt"@) {
        lemma_entry_37(m);
    } else if eq_fold(m, "bge"@) {
        lemma_entry_38(m);
    } else if eq_fold(m, "bltu"@) {
        lemma_entry_39(m);
    } else if eq_fold(m, "bgeu"@) {
        lemma_entry_40(m);
    } else if eq_fold(m, "jal"@) {
        lemma_entry_41(m);
    } else if eq_fold(m, "jalr"@) {
        lemma_entry_42(m);
    } else if eq_fold(m, "vadd"@) {
        lemma_entry_43(m);
    } else if eq_fold(m, "vadd.b"@) {
        lemma_entry_44(m);
    } else if eq_fold(m, "vadd.h"@) {
        lemma_entry_45(m);
    } else if eq_fold(m, "vadd.w"@) {
        lemma_entry_46(m);
    } else if eq_fold(m, "vadd.d"@) {
        lemma_entry_47(m);
    } else if eq_fold(m, "vsub"@) {
        lemma_entry_48(m);
    } else if eq_fold(m, "vsub.b"@) {
        lemma_entry_49(m);
    } else if eq_fold(m, "vsub.h"@) {
        lemma_entry_50(m);
    } else if eq_fold(m, "vsub.w"@) {
        lemma_entry_51(m);
    } else if eq_fold(m, "vsub.d"@) {
        lemma_entry_52(m);
    } else if eq_fold(m, "vmul"@) {
        lemma_entry_53(m);
    } else if eq_fold(m, "vmul.b"@) {
        lemma_entry_54(m);
    } else if eq_fold(m, "vmul.h"@) {
        lemma_entry_55(m);
    } else if eq_fold(m, "vmul.w"@) {
        lemma_entry_56(m);
    } else if eq_fold(m, "vmul.d"@) {
        lemma_entry_57(m);
    } else if eq_fold(m, "vand"@) {
        lemma_entry_58(m);
    } else if eq_fold(m, "vor"@) {
        lemma_entry_59(m);
    } else if eq_fold(m, "vxor"@) {
        lemma_entry_60(m);
    } else if eq_fold(m, "vnot"@) {
        lemma_entry_61(m);
    } else if eq_fold(m, "vdot"@) {
        lemma_entry_62(m);
    } else if eq_fold(m, "vdot.b"@) {
        lemma_entry_63(m);
    } else if eq_fold(m, "vdot.h"@) {
        lemma_entry_64(m);
    } else if eq_fold(m, "vdot.w"@) {
        lemma_entry_65(m);
    } else if eq_fold(m, "vdot.d"@) {
        lemma_entry_66(m);
    } else if eq_fold(m, "vsplat"@) {
        lemma_entry_67(m);
    } else if eq_fold(m, "vsplat.b"@) {
        lemma_entry_68(m);
    } else if eq_fold(m, "vsplat.h"@) {
        lemma_entry_69(m);
    } else if eq_fold(m, "vsplat.w"@) {
        lemma_entry_70(m);
    } else if eq_fold(m, "vsplat.d"@) {
        lemma_entry_71(m);
    } else if eq_fold(m, "vreduce"@) {
        lemma_entry_72(m);
    } else if eq_fold(m, "vreduce.b"@) {
        lemma_entry_73(m);
    } else if eq_fold(m, "vreduce.h"@) {
        lemma_entry_74(m);
    } else if eq_fold(m, "vreduce.w"@) {
        lemma_entry_75(m);
    } else if eq_fold(m, "vreduce.d"@) {
        lemma_entry_76(m);
    } else if eq_fold(m, "zipper"@) {
        lemma_entry_77(m);
    } else if eq_fold(m, "zipper2"@) {
        lemma_entry_78(m);
    } else if eq_fold(m, "trunc"@) {
        lemma_entry_79(m);
    } else if eq_fold(m, "cadd"@) {
        lemma_entry_80(m);
    } else if eq_fold(m, "csub"@) {
        lemma_entry_81(m);
    } else if eq_fold(m, "cmul"@) {
        lemma_entry_82(m);
    } else if eq_fold(m, "cconj"@) {
        lemma_entry_83(m);
    } else if eq_fold(m, "cnorm"@) {
        lemma_entry_84(m);
    } else if eq_fold(m, "cmag"@) {
        lemma_entry_85(m);
    } else if eq_fold(m, "entropy"@) {
        lemma_entry_86(m);
    } else if eq_fold(m, "hamming"@) {
        lemma_entry_87(m);
    } else if eq_fold(m, "popcnt"@) {
        lemma_entry_88(m);
    } else if eq_fold(m, "qrand"@) {
        lemma_entry_89(m);
    } else if eq_fold(m, "ntt"@) {
        lemma_entry_90(m);
    } else if eq_fold(m, "invntt"@) {
        lemma_entry_91(m);
    } else if eq_fold(m, "polymul"@) {
        lemma_entry_92(m);
    } else if eq_fold(m, "polyadd"@) {
        lemma_entry_93(m);
    } else if eq_fold(m, "modred"@) {
        lemma_entry_94(m);
    } else if eq_fold(m, "tact"@) {
        lemma_entry_95(m);
    } else if eq_fold(m, "tsoftmax"@) {
        lemma_entry_96(m);
    } else if eq_fold(m, "tmul"@) {
        lemma_entry_97(m);
    } else if eq_fold(m, "tdot"@) {
        lemma_entry_98(m);
    } else if eq_fold(m, "li"@) {
        lemma_entry_99(m);
    } else if eq_fold(m, "la"@) {
        lemma_entry_100(m);
    } else if eq_fold(m, "mv"@) {
        lemma_entry_101(m);
    } else if eq_fold(m, "j"@) {
        lemma_entry_102(m);
    } else if eq_fold(m, "call"@) {
        lemma_entry_103(m);
    } else if eq_fold(m, "ret"@) {
        lemma_entry_104(m);
    } else if eq_fold(m, "nop"@) {
        lemma_entry_105(m);
    } else if eq_fold(m, "halt"@) {
        lemma_entry_106(m);
    } else if eq_fold(m, "ecall"@) {
        lemma_entry_107(m);
    } else if eq_fold(m, "fence"@) {
        lemma_entry_108(m);
    } else if eq_fold(m, "csrr"@) {
        lemma_entry_109(m);
    } else if eq_fold(m, "csrw"@) {
        lemma_entry_110(m);
    }
}

} // verus!
