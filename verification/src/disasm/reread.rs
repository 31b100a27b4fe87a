//! The assembler reads the listing's operands back.
use vstd::prelude::*;
use vstd::arithmetic::div_mod::*;
use crate::assembler::{Shape, arg_list, imm_value, mem_operand, operands, rest_after_head, sym_find, starts2};
use crate::binary::{fields_of, lemma_fields_roundtrip};
use crate::disasm::{inst_text, label_at, ops2, ops3, ops3i, ops_mem, rn, target_text, width_suffix, with_ops};
use crate::isa::{Instruction, Width, reg_of};
use crate::isa::names::{law_register_names_round_trip, lemma_abi_name_chars};
use crate::lex::{digit_of, find, find_ws, is_ws, scan_digits, split, trim, trim_start};
use crate::text::{dec_chars, digit_char, hex_chars, pad_left, pad_right, signed_chars};

verus! {

/// A character of a register name or a decimal numeral.
pub open spec fn token_char(c: char) -> bool {
    ('a' <= c && c <= 'z') || ('0' <= c && c <= '9') || c == '-'
}

proof fn lemma_find_skip(x: Seq<char>, y: Seq<char>, c: char)
    requires
        forall|k: int| 0 <= k < x.len() ==> #[trigger] x[k] != c,
    ensures
        find(x + y, c) == match find(y, c) {
            Some(i) => Some(i + x.len()),
            None => None::<int>,
        },
    decreases x.len(),
{
    if x.len() == 0 {
        assert(x + y =~= y);
    } else {
        assert((x + y).drop_first() =~= x.drop_first() + y);
        assert((x + y)[0] == x[0]);
        lemma_find_skip(x.drop_first(), y, c);
    }
}

proof fn lemma_find_ws_skip(x: Seq<char>, y: Seq<char>)
    requires
        forall|k: int| 0 <= k < x.len() ==> !is_ws(#[trigger] x[k]),
    ensures
        find_ws(x + y) == match find_ws(y) {
            Some(i) => Some(i + x.len()),
            None => None::<int>,
        },
    decreases x.len(),
{
    if x.len() == 0 {
        assert(x + y =~= y);
    } else {
        assert((x + y).drop_first() =~= x.drop_first() + y);
        assert((x + y)[0] == x[0]);
        lemma_find_ws_skip(x.drop_first(), y);
    }
}

proof fn lemma_find_none(x: Seq<char>, c: char)
    requires
        forall|k: int| 0 <= k < x.len() ==> #[trigger] x[k] != c,
    ensures
        find(x, c) is None,
{
    lemma_find_skip(x, Seq::empty(), c);
    assert(x + Seq::<char>::empty() =~= x);
}

proof fn lemma_trim_same(s: Seq<char>)
    requires
        s.len() > 0,
        !is_ws(s[0]),
        !is_ws(s.last()),
    ensures
        trim(s) == s,
{
}

/// `k` spaces.
pub open spec fn spaces(k: nat) -> Seq<char> {
    Seq::new(k, |i: int| ' ')
}

proof fn lemma_trim_spaces(k: nat, s: Seq<char>)
    requires
        s.len() > 0,
        !is_ws(s[0]),
        !is_ws(s.last()),
    ensures
        trim(spaces(k) + s) == s,
    decreases k,
{
    if k == 0 {
        assert(spaces(0) + s =~= s);
    } else {
        assert((spaces(k) + s).drop_first() =~= spaces((k - 1) as nat) + s);
        assert((spaces(k) + s)[0] == ' ');
        lemma_trim_spaces((k - 1) as nat, s);
        let t = spaces(k) + s;
        assert(trim_start(t) == trim_start(t.drop_first()));
        assert(trim_start(spaces((k - 1) as nat) + s) == s) by {
            if k - 1 == 0 {
                assert(spaces(0) + s =~= s);
            }
            lemma_trim_start_spaces((k - 1) as nat, s);
        }
    }
}

proof fn lemma_trim_start_spaces(k: nat, s: Seq<char>)
    requires
        s.len() > 0,
        !is_ws(s[0]),
    ensures
        trim_start(spaces(k) + s) == s,
    decreases k,
{
    if k == 0 {
        assert(spaces(0) + s =~= s);
    } else {
        assert((spaces(k) + s).drop_first() =~= spaces((k - 1) as nat) + s);
        assert((spaces(k) + s)[0] == ' ');
        lemma_trim_start_spaces((k - 1) as nat, s);
    }
}

/// The operand text of a mnemonic of fewer than nine characters.
proof fn lemma_rest_after_head(w: Seq<char>, ops: Seq<char>)
    requires
        0 < w.len() < 9,
        forall|k: int| 0 <= k < w.len() ==> !is_ws(#[trigger] w[k]),
        ops.len() > 0,
        !is_ws(ops[0]),
        !is_ws(ops.last()),
    ensures
        rest_after_head(with_ops(w, ops)) == ops,
{
    let pad = spaces((9 - w.len()) as nat);
    assert(pad_right(w, 9) =~= w + pad);
    let t = with_ops(w, ops);
    assert(t =~= w + (pad + ops));
    lemma_find_ws_skip(w, pad + ops);
    assert((pad + ops)[0] == ' ');
    assert(find_ws(pad + ops) == Some(0int));
    assert(t.skip(w.len() + 1int) =~= spaces((8 - w.len()) as nat) + ops);
    lemma_trim_start_spaces((8 - w.len()) as nat, ops);
}

proof fn lemma_dec_digits(n: nat)
    ensures
        dec_chars(n).len() > 0,
        forall|k: int| 0 <= k < dec_chars(n).len() ==> '0' <= #[trigger] dec_chars(n)[k] && dec_chars(n)[k] <= '9',
    decreases n,
{
    if n >= 10 {
        lemma_dec_digits(n / 10);
    }
}

proof fn lemma_signed_chars(v: int)
    ensures
        signed_chars(v).len() > 0,
        forall|k: int| 0 <= k < signed_chars(v).len() ==> token_char(#[trigger] signed_chars(v)[k]),
        forall|k: int| 1 <= k < signed_chars(v).len() ==> '0' <= #[trigger] signed_chars(v)[k] && signed_chars(v)[k] <= '9',
        '0' <= signed_chars(v).last() && signed_chars(v).last() <= '9',
{
    if v < 0 {
        lemma_dec_digits((-v) as nat);
        let d = dec_chars((-v) as nat);
        assert forall|k: int| 1 <= k < signed_chars(v).len() implies '0' <= #[trigger] signed_chars(v)[k]
            && signed_chars(v)[k] <= '9' by {
            assert(signed_chars(v)[k] == d[k - 1]);
        }
        assert forall|k: int| 0 <= k < signed_chars(v).len() implies token_char(#[trigger] signed_chars(v)[k]) by {
            if k > 0 {
                assert(signed_chars(v)[k] == d[k - 1]);
            }
        }
        assert(signed_chars(v).last() == d.last());
    } else {
        lemma_dec_digits(v as nat);
    }
}

proof fn lemma_scan_push(s: Seq<char>, c: char, neg: bool, lo: int, hi: int, acc: int)
    ensures
        scan_digits(s.push(c), 10, neg, lo, hi, acc) == match scan_digits(s, 10, neg, lo, hi, acc) {
            Ok(x) => scan_digits(seq![c], 10, neg, lo, hi, x),
            Err(e) => Err(e),
        },
    decreases s.len(),
{
    if s.len() == 0 {
        assert(s.push(c) =~= seq![c]);
    } else {
        assert(s.push(c).drop_first() =~= s.drop_first().push(c));
        assert(s.push(c)[0] == s[0]);
        match digit_of(s[0], 10) {
            Some(d) => {
                let a2 = if neg { acc * 10 - d } else { acc * 10 + d };
                lemma_scan_push(s.drop_first(), c, neg, lo, hi, a2);
            },
            None => {},
        }
    }
}

/// Reading the decimal numeral of `n` gives `n`, or `-n` when reading a
/// negative number, as long as the result is within bounds.
proof fn lemma_scan_dec(n: nat, neg: bool, lo: int, hi: int)
    requires
        lo <= 0 <= hi,
        neg ==> lo <= -n,
        !neg ==> n <= hi,
    ensures
        scan_digits(dec_chars(n), 10, neg, lo, hi, 0) == Ok::<int, crate::lex::IntErr>(if neg { -n } else { n as int }),
    decreases n,
{
    reveal_with_fuel(scan_digits, 2);
    if n < 10 {
        assert(digit_of(digit_char(n as int), 10) == Some(n));
        assert(dec_chars(n).drop_first() =~= Seq::<char>::empty());
    } else {
        let m = n / 10;
        let d = (n % 10) as nat;
        lemma_scan_dec(m, neg, lo, hi);
        lemma_scan_push(dec_chars(m), digit_char(d as int), neg, lo, hi, 0);
        assert(digit_of(digit_char(d as int), 10) == Some(d));
        lemma_fundamental_div_mod(n as int, 10);
        assert(m * 10 + d == n) by (nonlinear_arith)
            requires
                n == 10 * (n as int / 10) + n as int % 10,
                m == n as int / 10,
                d == n as int % 10,
        ;
        let x = if neg { -m } else { m as int };
        assert(neg ==> x * 10 - d == -(n as int)) by (nonlinear_arith)
            requires
                neg ==> x == -m,
                m * 10 + d == n,
        ;
        assert(!neg ==> x * 10 + d == n) by (nonlinear_arith)
            requires
                !neg ==> x == m,
                m * 10 + d == n,
        ;
        assert(seq![digit_char(d as int)][0] == digit_char(d as int));
        assert(seq![digit_char(d as int)].drop_first() =~= Seq::<char>::empty());
        assert(scan_digits(seq![digit_char(d as int)], 10, neg, lo, hi, x) == Ok::<int, crate::lex::IntErr>(
            if neg { x * 10 - d } else { x * 10 + d },
        ));
    }
}

/// An immediate written as a signed decimal numeral reads back as itself.
pub proof fn lemma_imm_dec(v: i64)
    ensures
        imm_value(signed_chars(v as int), Seq::empty()) == Ok::<i64, Seq<char>>(v),
{
    let t = signed_chars(v as int);
    lemma_signed_chars(v as int);
    lemma_trim_same(t);
    assert(sym_find(Seq::<(Seq<char>, u64)>::empty(), t) is None);
    if t.len() >= 2 {
        assert('0' <= t[1] && t[1] <= '9');
    }
    assert(!starts2(t, '0', 'x') && !starts2(t, '0', 'X') && !starts2(t, '0', 'b') && !starts2(t, '0', 'B'));
    assert(t[0] != '\'');
    if v < 0 {
        assert(t.drop_first() =~= dec_chars((-v) as nat));
        lemma_dec_digits((-v) as nat);
        lemma_scan_dec((-v) as nat, true, i64::MIN as int, i64::MAX as int);
    } else {
        lemma_scan_dec(v as nat, false, i64::MIN as int, i64::MAX as int);
    }
}

proof fn lemma_split_cons(x: Seq<char>, y: Seq<char>, c: char)
    requires
        forall|k: int| 0 <= k < x.len() ==> #[trigger] x[k] != c,
    ensures
        split(x + seq![c] + y, c) == seq![x] + split(y, c),
{
    let t = x + seq![c] + y;
    assert(t =~= x + (seq![c] + y));
    lemma_find_skip(x, seq![c] + y, c);
    assert((seq![c] + y)[0] == c);
    assert(t.subrange(0, x.len() as int) =~= x);
    assert(t.subrange(x.len() + 1int, t.len() as int) =~= y);
}

/// The operands of a listing line as the assembler splits them.
pub open spec fn listed_operands(t: Seq<char>) -> Seq<Seq<char>> {
    arg_list(rest_after_head(t))
}

/// Whether the operands of `t` read back as exactly the registers `rs`.
pub open spec fn reads_regs(t: Seq<char>, rs: Seq<u8>) -> bool {
    let args = listed_operands(t);
    args.len() == rs.len() && forall|i: int| 0 <= i < rs.len() ==> reg_of(#[trigger] args[i]) == Some(rs[i])
}

/// Whether the operands of `t` read back as registers `a`, `b` and the
/// immediate `imm`.
pub open spec fn reads_regs_imm(t: Seq<char>, a: u8, b: u8, imm: i64) -> bool {
    let args = listed_operands(t);
    &&& args.len() == 3
    &&& reg_of(args[0]) == Some(a)
    &&& reg_of(args[1]) == Some(b)
    &&& imm_value(args[2], Seq::empty()) == Ok::<i64, Seq<char>>(imm)
}

proof fn lemma_args_tail(x: Seq<char>)
    requires
        x.len() > 0,
        forall|k: int| 0 <= k < x.len() ==> token_char(#[trigger] x[k]),
    ensures
        split(spaces(1) + x, ',') == seq![spaces(1) + x],
        trim(spaces(1) + x) == x,
{
    let t = spaces(1) + x;
    assert forall|k: int| 0 <= k < t.len() implies #[trigger] t[k] != ',' by {
        if k >= 1 {
            assert(t[k] == x[k - 1]);
        }
    }
    lemma_find_none(t, ',');
    lemma_trim_spaces(1, x);
}

proof fn lemma_ops2_args(a: u8, b: u8)
    requires
        a < 32,
        b < 32,
    ensures
        arg_list(ops2(a, b)) == seq![rn(a), rn(b)],
{
    reveal_strlit(", ");
    let ra = rn(a);
    let rb = rn(b);
    lemma_name_chars(a);
    lemma_name_chars(b);
    let tail = spaces(1) + rb;
    assert(ops2(a, b) =~= ra + seq![','] + tail);
    assert(forall|k: int| 0 <= k < ra.len() ==> #[trigger] ra[k] != ',');
    lemma_split_cons(ra, tail, ',');
    lemma_args_tail(rb);
    lemma_trim_same(ra);
    assert(arg_list(ops2(a, b)) =~= seq![ra, rb]);
}

proof fn lemma_ops3_tail(a: u8, b: u8, x: Seq<char>)
    requires
        a < 32,
        b < 32,
        x.len() > 0,
        forall|k: int| 0 <= k < x.len() ==> token_char(#[trigger] x[k]),
    ensures
        arg_list(ops2(a, b) + ", "@ + x) == seq![rn(a), rn(b), x],
{
    reveal_strlit(", ");
    let ra = rn(a);
    let rb = rn(b);
    lemma_name_chars(a);
    lemma_name_chars(b);
    let tail2 = spaces(1) + x;
    let tail1 = spaces(1) + rb + seq![','] + tail2;
    let t = ops2(a, b) + ", "@ + x;
    assert(t =~= ra + seq![','] + tail1);
    assert(forall|k: int| 0 <= k < ra.len() ==> #[trigger] ra[k] != ',');
    lemma_split_cons(ra, tail1, ',');
    let f = spaces(1) + rb;
    assert forall|k: int| 0 <= k < f.len() implies #[trigger] f[k] != ',' by {
        if k >= 1 {
            assert(f[k] == rb[k - 1]);
        }
    }
    lemma_split_cons(f, tail2, ',');
    lemma_args_tail(rb);
    lemma_args_tail(x);
    lemma_trim_same(ra);
    assert(split(t, ',') =~= seq![ra, f, tail2]);
    assert(arg_list(t) =~= seq![ra, rb, x]);
}

proof fn lemma_head(w: Seq<char>, ops: Seq<char>)
    requires
        0 < w.len() < 9,
        forall|k: int| 0 <= k < w.len() ==> !is_ws(#[trigger] w[k]),
        ops.len() > 0,
        !is_ws(ops[0]),
        !is_ws(ops.last()),
    ensures
        listed_operands(with_ops(w, ops)) == arg_list(ops),
{
    lemma_rest_after_head(w, ops);
}

proof fn lemma_text2(w: Seq<char>, a: u8, b: u8)
    requires
        0 < w.len() < 9,
        forall|k: int| 0 <= k < w.len() ==> !is_ws(#[trigger] w[k]),
        a < 32,
        b < 32,
    ensures
        reads_regs(with_ops(w, ops2(a, b)), seq![a, b]),
{
    reveal_strlit(", ");
    lemma_name_chars(a);
    lemma_name_chars(b);
    let ops = ops2(a, b);
    assert(ops[0] == rn(a)[0]);
    assert(ops.last() == rn(b).last());
    lemma_head(w, ops);
    lemma_ops2_args(a, b);
    let args = listed_operands(with_ops(w, ops));
    assert(args[0] == rn(a) && args[1] == rn(b));
}

proof fn lemma_text3(w: Seq<char>, a: u8, b: u8, c: u8)
    requires
        0 < w.len() < 9,
        forall|k: int| 0 <= k < w.len() ==> !is_ws(#[trigger] w[k]),
        a < 32,
        b < 32,
        c < 32,
    ensures
        reads_regs(with_ops(w, ops3(a, b, c)), seq![a, b, c]),
{
    reveal_strlit(", ");
    lemma_name_chars(a);
    lemma_name_chars(c);
    let ops = ops3(a, b, c);
    assert(ops[0] == rn(a)[0]);
    assert(ops.last() == rn(c).last());
    lemma_head(w, ops);
    lemma_ops3_tail(a, b, rn(c));
    let args = listed_operands(with_ops(w, ops));
    assert(args[0] == rn(a) && args[1] == rn(b) && args[2] == rn(c));
    lemma_name_chars(b);
}

proof fn lemma_text3i(w: Seq<char>, a: u8, b: u8, imm: i64)
    requires
        0 < w.len() < 9,
        forall|k: int| 0 <= k < w.len() ==> !is_ws(#[trigger] w[k]),
        a < 32,
        b < 32,
    ensures
        reads_regs_imm(with_ops(w, ops3i(a, b, imm)), a, b, imm),
{
    reveal_strlit(", ");
    lemma_name_chars(a);
    lemma_name_chars(b);
    lemma_signed_chars(imm as int);
    let sc = signed_chars(imm as int);
    let ops = ops3i(a, b, imm);
    assert(ops[0] == rn(a)[0]);
    assert(ops.last() == sc.last());
    lemma_head(w, ops);
    lemma_ops3_tail(a, b, sc);
    lemma_imm_dec(imm);
}

proof fn lemma_suffixed(w: Seq<char>, width: Width)
    requires
        w.len() < 7,
        forall|k: int| 0 <= k < w.len() ==> !is_ws(#[trigger] w[k]),
    ensures
        0 < (w + width_suffix(width)).len() < 9,
        forall|k: int| 0 <= k < (w + width_suffix(width)).len() ==> !is_ws(#[trigger] (w + width_suffix(width))[k]),
{
    let t = w + width_suffix(width);
    assert forall|k: int| 0 <= k < t.len() implies !is_ws(#[trigger] t[k]) by {
        if k >= w.len() {
            assert(t[k] == width_suffix(width)[k - w.len()]);
        }
    }
}

/// Whether no label name of `labels` holds a comma.
pub open spec fn comma_free_labels(labels: Seq<(Seq<char>, u64)>) -> bool {
    forall|i: int, k: int| 0 <= i < labels.len() && 0 <= k < labels[i].0.len() ==> #[trigger] labels[i].0[k] != ','
}

/// Whether the operands of `t` read back as registers `a` and `b` followed
/// by one more operand.
pub open spec fn reads_branch_regs(t: Seq<char>, a: u8, b: u8) -> bool {
    let args = listed_operands(t);
    &&& args.len() == 3
    &&& reg_of(args[0]) == Some(a)
    &&& reg_of(args[1]) == Some(b)
}

proof fn lemma_label_comma_free(labels: Seq<(Seq<char>, u64)>, v: u64)
    requires
        comma_free_labels(labels),
    ensures
        label_at(labels, v) matches Some(name) ==> forall|k: int| 0 <= k < name.len() ==> #[trigger] name[k] != ',',
    decreases labels.len(),
{
    if labels.len() > 0 {
        if labels.last().1 != v {
            let rest = labels.drop_last();
            assert forall|i: int, k: int| 0 <= i < rest.len() && 0 <= k < rest[i].0.len() implies #[trigger] rest[i].0[k]
                != ',' by {
                assert(rest[i] == labels[i]);
            }
            lemma_label_comma_free(rest, v);
        } else {
            let i = labels.len() - 1;
            assert forall|k: int| 0 <= k < labels[i].0.len() implies #[trigger] labels[i].0[k] != ',' by {}
        }
    }
}

proof fn lemma_hex_comma_free(n: nat)
    ensures
        forall|k: int| 0 <= k < hex_chars(n).len() ==> #[trigger] hex_chars(n)[k] != ',',
    decreases n,
{
    if n >= 16 {
        lemma_hex_comma_free(n / 16);
        let d = (n % 16) as int;
        assert(digit_char(d) != ',');
        assert forall|k: int| 0 <= k < hex_chars(n).len() implies #[trigger] hex_chars(n)[k] != ',' by {
            if k < hex_chars(n / 16).len() {
                assert(hex_chars(n)[k] == hex_chars(n / 16)[k]);
            }
        }
    } else {
        assert(digit_char(n as int) != ',');
    }
}

proof fn lemma_no_comma3(x: Seq<char>, y: Seq<char>, z: Seq<char>)
    requires
        forall|k: int| 0 <= k < x.len() ==> #[trigger] x[k] != ',',
        forall|k: int| 0 <= k < y.len() ==> #[trigger] y[k] != ',',
        forall|k: int| 0 <= k < z.len() ==> #[trigger] z[k] != ',',
    ensures
        forall|k: int| 0 <= k < (x + y + z).len() ==> #[trigger] (x + y + z)[k] != ',',
{
    assert forall|k: int| 0 <= k < (x + y + z).len() implies #[trigger] (x + y + z)[k] != ',' by {
        if k < x.len() {
            assert((x + y + z)[k] == x[k]);
        } else if k < x.len() + y.len() {
            assert((x + y + z)[k] == y[k - x.len()]);
        } else {
            assert((x + y + z)[k] == z[k - x.len() - y.len()]);
        }
    }
}

proof fn lemma_target_comma_free(pc: u64, offset: i64, labels: Seq<(Seq<char>, u64)>)
    requires
        comma_free_labels(labels),
    ensures
        target_text(pc, offset, labels).len() > 0,
        target_text(pc, offset, labels).last() == ')',
        forall|k: int| 0 <= k < target_text(pc, offset, labels).len() ==> #[trigger] target_text(pc, offset, labels)[k]
            != ',',
{
    reveal_strlit("<");
    reveal_strlit("> (offset: ");
    reveal_strlit(" (offset: ");
    reveal_strlit("0x");
    reveal_strlit(")");
    let t = target_text(pc, offset, labels);
    let dst = crate::disasm::jump_dest(pc, offset);
    let sc = signed_chars(offset as int);
    lemma_signed_chars(offset as int);
    assert(forall|k: int| 0 <= k < sc.len() ==> #[trigger] sc[k] != ',');
    match label_at(labels, dst) {
        Some(name) => {
            lemma_label_comma_free(labels, dst);
            lemma_no_comma3("<"@, name, "> (offset: "@);
            lemma_no_comma3("<"@ + name + "> (offset: "@, sc, ")"@);
            assert(t == "<"@ + name + "> (offset: "@ + sc + ")"@);
        },
        None => {
            let h = hex_chars(dst as nat);
            lemma_hex_comma_free(dst as nat);
            let ph = pad_left(h, '0', 4);
            assert forall|k: int| 0 <= k < ph.len() implies #[trigger] ph[k] != ',' by {
                if h.len() < 4 && k >= 4 - h.len() {
                    assert(ph[k] == h[k - (4 - h.len())]);
                }
            }
            lemma_no_comma3("0x"@, ph, " (offset: "@);
            lemma_no_comma3("0x"@ + ph + " (offset: "@, sc, ")"@);
            assert(t == "0x"@ + ph + " (offset: "@ + sc + ")"@);
        },
    }
}

proof fn lemma_ops2_then(a: u8, b: u8, x: Seq<char>)
    requires
        a < 32,
        b < 32,
        forall|k: int| 0 <= k < x.len() ==> #[trigger] x[k] != ',',
    ensures
        arg_list(ops2(a, b) + ", "@ + x) == seq![rn(a), rn(b), trim(spaces(1) + x)],
{
    reveal_strlit(", ");
    let ra = rn(a);
    let rb = rn(b);
    lemma_name_chars(a);
    lemma_name_chars(b);
    let tail2 = spaces(1) + x;
    let tail1 = spaces(1) + rb + seq![','] + tail2;
    let t = ops2(a, b) + ", "@ + x;
    assert(t =~= ra + seq![','] + tail1);
    assert(forall|k: int| 0 <= k < ra.len() ==> #[trigger] ra[k] != ',');
    lemma_split_cons(ra, tail1, ',');
    let f = spaces(1) + rb;
    assert forall|k: int| 0 <= k < f.len() implies #[trigger] f[k] != ',' by {
        if k >= 1 {
            assert(f[k] == rb[k - 1]);
        }
    }
    lemma_split_cons(f, tail2, ',');
    assert forall|k: int| 0 <= k < tail2.len() implies #[trigger] tail2[k] != ',' by {
        if k >= 1 {
            assert(tail2[k] == x[k - 1]);
        }
    }
    lemma_find_none(tail2, ',');
    lemma_args_tail(rb);
    lemma_trim_same(ra);
    assert(split(t, ',') =~= seq![ra, f, tail2]);
    assert(arg_list(t) =~= seq![ra, rb, trim(tail2)]);
}

proof fn lemma_text_branch(w: Seq<char>, a: u8, b: u8, pc: u64, offset: i64, labels: Seq<(Seq<char>, u64)>)
    requires
        0 < w.len() < 9,
        forall|k: int| 0 <= k < w.len() ==> !is_ws(#[trigger] w[k]),
        a < 32,
        b < 32,
        comma_free_labels(labels),
    ensures
        reads_branch_regs(with_ops(w, ops2(a, b) + ", "@ + target_text(pc, offset, labels)), a, b),
{
    reveal_strlit(", ");
    lemma_name_chars(a);
    lemma_name_chars(b);
    let x = target_text(pc, offset, labels);
    lemma_target_comma_free(pc, offset, labels);
    let ops = ops2(a, b) + ", "@ + x;
    assert(ops[0] == rn(a)[0]);
    assert(ops.last() == x.last());
    lemma_head(w, ops);
    lemma_ops2_then(a, b, x);
}

/// The assembler's reading of the operands of `t` as a register and a
/// memory operand: `Some((register, base, offset))`, or `None` when the
/// operands do not read that way.
pub open spec fn read_mem_operands(t: Seq<char>) -> Option<(u8, u8, i64)> {
    let args = arg_list(rest_after_head(t));
    if args.len() != 2 {
        None
    } else {
        match (reg_of(args[0]), mem_operand(args[1], Seq::empty())) {
            (Some(r), Ok((b, o))) => Some((r, b, o)),
            _ => None,
        }
    }
}

proof fn lemma_name_chars(r: u8)
    requires
        r < 32,
    ensures
        rn(r).len() >= 2,
        forall|k: int| 0 <= k < rn(r).len() ==> token_char(#[trigger] rn(r)[k]),
        reg_of(rn(r)) == Some(r),
{
    lemma_abi_name_chars(r as int);
    law_register_names_round_trip(r as int);
}

proof fn lemma_split_two(x: Seq<char>, y: Seq<char>, c: char)
    requires
        forall|k: int| 0 <= k < x.len() ==> #[trigger] x[k] != c,
        forall|k: int| 0 <= k < y.len() ==> #[trigger] y[k] != c,
    ensures
        split(x + seq![c] + y, c) == seq![x, y],
{
    let t = x + seq![c] + y;
    assert(t =~= x + (seq![c] + y));
    lemma_find_skip(x, seq![c] + y, c);
    assert((seq![c] + y)[0] == c);
    assert(t.subrange(0, x.len() as int) =~= x);
    assert(t.subrange(x.len() + 1int, t.len() as int) =~= y);
    lemma_find_none(y, c);
    assert(split(y, c) == seq![y]);
    assert(split(t, c) =~= seq![x, y]);
}

/// The memory operand `offset(base)` of a listing reads back.
proof fn lemma_mem_operand(off: i64, base: u8)
    requires
        base < 32,
    ensures
        mem_operand(signed_chars(off as int) + "("@ + rn(base) + ")"@, Seq::empty()) == Ok::<(u8, i64), Seq<char>>(
            (base, off),
        ),
{
    reveal_strlit("(");
    reveal_strlit(")");
    let rb = rn(base);
    let sc = signed_chars(off as int);
    lemma_name_chars(base);
    lemma_signed_chars(off as int);
    let rest = sc + "("@ + rb + ")"@;
    lemma_trim_same(rest);
    assert(forall|k: int| 0 <= k < sc.len() ==> #[trigger] sc[k] != '(' && sc[k] != ')');
    lemma_find_skip(sc, "("@ + rb + ")"@, '(');
    assert(("("@ + rb + ")"@)[0] == '(');
    assert(rest =~= sc + ("("@ + rb + ")"@));
    let front = sc + "("@ + rb;
    assert forall|k: int| 0 <= k < front.len() implies #[trigger] front[k] != ')' by {
        if k > sc.len() {
            assert(front[k] == rb[k - sc.len() - 1]);
        }
    }
    lemma_find_skip(front, ")"@, ')');
    assert(rest =~= front + ")"@);
    let o = sc.len() as int;
    let c = front.len() as int;
    assert(rest.take(o) =~= sc);
    assert(rest.subrange(o + 1, c) =~= rb);
    lemma_trim_same(sc);
    lemma_trim_same(rb);
    lemma_imm_dec(off);
}

/// The operand list of a listed memory instruction.
proof fn lemma_mem_args(a: u8, off: i64, base: u8)
    requires
        a < 32,
        base < 32,
    ensures
        arg_list(ops_mem(a, off, base)) == seq![rn(a), signed_chars(off as int) + "("@ + rn(base) + ")"@],
{
    reveal_strlit(", ");
    reveal_strlit("(");
    reveal_strlit(")");
    let ra = rn(a);
    let rb = rn(base);
    let sc = signed_chars(off as int);
    lemma_name_chars(a);
    lemma_name_chars(base);
    lemma_signed_chars(off as int);
    let rest = sc + "("@ + rb + ")"@;
    let tail = spaces(1) + rest;
    assert(ops_mem(a, off, base) =~= ra + seq![','] + tail);
    assert forall|k: int| 0 <= k < tail.len() implies #[trigger] tail[k] != ',' by {
        if 1 <= k <= sc.len() {
            assert(tail[k] == sc[k - 1]);
        } else if sc.len() + 1 < k < tail.len() - 1 {
            assert(tail[k] == rb[k - sc.len() - 2]);
        }
    }
    assert(forall|k: int| 0 <= k < ra.len() ==> #[trigger] ra[k] != ',');
    lemma_split_two(ra, tail, ',');
    lemma_trim_same(ra);
    assert(!is_ws(sc[0]));
    lemma_trim_spaces(1, rest);
    assert(arg_list(ops_mem(a, off, base)) =~= seq![ra, rest]);
}

proof fn lemma_mem_text(w: Seq<char>, a: u8, off: i64, base: u8)
    requires
        0 < w.len() < 9,
        forall|k: int| 0 <= k < w.len() ==> token_char(#[trigger] w[k]),
        a < 32,
        base < 32,
    ensures
        read_mem_operands(with_ops(w, ops_mem(a, off, base))) == Some((a, base, off)),
{
    reveal_strlit(", ");
    reveal_strlit(")");
    let ops = ops_mem(a, off, base);
    lemma_name_chars(a);
    assert(ops[0] == rn(a)[0]);
    assert(ops.last() == ')');
    assert(forall|k: int| 0 <= k < w.len() ==> !is_ws(#[trigger] w[k]));
    lemma_rest_after_head(w, ops);
    lemma_mem_args(a, off, base);
    lemma_mem_operand(off, base);
}

proof fn lemma_reads_ld(rd: u8, rs1: u8, offset: i64, pc: u64, labels: Seq<(Seq<char>, u64)>)
    requires
        rd < 32,
        rs1 < 32,
    ensures
        read_mem_operands(inst_text(Instruction::Ld { rd, rs1, offset }, pc, labels)) == Some((rd, rs1, offset)),
{
    reveal_strlit("ld");
    lemma_mem_text("ld"@, rd, offset, rs1);
}

proof fn lemma_reads_lw(rd: u8, rs1: u8, offset: i64, pc: u64, labels: Seq<(Seq<char>, u64)>)
    requires
        rd < 32,
        rs1 < 32,
    ensures
        read_mem_operands(inst_text(Instruction::Lw { rd, rs1, offset }, pc, labels)) == Some((rd, rs1, offset)),
{
    reveal_strlit("lw");
    lemma_mem_text("lw"@, rd, offset, rs1);
}

proof fn lemma_reads_lh(rd: u8, rs1: u8, offset: i64, pc: u64, labels: Seq<(Seq<char>, u64)>)
    requires
        rd < 32,
        rs1 < 32,
    ensures
        read_mem_operands(inst_text(Instruction::Lh { rd, rs1, offset }, pc, labels)) == Some((rd, rs1, offset)),
{
    reveal_strlit("lh");
    lemma_mem_text("lh"@, rd, offset, rs1);
}

proof fn lemma_reads_lb(rd: u8, rs1: u8, offset: i64, pc: u64, labels: Seq<(Seq<char>, u64)>)
    requires
        rd < 32,
        rs1 < 32,
    ensures
        read_mem_operands(inst_text(Instruction::Lb { rd, rs1, offset }, pc, labels)) == Some((rd, rs1, offset)),
{
    reveal_strlit("lb");
    lemma_mem_text("lb"@, rd, offset, rs1);
}

proof fn lemma_reads_lbu(rd: u8, rs1: u8, offset: i64, pc: u64, labels: Seq<(Seq<char>, u64)>)
    requires
        rd < 32,
        rs1 < 32,
    ensures
        read_mem_operands(inst_text(Instruction::Lbu { rd, rs1, offset }, pc, labels)) == Some((rd, rs1, offset)),
{
    reveal_strlit("lbu");
    lemma_mem_text("lbu"@, rd, offset, rs1);
}

proof fn lemma_reads_lq(rd: u8, rs1: u8, offset: i64, pc: u64, labels: Seq<(Seq<char>, u64)>)
    requires
        rd < 32,
        rs1 < 32,
    ensures
        read_mem_operands(inst_text(Instruction::Lq { rd, rs1, offset }, pc, labels)) == Some((rd, rs1, offset)),
{
    reveal_strlit("lq");
    lemma_mem_text("lq"@, rd, offset, rs1);
}

proof fn lemma_reads_sd(rs1: u8, rs2: u8, offset: i64, pc: u64, labels: Seq<(Seq<char>, u64)>)
    requires
        rs1 < 32,
        rs2 < 32,
    ensures
        read_mem_operands(inst_text(Instruction::Sd { rs1, rs2, offset }, pc, labels)) == Some((rs2, rs1, offset)),
{
    reveal_strlit("sd");
    lemma_mem_text("sd"@, rs2, offset, rs1);
}

proof fn lemma_reads_sw(rs1: u8, rs2: u8, offset: i64, pc: u64, labels: Seq<(Seq<char>, u64)>)
    requires
        rs1 < 32,
        rs2 < 32,
    ensures
        read_mem_operands(inst_text(Instruction::Sw { rs1, rs2, offset }, pc, labels)) == Some((rs2, rs1, offset)),
{
    reveal_strlit("sw");
    lemma_mem_text("sw"@, rs2, offset, rs1);
}

proof fn lemma_reads_sh(rs1: u8, rs2: u8, offset: i64, pc: u64, labels: Seq<(Seq<char>, u64)>)
    requires
        rs1 < 32,
        rs2 < 32,
    ensures
        read_mem_operands(inst_text(Instruction::Sh { rs1, rs2, offset }, pc, labels)) == Some((rs2, rs1, offset)),
{
    reveal_strlit("sh");
    lemma_mem_text("sh"@, rs2, offset, rs1);
}

proof fn lemma_reads_sb(rs1: u8, rs2: u8, offset: i64, pc: u64, labels: Seq<(Seq<char>, u64)>)
    requires
        rs1 < 32,
        rs2 < 32,
    ensures
        read_mem_operands(inst_text(Instruction::Sb { rs1, rs2, offset }, pc, labels)) == Some((rs2, rs1, offset)),
{
    reveal_strlit("sb");
    lemma_mem_text("sb"@, rs2, offset, rs1);
}

proof fn lemma_reads_sq(rs1: u8, rs2: u8, offset: i64, pc: u64, labels: Seq<(Seq<char>, u64)>)
    requires
        rs1 < 32,
        rs2 < 32,
    ensures
        read_mem_operands(inst_text(Instruction::Sq { rs1, rs2, offset }, pc, labels)) == Some((rs2, rs1, offset)),
{
    reveal_strlit("sq");
    lemma_mem_text("sq"@, rs2, offset, rs1);
}

/// The assembler reads the operands of every listed load and store back
/// as the instruction's own: the loaded or stored register first, then
/// the base register inside the parentheses with the offset before them.
pub proof fn law_memory_operands_read_back(inst: Instruction, pc: u64, labels: Seq<(Seq<char>, u64)>)
    ensures
        match inst {
            Instruction::Ld { rd, rs1, offset } | Instruction::Lw { rd, rs1, offset } | Instruction::Lh {
                rd,
                rs1,
                offset,
            } | Instruction::Lb { rd, rs1, offset } | Instruction::Lbu { rd, rs1, offset }
            | Instruction::Lq { rd, rs1, offset } => rd < 32 && rs1 < 32 ==> read_mem_operands(
                inst_text(inst, pc, labels),
            ) == Some((rd, rs1, offset)),
            Instruction::Sd { rs1, rs2, offset } | Instruction::Sw { rs1, rs2, offset } | Instruction::Sh {
                rs1,
                rs2,
                offset,
            } | Instruction::Sb { rs1, rs2, offset } | Instruction::Sq { rs1, rs2, offset } => rs1 < 32 && rs2
                < 32 ==> read_mem_operands(inst_text(inst, pc, labels)) == Some((rs2, rs1, offset)),
            _ => true,
        },
{
    match inst {
        Instruction::Ld { rd, rs1, offset } => if rd < 32 && rs1 < 32 {
            lemma_reads_ld(rd, rs1, offset, pc, labels);
        },
        Instruction::Lw { rd, rs1, offset } => if rd < 32 && rs1 < 32 {
            lemma_reads_lw(rd, rs1, offset, pc, labels);
        },
        Instruction::Lh { rd, rs1, offset } => if rd < 32 && rs1 < 32 {
            lemma_reads_lh(rd, rs1, offset, pc, labels);
        },
        Instruction::Lb { rd, rs1, offset } => if rd < 32 && rs1 < 32 {
            lemma_reads_lb(rd, rs1, offset, pc, labels);
        },
        Instruction::Lbu { rd, rs1, offset } => if rd < 32 && rs1 < 32 {
            lemma_reads_lbu(rd, rs1, offset, pc, labels);
        },
        Instruction::Lq { rd, rs1, offset } => if rd < 32 && rs1 < 32 {
            lemma_reads_lq(rd, rs1, offset, pc, labels);
        },
        Instruction::Sd { rs1, rs2, offset } => if rs1 < 32 && rs2 < 32 {
            lemma_reads_sd(rs1, rs2, offset, pc, labels);
        },
        Instruction::Sw { rs1, rs2, offset } => if rs1 < 32 && rs2 < 32 {
            lemma_reads_sw(rs1, rs2, offset, pc, labels);
        },
        Instruction::Sh { rs1, rs2, offset } => if rs1 < 32 && rs2 < 32 {
            lemma_reads_sh(rs1, rs2, offset, pc, labels);
        },
        Instruction::Sb { rs1, rs2, offset } => if rs1 < 32 && rs2 < 32 {
            lemma_reads_sb(rs1, rs2, offset, pc, labels);
        },
        Instruction::Sq { rs1, rs2, offset } => if rs1 < 32 && rs2 < 32 {
            lemma_reads_sq(rs1, rs2, offset, pc, labels);
        },
        _ => {},
    }
}

proof fn lemma_regs_add(rd: u8, rs1: u8, rs2: u8, pc: u64, labels: Seq<(Seq<char>, u64)>)
    requires
        rd < 32,
        rs1 < 32,
        rs2 < 32,
    ensures
        reads_regs(inst_text(Instruction::Add { rd, rs1, rs2 }, pc, labels), seq![rd, rs1, rs2]),
{
    reveal_strlit("add");
    lemma_text3("add"@, rd, rs1, rs2);
}

proof fn lemma_regs_sub(rd: u8, rs1: u8, rs2: u8, pc: u64, labels: Seq<(Seq<char>, u64)>)
    requires
        rd < 32,
        rs1 < 32,
        rs2 < 32,
    ensures
        reads_regs(inst_text(Instruction::Sub { rd, rs1, rs2 }, pc, labels), seq![rd, rs1, rs2]),
{
    reveal_strlit("sub");
    lemma_text3("sub"@, rd, rs1, rs2);
}

proof fn lemma_regs_mul(rd: u8, rs1: u8, rs2: u8, pc: u64, labels: Seq<(Seq<char>, u64)>)
    requires
        rd < 32,
        rs1 < 32,
        rs2 < 32,
    ensures
        reads_regs(inst_text(Instruction::Mul { rd, rs1, rs2 }, pc, labels), seq![rd, rs1, rs2]),
{
    reveal_strlit("mul");
    lemma_text3("mul"@, rd, rs1, rs2);
}

proof fn lemma_regs_mulh(rd: u8, rs1: u8, rs2: u8, pc: u64, labels: Seq<(Seq<char>, u64)>)
    requires
        rd < 32,
        rs1 < 32,
        rs2 < 32,
    ensures
        reads_regs(inst_text(Instruction::MulH { rd, rs1, rs2 }, pc, labels), seq![rd, rs1, rs2]),
{
    reveal_strlit("mulh");
    lemma_text3("mulh"@, rd, rs1, rs2);
}

proof fn lemma_regs_div(rd: u8, rs1: u8, rs2: u8, pc: u64, labels: Seq<(Seq<char>, u64)>)
    requires
        rd < 32,
        rs1 < 32,
        rs2 < 32,
    ensures
        reads_regs(inst_text(Instruction::Div { rd, rs1, rs2 }, pc, labels), seq![rd, rs1, rs2]),
{
    reveal_strlit("div");
    lemma_text3("div"@, rd, rs1, rs2);
}

proof fn lemma_regs_rem(rd: u8, rs1: u8, rs2: u8, pc: u64, labels: Seq<(Seq<char>, u64)>)
    requires
        rd < 32,
        rs1 < 32,
        rs2 < 32,
    ensures
        reads_regs(inst_text(Instruction::Rem { rd, rs1, rs2 }, pc, labels), seq![rd, rs1, rs2]),
{
    reveal_strlit("rem");
    lemma_text3("rem"@, rd, rs1, rs2);
}

proof fn lemma_regs_and(rd: u8, rs1: u8, rs2: u8, pc: u64, labels: Seq<(Seq<char>, u64)>)
    requires
        rd < 32,
        rs1 < 32,
        rs2 < 32,
    ensures
        reads_regs(inst_text(Instruction::And { rd, rs1, rs2 }, pc, labels), seq![rd, rs1, rs2]),
{
    reveal_strlit("and");
    lemma_text3("and"@, rd, rs1, rs2);
}

proof fn lemma_regs_or(rd: u8, rs1: u8, rs2: u8, pc: u64, labels: Seq<(Seq<char>, u64)>)
    requires
        rd < 32,
        rs1 < 32,
        rs2 < 32,
    ensures
        reads_regs(inst_text(Instruction::Or { rd, rs1, rs2 }, pc, labels), seq![rd, rs1, rs2]),
{
    reveal_strlit("or");
    lemma_text3("or"@, rd, rs1, rs2);
}

proof fn lemma_regs_xor(rd: u8, rs1: u8, rs2: u8, pc: u64, labels: Seq<(Seq<char>, u64)>)
    requires
        rd < 32,
        rs1 < 32,
        rs2 < 32,
    ensures
        reads_regs(inst_text(Instruction::Xor { rd, rs1, rs2 }, pc, labels), seq![rd, rs1, rs2]),
{
    reveal_strlit("xor");
    lemma_text3("xor"@, rd, rs1, rs2);
}

proof fn lemma_regs_sll(rd: u8, rs1: u8, rs2: u8, pc: u64, labels: Seq<(Seq<char>, u64)>)
    requires
        rd < 32,
        rs1 < 32,
        rs2 < 32,
    ensures
        reads_regs(inst_text(Instruction::Sll { rd, rs1, rs2 }, pc, labels), seq![rd, rs1, rs2]),
{
    reveal_strlit("sll");
    lemma_text3("sll"@, rd, rs1, rs2);
}

proof fn lemma_regs_srl(rd: u8, rs1: u8, rs2: u8, pc: u64, labels: Seq<(Seq<char>, u64)>)
    requires
        rd < 32,
        rs1 < 32,
        rs2 < 32,
    ensures
        reads_regs(inst_text(Instruction::Srl { rd, rs1, rs2 }, pc, labels), seq![rd, rs1, rs2]),
{
    reveal_strlit("srl");
    lemma_text3("srl"@, rd, rs1, rs2);
}

proof fn lemma_regs_sra(rd: u8, rs1: u8, rs2: u8, pc: u64, labels: Seq<(Seq<char>, u64)>)
    requires
        rd < 32,
        rs1 < 32,
        rs2 < 32,
    ensures
        reads_regs(inst_text(Instruction::Sra { rd, rs1, rs2 }, pc, labels), seq![rd, rs1, rs2]),
{
    reveal_strlit("sra");
    lemma_text3("sra"@, rd, rs1, rs2);
}

proof fn lemma_regs_slt(rd: u8, rs1: u8, rs2: u8, pc: u64, labels: Seq<(Seq<char>, u64)>)
    requires
        rd < 32,
        rs1 < 32,
        rs2 < 32,
    ensures
        reads_regs(inst_text(Instruction::Slt { rd, rs1, rs2 }, pc, labels), seq![rd, rs1, rs2]),
{
    reveal_strlit("slt");
    lemma_text3("slt"@, rd, rs1, rs2);
}

proof fn lemma_regs_sltu(rd: u8, rs1: u8, rs2: u8, pc: u64, labels: Seq<(Seq<char>, u64)>)
    requires
        rd < 32,
        rs1 < 32,
        rs2 < 32,
    ensures
        reads_regs(inst_text(Instruction::Sltu { rd, rs1, rs2 }, pc, labels), seq![rd, rs1, rs2]),
{
    reveal_strlit("sltu");
    lemma_text3("sltu"@, rd, rs1, rs2);
}

proof fn lemma_regs_vand(rd: u8, rs1: u8, rs2: u8, pc: u64, labels: Seq<(Seq<char>, u64)>)
    requires
        rd < 32,
        rs1 < 32,
        rs2 < 32,
    ensures
        reads_regs(inst_text(Instruction::VAnd { rd, rs1, rs2 }, pc, labels), seq![rd, rs1, rs2]),
{
    reveal_strlit("vand");
    lemma_text3("vand"@, rd, rs1, rs2);
}

proof fn lemma_regs_vor(rd: u8, rs1: u8, rs2: u8, pc: u64, labels: Seq<(Seq<char>, u64)>)
    requires
        rd < 32,
        rs1 < 32,
        rs2 < 32,
    ensures
        reads_regs(inst_text(Instruction::VOr { rd, rs1, rs2 }, pc, labels), seq![rd, rs1, rs2]),
{
    reveal_strlit("vor");
    lemma_text3("vor"@, rd, rs1, rs2);
}

proof fn lemma_regs_vxor(rd: u8, rs1: u8, rs2: u8, pc: u64, labels: Seq<(Seq<char>, u64)>)
    requires
        rd < 32,
        rs1 < 32,
        rs2 < 32,
    ensures
        reads_regs(inst_text(Instruction::VXor { rd, rs1, rs2 }, pc, labels), seq![rd, rs1, rs2]),
{
    reveal_strlit("vxor");
    lemma_text3("vxor"@, rd, rs1, rs2);
}

proof fn lemma_regs_zipper(rd: u8, rs1: u8, rs2: u8, pc: u64, labels: Seq<(Seq<char>, u64)>)
    requires
        rd < 32,
        rs1 < 32,
        rs2 < 32,
    ensures
        reads_regs(inst_text(Instruction::Zipper { rd, rs1, rs2 }, pc, labels), seq![rd, rs1, rs2]),
{
    reveal_strlit("zipper");
    lemma_text3("zipper"@, rd, rs1, rs2);
}

proof fn lemma_regs_zipper2(rd: u8, rs1: u8, rs2: u8, pc: u64, labels: Seq<(Seq<char>, u64)>)
    requires
        rd < 32,
        rs1 < 32,
        rs2 < 32,
    ensures
        reads_regs(inst_text(Instruction::Zipper2 { rd, rs1, rs2 }, pc, labels), seq![rd, rs1, rs2]),
{
    reveal_strlit("zipper2");
    lemma_text3("zipper2"@, rd, rs1, rs2);
}

proof fn lemma_regs_cadd(rd: u8, rs1: u8, rs2: u8, pc: u64, labels: Seq<(Seq<char>, u64)>)
    requires
        rd < 32,
        rs1 < 32,
        rs2 < 32,
    ensures
        reads_regs(inst_text(Instruction::CAdd { rd, rs1, rs2 }, pc, labels), seq![rd, rs1, rs2]),
{
    reveal_strlit("cadd");
    lemma_text3("cadd"@, rd, rs1, rs2);
}

proof fn lemma_regs_csub(rd: u8, rs1: u8, rs2: u8, pc: u64, labels: Seq<(Seq<char>, u64)>)
    requires
        rd < 32,
        rs1 < 32,
        rs2 < 32,
    ensures
        reads_regs(inst_text(Instruction::CSub { rd, rs1, rs2 }, pc, labels), seq![rd, rs1, rs2]),
{
    reveal_strlit("csub");
    lemma_text3("csub"@, rd, rs1, rs2);
}

proof fn lemma_regs_cmul(rd: u8, rs1: u8, rs2: u8, pc: u64, labels: Seq<(Seq<char>, u64)>)
    requires
        rd < 32,
        rs1 < 32,
        rs2 < 32,
    ensures
        reads_regs(inst_text(Instruction::CMul { rd, rs1, rs2 }, pc, labels), seq![rd, rs1, rs2]),
{
    reveal_strlit("cmul");
    lemma_text3("cmul"@, rd, rs1, rs2);
}

proof fn lemma_regs_hamming(rd: u8, rs1: u8, rs2: u8, pc: u64, labels: Seq<(Seq<char>, u64)>)
    requires
        rd < 32,
        rs1 < 32,
        rs2 < 32,
    ensures
        reads_regs(inst_text(Instruction::Hamming { rd, rs1, rs2 }, pc, labels), seq![rd, rs1, rs2]),
{
    reveal_strlit("hamming");
    lemma_text3("hamming"@, rd, rs1, rs2);
}

proof fn lemma_regs_polymul(rd: u8, rs1: u8, rs2: u8, pc: u64, labels: Seq<(Seq<char>, u64)>)
    requires
        rd < 32,
        rs1 < 32,
        rs2 < 32,
    ensures
        reads_regs(inst_text(Instruction::PolyMul { rd, rs1, rs2 }, pc, labels), seq![rd, rs1, rs2]),
{
    reveal_strlit("polymul");
    lemma_text3("polymul"@, rd, rs1, rs2);
}

proof fn lemma_regs_polyadd(rd: u8, rs1: u8, rs2: u8, pc: u64, labels: Seq<(Seq<char>, u64)>)
    requires
        rd < 32,
        rs1 < 32,
        rs2 < 32,
    ensures
        reads_regs(inst_text(Instruction::PolyAdd { rd, rs1, rs2 }, pc, labels), seq![rd, rs1, rs2]),
{
    reveal_strlit("polyadd");
    lemma_text3("polyadd"@, rd, rs1, rs2);
}

proof fn lemma_regs_tmul(rd: u8, rs1: u8, rs2: u8, pc: u64, labels: Seq<(Seq<char>, u64)>)
    requires
        rd < 32,
        rs1 < 32,
        rs2 < 32,
    ensures
        reads_regs(inst_text(Instruction::TMul { rd, rs1, rs2 }, pc, labels), seq![rd, rs1, rs2]),
{
    reveal_strlit("tmul");
    lemma_text3("tmul"@, rd, rs1, rs2);
}

proof fn lemma_regs_tdot(rd: u8, rs1: u8, rs2: u8, pc: u64, labels: Seq<(Seq<char>, u64)>)
    requires
        rd < 32,
        rs1 < 32,
        rs2 < 32,
    ensures
        reads_regs(inst_text(Instruction::TDot { rd, rs1, rs2 }, pc, labels), seq![rd, rs1, rs2]),
{
    reveal_strlit("tdot");
    lemma_text3("tdot"@, rd, rs1, rs2);
}

proof fn lemma_regs_vadd(rd: u8, rs1: u8, rs2: u8, width: Width, pc: u64, labels: Seq<(Seq<char>, u64)>)
    requires
        rd < 32,
        rs1 < 32,
        rs2 < 32,
    ensures
        reads_regs(inst_text(Instruction::VAdd { rd, rs1, rs2, width }, pc, labels), seq![rd, rs1, rs2]),
{
    reveal_strlit("vadd");
    lemma_suffixed("vadd"@, width);
    lemma_text3("vadd"@ + width_suffix(width), rd, rs1, rs2);
}

proof fn lemma_regs_vsub(rd: u8, rs1: u8, rs2: u8, width: Width, pc: u64, labels: Seq<(Seq<char>, u64)>)
    requires
        rd < 32,
        rs1 < 32,
        rs2 < 32,
    ensures
        reads_regs(inst_text(Instruction::VSub { rd, rs1, rs2, width }, pc, labels), seq![rd, rs1, rs2]),
{
    reveal_strlit("vsub");
    lemma_suffixed("vsub"@, width);
    lemma_text3("vsub"@ + width_suffix(width), rd, rs1, rs2);
}

proof fn lemma_regs_vmul(rd: u8, rs1: u8, rs2: u8, width: Width, pc: u64, labels: Seq<(Seq<char>, u64)>)
    requires
        rd < 32,
        rs1 < 32,
        rs2 < 32,
    ensures
        reads_regs(inst_text(Instruction::VMul { rd, rs1, rs2, width }, pc, labels), seq![rd, rs1, rs2]),
{
    reveal_strlit("vmul");
    lemma_suffixed("vmul"@, width);
    lemma_text3("vmul"@ + width_suffix(width), rd, rs1, rs2);
}

proof fn lemma_regs_vdot(rd: u8, rs1: u8, rs2: u8, width: Width, pc: u64, labels: Seq<(Seq<char>, u64)>)
    requires
        rd < 32,
        rs1 < 32,
        rs2 < 32,
    ensures
        reads_regs(inst_text(Instruction::VDot { rd, rs1, rs2, width }, pc, labels), seq![rd, rs1, rs2]),
{
    reveal_strlit("vdot");
    lemma_suffixed("vdot"@, width);
    lemma_text3("vdot"@ + width_suffix(width), rd, rs1, rs2);
}

proof fn lemma_regs_addi(rd: u8, rs1: u8, imm: i64, pc: u64, labels: Seq<(Seq<char>, u64)>)
    requires
        rd < 32,
        rs1 < 32,
    ensures
        reads_regs_imm(inst_text(Instruction::Addi { rd, rs1, imm }, pc, labels), rd, rs1, imm),
{
    reveal_strlit("addi");
    lemma_text3i("addi"@, rd, rs1, imm);
}

proof fn lemma_regs_andi(rd: u8, rs1: u8, imm: i64, pc: u64, labels: Seq<(Seq<char>, u64)>)
    requires
        rd < 32,
        rs1 < 32,
    ensures
        reads_regs_imm(inst_text(Instruction::Andi { rd, rs1, imm }, pc, labels), rd, rs1, imm),
{
    reveal_strlit("andi");
    lemma_text3i("andi"@, rd, rs1, imm);
}

proof fn lemma_regs_ori(rd: u8, rs1: u8, imm: i64, pc: u64, labels: Seq<(Seq<char>, u64)>)
    requires
        rd < 32,
        rs1 < 32,
    ensures
        reads_regs_imm(inst_text(Instruction::Ori { rd, rs1, imm }, pc, labels), rd, rs1, imm),
{
    reveal_strlit("ori");
    lemma_text3i("ori"@, rd, rs1, imm);
}

proof fn lemma_regs_xori(rd: u8, rs1: u8, imm: i64, pc: u64, labels: Seq<(Seq<char>, u64)>)
    requires
        rd < 32,
        rs1 < 32,
    ensures
        reads_regs_imm(inst_text(Instruction::Xori { rd, rs1, imm }, pc, labels), rd, rs1, imm),
{
    reveal_strlit("xori");
    lemma_text3i("xori"@, rd, rs1, imm);
}

proof fn lemma_regs_slli(rd: u8, rs1: u8, imm: i64, pc: u64, labels: Seq<(Seq<char>, u64)>)
    requires
        rd < 32,
        rs1 < 32,
    ensures
        reads_regs_imm(inst_text(Instruction::Slli { rd, rs1, imm }, pc, labels), rd, rs1, imm),
{
    reveal_strlit("slli");
    lemma_text3i("slli"@, rd, rs1, imm);
}

proof fn lemma_regs_srli(rd: u8, rs1: u8, imm: i64, pc: u64, labels: Seq<(Seq<char>, u64)>)
    requires
        rd < 32,
        rs1 < 32,
    ensures
        reads_regs_imm(inst_text(Instruction::Srli { rd, rs1, imm }, pc, labels), rd, rs1, imm),
{
    reveal_strlit("srli");
    lemma_text3i("srli"@, rd, rs1, imm);
}

proof fn lemma_regs_srai(rd: u8, rs1: u8, imm: i64, pc: u64, labels: Seq<(Seq<char>, u64)>)
    requires
        rd < 32,
        rs1 < 32,
    ensures
        reads_regs_imm(inst_text(Instruction::Srai { rd, rs1, imm }, pc, labels), rd, rs1, imm),
{
    reveal_strlit("srai");
    lemma_text3i("srai"@, rd, rs1, imm);
}

proof fn lemma_regs_slti(rd: u8, rs1: u8, imm: i64, pc: u64, labels: Seq<(Seq<char>, u64)>)
    requires
        rd < 32,
        rs1 < 32,
    ensures
        reads_regs_imm(inst_text(Instruction::Slti { rd, rs1, imm }, pc, labels), rd, rs1, imm),
{
    reveal_strlit("slti");
    lemma_text3i("slti"@, rd, rs1, imm);
}

proof fn lemma_regs_sltiu(rd: u8, rs1: u8, imm: i64, pc: u64, labels: Seq<(Seq<char>, u64)>)
    requires
        rd < 32,
        rs1 < 32,
    ensures
        reads_regs_imm(inst_text(Instruction::Sltiu { rd, rs1, imm }, pc, labels), rd, rs1, imm),
{
    reveal_strlit("sltiu");
    lemma_text3i("sltiu"@, rd, rs1, imm);
}

proof fn lemma_regs_vnot(rd: u8, rs1: u8, pc: u64, labels: Seq<(Seq<char>, u64)>)
    requires
        rd < 32,
        rs1 < 32,
    ensures
        reads_regs(inst_text(Instruction::VNot { rd, rs1 }, pc, labels), seq![rd, rs1]),
{
    reveal_strlit("vnot");
    lemma_text2("vnot"@, rd, rs1);
}

proof fn lemma_regs_cconj(rd: u8, rs1: u8, pc: u64, labels: Seq<(Seq<char>, u64)>)
    requires
        rd < 32,
        rs1 < 32,
    ensures
        reads_regs(inst_text(Instruction::CConj { rd, rs1 }, pc, labels), seq![rd, rs1]),
{
    reveal_strlit("cconj");
    lemma_text2("cconj"@, rd, rs1);
}

proof fn lemma_regs_cnorm(rd: u8, rs1: u8, pc: u64, labels: Seq<(Seq<char>, u64)>)
    requires
        rd < 32,
        rs1 < 32,
    ensures
        reads_regs(inst_text(Instruction::CNorm { rd, rs1 }, pc, labels), seq![rd, rs1]),
{
    reveal_strlit("cnorm");
    lemma_text2("cnorm"@, rd, rs1);
}

proof fn lemma_regs_cmag(rd: u8, rs1: u8, pc: u64, labels: Seq<(Seq<char>, u64)>)
    requires
        rd < 32,
        rs1 < 32,
    ensures
        reads_regs(inst_text(Instruction::CMag { rd, rs1 }, pc, labels), seq![rd, rs1]),
{
    reveal_strlit("cmag");
    lemma_text2("cmag"@, rd, rs1);
}

proof fn lemma_regs_entropy(rd: u8, rs1: u8, pc: u64, labels: Seq<(Seq<char>, u64)>)
    requires
        rd < 32,
        rs1 < 32,
    ensures
        reads_regs(inst_text(Instruction::Entropy { rd, rs1 }, pc, labels), seq![rd, rs1]),
{
    reveal_strlit("entropy");
    lemma_text2("entropy"@, rd, rs1);
}

proof fn lemma_regs_popcnt(rd: u8, rs1: u8, pc: u64, labels: Seq<(Seq<char>, u64)>)
    requires
        rd < 32,
        rs1 < 32,
    ensures
        reads_regs(inst_text(Instruction::PopCnt { rd, rs1 }, pc, labels), seq![rd, rs1]),
{
    reveal_strlit("popcnt");
    lemma_text2("popcnt"@, rd, rs1);
}

proof fn lemma_regs_ntt(rd: u8, rs1: u8, pc: u64, labels: Seq<(Seq<char>, u64)>)
    requires
        rd < 32,
        rs1 < 32,
    ensures
        reads_regs(inst_text(Instruction::Ntt { rd, rs1 }, pc, labels), seq![rd, rs1]),
{
    reveal_strlit("ntt");
    lemma_text2("ntt"@, rd, rs1);
}

proof fn lemma_regs_invntt(rd: u8, rs1: u8, pc: u64, labels: Seq<(Seq<char>, u64)>)
    requires
        rd < 32,
        rs1 < 32,
    ensures
        reads_regs(inst_text(Instruction::InvNtt { rd, rs1 }, pc, labels), seq![rd, rs1]),
{
    reveal_strlit("invntt");
    lemma_text2("invntt"@, rd, rs1);
}

proof fn lemma_regs_tsoftmax(rd: u8, rs1: u8, pc: u64, labels: Seq<(Seq<char>, u64)>)
    requires
        rd < 32,
        rs1 < 32,
    ensures
        reads_regs(inst_text(Instruction::TSoftmax { rd, rs1 }, pc, labels), seq![rd, rs1]),
{
    reveal_strlit("tsoftmax");
    lemma_text2("tsoftmax"@, rd, rs1);
}

proof fn lemma_regs_mv(rd: u8, rs1: u8, pc: u64, labels: Seq<(Seq<char>, u64)>)
    requires
        rd < 32,
        rs1 < 32,
    ensures
        reads_regs(inst_text(Instruction::Mv { rd, rs1 }, pc, labels), seq![rd, rs1]),
{
    reveal_strlit("mv");
    lemma_text2("mv"@, rd, rs1);
}

proof fn lemma_regs_vsplat(rd: u8, rs1: u8, width: Width, pc: u64, labels: Seq<(Seq<char>, u64)>)
    requires
        rd < 32,
        rs1 < 32,
    ensures
        reads_regs(inst_text(Instruction::VSplat { rd, rs1, width }, pc, labels), seq![rd, rs1]),
{
    reveal_strlit("vsplat");
    lemma_suffixed("vsplat"@, width);
    lemma_text2("vsplat"@ + width_suffix(width), rd, rs1);
}

/// The assembler reads the register operands of every listed register
/// instruction back in the instruction's own order: the destination first,
/// then the sources, and an immediate last as its value.
pub proof fn law_register_operands_read_back(inst: Instruction, pc: u64, labels: Seq<(Seq<char>, u64)>)
    ensures
        match inst {
            Instruction::Add { rd, rs1, rs2 } | Instruction::Sub { rd, rs1, rs2 } | Instruction::Mul { rd, rs1, rs2 } | Instruction::MulH { rd, rs1, rs2 } | Instruction::Div { rd, rs1, rs2 } | Instruction::Rem { rd, rs1, rs2 } | Instruction::And { rd, rs1, rs2 } | Instruction::Or { rd, rs1, rs2 } | Instruction::Xor { rd, rs1, rs2 } | Instruction::Sll { rd, rs1, rs2 } | Instruction::Srl { rd, rs1, rs2 } | Instruction::Sra { rd, rs1, rs2 } | Instruction::Slt { rd, rs1, rs2 } | Instruction::Sltu { rd, rs1, rs2 } | Instruction::VAnd { rd, rs1, rs2 } | Instruction::VOr { rd, rs1, rs2 } | Instruction::VXor { rd, rs1, rs2 } | Instruction::Zipper { rd, rs1, rs2 } | Instruction::Zipper2 { rd, rs1, rs2 } | Instruction::CAdd { rd, rs1, rs2 } | Instruction::CSub { rd, rs1, rs2 } | Instruction::CMul { rd, rs1, rs2 } | Instruction::Hamming { rd, rs1, rs2 } | Instruction::PolyMul { rd, rs1, rs2 } | Instruction::PolyAdd { rd, rs1, rs2 } | Instruction::TMul { rd, rs1, rs2 } | Instruction::TDot { rd, rs1, rs2 } | Instruction::VAdd { rd, rs1, rs2, .. } | Instruction::VSub { rd, rs1, rs2, .. } | Instruction::VMul { rd, rs1, rs2, .. } | Instruction::VDot { rd, rs1, rs2, .. } => rd < 32 && rs1 < 32 && rs2 < 32 ==> reads_regs(inst_text(inst, pc, labels), seq![rd, rs1, rs2]),
            Instruction::Addi { rd, rs1, imm } | Instruction::Andi { rd, rs1, imm } | Instruction::Ori { rd, rs1, imm } | Instruction::Xori { rd, rs1, imm } | Instruction::Slli { rd, rs1, imm } | Instruction::Srli { rd, rs1, imm } | Instruction::Srai { rd, rs1, imm } | Instruction::Slti { rd, rs1, imm } | Instruction::Sltiu { rd, rs1, imm } => rd < 32 && rs1 < 32 ==> reads_regs_imm(inst_text(inst, pc, labels), rd, rs1, imm),
            Instruction::VNot { rd, rs1 } | Instruction::CConj { rd, rs1 } | Instruction::CNorm { rd, rs1 } | Instruction::CMag { rd, rs1 } | Instruction::Entropy { rd, rs1 } | Instruction::PopCnt { rd, rs1 } | Instruction::Ntt { rd, rs1 } | Instruction::InvNtt { rd, rs1 } | Instruction::TSoftmax { rd, rs1 } | Instruction::Mv { rd, rs1 } | Instruction::VSplat { rd, rs1, .. } => rd < 32 && rs1 < 32 ==> reads_regs(inst_text(inst, pc, labels), seq![rd, rs1]),
            _ => true,
        },
{
    match inst {
        Instruction::Add { rd, rs1, rs2 } => if rd < 32 && rs1 < 32 && rs2 < 32 {
            lemma_regs_add(rd, rs1, rs2, pc, labels);
        },
        Instruction::Sub { rd, rs1, rs2 } => if rd < 32 && rs1 < 32 && rs2 < 32 {
            lemma_regs_sub(rd, rs1, rs2, pc, labels);
        },
        Instruction::Mul { rd, rs1, rs2 } => if rd < 32 && rs1 < 32 && rs2 < 32 {
            lemma_regs_mul(rd, rs1, rs2, pc, labels);
        },
        Instruction::MulH { rd, rs1, rs2 } => if rd < 32 && rs1 < 32 && rs2 < 32 {
            lemma_regs_mulh(rd, rs1, rs2, pc, labels);
        },
        Instruction::Div { rd, rs1, rs2 } => if rd < 32 && rs1 < 32 && rs2 < 32 {
            lemma_regs_div(rd, rs1, rs2, pc, labels);
        },
        Instruction::Rem { rd, rs1, rs2 } => if rd < 32 && rs1 < 32 && rs2 < 32 {
            lemma_regs_rem(rd, rs1, rs2, pc, labels);
        },
        Instruction::And { rd, rs1, rs2 } => if rd < 32 && rs1 < 32 && rs2 < 32 {
            lemma_regs_and(rd, rs1, rs2, pc, labels);
        },
        Instruction::Or { rd, rs1, rs2 } => if rd < 32 && rs1 < 32 && rs2 < 32 {
            lemma_regs_or(rd, rs1, rs2, pc, labels);
        },
        Instruction::Xor { rd, rs1, rs2 } => if rd < 32 && rs1 < 32 && rs2 < 32 {
            lemma_regs_xor(rd, rs1, rs2, pc, labels);
        },
        Instruction::Sll { rd, rs1, rs2 } => if rd < 32 && rs1 < 32 && rs2 < 32 {
            lemma_regs_sll(rd, rs1, rs2, pc, labels);
        },
        Instruction::Srl { rd, rs1, rs2 } => if rd < 32 && rs1 < 32 && rs2 < 32 {
            lemma_regs_srl(rd, rs1, rs2, pc, labels);
        },
        Instruction::Sra { rd, rs1, rs2 } => if rd < 32 && rs1 < 32 && rs2 < 32 {
            lemma_regs_sra(rd, rs1, rs2, pc, labels);
        },
        Instruction::Slt { rd, rs1, rs2 } => if rd < 32 && rs1 < 32 && rs2 < 32 {
            lemma_regs_slt(rd, rs1, rs2, pc, labels);
        },
        Instruction::Sltu { rd, rs1, rs2 } => if rd < 32 && rs1 < 32 && rs2 < 32 {
            lemma_regs_sltu(rd, rs1, rs2, pc, labels);
        },
        Instruction::VAnd { rd, rs1, rs2 } => if rd < 32 && rs1 < 32 && rs2 < 32 {
            lemma_regs_vand(rd, rs1, rs2, pc, labels);
        },
        Instruction::VOr { rd, rs1, rs2 } => if rd < 32 && rs1 < 32 && rs2 < 32 {
            lemma_regs_vor(rd, rs1, rs2, pc, labels);
        },
        Instruction::VXor { rd, rs1, rs2 } => if rd < 32 && rs1 < 32 && rs2 < 32 {
            lemma_regs_vxor(rd, rs1, rs2, pc, labels);
        },
        Instruction::Zipper { rd, rs1, rs2 } => if rd < 32 && rs1 < 32 && rs2 < 32 {
            lemma_regs_zipper(rd, rs1, rs2, pc, labels);
        },
        Instruction::Zipper2 { rd, rs1, rs2 } => if rd < 32 && rs1 < 32 && rs2 < 32 {
            lemma_regs_zipper2(rd, rs1, rs2, pc, labels);
        },
        Instruction::CAdd { rd, rs1, rs2 } => if rd < 32 && rs1 < 32 && rs2 < 32 {
            lemma_regs_cadd(rd, rs1, rs2, pc, labels);
        },
        Instruction::CSub { rd, rs1, rs2 } => if rd < 32 && rs1 < 32 && rs2 < 32 {
            lemma_regs_csub(rd, rs1, rs2, pc, labels);
        },
        Instruction::CMul { rd, rs1, rs2 } => if rd < 32 && rs1 < 32 && rs2 < 32 {
            lemma_regs_cmul(rd, rs1, rs2, pc, labels);
        },
        Instruction::Hamming { rd, rs1, rs2 } => if rd < 32 && rs1 < 32 && rs2 < 32 {
            lemma_regs_hamming(rd, rs1, rs2, pc, labels);
        },
        Instruction::PolyMul { rd, rs1, rs2 } => if rd < 32 && rs1 < 32 && rs2 < 32 {
            lemma_regs_polymul(rd, rs1, rs2, pc, labels);
        },
        Instruction::PolyAdd { rd, rs1, rs2 } => if rd < 32 && rs1 < 32 && rs2 < 32 {
            lemma_regs_polyadd(rd, rs1, rs2, pc, labels);
        },
        Instruction::TMul { rd, rs1, rs2 } => if rd < 32 && rs1 < 32 && rs2 < 32 {
            lemma_regs_tmul(rd, rs1, rs2, pc, labels);
        },
        Instruction::TDot { rd, rs1, rs2 } => if rd < 32 && rs1 < 32 && rs2 < 32 {
            lemma_regs_tdot(rd, rs1, rs2, pc, labels);
        },
        Instruction::VAdd { rd, rs1, rs2, width } => if rd < 32 && rs1 < 32 && rs2 < 32 {
            lemma_regs_vadd(rd, rs1, rs2, width, pc, labels);
        },
        Instruction::VSub { rd, rs1, rs2, width } => if rd < 32 && rs1 < 32 && rs2 < 32 {
            lemma_regs_vsub(rd, rs1, rs2, width, pc, labels);
        },
        Instruction::VMul { rd, rs1, rs2, width } => if rd < 32 && rs1 < 32 && rs2 < 32 {
            lemma_regs_vmul(rd, rs1, rs2, width, pc, labels);
        },
        Instruction::VDot { rd, rs1, rs2, width } => if rd < 32 && rs1 < 32 && rs2 < 32 {
            lemma_regs_vdot(rd, rs1, rs2, width, pc, labels);
        },
        Instruction::Addi { rd, rs1, imm } => if rd < 32 && rs1 < 32 {
            lemma_regs_addi(rd, rs1, imm, pc, labels);
        },
        Instruction::Andi { rd, rs1, imm } => if rd < 32 && rs1 < 32 {
            lemma_regs_andi(rd, rs1, imm, pc, labels);
        },
        Instruction::Ori { rd, rs1, imm } => if rd < 32 && rs1 < 32 {
            lemma_regs_ori(rd, rs1, imm, pc, labels);
        },
        Instruction::Xori { rd, rs1, imm } => if rd < 32 && rs1 < 32 {
            lemma_regs_xori(rd, rs1, imm, pc, labels);
        },
        Instruction::Slli { rd, rs1, imm } => if rd < 32 && rs1 < 32 {
            lemma_regs_slli(rd, rs1, imm, pc, labels);
        },
        Instruction::Srli { rd, rs1, imm } => if rd < 32 && rs1 < 32 {
            lemma_regs_srli(rd, rs1, imm, pc, labels);
        },
        Instruction::Srai { rd, rs1, imm } => if rd < 32 && rs1 < 32 {
            lemma_regs_srai(rd, rs1, imm, pc, labels);
        },
        Instruction::Slti { rd, rs1, imm } => if rd < 32 && rs1 < 32 {
            lemma_regs_slti(rd, rs1, imm, pc, labels);
        },
        Instruction::Sltiu { rd, rs1, imm } => if rd < 32 && rs1 < 32 {
            lemma_regs_sltiu(rd, rs1, imm, pc, labels);
        },
        Instruction::VNot { rd, rs1 } => if rd < 32 && rs1 < 32 {
            lemma_regs_vnot(rd, rs1, pc, labels);
        },
        Instruction::CConj { rd, rs1 } => if rd < 32 && rs1 < 32 {
            lemma_regs_cconj(rd, rs1, pc, labels);
        },
        Instruction::CNorm { rd, rs1 } => if rd < 32 && rs1 < 32 {
            lemma_regs_cnorm(rd, rs1, pc, labels);
        },
        Instruction::CMag { rd, rs1 } => if rd < 32 && rs1 < 32 {
            lemma_regs_cmag(rd, rs1, pc, labels);
        },
        Instruction::Entropy { rd, rs1 } => if rd < 32 && rs1 < 32 {
            lemma_regs_entropy(rd, rs1, pc, labels);
        },
        Instruction::PopCnt { rd, rs1 } => if rd < 32 && rs1 < 32 {
            lemma_regs_popcnt(rd, rs1, pc, labels);
        },
        Instruction::Ntt { rd, rs1 } => if rd < 32 && rs1 < 32 {
            lemma_regs_ntt(rd, rs1, pc, labels);
        },
        Instruction::InvNtt { rd, rs1 } => if rd < 32 && rs1 < 32 {
            lemma_regs_invntt(rd, rs1, pc, labels);
        },
        Instruction::TSoftmax { rd, rs1 } => if rd < 32 && rs1 < 32 {
            lemma_regs_tsoftmax(rd, rs1, pc, labels);
        },
        Instruction::Mv { rd, rs1 } => if rd < 32 && rs1 < 32 {
            lemma_regs_mv(rd, rs1, pc, labels);
        },
        Instruction::VSplat { rd, rs1, width } => if rd < 32 && rs1 < 32 {
            lemma_regs_vsplat(rd, rs1, width, pc, labels);
        },
        _ => {},
    }
}

proof fn lemma_regs_beq(rs1: u8, rs2: u8, offset: i64, pc: u64, labels: Seq<(Seq<char>, u64)>)
    requires
        rs1 < 32,
        rs2 < 32,
        comma_free_labels(labels),
    ensures
        reads_branch_regs(inst_text(Instruction::Beq { rs1, rs2, offset }, pc, labels), rs1, rs2),
{
    reveal_strlit("beq");
    lemma_text_branch("beq"@, rs1, rs2, pc, offset, labels);
}

proof fn lemma_regs_bne(rs1: u8, rs2: u8, offset: i64, pc: u64, labels: Seq<(Seq<char>, u64)>)
    requires
        rs1 < 32,
        rs2 < 32,
        comma_free_labels(labels),
    ensures
        reads_branch_regs(inst_text(Instruction::Bne { rs1, rs2, offset }, pc, labels), rs1, rs2),
{
    reveal_strlit("bne");
    lemma_text_branch("bne"@, rs1, rs2, pc, offset, labels);
}

proof fn lemma_regs_blt(rs1: u8, rs2: u8, offset: i64, pc: u64, labels: Seq<(Seq<char>, u64)>)
    requires
        rs1 < 32,
        rs2 < 32,
        comma_free_labels(labels),
    ensures
        reads_branch_regs(inst_text(Instruction::Blt { rs1, rs2, offset }, pc, labels), rs1, rs2),
{
    reveal_strlit("blt");
    lemma_text_branch("blt"@, rs1, rs2, pc, offset, labels);
}

proof fn lemma_regs_bge(rs1: u8, rs2: u8, offset: i64, pc: u64, labels: Seq<(Seq<char>, u64)>)
    requires
        rs1 < 32,
        rs2 < 32,
        comma_free_labels(labels),
    ensures
        reads_branch_regs(inst_text(Instruction::Bge { rs1, rs2, offset }, pc, labels), rs1, rs2),
{
    reveal_strlit("bge");
    lemma_text_branch("bge"@, rs1, rs2, pc, offset, labels);
}

proof fn lemma_regs_bltu(rs1: u8, rs2: u8, offset: i64, pc: u64, labels: Seq<(Seq<char>, u64)>)
    requires
        rs1 < 32,
        rs2 < 32,
        comma_free_labels(labels),
    ensures
        reads_branch_regs(inst_text(Instruction::Bltu { rs1, rs2, offset }, pc, labels), rs1, rs2),
{
    reveal_strlit("bltu");
    lemma_text_branch("bltu"@, rs1, rs2, pc, offset, labels);
}

proof fn lemma_regs_bgeu(rs1: u8, rs2: u8, offset: i64, pc: u64, labels: Seq<(Seq<char>, u64)>)
    requires
        rs1 < 32,
        rs2 < 32,
        comma_free_labels(labels),
    ensures
        reads_branch_regs(inst_text(Instruction::Bgeu { rs1, rs2, offset }, pc, labels), rs1, rs2),
{
    reveal_strlit("bgeu");
    lemma_text_branch("bgeu"@, rs1, rs2, pc, offset, labels);
}

/// The assembler reads the two compared registers of every listed
/// conditional branch back in the instruction's own order, whatever the
/// target, as long as no label name holds a comma.
pub proof fn law_branch_registers_read_back(inst: Instruction, pc: u64, labels: Seq<(Seq<char>, u64)>)
    requires
        comma_free_labels(labels),
    ensures
        match inst {
            Instruction::Beq { rs1, rs2, .. } | Instruction::Bne { rs1, rs2, .. } | Instruction::Blt { rs1, rs2, .. } | Instruction::Bge { rs1, rs2, .. } | Instruction::Bltu { rs1, rs2, .. } | Instruction::Bgeu { rs1, rs2, .. } => rs1 < 32 && rs2 < 32 ==> reads_branch_regs(inst_text(inst, pc, labels), rs1, rs2),
            _ => true,
        },
{
    match inst {
        Instruction::Beq { rs1, rs2, offset } => if rs1 < 32 && rs2 < 32 {
            lemma_regs_beq(rs1, rs2, offset, pc, labels);
        },
        Instruction::Bne { rs1, rs2, offset } => if rs1 < 32 && rs2 < 32 {
            lemma_regs_bne(rs1, rs2, offset, pc, labels);
        },
        Instruction::Blt { rs1, rs2, offset } => if rs1 < 32 && rs2 < 32 {
            lemma_regs_blt(rs1, rs2, offset, pc, labels);
        },
        Instruction::Bge { rs1, rs2, offset } => if rs1 < 32 && rs2 < 32 {
            lemma_regs_bge(rs1, rs2, offset, pc, labels);
        },
        Instruction::Bltu { rs1, rs2, offset } => if rs1 < 32 && rs2 < 32 {
            lemma_regs_bltu(rs1, rs2, offset, pc, labels);
        },
        Instruction::Bgeu { rs1, rs2, offset } => if rs1 < 32 && rs2 < 32 {
            lemma_regs_bgeu(rs1, rs2, offset, pc, labels);
        },
        _ => {},
    }
}


/// Whether the assembler, given the table entry of `inst`'s own opcode and
/// width with operand shape `shape`, makes `inst` from the operands of
/// listing text `t` (with no symbols defined).
pub open spec fn reassembles(inst: Instruction, shape: Shape, t: Seq<char>, name: Seq<char>, n: nat, at: u64) -> bool {
    operands((fields_of(inst).0, shape, fields_of(inst).4, name), listed_operands(t), Seq::empty(), n, at)
        == Ok::<Instruction, Seq<char>>(inst)
}

proof fn lemma_shape_rrr(inst: Instruction, t: Seq<char>, name: Seq<char>, n: nat, at: u64)
    requires
        reads_regs(t, seq![fields_of(inst).1, fields_of(inst).2, fields_of(inst).3]),
        fields_of(inst).5 == 0,
    ensures
        reassembles(inst, Shape::Rrr, t, name, n, at),
{
    lemma_fields_roundtrip(inst);
    let args = listed_operands(t);
    assert(reg_of(args[0]) == Some(fields_of(inst).1));
    assert(reg_of(args[1]) == Some(fields_of(inst).2));
    assert(reg_of(args[2]) == Some(fields_of(inst).3));
}

proof fn lemma_shape_rr(inst: Instruction, t: Seq<char>, name: Seq<char>, n: nat, at: u64)
    requires
        reads_regs(t, seq![fields_of(inst).1, fields_of(inst).2]),
        fields_of(inst).3 == 0,
        fields_of(inst).5 == 0,
    ensures
        reassembles(inst, Shape::Rr, t, name, n, at),
{
    lemma_fields_roundtrip(inst);
    let args = listed_operands(t);
    assert(reg_of(args[0]) == Some(fields_of(inst).1));
    assert(reg_of(args[1]) == Some(fields_of(inst).2));
}

proof fn lemma_shape_rri(inst: Instruction, t: Seq<char>, name: Seq<char>, n: nat, at: u64)
    requires
        reads_regs_imm(t, fields_of(inst).1, fields_of(inst).2, fields_of(inst).5),
        fields_of(inst).3 == 0,
    ensures
        reassembles(inst, Shape::Rri, t, name, n, at),
{
    lemma_fields_roundtrip(inst);
}

proof fn lemma_shape_load(inst: Instruction, t: Seq<char>, name: Seq<char>, n: nat, at: u64)
    requires
        read_mem_operands(t) == Some((fields_of(inst).1, fields_of(inst).2, fields_of(inst).5)),
        fields_of(inst).3 == 0,
    ensures
        reassembles(inst, Shape::Load, t, name, n, at),
{
    lemma_fields_roundtrip(inst);
}

proof fn lemma_shape_store(inst: Instruction, t: Seq<char>, name: Seq<char>, n: nat, at: u64)
    requires
        read_mem_operands(t) == Some((fields_of(inst).3, fields_of(inst).2, fields_of(inst).5)),
        fields_of(inst).1 == 0,
    ensures
        reassembles(inst, Shape::Store, t, name, n, at),
{
    lemma_fields_roundtrip(inst);
}

/// Assembling the operands of the listing of a register, immediate, load
/// or store instruction with the table entry of its own opcode gives the
/// instruction back: operand order, registers, immediates and offsets all
/// survive the trip from listing to assembler. `name` is the mnemonic the
/// entry reports errors under, `n` the line and `at` the index.
pub proof fn law_listed_operands_reassemble(
    inst: Instruction,
    pc: u64,
    labels: Seq<(Seq<char>, u64)>,
    name: Seq<char>,
    n: nat,
    at: u64,
)
    ensures
        match inst {
            Instruction::Add { rd, rs1, rs2 } | Instruction::Sub { rd, rs1, rs2 } | Instruction::Mul { rd, rs1, rs2 } | Instruction::MulH { rd, rs1, rs2 } | Instruction::Div { rd, rs1, rs2 } | Instruction::Rem { rd, rs1, rs2 } | Instruction::And { rd, rs1, rs2 } | Instruction::Or { rd, rs1, rs2 } | Instruction::Xor { rd, rs1, rs2 } | Instruction::Sll { rd, rs1, rs2 } | Instruction::Srl { rd, rs1, rs2 } | Instruction::Sra { rd, rs1, rs2 } | Instruction::Slt { rd, rs1, rs2 } | Instruction::Sltu { rd, rs1, rs2 } | Instruction::VAnd { rd, rs1, rs2 } | Instruction::VOr { rd, rs1, rs2 } | Instruction::VXor { rd, rs1, rs2 } | Instruction::Zipper { rd, rs1, rs2 } | Instruction::Zipper2 { rd, rs1, rs2 } | Instruction::CAdd { rd, rs1, rs2 } | Instruction::CSub { rd, rs1, rs2 } | Instruction::CMul { rd, rs1, rs2 } | Instruction::Hamming { rd, rs1, rs2 } | Instruction::PolyMul { rd, rs1, rs2 } | Instruction::PolyAdd { rd, rs1, rs2 } | Instruction::TMul { rd, rs1, rs2 } | Instruction::TDot { rd, rs1, rs2 } | Instruction::VAdd { rd, rs1, rs2, .. } | Instruction::VSub { rd, rs1, rs2, .. } | Instruction::VMul { rd, rs1, rs2, .. } | Instruction::VDot { rd, rs1, rs2, .. } => rd < 32 && rs1 < 32 && rs2 < 32 ==> reassembles(inst, Shape::Rrr, inst_text(inst, pc, labels), name, n, at),
            Instruction::Addi { rd, rs1, .. } | Instruction::Andi { rd, rs1, .. } | Instruction::Ori { rd, rs1, .. } | Instruction::Xori { rd, rs1, .. } | Instruction::Slli { rd, rs1, .. } | Instruction::Srli { rd, rs1, .. } | Instruction::Srai { rd, rs1, .. } | Instruction::Slti { rd, rs1, .. } | Instruction::Sltiu { rd, rs1, .. } => rd < 32 && rs1 < 32 ==> reassembles(inst, Shape::Rri, inst_text(inst, pc, labels), name, n, at),
            Instruction::VNot { rd, rs1 } | Instruction::CConj { rd, rs1 } | Instruction::CNorm { rd, rs1 } | Instruction::CMag { rd, rs1 } | Instruction::Entropy { rd, rs1 } | Instruction::PopCnt { rd, rs1 } | Instruction::Ntt { rd, rs1 } | Instruction::InvNtt { rd, rs1 } | Instruction::TSoftmax { rd, rs1 } | Instruction::Mv { rd, rs1 } | Instruction::VSplat { rd, rs1, .. } => rd < 32 && rs1 < 32 ==> reassembles(inst, Shape::Rr, inst_text(inst, pc, labels), name, n, at),
            Instruction::Ld { rd, rs1, .. } | Instruction::Lw { rd, rs1, .. } | Instruction::Lh { rd, rs1, .. } | Instruction::Lb { rd, rs1, .. } | Instruction::Lbu { rd, rs1, .. } | Instruction::Lq { rd, rs1, .. } => rd < 32 && rs1 < 32 ==> reassembles(inst, Shape::Load, inst_text(inst, pc, labels), name, n, at),
            Instruction::Sd { rs1, rs2, .. } | Instruction::Sw { rs1, rs2, .. } | Instruction::Sh { rs1, rs2, .. } | Instruction::Sb { rs1, rs2, .. } | Instruction::Sq { rs1, rs2, .. } => rs1 < 32 && rs2 < 32 ==> reassembles(inst, Shape::Store, inst_text(inst, pc, labels), name, n, at),
            _ => true,
        },
{
    match inst {
        Instruction::Add { rd, rs1, rs2 } => if rd < 32 && rs1 < 32 && rs2 < 32 {
            lemma_regs_add(rd, rs1, rs2, pc, labels);
            lemma_shape_rrr(inst, inst_text(inst, pc, labels), name, n, at);
        },
        Instruction::Sub { rd, rs1, rs2 } => if rd < 32 && rs1 < 32 && rs2 < 32 {
            lemma_regs_sub(rd, rs1, rs2, pc, labels);
            lemma_shape_rrr(inst, inst_text(inst, pc, labels), name, n, at);
        },
        Instruction::Mul { rd, rs1, rs2 } => if rd < 32 && rs1 < 32 && rs2 < 32 {
            lemma_regs_mul(rd, rs1, rs2, pc, labels);
            lemma_shape_rrr(inst, inst_text(inst, pc, labels), name, n, at);
        },
        Instruction::MulH { rd, rs1, rs2 } => if rd < 32 && rs1 < 32 && rs2 < 32 {
            lemma_regs_mulh(rd, rs1, rs2, pc, labels);
            lemma_shape_rrr(inst, inst_text(inst, pc, labels), name, n, at);
        },
        Instruction::Div { rd, rs1, rs2 } => if rd < 32 && rs1 < 32 && rs2 < 32 {
            lemma_regs_div(rd, rs1, rs2, pc, labels);
            lemma_shape_rrr(inst, inst_text(inst, pc, labels), name, n, at);
        },
        Instruction::Rem { rd, rs1, rs2 } => if rd < 32 && rs1 < 32 && rs2 < 32 {
            lemma_regs_rem(rd, rs1, rs2, pc, labels);
            lemma_shape_rrr(inst, inst_text(inst, pc, labels), name, n, at);
        },
        Instruction::And { rd, rs1, rs2 } => if rd < 32 && rs1 < 32 && rs2 < 32 {
            lemma_regs_and(rd, rs1, rs2, pc, labels);
            lemma_shape_rrr(inst, inst_text(inst, pc, labels), name, n, at);
        },
        Instruction::Or { rd, rs1, rs2 } => if rd < 32 && rs1 < 32 && rs2 < 32 {
            lemma_regs_or(rd, rs1, rs2, pc, labels);
            lemma_shape_rrr(inst, inst_text(inst, pc, labels), name, n, at);
        },
        Instruction::Xor { rd, rs1, rs2 } => if rd < 32 && rs1 < 32 && rs2 < 32 {
            lemma_regs_xor(rd, rs1, rs2, pc, labels);
            lemma_shape_rrr(inst, inst_text(inst, pc, labels), name, n, at);
        },
        Instruction::Sll { rd, rs1, rs2 } => if rd < 32 && rs1 < 32 && rs2 < 32 {
            lemma_regs_sll(rd, rs1, rs2, pc, labels);
            lemma_shape_rrr(inst, inst_text(inst, pc, labels), name, n, at);
        },
        Instruction::Srl { rd, rs1, rs2 } => if rd < 32 && rs1 < 32 && rs2 < 32 {
            lemma_regs_srl(rd, rs1, rs2, pc, labels);
            lemma_shape_rrr(inst, inst_text(inst, pc, labels), name, n, at);
        },
        Instruction::Sra { rd, rs1, rs2 } => if rd < 32 && rs1 < 32 && rs2 < 32 {
            lemma_regs_sra(rd, rs1, rs2, pc, labels);
            lemma_shape_rrr(inst, inst_text(inst, pc, labels), name, n, at);
        },
        Instruction::Slt { rd, rs1, rs2 } => if rd < 32 && rs1 < 32 && rs2 < 32 {
            lemma_regs_slt(rd, rs1, rs2, pc, labels);
            lemma_shape_rrr(inst, inst_text(inst, pc, labels), name, n, at);
        },
        Instruction::Sltu { rd, rs1, rs2 } => if rd < 32 && rs1 < 32 && rs2 < 32 {
            lemma_regs_sltu(rd, rs1, rs2, pc, labels);
            lemma_shape_rrr(inst, inst_text(inst, pc, labels), name, n, at);
        },
        Instruction::VAnd { rd, rs1, rs2 } => if rd < 32 && rs1 < 32 && rs2 < 32 {
            lemma_regs_vand(rd, rs1, rs2, pc, labels);
            lemma_shape_rrr(inst, inst_text(inst, pc, labels), name, n, at);
        },
        Instruction::VOr { rd, rs1, rs2 } => if rd < 32 && rs1 < 32 && rs2 < 32 {
            lemma_regs_vor(rd, rs1, rs2, pc, labels);
            lemma_shape_rrr(inst, inst_text(inst, pc, labels), name, n, at);
        },
        Instruction::VXor { rd, rs1, rs2 } => if rd < 32 && rs1 < 32 && rs2 < 32 {
            lemma_regs_vxor(rd, rs1, rs2, pc, labels);
            lemma_shape_rrr(inst, inst_text(inst, pc, labels), name, n, at);
        },
        Instruction::Zipper { rd, rs1, rs2 } => if rd < 32 && rs1 < 32 && rs2 < 32 {
            lemma_regs_zipper(rd, rs1, rs2, pc, labels);
            lemma_shape_rrr(inst, inst_text(inst, pc, labels), name, n, at);
        },
        Instruction::Zipper2 { rd, rs1, rs2 } => if rd < 32 && rs1 < 32 && rs2 < 32 {
            lemma_regs_zipper2(rd, rs1, rs2, pc, labels);
            lemma_shape_rrr(inst, inst_text(inst, pc, labels), name, n, at);
        },
        Instruction::CAdd { rd, rs1, rs2 } => if rd < 32 && rs1 < 32 && rs2 < 32 {
            lemma_regs_cadd(rd, rs1, rs2, pc, labels);
            lemma_shape_rrr(inst, inst_text(inst, pc, labels), name, n, at);
        },
        Instruction::CSub { rd, rs1, rs2 } => if rd < 32 && rs1 < 32 && rs2 < 32 {
            lemma_regs_csub(rd, rs1, rs2, pc, labels);
            lemma_shape_rrr(inst, inst_text(inst, pc, labels), name, n, at);
        },
        Instruction::CMul { rd, rs1, rs2 } => if rd < 32 && rs1 < 32 && rs2 < 32 {
            lemma_regs_cmul(rd, rs1, rs2, pc, labels);
            lemma_shape_rrr(inst, inst_text(inst, pc, labels), name, n, at);
        },
        Instruction::Hamming { rd, rs1, rs2 } => if rd < 32 && rs1 < 32 && rs2 < 32 {
            lemma_regs_hamming(rd, rs1, rs2, pc, labels);
            lemma_shape_rrr(inst, inst_text(inst, pc, labels), name, n, at);
        },
        Instruction::PolyMul { rd, rs1, rs2 } => if rd < 32 && rs1 < 32 && rs2 < 32 {
            lemma_regs_polymul(rd, rs1, rs2, pc, labels);
            lemma_shape_rrr(inst, inst_text(inst, pc, labels), name, n, at);
        },
        Instruction::PolyAdd { rd, rs1, rs2 } => if rd < 32 && rs1 < 32 && rs2 < 32 {
            lemma_regs_polyadd(rd, rs1, rs2, pc, labels);
            lemma_shape_rrr(inst, inst_text(inst, pc, labels), name, n, at);
        },
        Instruction::TMul { rd, rs1, rs2 } => if rd < 32 && rs1 < 32 && rs2 < 32 {
            lemma_regs_tmul(rd, rs1, rs2, pc, labels);
            lemma_shape_rrr(inst, inst_text(inst, pc, labels), name, n, at);
        },
        Instruction::TDot { rd, rs1, rs2 } => if rd < 32 && rs1 < 32 && rs2 < 32 {
            lemma_regs_tdot(rd, rs1, rs2, pc, labels);
            lemma_shape_rrr(inst, inst_text(inst, pc, labels), name, n, at);
        },
        Instruction::VAdd { rd, rs1, rs2, width } => if rd < 32 && rs1 < 32 && rs2 < 32 {
            lemma_regs_vadd(rd, rs1, rs2, width, pc, labels);
            lemma_shape_rrr(inst, inst_text(inst, pc, labels), name, n, at);
        },
        Instruction::VSub { rd, rs1, rs2, width } => if rd < 32 && rs1 < 32 && rs2 < 32 {
            lemma_regs_vsub(rd, rs1, rs2, width, pc, labels);
            lemma_shape_rrr(inst, inst_text(inst, pc, labels), name, n, at);
        },
        Instruction::VMul { rd, rs1, rs2, width } => if rd < 32 && rs1 < 32 && rs2 < 32 {
            lemma_regs_vmul(rd, rs1, rs2, width, pc, labels);
            lemma_shape_rrr(inst, inst_text(inst, pc, labels), name, n, at);
        },
        Instruction::VDot { rd, rs1, rs2, width } => if rd < 32 && rs1 < 32 && rs2 < 32 {
            lemma_regs_vdot(rd, rs1, rs2, width, pc, labels);
            lemma_shape_rrr(inst, inst_text(inst, pc, labels), name, n, at);
        },
        Instruction::Addi { rd, rs1, imm } => if rd < 32 && rs1 < 32 {
            lemma_regs_addi(rd, rs1, imm, pc, labels);
            lemma_shape_rri(inst, inst_text(inst, pc, labels), name, n, at);
        },
        Instruction::Andi { rd, rs1, imm } => if rd < 32 && rs1 < 32 {
            lemma_regs_andi(rd, rs1, imm, pc, labels);
            lemma_shape_rri(inst, inst_text(inst, pc, labels), name, n, at);
        },
        Instruction::Ori { rd, rs1, imm } => if rd < 32 && rs1 < 32 {
            lemma_regs_ori(rd, rs1, imm, pc, labels);
            lemma_shape_rri(inst, inst_text(inst, pc, labels), name, n, at);
        },
        Instruction::Xori { rd, rs1, imm } => if rd < 32 && rs1 < 32 {
            lemma_regs_xori(rd, rs1, imm, pc, labels);
            lemma_shape_rri(inst, inst_text(inst, pc, labels), name, n, at);
        },
        Instruction::Slli { rd, rs1, imm } => if rd < 32 && rs1 < 32 {
            lemma_regs_slli(rd, rs1, imm, pc, labels);
            lemma_shape_rri(inst, inst_text(inst, pc, labels), name, n, at);
        },
        Instruction::Srli { rd, rs1, imm } => if rd < 32 && rs1 < 32 {
            lemma_regs_srli(rd, rs1, imm, pc, labels);
            lemma_shape_rri(inst, inst_text(inst, pc, labels), name, n, at);
        },
        Instruction::Srai { rd, rs1, imm } => if rd < 32 && rs1 < 32 {
            lemma_regs_srai(rd, rs1, imm, pc, labels);
            lemma_shape_rri(inst, inst_text(inst, pc, labels), name, n, at);
        },
        Instruction::Slti { rd, rs1, imm } => if rd < 32 && rs1 < 32 {
            lemma_regs_slti(rd, rs1, imm, pc, labels);
            lemma_shape_rri(inst, inst_text(inst, pc, labels), name, n, at);
        },
        Instruction::Sltiu { rd, rs1, imm } => if rd < 32 && rs1 < 32 {
            lemma_regs_sltiu(rd, rs1, imm, pc, labels);
            lemma_shape_rri(inst, inst_text(inst, pc, labels), name, n, at);
        },
        Instruction::VNot { rd, rs1 } => if rd < 32 && rs1 < 32 {
            lemma_regs_vnot(rd, rs1, pc, labels);
            lemma_shape_rr(inst, inst_text(inst, pc, labels), name, n, at);
        },
        Instruction::CConj { rd, rs1 } => if rd < 32 && rs1 < 32 {
            lemma_regs_cconj(rd, rs1, pc, labels);
            lemma_shape_rr(inst, inst_text(inst, pc, labels), name, n, at);
        },
        Instruction::CNorm { rd, rs1 } => if rd < 32 && rs1 < 32 {
            lemma_regs_cnorm(rd, rs1, pc, labels);
            lemma_shape_rr(inst, inst_text(inst, pc, labels), name, n, at);
        },
        Instruction::CMag { rd, rs1 } => if rd < 32 && rs1 < 32 {
            lemma_regs_cmag(rd, rs1, pc, labels);
            lemma_shape_rr(inst, inst_text(inst, pc, labels), name, n, at);
        },
        Instruction::Entropy { rd, rs1 } => if rd < 32 && rs1 < 32 {
            lemma_regs_entropy(rd, rs1, pc, labels);
            lemma_shape_rr(inst, inst_text(inst, pc, labels), name, n, at);
        },
        Instruction::PopCnt { rd, rs1 } => if rd < 32 && rs1 < 32 {
            lemma_regs_popcnt(rd, rs1, pc, labels);
            lemma_shape_rr(inst, inst_text(inst, pc, labels), name, n, at);
        },
        Instruction::Ntt { rd, rs1 } => if rd < 32 && rs1 < 32 {
            lemma_regs_ntt(rd, rs1, pc, labels);
            lemma_shape_rr(inst, inst_text(inst, pc, labels), name, n, at);
        },
        Instruction::InvNtt { rd, rs1 } => if rd < 32 && rs1 < 32 {
            lemma_regs_invntt(rd, rs1, pc, labels);
            lemma_shape_rr(inst, inst_text(inst, pc, labels), name, n, at);
        },
        Instruction::TSoftmax { rd, rs1 } => if rd < 32 && rs1 < 32 {
            lemma_regs_tsoftmax(rd, rs1, pc, labels);
            lemma_shape_rr(inst, inst_text(inst, pc, labels), name, n, at);
        },
        Instruction::Mv { rd, rs1 } => if rd < 32 && rs1 < 32 {
            lemma_regs_mv(rd, rs1, pc, labels);
            lemma_shape_rr(inst, inst_text(inst, pc, labels), name, n, at);
        },
        Instruction::VSplat { rd, rs1, width } => if rd < 32 && rs1 < 32 {
            lemma_regs_vsplat(rd, rs1, width, pc, labels);
            lemma_shape_rr(inst, inst_text(inst, pc, labels), name, n, at);
        },
        Instruction::Ld { rd, rs1, offset } => if rd < 32 && rs1 < 32 {
            lemma_reads_ld(rd, rs1, offset, pc, labels);
            lemma_shape_load(inst, inst_text(inst, pc, labels), name, n, at);
        },
        Instruction::Lw { rd, rs1, offset } => if rd < 32 && rs1 < 32 {
            lemma_reads_lw(rd, rs1, offset, pc, labels);
            lemma_shape_load(inst, inst_text(inst, pc, labels), name, n, at);
        },
        Instruction::Lh { rd, rs1, offset } => if rd < 32 && rs1 < 32 {
            lemma_reads_lh(rd, rs1, offset, pc, labels);
            lemma_shape_load(inst, inst_text(inst, pc, labels), name, n, at);
        },
        Instruction::Lb { rd, rs1, offset } => if rd < 32 && rs1 < 32 {
            lemma_reads_lb(rd, rs1, offset, pc, labels);
            lemma_shape_load(inst, inst_text(inst, pc, labels), name, n, at);
        },
        Instruction::Lbu { rd, rs1, offset } => if rd < 32 && rs1 < 32 {
            lemma_reads_lbu(rd, rs1, offset, pc, labels);
            lemma_shape_load(inst, inst_text(inst, pc, labels), name, n, at);
        },
        Instruction::Lq { rd, rs1, offset } => if rd < 32 && rs1 < 32 {
            lemma_reads_lq(rd, rs1, offset, pc, labels);
            lemma_shape_load(inst, inst_text(inst, pc, labels), name, n, at);
        },
        Instruction::Sd { rs1, rs2, offset } => if rs1 < 32 && rs2 < 32 {
            lemma_reads_sd(rs1, rs2, offset, pc, labels);
            lemma_shape_store(inst, inst_text(inst, pc, labels), name, n, at);
        },
        Instruction::Sw { rs1, rs2, offset } => if rs1 < 32 && rs2 < 32 {
            lemma_reads_sw(rs1, rs2, offset, pc, labels);
            lemma_shape_store(inst, inst_text(inst, pc, labels), name, n, at);
        },
        Instruction::Sh { rs1, rs2, offset } => if rs1 < 32 && rs2 < 32 {
            lemma_reads_sh(rs1, rs2, offset, pc, labels);
            lemma_shape_store(inst, inst_text(inst, pc, labels), name, n, at);
        },
        Instruction::Sb { rs1, rs2, offset } => if rs1 < 32 && rs2 < 32 {
            lemma_reads_sb(rs1, rs2, offset, pc, labels);
            lemma_shape_store(inst, inst_text(inst, pc, labels), name, n, at);
        },
        Instruction::Sq { rs1, rs2, offset } => if rs1 < 32 && rs2 < 32 {
            lemma_reads_sq(rs1, rs2, offset, pc, labels);
            lemma_shape_store(inst, inst_text(inst, pc, labels), name, n, at);
        },
        _ => {},
    }
}

} // verus!
