//! The two-pass assembler. Pass 1 walks the source to record every label
//! (code labels at their instruction index, data labels at their data
//! address) and to lay out the data section; pass 2 turns each instruction
//! line into an `Instruction`, resolving labels.
//!
//! Source lines are split at `\n`; a line is trimmed and cut at the first
//! `;` and then at the first `//`. Names compare exactly, mnemonics,
//! register names, CSR names and activation names without regard to case.
use vstd::prelude::*;
use crate::isa::{ActivationFn, Instruction, REG_RA, REG_ZERO, reg_of, register_of_chars};
use crate::isa::csr;
use crate::binary::{decode_fields, decode_from_fields, segs_view, width_code_spec, act_code_spec};
use crate::binary::op;
use crate::lex::{
    trim, trim_chars, find, rfind, find_pair, find_ws, split, views, eq_fold, parse_int,
    int_err_msg, IntErr, slice_chars, find_char, rfind_char, find_pair_chars, find_ws_chars,
    split_chars, eq_fold_str, eq_str, eq_chars, parse_int_chars, push_chars, string_of, chars_of,
};
use crate::text::{dec_chars, push_dec, push_char};

pub mod table;
use crate::memory::{le_encode, encode_le};

verus! {

// ─── Symbol table ───────────────────────────────────────────────────────────

/// A symbol table: each name at most once, in order of first definition.
pub type Symbols = Seq<(Seq<char>, u64)>;

/// The position of `name` in `t`, if it is there.
pub open spec fn sym_find(t: Symbols, name: Seq<char>) -> Option<int>
    decreases t.len(),
{
    if t.len() == 0 {
        None
    } else if t[0].0 == name {
        Some(0)
    } else {
        match sym_find(t.drop_first(), name) {
            Some(i) => Some(i + 1),
            None => None,
        }
    }
}

/// The value of `name` in `t`.
pub open spec fn sym_get(t: Symbols, name: Seq<char>) -> Option<u64> {
    match sym_find(t, name) {
        Some(i) => Some(t[i].1),
        None => None,
    }
}

/// `t` with `name` bound to `v`: a new name goes at the end, a known one
/// keeps its place and takes the new value.
pub open spec fn sym_insert(t: Symbols, name: Seq<char>, v: u64) -> Symbols {
    match sym_find(t, name) {
        Some(i) => t.update(i, (name, v)),
        None => t.push((name, v)),
    }
}

/// The symbol table held by a vector of names and values.
pub open spec fn syms_view(v: Seq<(Vec<char>, u64)>) -> Symbols {
    v.map_values(|p: (Vec<char>, u64)| (p.0@, p.1))
}

proof fn lemma_sym_find_bounds(t: Symbols, name: Seq<char>)
    ensures
        sym_find(t, name) matches Some(i) ==> 0 <= i < t.len() && t[i].0 == name,
        sym_find(t, name) is None ==> forall|k: int| 0 <= k < t.len() ==> t[k].0 != name,
    decreases t.len(),
{
    if t.len() > 0 && t[0].0 != name {
        lemma_sym_find_bounds(t.drop_first(), name);
        if sym_find(t, name) is None {
            assert forall|k: int| 0 <= k < t.len() implies t[k].0 != name by {
                if k > 0 {
                    assert(t[k] == t.drop_first()[k - 1]);
                }
            }
        }
    }
}

/// Where `name` is in the table.
fn sym_lookup(syms: &Vec<(Vec<char>, u64)>, name: &[char]) -> (r: Option<usize>)
    ensures
        match sym_find(syms_view(syms@), name@) {
            Some(i) => r matches Some(j) && j == i && 0 <= i < syms@.len(),
            None => r is None,
        },
{
    let ghost t = syms_view(syms@);
    proof {
        lemma_sym_find_bounds(t, name@);
    }
    let n = syms.len();
    let mut i: usize = 0;
    assert(t.subrange(0, n as int) =~= t);
    while i < n
        invariant
            i <= n == syms@.len() == t.len(),
            t == syms_view(syms@),
            sym_find(t, name@) == match sym_find(t.subrange(i as int, n as int), name@) {
                Some(k) => Some(k + i),
                None => None::<int>,
            },
        decreases n - i,
    {
        assert(t.subrange(i as int, n as int).drop_first() =~= t.subrange(i + 1, n as int));
        assert(t.subrange(i as int, n as int)[0] == t[i as int]);
        if eq_chars(syms[i].0.as_slice(), name) {
            return Some(i);
        }
        i = i + 1;
    }
    assert(t.subrange(n as int, n as int).len() == 0);
    None
}

/// The value of `name` in the table.
fn sym_value(syms: &Vec<(Vec<char>, u64)>, name: &[char]) -> (r: Option<u64>)
    ensures
        r == sym_get(syms_view(syms@), name@),
{
    proof {
        lemma_sym_find_bounds(syms_view(syms@), name@);
    }
    match sym_lookup(syms, name) {
        Some(i) => {
            assert(syms_view(syms@)[i as int] == (syms@[i as int].0@, syms@[i as int].1));
            Some(syms[i].1)
        },
        None => None,
    }
}

/// Binds `name` to `v`.
fn sym_set(syms: &mut Vec<(Vec<char>, u64)>, name: Vec<char>, v: u64)
    ensures
        syms_view(final(syms)@) == sym_insert(syms_view(old(syms)@), name@, v),
{
    proof {
        lemma_sym_find_bounds(syms_view(syms@), name@);
    }
    match sym_lookup(syms, name.as_slice()) {
        Some(i) => {
            let ghost before = syms@;
            syms.set(i, (name, v));
            assert(syms_view(syms@) =~= syms_view(before).update(i as int, (name@, v)));
        },
        None => {
            let ghost before = syms@;
            let ghost nv = name@;
            syms.push((name, v));
            assert(syms_view(syms@) =~= syms_view(before).push((nv, v)));
        },
    }
}

// ─── Messages ───────────────────────────────────────────────────────────────

/// `line <n>: `
pub open spec fn at_line(n: nat) -> Seq<char> {
    "line "@ + dec_chars(n) + ": "@
}

/// `r` with the line prefix put before its error.
pub open spec fn lined<T>(n: nat, r: Result<T, Seq<char>>) -> Result<T, Seq<char>> {
    match r {
        Ok(v) => Ok(v),
        Err(m) => Err(at_line(n) + m),
    }
}

fn lined_x<T>(n: usize, r: Result<T, String>) -> (o: Result<T, String>)
    ensures
        match r {
            Ok(v) => o == Ok::<T, String>(v),
            Err(e) => o matches Err(f) && f@ == at_line(n as nat) + e@,
        },
{
    match r {
        Ok(v) => Ok(v),
        Err(e) => {
            let mut f = String::new();
            push_at_line(&mut f, n);
            f.append(e.as_str());
            Err(f)
        },
    }
}

fn push_at_line(e: &mut String, n: usize)
    ensures
        final(e)@ == old(e)@ + at_line(n as nat),
{
    e.append("line ");
    push_dec(e, n as u64);
    e.append(": ");
}

fn int_err_str(e: IntErr) -> (r: &'static str)
    ensures
        r@ == int_err_msg(e),
{
    match e {
        IntErr::Empty => "cannot parse integer from empty string",
        IntErr::InvalidDigit => "invalid digit found in string",
        IntErr::PosOverflow => "number too large to fit in target type",
        IntErr::NegOverflow => "number too small to fit in target type",
    }
}

// ─── Immediates ─────────────────────────────────────────────────────────────

/// `s` begins with the two characters `a b`.
pub open spec fn starts2(s: Seq<char>, a: char, b: char) -> bool {
    s.len() >= 2 && s[0] == a && s[1] == b
}

/// The value of an immediate operand: the address of a known label, a
/// hexadecimal number (`0x`, any 64-bit pattern, read as unsigned and kept
/// as its bits), a binary number (`0b`, signed), a quoted character
/// (`'c'`, its code point), or a signed decimal number.
pub open spec fn imm_value(text: Seq<char>, syms: Symbols) -> Result<i64, Seq<char>> {
    let t = trim(text);
    match sym_get(syms, t) {
        Some(v) => Ok(v as i64),
        None => if starts2(t, '0', 'x') || starts2(t, '0', 'X') {
            match parse_int(t.skip(2), 16, 0, 0xffff_ffff_ffff_ffff) {
                Ok(v) => Ok((v as u64) as i64),
                Err(e) => Err("invalid hex number '"@ + t + "': "@ + int_err_msg(e)),
            }
        } else if starts2(t, '0', 'b') || starts2(t, '0', 'B') {
            match parse_int(t.skip(2), 2, i64::MIN as int, i64::MAX as int) {
                Ok(v) => Ok(v as i64),
                Err(e) => Err("invalid binary number '"@ + t + "': "@ + int_err_msg(e)),
            }
        } else if t.len() >= 3 && t[0] == '\'' && t.last() == '\'' {
            Ok((t[1] as u32) as i64)
        } else {
            match parse_int(t, 10, i64::MIN as int, i64::MAX as int) {
                Ok(v) => Ok(v as i64),
                Err(e) => Err("cannot parse immediate '"@ + t + "': "@ + int_err_msg(e)),
            }
        },
    }
}

fn starts2_chars(s: &[char], a: char, b: char) -> (r: bool)
    ensures
        r == starts2(s@, a, b),
{
    s.len() >= 2 && s[0] == a && s[1] == b
}

/// Builds `<what> '<t>': <why>`.
fn quoted_err(what: &str, t: &[char], why: IntErr) -> (e: String)
    ensures
        e@ == what@ + t@ + "': "@ + int_err_msg(why),
{
    let mut e = String::from_str(what);
    push_chars(&mut e, t);
    e.append("': ");
    e.append(int_err_str(why));
    e
}

/// Reads an immediate operand.
fn parse_immediate(text: &[char], syms: &Vec<(Vec<char>, u64)>) -> (r: Result<i64, String>)
    ensures
        match imm_value(text@, syms_view(syms@)) {
            Ok(v) => r == Ok::<i64, String>(v),
            Err(m) => r matches Err(e) && e@ == m,
        },
{
    let t = trim_chars(text);
    if let Some(v) = sym_value(syms, t.as_slice()) {
        return Ok(v as i64);
    }
    if starts2_chars(t.as_slice(), '0', 'x') || starts2_chars(t.as_slice(), '0', 'X') {
        let digits = slice_chars(t.as_slice(), 2, t.len());
        assert(digits@ =~= t@.skip(2));
        return match parse_int_chars(digits.as_slice(), 16, 0, 0xffff_ffff_ffff_ffff) {
            Ok(v) => Ok((v as u64) as i64),
            Err(e) => Err(quoted_err("invalid hex number '", t.as_slice(), e)),
        };
    }
    if starts2_chars(t.as_slice(), '0', 'b') || starts2_chars(t.as_slice(), '0', 'B') {
        let digits = slice_chars(t.as_slice(), 2, t.len());
        assert(digits@ =~= t@.skip(2));
        return match parse_int_chars(digits.as_slice(), 2, i64::MIN as i128, i64::MAX as i128) {
            Ok(v) => Ok(v as i64),
            Err(e) => Err(quoted_err("invalid binary number '", t.as_slice(), e)),
        };
    }
    let n = t.len();
    if n >= 3 && t[0] == '\'' && t[n - 1] == '\'' {
        return Ok((t[1] as u32) as i64);
    }
    match parse_int_chars(t.as_slice(), 10, i64::MIN as i128, i64::MAX as i128) {
        Ok(v) => Ok(v as i64),
        Err(e) => Err(quoted_err("cannot parse immediate '", t.as_slice(), e)),
    }
}


// ─── Lines ──────────────────────────────────────────────────────────────────

/// A source line made ready: trimmed, cut at the first `;`, then at the
/// first `//`, trimming again after each cut.
pub open spec fn clean_line(raw: Seq<char>) -> Seq<char> {
    let t = trim(raw);
    let t2 = match find(t, ';') {
        Some(p) => trim(t.take(p)),
        None => t,
    };
    match find_pair(t2, '/', '/') {
        Some(p) => trim(t2.take(p)),
        None => t2,
    }
}

/// `s` up to its first whitespace.
pub open spec fn head(s: Seq<char>) -> Seq<char> {
    match find_ws(s) {
        Some(p) => s.take(p),
        None => s,
    }
}

/// What follows the first whitespace of `s`, trimmed (empty when there is
/// no whitespace).
pub open spec fn rest_after_head(s: Seq<char>) -> Seq<char> {
    match find_ws(s) {
        Some(p) => trim(s.skip(p + 1)),
        None => Seq::empty(),
    }
}

/// The label of a line, if it has a `:`, and the text after it.
pub open spec fn split_label(line: Seq<char>) -> (Option<Seq<char>>, Seq<char>) {
    match find(line, ':') {
        Some(p) => (Some(trim(line.take(p))), trim(line.skip(p + 1))),
        None => (None, line),
    }
}

fn clean_line_chars(raw: &[char]) -> (r: Vec<char>)
    ensures
        r@ == clean_line(raw@),
{
    let t = trim_chars(raw);
    let ghost ts = trim(raw@);
    let ghost t2s = match find(ts, ';') {
        Some(p) => trim(ts.take(p)),
        None => ts,
    };
    let t2 = match find_char(t.as_slice(), ';') {
        Some(p) => {
            let cut = slice_chars(t.as_slice(), 0, p);
            assert(cut@ =~= t@.take(p as int));
            trim_chars(cut.as_slice())
        },
        None => t,
    };
    assert(t2@ == t2s);
    proof {
        lemma_find_pair_bounds(t2@);
    }
    match find_pair_chars(t2.as_slice(), '/', '/') {
        Some(p) => {
            let cut = slice_chars(t2.as_slice(), 0, p);
            assert(cut@ =~= t2@.take(p as int));
            trim_chars(cut.as_slice())
        },
        None => t2,
    }
}

proof fn lemma_find_pair_bounds(s: Seq<char>)
    ensures
        find_pair(s, '/', '/') matches Some(p) ==> 0 <= p && p + 1 < s.len(),
    decreases s.len(),
{
    if s.len() >= 2 && !(s[0] == '/' && s[1] == '/') {
        lemma_find_pair_bounds(s.drop_first());
    }
}

proof fn lemma_find_ws_bounds(s: Seq<char>)
    ensures
        find_ws(s) matches Some(p) ==> 0 <= p < s.len(),
    decreases s.len(),
{
    if s.len() > 0 && !crate::lex::is_ws(s[0]) {
        lemma_find_ws_bounds(s.drop_first());
    }
}

/// `s` up to its first whitespace, and what follows that whitespace.
fn head_and_rest(s: &[char]) -> (r: (Vec<char>, Vec<char>))
    ensures
        r.0@ == head(s@),
        r.1@ == rest_after_head(s@),
{
    proof {
        lemma_find_ws_bounds(s@);
    }
    let n = s.len();
    match find_ws_chars(s) {
        Some(p) => {
            let h = slice_chars(s, 0, p);
            let t = slice_chars(s, p + 1, n);
            assert(h@ =~= s@.take(p as int));
            assert(t@ =~= s@.skip(p + 1));
            (h, trim_chars(t.as_slice()))
        },
        None => {
            let h = slice_chars(s, 0, s.len());
            assert(h@ =~= s@);
            (h, Vec::new())
        },
    }
}

/// The label of a line and the text after it.
fn split_label_chars(line: &[char]) -> (r: (Option<Vec<char>>, Vec<char>))
    ensures
        match split_label(line@).0 {
            Some(l) => r.0 matches Some(v) && v@ == l,
            None => r.0 is None,
        },
        r.1@ == split_label(line@).1,
{
    proof {
        crate::lex::lemma_find_bounds(line@, ':');
    }
    let n = line.len();
    match find_char(line, ':') {
        Some(p) => {
            let l = slice_chars(line, 0, p);
            let t = slice_chars(line, p + 1, n);
            assert(l@ =~= line@.take(p as int));
            assert(t@ =~= line@.skip(p + 1));
            (Some(trim_chars(l.as_slice())), trim_chars(t.as_slice()))
        },
        None => {
            let t = slice_chars(line, 0, line.len());
            assert(t@ =~= line@);
            (None, t)
        },
    }
}

// ─── Data section ───────────────────────────────────────────────────────────

/// The last address the data section may reach.
pub const DATA_END: u64 = 0xffff_ffff_ffff_ffff;

/// Where the data section starts.
pub const DATA_START: u64 = 0x10000;

/// The assembler's layout after some lines: whether it is in the text
/// section, the next instruction index, the labels, the data segments and
/// the next data address.
pub struct Layout {
    pub in_text: bool,
    pub code: nat,
    pub syms: Symbols,
    pub segs: Seq<(u64, Seq<u8>)>,
    pub addr: u64,
}

/// The text between the first and the last `"` of `s`, if there are two.
pub open spec fn quoted(s: Seq<char>) -> Option<Seq<char>> {
    match (find(s, '"'), rfind(s, '"')) {
        (Some(a), Some(b)) => if a < b {
            Some(s.subrange(a + 1, b))
        } else {
            None
        },
        _ => None,
    }
}

/// The byte an escape `\c` stands for, when it is one of `\n \r \t \\ \0 \"`.
pub open spec fn escape_byte(c: char) -> Option<u8> {
    if c == 'n' {
        Some(10u8)
    } else if c == 'r' {
        Some(13u8)
    } else if c == 't' {
        Some(9u8)
    } else if c == '\\' {
        Some(92u8)
    } else if c == '0' {
        Some(0u8)
    } else if c == '"' {
        Some(34u8)
    } else {
        None
    }
}

/// The bytes of the escape `\c`.
pub open spec fn escaped(c: char) -> Seq<u8> {
    match escape_byte(c) {
        Some(b) => seq![b],
        None => vstd::utf8::encode_scalar(c as u32),
    }
}

/// The bytes of a string literal's contents: characters in UTF-8, the
/// escapes of `escape_byte`, any other escaped character as itself, and a
/// final lone backslash as a backslash.
pub open spec fn unescape(q: Seq<char>) -> Seq<u8>
    decreases q.len(),
{
    if q.len() == 0 {
        Seq::empty()
    } else if q[0] == '\\' {
        if q.len() == 1 {
            seq![92u8]
        } else {
            escaped(q[1]) + unescape(q.skip(2))
        }
    } else {
        vstd::utf8::encode_scalar(q[0] as u32) + unescape(q.drop_first())
    }
}

/// The values of the comma-separated immediates, or the first error.
pub open spec fn imm_list(items: Seq<Seq<char>>, syms: Symbols) -> Result<Seq<i64>, Seq<char>>
    decreases items.len(),
{
    if items.len() == 0 {
        Ok(Seq::empty())
    } else {
        match imm_value(items[0], syms) {
            Err(m) => Err(m),
            Ok(v) => match imm_list(items.drop_first(), syms) {
                Err(m) => Err(m),
                Ok(vs) => Ok(seq![v].add(vs)),
            },
        }
    }
}

/// The low `k` bytes of each value, little-endian, one after another.
pub open spec fn packed(vs: Seq<i64>, k: nat) -> Seq<u8>
    decreases vs.len(),
{
    if vs.len() == 0 {
        Seq::empty()
    } else {
        crate::memory::le_encode((vs[0] as u64) as nat, k) + packed(vs.drop_first(), k)
    }
}

/// A zero byte when `z`, else nothing.
pub open spec fn terminator(z: bool) -> Seq<u8> {
    if z {
        seq![0u8]
    } else {
        Seq::empty()
    }
}

/// Bytes per item of `.byte`, `.half`, `.word`, `.dword` and `.quad`.
pub open spec fn item_size(d: Seq<char>) -> nat {
    if d == ".byte"@ {
        1
    } else if d == ".half"@ {
        2
    } else if d == ".word"@ {
        4
    } else {
        8
    }
}

/// The data directives that lay out comma-separated integers.
pub open spec fn is_int_dir(d: Seq<char>) -> bool {
    d == ".byte"@ || d == ".half"@ || d == ".word"@ || d == ".dword"@ || d == ".quad"@
}

/// The message of a data section that would reach `DATA_END`.
pub open spec fn data_full_msg(n: nat) -> Seq<char> {
    at_line(n) + "data section overflows the address space"@
}

/// `st` with `bytes` placed at the next data address.
pub open spec fn place(st: Layout, n: nat, bytes: Seq<u8>) -> Result<Layout, Seq<char>> {
    if st.addr + bytes.len() > DATA_END {
        Err(data_full_msg(n))
    } else {
        Ok(Layout { segs: st.segs.push((st.addr, bytes)), addr: (st.addr + bytes.len()) as u64, ..st })
    }
}

/// The effect of the data directive `text` on line `n`.
pub open spec fn data_directive(st: Layout, n: nat, text: Seq<char>) -> Result<Layout, Seq<char>> {
    let d = head(text);
    let args = rest_after_head(text);
    if d == ".ascii"@ || d == ".asciiz"@ {
        match quoted(args) {
            None => Err(at_line(n) + "invalid string literal in "@ + d),
            Some(q) => place(st, n, unescape(q) + terminator(d == ".asciiz"@)),
        }
    } else if is_int_dir(d) {
        match imm_list(split(args, ','), st.syms) {
            Err(m) => Err(at_line(n) + m),
            Ok(vs) => place(st, n, packed(vs, item_size(d))),
        }
    } else if d == ".zero"@ {
        match imm_value(args, st.syms) {
            Err(m) => Err(at_line(n) + m),
            Ok(v) => place(st, n, Seq::new(((v as usize) as u64) as nat, |i: int| 0u8)),
        }
    } else if d == ".align"@ {
        match imm_value(args, st.syms) {
            Err(m) => Err(at_line(n) + m),
            Ok(v) => {
                let a = v as u64;
                if a > 0 && st.addr % a != 0 {
                    if st.addr + (a - st.addr % a) > DATA_END {
                        Err(data_full_msg(n))
                    } else {
                        Ok(Layout { addr: (st.addr + (a - st.addr % a)) as u64, ..st })
                    }
                } else {
                    Ok(st)
                }
            },
        }
    } else {
        Err(at_line(n) + "unknown data directive '"@ + d + "'"@)
    }
}


proof fn lemma_packed_push(vs: Seq<i64>, v: i64, k: nat)
    ensures
        packed(vs.push(v), k) == packed(vs, k) + le_encode((v as u64) as nat, k),
    decreases vs.len(),
{
    if vs.len() == 0 {
        assert(vs.push(v).drop_first() =~= Seq::<i64>::empty());
        assert(packed(Seq::<i64>::empty(), k) == Seq::<u8>::empty());
        assert(packed(vs.push(v), k) =~= le_encode((v as u64) as nat, k));
    } else {
        assert(vs.push(v).drop_first() =~= vs.drop_first().push(v));
        lemma_packed_push(vs.drop_first(), v, k);
        assert(packed(vs.push(v), k) =~= packed(vs, k) + le_encode((v as u64) as nat, k));
    }
}

proof fn lemma_imm_list_step(items: Seq<Seq<char>>, i: int, syms: Symbols)
    requires
        0 <= i < items.len(),
    ensures
        imm_list(items.skip(i), syms) == match imm_value(items[i], syms) {
            Err(m) => Err(m),
            Ok(v) => match imm_list(items.skip(i + 1), syms) {
                Err(m) => Err(m),
                Ok(vs) => Ok(seq![v].add(vs)),
            },
        },
{
    assert(items.skip(i).drop_first() =~= items.skip(i + 1));
    assert(items.skip(i)[0] == items[i]);
}

/// The bytes of a string literal's contents.
fn unescape_chars(q: &[char]) -> (r: Vec<u8>)
    ensures
        r@ == unescape(q@),
{
    let mut out: Vec<u8> = Vec::new();
    let n = q.len();
    let mut i: usize = 0;
    assert(q@.skip(0) =~= q@);
    while i < n
        invariant
            i <= n == q@.len(),
            unescape(q@) == out@ + unescape(q@.skip(i as int)),
        decreases n - i,
    {
        let ghost rest = q@.skip(i as int);
        assert(rest[0] == q@[i as int]);
        if q[i] == '\\' {
            if i + 1 == n {
                out.push(92u8);
                assert(rest.len() == 1);
                assert(q@.skip(n as int) =~= Seq::<char>::empty());
                i = n;
            } else {
                assert(rest[1] == q@[i + 1]);
                assert(rest.skip(2) =~= q@.skip(i + 2));
                let c = q[i + 1];
                if c == 'n' {
                    out.push(10u8);
                } else if c == 'r' {
                    out.push(13u8);
                } else if c == 't' {
                    out.push(9u8);
                } else if c == '\\' {
                    out.push(92u8);
                } else if c == '0' {
                    out.push(0u8);
                } else if c == '"' {
                    out.push(34u8);
                } else {
                    crate::lex::push_utf8(&mut out, c);
                }
                i = i + 2;
            }
        } else {
            assert(rest.drop_first() =~= q@.skip(i + 1));
            crate::lex::push_utf8(&mut out, q[i]);
            i = i + 1;
        }
    }
    assert(q@.skip(n as int) =~= Seq::<char>::empty());
    out
}

/// The text between the first and the last `"` of `s`.
fn quoted_chars(s: &[char]) -> (r: Option<Vec<char>>)
    ensures
        match quoted(s@) {
            Some(q) => r matches Some(v) && v@ == q,
            None => r is None,
        },
{
    match (find_char(s, '"'), rfind_char(s, '"')) {
        (Some(a), Some(b)) => {
            if a < b {
                proof {
                    lemma_rfind_bounds(s@, '"');
                }
                Some(slice_chars(s, a + 1, b))
            } else {
                None
            }
        },
        _ => None,
    }
}

proof fn lemma_rfind_bounds(s: Seq<char>, c: char)
    ensures
        rfind(s, c) matches Some(i) ==> 0 <= i < s.len(),
    decreases s.len(),
{
    if s.len() > 0 && s.last() != c {
        lemma_rfind_bounds(s.drop_last(), c);
    }
}

/// The assembler. Labels and the data section persist across calls of
/// `assemble`.
pub struct Assembler {
    symbols: Vec<(Vec<char>, u64)>,
    data_bytes: Vec<(u64, Vec<u8>)>,
    current_data_addr: u64,
}

impl Assembler {
    /// The labels known so far.
    pub closed spec fn syms(&self) -> Symbols {
        syms_view(self.symbols@)
    }

    /// The data segments laid out so far.
    pub closed spec fn segs(&self) -> Seq<(u64, Seq<u8>)> {
        segs_view(self.data_bytes@)
    }

    /// The next data address.
    pub closed spec fn addr(&self) -> u64 {
        self.current_data_addr
    }

    /// The layout the assembler holds, in the given section at the given
    /// instruction index.
    pub open spec fn layout(&self, in_text: bool, code: nat) -> Layout {
        Layout { in_text, code, syms: self.syms(), segs: self.segs(), addr: self.addr() }
    }

    /// An assembler with no labels and an empty data section at
    /// `DATA_START`.
    pub fn new() -> (a: Assembler)
        ensures
            a.syms() == Seq::<(Seq<char>, u64)>::empty(),
            a.segs() == Seq::<(u64, Seq<u8>)>::empty(),
            a.addr() == DATA_START,
    {
        let a = Assembler { symbols: Vec::new(), data_bytes: Vec::new(), current_data_addr: DATA_START };
        assert(a.syms() =~= Seq::<(Seq<char>, u64)>::empty());
        assert(a.segs() =~= Seq::<(u64, Seq<u8>)>::empty());
        a
    }

    /// Places `bytes` at the next data address.
    fn place_bytes(&mut self, n: usize, bytes: Vec<u8>) -> (r: Result<(), String>)
        ensures
            match place(old(self).layout(true, 0), n as nat, bytes@) {
                Ok(l) => r is Ok && final(self).syms() == l.syms && final(self).segs() == l.segs
                    && final(self).addr() == l.addr,
                Err(m) => r matches Err(e) && e@ == m && *final(self) == *old(self),
            },
    {
        let len = bytes.len();
        if (self.current_data_addr as u128) + (len as u128) > DATA_END as u128 {
            let mut e = String::new();
            push_at_line(&mut e, n);
            e.append("data section overflows the address space");
            return Err(e);
        }
        let addr = self.current_data_addr;
        let ghost before = self.data_bytes@;
        let ghost bv = bytes@;
        self.data_bytes.push((addr, bytes));
        self.current_data_addr = addr + len as u64;
        assert(segs_view(self.data_bytes@) =~= segs_view(before).push((addr, bv)));
        Ok(())
    }

    /// Applies the data directive `text` of line `n`.
    fn process_data_directive(&mut self, n: usize, text: &[char]) -> (r: Result<(), String>)
        ensures
            match data_directive(old(self).layout(true, 0), n as nat, text@) {
                Ok(l) => r is Ok && final(self).syms() == l.syms && final(self).segs() == l.segs
                    && final(self).addr() == l.addr,
                Err(m) => r matches Err(e) && e@ == m && *final(self) == *old(self),
            },
    {
        let (d, args) = head_and_rest(text);
        let ds = d.as_slice();
        let is_ascii = eq_str(ds, ".ascii");
        let is_asciiz = eq_str(ds, ".asciiz");
        if is_ascii || is_asciiz {
            match quoted_chars(args.as_slice()) {
                None => {
                    let mut e = String::new();
                    push_at_line(&mut e, n);
                    e.append("invalid string literal in ");
                    push_chars(&mut e, ds);
                    Err(e)
                },
                Some(q) => {
                    let mut bytes = unescape_chars(q.as_slice());
                    if is_asciiz {
                        bytes.push(0u8);
                    }
                    assert(bytes@ =~= unescape(q@) + terminator(d@ == ".asciiz"@));
                    self.place_bytes(n, bytes)
                },
            }
        } else if eq_str(ds, ".byte") || eq_str(ds, ".half") || eq_str(ds, ".word") || eq_str(ds, ".dword")
            || eq_str(ds, ".quad") {
            let k: usize = if eq_str(ds, ".byte") {
                1
            } else if eq_str(ds, ".half") {
                2
            } else if eq_str(ds, ".word") {
                4
            } else {
                8
            };
            assert(k as nat == item_size(d@));
            let items = split_chars(args.as_slice(), ',');
            let ghost its = split(args@, ',');
            let mut bytes: Vec<u8> = Vec::new();
            let ghost mut done: Seq<i64> = Seq::empty();
            let mut i: usize = 0;
            assert(its.skip(0) =~= its);
            assert(its.len() == items@.len());
            while i < items.len()
                invariant
                    *self == *old(self),
                    d@ == head(text@),
                    args@ == rest_after_head(text@),
                    k as nat == item_size(d@),
                    is_int_dir(d@),
                    d@ != ".ascii"@ && d@ != ".asciiz"@,
                    i <= items@.len() == its.len(),
                    views(items@) == its,
                    its == split(args@, ','),
                    bytes@ == packed(done, k as nat),
                    imm_list(its, self.syms()) == match imm_list(its.skip(i as int), self.syms()) {
                        Ok(rest) => Ok(done + rest),
                        Err(m) => Err::<Seq<i64>, Seq<char>>(m),
                    },
                decreases items@.len() - i,
            {
                proof {
                    lemma_imm_list_step(its, i as int, self.syms());
                }
                assert(items@[i as int]@ == its[i as int]);
                let v = match lined_x(n, parse_immediate(items[i].as_slice(), &self.symbols)) {
                    Ok(v) => v,
                    Err(e) => {
                        return Err(e);
                    },
                };
                let enc = encode_le(v as u64, k);
                proof {
                    lemma_packed_push(done, v, k as nat);
                    assert(seq![v].add(Seq::<i64>::empty()) =~= seq![v]);
                    assert forall|rest: Seq<i64>| done + seq![v].add(rest) == done.push(v) + rest by {
                        assert(done + seq![v].add(rest) =~= done.push(v) + rest);
                    }
                    done = done.push(v);
                }
                bytes.append(&mut enc.clone());
                i = i + 1;
            }
            assert(its.skip(i as int) =~= Seq::<Seq<char>>::empty());
            assert(done + Seq::<i64>::empty() =~= done);
            self.place_bytes(n, bytes)
        } else if eq_str(ds, ".zero") {
            let v = match lined_x(n, parse_immediate(args.as_slice(), &self.symbols)) {
                Ok(v) => v,
                Err(e) => {
                    return Err(e);
                },
            };
            let count = v as usize;
            if (self.current_data_addr as u128) + (count as u128) > DATA_END as u128 {
                let mut e = String::new();
                push_at_line(&mut e, n);
                e.append("data section overflows the address space");
                return Err(e);
            }
            let bytes = vec![0u8; count];
            assert(bytes@ =~= Seq::new(((v as usize) as u64) as nat, |i: int| 0u8));
            self.place_bytes(n, bytes)
        } else if eq_str(ds, ".align") {
            let v = match lined_x(n, parse_immediate(args.as_slice(), &self.symbols)) {
                Ok(v) => v,
                Err(e) => {
                    return Err(e);
                },
            };
            let a = v as u64;
            if a > 0 && self.current_data_addr % a != 0 {
                let pad = a - self.current_data_addr % a;
                if (self.current_data_addr as u128) + (pad as u128) > DATA_END as u128 {
                    let mut e = String::new();
                    push_at_line(&mut e, n);
                    e.append("data section overflows the address space");
                    return Err(e);
                }
                self.current_data_addr = self.current_data_addr + pad;
            }
            Ok(())
        } else {
            let mut e = String::new();
            push_at_line(&mut e, n);
            e.append("unknown data directive '");
            push_chars(&mut e, ds);
            e.append("'");
            Err(e)
        }
    }
}


// ─── Instructions ───────────────────────────────────────────────────────────

/// The operands a mnemonic takes.
#[derive(Clone, Copy, Debug, PartialEq, Eq, Structural)]
pub enum Shape {
    /// `rd, rs1, rs2`
    Rrr,
    /// `rd, rs1`
    Rr,
    /// `rd`
    R,
    /// `rd, rs1, imm`
    Rri,
    /// `rd, imm`
    Ri,
    /// `rd, offset(rs1)`
    Load,
    /// `rs2, offset(rs1)`
    Store,
    /// `rs1, rs2, target`
    Branch,
    /// `rd, target`, or `target` alone for a call through `ra`
    Jal,
    /// `rd, rs1, function`
    Act,
    /// `rd, label`: the label's address as an immediate load
    La,
    /// `target`: a jump writing the link to the given register
    Jump(u8),
    /// nothing: a return through `ra`
    Ret,
    /// nothing
    Bare,
    /// `rd, csr`
    CsrRead,
    /// `csr, rs1`
    CsrWrite,
}

/// Continues with `f` on success, keeps the first error.
pub open spec fn then_do<A, B>(r: Result<A, Seq<char>>, f: spec_fn(A) -> Result<B, Seq<char>>) -> Result<B, Seq<char>> {
    match r {
        Ok(a) => f(a),
        Err(m) => Err(m),
    }
}

/// The comma-separated operands of an instruction, each trimmed (none when
/// the operand text is empty).
pub open spec fn arg_list(a: Seq<char>) -> Seq<Seq<char>> {
    if a.len() == 0 {
        Seq::empty()
    } else {
        split(a, ',').map_values(|x: Seq<char>| trim(x))
    }
}

/// Register operand `i` of an instruction named `name` on line `n`.
pub open spec fn reg_arg(args: Seq<Seq<char>>, i: int, name: Seq<char>, n: nat) -> Result<u8, Seq<char>> {
    let r = if 0 <= i < args.len() {
        reg_of(args[i])
    } else {
        None
    };
    match r {
        Some(x) => Ok(x),
        None => Err(
            at_line(n) + "invalid or missing register argument "@ + dec_chars((i + 1) as nat)
                + " for "@ + name,
        ),
    }
}

/// Immediate operand `i`.
pub open spec fn imm_arg(args: Seq<Seq<char>>, i: int, name: Seq<char>, n: nat, syms: Symbols) -> Result<i64, Seq<char>> {
    if 0 <= i < args.len() {
        lined(n, imm_value(args[i], syms))
    } else {
        Err(at_line(n) + "missing immediate argument "@ + dec_chars((i + 1) as nat) + " for "@ + name)
    }
}

/// A memory operand `offset(reg)`, `(reg)` or a bare register.
pub open spec fn mem_operand(s: Seq<char>, syms: Symbols) -> Result<(u8, i64), Seq<char>> {
    let t = trim(s);
    match (find(t, '('), find(t, ')')) {
        (Some(o), Some(c)) if o < c => {
            let off = trim(t.take(o));
            let reg = trim(t.subrange(o + 1, c));
            match reg_of(reg) {
                None => Err("invalid register in address: '"@ + reg + "'"@),
                Some(r) => if off.len() == 0 {
                    Ok((r, 0i64))
                } else {
                    match imm_value(off, syms) {
                        Ok(v) => Ok((r, v)),
                        Err(m) => Err(m),
                    }
                },
            }
        },
        _ => match reg_of(t) {
            Some(r) => Ok((r, 0i64)),
            None => Err("invalid memory operand format: '"@ + t + "' (expected 'offset(reg)')"@),
        },
    }
}

/// Memory operand `i`.
pub open spec fn mem_arg(args: Seq<Seq<char>>, i: int, n: nat, syms: Symbols) -> Result<(u8, i64), Seq<char>> {
    if 0 <= i < args.len() {
        lined(n, mem_operand(args[i], syms))
    } else {
        Err(at_line(n) + "missing memory operand"@)
    }
}

/// Branch target operand `i` of the instruction at index `pc`: a label
/// gives its distance from `pc`, anything else is read as an immediate
/// offset.
pub open spec fn target_arg(args: Seq<Seq<char>>, i: int, n: nat, syms: Symbols, pc: u64) -> Result<i64, Seq<char>> {
    if 0 <= i < args.len() {
        let t = trim(args[i]);
        match sym_get(syms, t) {
            Some(tp) => Ok(((tp as i64) - (pc as i64)) as i64),
            None => lined(n, imm_value(t, syms)),
        }
    } else {
        Err(at_line(n) + "missing branch target"@)
    }
}

/// The control register a name or number denotes.
pub open spec fn csr_of(s: Seq<char>) -> Result<u16, Seq<char>> {
    let t = trim(s);
    if eq_fold(t, "cycle"@) {
        Ok(csr::CYCLE)
    } else if eq_fold(t, "instret"@) {
        Ok(csr::INSTRET)
    } else if eq_fold(t, "entropy"@) || eq_fold(t, "entropy_acc"@) {
        Ok(csr::ENTROPY_ACC)
    } else if eq_fold(t, "temp"@) || eq_fold(t, "temp_k"@) {
        Ok(csr::TEMP_K)
    } else if eq_fold(t, "landauer"@) {
        Ok(csr::LANDAUER)
    } else if starts2(s, '0', 'x') {
        match parse_int(s.skip(2), 16, 0, 0xffff) {
            Ok(v) => Ok(v as u16),
            Err(e) => Err("invalid CSR hex: "@ + int_err_msg(e)),
        }
    } else {
        match parse_int(s, 10, 0, 0xffff) {
            Ok(v) => Ok(v as u16),
            Err(e) => Err("unknown CSR name '"@ + s + "': "@ + int_err_msg(e)),
        }
    }
}

/// The control register operand `i` of line `n` (an absent one reads as
/// empty text).
pub open spec fn csr_arg(args: Seq<Seq<char>>, i: int, n: nat) -> Result<u16, Seq<char>> {
    lined(n, csr_of(if 0 <= i < args.len() { args[i] } else { Seq::empty() }))
}

/// The activation function a name denotes.
pub open spec fn act_of(s: Seq<char>) -> Option<ActivationFn> {
    if eq_fold(s, "relu"@) {
        Some(ActivationFn::ReLU)
    } else if eq_fold(s, "sigmoid"@) {
        Some(ActivationFn::Sigmoid)
    } else if eq_fold(s, "tanh"@) {
        Some(ActivationFn::Tanh)
    } else if eq_fold(s, "gelu"@) {
        Some(ActivationFn::GeLU)
    } else if eq_fold(s, "silu"@) {
        Some(ActivationFn::SiLU)
    } else {
        None
    }
}

/// The instruction of opcode `op` made from its operands.
pub open spec fn make(op: u8, rd: u8, rs1: u8, rs2: u8, aux: u32, imm: i64) -> Result<Instruction, Seq<char>> {
    decode_fields(op, rd, rs1, rs2, aux, imm)
}

/// The instruction that mnemonic entry `e` and operands `args` make on
/// line `n` at index `pc`, or the first operand error.
pub open spec fn operands(e: (u8, Shape, u32, Seq<char>), args: Seq<Seq<char>>, syms: Symbols, n: nat, pc: u64) -> Result<Instruction, Seq<char>> {
    let (op, shape, aux, name) = e;
    match shape {
        Shape::Rrr => then_do(reg_arg(args, 0, name, n), |rd: u8| then_do(reg_arg(args, 1, name, n), |rs1: u8| then_do(reg_arg(args, 2, name, n), |rs2: u8| make(op, rd, rs1, rs2, aux, 0)))),
        Shape::Rr => then_do(reg_arg(args, 0, name, n), |rd: u8| then_do(reg_arg(args, 1, name, n), |rs1: u8| make(op, rd, rs1, 0, aux, 0))),
        Shape::R => then_do(reg_arg(args, 0, name, n), |rd: u8| make(op, rd, 0, 0, aux, 0)),
        Shape::Rri => then_do(reg_arg(args, 0, name, n), |rd: u8| then_do(reg_arg(args, 1, name, n), |rs1: u8| then_do(imm_arg(args, 2, name, n, syms), |imm: i64| make(op, rd, rs1, 0, aux, imm)))),
        Shape::Ri => then_do(reg_arg(args, 0, name, n), |rd: u8| then_do(imm_arg(args, 1, name, n, syms), |imm: i64| make(op, rd, 0, 0, aux, imm))),
        Shape::Load => then_do(reg_arg(args, 0, name, n), |rd: u8| then_do(mem_arg(args, 1, n, syms), |m: (u8, i64)| make(op, rd, m.0, 0, aux, m.1))),
        Shape::Store => then_do(reg_arg(args, 0, name, n), |rs2: u8| then_do(mem_arg(args, 1, n, syms), |m: (u8, i64)| make(op, 0, m.0, rs2, aux, m.1))),
        Shape::Branch => then_do(reg_arg(args, 0, name, n), |rs1: u8| then_do(reg_arg(args, 1, name, n), |rs2: u8| then_do(target_arg(args, 2, n, syms, pc), |off: i64| make(op, 0, rs1, rs2, aux, off)))),
        Shape::Jal => if args.len() == 1 {
            then_do(target_arg(args, 0, n, syms, pc), |off: i64| make(op, REG_RA, 0, 0, aux, off))
        } else {
            then_do(reg_arg(args, 0, name, n), |rd: u8| then_do(target_arg(args, 1, n, syms, pc), |off: i64| make(op, rd, 0, 0, aux, off)))
        },
        Shape::Act => then_do(reg_arg(args, 0, name, n), |rd: u8| then_do(reg_arg(args, 1, name, n), |rs1: u8| if args.len() <= 2 {
            Err(at_line(n) + "missing activation function"@)
        } else {
            match act_of(args[2]) {
                Some(f) => Ok(Instruction::TAct { rd, rs1, func: f }),
                None => Err(at_line(n) + "unknown activation function '"@ + args[2] + "'"@),
            }
        })),
        Shape::La => then_do(reg_arg(args, 0, name, n), |rd: u8| if args.len() <= 1 {
            Err(at_line(n) + "missing label for la"@)
        } else {
            match sym_get(syms, trim(args[1])) {
                Some(a) => Ok(Instruction::Li { rd, imm: a as i64 }),
                None => Err(at_line(n) + "unknown label '"@ + trim(args[1]) + "' in la"@),
            }
        }),
        Shape::Jump(link) => then_do(target_arg(args, 0, n, syms, pc), |off: i64| make(op, link, 0, 0, aux, off)),
        Shape::Ret => Ok(Instruction::Jalr { rd: REG_ZERO, rs1: REG_RA, offset: 0 }),
        Shape::Bare => make(op, 0, 0, 0, aux, 0),
        Shape::CsrRead => then_do(reg_arg(args, 0, name, n), |rd: u8| then_do(csr_arg(args, 1, n), |c: u16| Ok(Instruction::CsrR { rd, csr: c }))),
        Shape::CsrWrite => then_do(csr_arg(args, 0, n), |c: u16| then_do(reg_arg(args, 1, name, n), |rs1: u8| Ok(Instruction::CsrW { csr: c, rs1 }))),
    }
}

/// The instruction written as `text` on line `n` at index `pc`.
#[verifier::opaque]
pub open spec fn instruction_of(text: Seq<char>, syms: Symbols, n: nat, pc: u64) -> Result<Instruction, Seq<char>> {
    let m = trim(head(text));
    let args = arg_list(rest_after_head(text));
    match mnemonic_of(m) {
        Some(e) => operands(e, args, syms, n, pc),
        None => Err(at_line(n) + "unknown instruction '"@ + m + "'"@),
    }
}

/// The table of mnemonics: for a mnemonic (any letter case), its opcode,
/// operand shape, aux field and the name its messages use. A vector
/// mnemonic takes an optional width suffix `.b`, `.h`, `.w` or `.d`
/// (64-bit lanes when there is none).
pub open spec fn mnemonic_of(m: Seq<char>) -> Option<(u8, Shape, u32, Seq<char>)> {
    if eq_fold(m, "add"@) {
        Some((op::ADD, Shape::Rrr, 0u32, "add"@))
    } else if eq_fold(m, "sub"@) {
        Some((op::SUB, Shape::Rrr, 0u32, "sub"@))
    } else if eq_fold(m, "mul"@) {
        Some((op::MUL, Shape::Rrr, 0u32, "mul"@))
    } else if eq_fold(m, "mulh"@) {
        Some((op::MULH, Shape::Rrr, 0u32, "mulh"@))
    } else if eq_fold(m, "div"@) {
        Some((op::DIV, Shape::Rrr, 0u32, "div"@))
    } else if eq_fold(m, "rem"@) {
        Some((op::REM, Shape::Rrr, 0u32, "rem"@))
    } else if eq_fold(m, "and"@) {
        Some((op::AND, Shape::Rrr, 0u32, "and"@))
    } else if eq_fold(m, "or"@) {
        Some((op::OR, Shape::Rrr, 0u32, "or"@))
    } else if eq_fold(m, "xor"@) {
        Some((op::XOR, Shape::Rrr, 0u32, "xor"@))
    } else if eq_fold(m, "sll"@) {
        Some((op::SLL, Shape::Rrr, 0u32, "sll"@))
    } else if eq_fold(m, "srl"@) {
        Some((op::SRL, Shape::Rrr, 0u32, "srl"@))
    } else if eq_fold(m, "sra"@) {
        Some((op::SRA, Shape::Rrr, 0u32, "sra"@))
    } else if eq_fold(m, "slt"@) {
        Some((op::SLT, Shape::Rrr, 0u32, "slt"@))
    } else if eq_fold(m, "sltu"@) {
        Some((op::SLTU, Shape::Rrr, 0u32, "sltu"@))
    } else if eq_fold(m, "addi"@) {
        Some((op::ADDI, Shape::Rri, 0u32, "addi"@))
    } else if eq_fold(m, "andi"@) {
        Some((op::ANDI, Shape::Rri, 0u32, "andi"@))
    } else if eq_fold(m, "ori"@) {
        Some((op::ORI, Shape::Rri, 0u32, "ori"@))
    } else if eq_fold(m, "xori"@) {
        Some((op::XORI, Shape::Rri, 0u32, "xori"@))
    } else if eq_fold(m, "slli"@) {
        Some((op::SLLI, Shape::Rri, 0u32, "slli"@))
    } else if eq_fold(m, "srli"@) {
        Some((op::SRLI, Shape::Rri, 0u32, "srli"@))
    } else if eq_fold(m, "srai"@) {
        Some((op::SRAI, Shape::Rri, 0u32, "srai"@))
    } else if eq_fold(m, "slti"@) {
        Some((op::SLTI, Shape::Rri, 0u32, "slti"@))
    } else if eq_fold(m, "sltiu"@) {
        Some((op::SLTIU, Shape::Rri, 0u32, "sltiu"@))
    } else if eq_fold(m, "lui"@) {
        Some((op::LUI, Shape::Ri, 0u32, "lui"@))
    } else if eq_fold(m, "ld"@) {
        Some((op::LD, Shape::Load, 0u32, "ld"@))
    } else if eq_fold(m, "lw"@) {
        Some((op::LW, Shape::Load, 0u32, "lw"@))
    } else if eq_fold(m, "lh"@) {
        Some((op::LH, Shape::Load, 0u32, "lh"@))
    } else if eq_fold(m, "lb"@) {
        Some((op::LB, Shape::Load, 0u32, "lb"@))
    } else if eq_fold(m, "lbu"@) {
        Some((op::LBU, Shape::Load, 0u32, "lbu"@))
    } else if eq_fold(m, "sd"@) {
        Some((op::SD, Shape::Store, 0u32, "sd"@))
    } else if eq_fold(m, "sw"@) {
        Some((op::SW, Shape::Store, 0u32, "sw"@))
    } else if eq_fold(m, "sh"@) {
        Some((op::SH, Shape::Store, 0u32, "sh"@))
    } else if eq_fold(m, "sb"@) {
        Some((op::SB, Shape::Store, 0u32, "sb"@))
    } else if eq_fold(m, "lq"@) {
        Some((op::LQ, Shape::Load, 0u32, "lq"@))
    } else if eq_fold(m, "sq"@) {
        Some((op::SQ, Shape::Store, 0u32, "sq"@))
    } else if eq_fold(m, "beq"@) {
        Some((op::BEQ, Shape::Branch, 0u32, "beq"@))
    } else if eq_fold(m, "bne"@) {
        Some((op::BNE, Shape::Branch, 0u32, "bne"@))
    } else if eq_fold(m, "blt"@) {
        Some((op::BLT, Shape::Branch, 0u32, "blt"@))
    } else if eq_fold(m, "bge"@) {
        Some((op::BGE, Shape::Branch, 0u32, "bge"@))
    } else if eq_fold(m, "bltu"@) {
        Some((op::BLTU, Shape::Branch, 0u32, "bltu"@))
    } else if eq_fold(m, "bgeu"@) {
        Some((op::BGEU, Shape::Branch, 0u32, "bgeu"@))
    } else if eq_fold(m, "jal"@) {
        Some((op::JAL, Shape::Jal, 0u32, "jal"@))
    } else if eq_fold(m, "jalr"@) {
        Some((op::JALR, Shape::Load, 0u32, "jalr"@))
    } else if eq_fold(m, "vadd"@) {
        Some((op::VADD, Shape::Rrr, 3u32, "vadd"@))
    } else if eq_fold(m, "vadd.b"@) {
        Some((op::VADD, Shape::Rrr, 0u32, "vadd"@))
    } else if eq_fold(m, "vadd.h"@) {
        Some((op::VADD, Shape::Rrr, 1u32, "vadd"@))
    } else if eq_fold(m, "vadd.w"@) {
        Some((op::VADD, Shape::Rrr, 2u32, "vadd"@))
    } else if eq_fold(m, "vadd.d"@) {
        Some((op::VADD, Shape::Rrr, 3u32, "vadd"@))
    } else if eq_fold(m, "vsub"@) {
        Some((op::VSUB, Shape::Rrr, 3u32, "vsub"@))
    } else if eq_fold(m, "vsub.b"@) {
        Some((op::VSUB, Shape::Rrr, 0u32, "vsub"@))
    } else if eq_fold(m, "vsub.h"@) {
        Some((op::VSUB, Shape::Rrr, 1u32, "vsub"@))
    } else if eq_fold(m, "vsub.w"@) {
        Some((op::VSUB, Shape::Rrr, 2u32, "vsub"@))
    } else if eq_fold(m, "vsub.d"@) {
        Some((op::VSUB, Shape::Rrr, 3u32, "vsub"@))
    } else if eq_fold(m, "vmul"@) {
        Some((op::VMUL, Shape::Rrr, 3u32, "vmul"@))
    } else if eq_fold(m, "vmul.b"@) {
        Some((op::VMUL, Shape::Rrr, 0u32, "vmul"@))
    } else if eq_fold(m, "vmul.h"@) {
        Some((op::VMUL, Shape::Rrr, 1u32, "vmul"@))
    } else if eq_fold(m, "vmul.w"@) {
        Some((op::VMUL, Shape::Rrr, 2u32, "vmul"@))
    } else if eq_fold(m, "vmul.d"@) {
        Some((op::VMUL, Shape::Rrr, 3u32, "vmul"@))
    } else if eq_fold(m, "vand"@) {
        Some((op::VAND, Shape::Rrr, 0u32, "vand"@))
    } else if eq_fold(m, "vor"@) {
        Some((op::VOR, Shape::Rrr, 0u32, "vor"@))
    } else if eq_fold(m, "vxor"@) {
        Some((op::VXOR, Shape::Rrr, 0u32, "vxor"@))
    } else if eq_fold(m, "vnot"@) {
        Some((op::VNOT, Shape::Rr, 0u32, "vnot"@))
    } else if eq_fold(m, "vdot"@) {
        Some((op::VDOT, Shape::Rrr, 3u32, "vdot"@))
    } else if eq_fold(m, "vdot.b"@) {
        Some((op::VDOT, Shape::Rrr, 0u32, "vdot"@))
    } else if eq_fold(m, "vdot.h"@) {
        Some((op::VDOT, Shape::Rrr, 1u32, "vdot"@))
    } else if eq_fold(m, "vdot.w"@) {
        Some((op::VDOT, Shape::Rrr, 2u32, "vdot"@))
    } else if eq_fold(m, "vdot.d"@) {
        Some((op::VDOT, Shape::Rrr, 3u32, "vdot"@))
    } else if eq_fold(m, "vsplat"@) {
        Some((op::VSPLAT, Shape::Rr, 3u32, "vsplat"@))
    } else if eq_fold(m, "vsplat.b"@) {
        Some((op::VSPLAT, Shape::Rr, 0u32, "vsplat"@))
    } else if eq_fold(m, "vsplat.h"@) {
        Some((op::VSPLAT, Shape::Rr, 1u32, "vsplat"@))
    } else if eq_fold(m, "vsplat.w"@) {
        Some((op::VSPLAT, Shape::Rr, 2u32, "vsplat"@))
    } else if eq_fold(m, "vsplat.d"@) {
        Some((op::VSPLAT, Shape::Rr, 3u32, "vsplat"@))
    } else if eq_fold(m, "vreduce"@) {
        Some((op::VREDUCE, Shape::Rr, 3u32, "vreduce"@))
    } else if eq_fold(m, "vreduce.b"@) {
        Some((op::VREDUCE, Shape::Rr, 0u32, "vreduce"@))
    } else if eq_fold(m, "vreduce.h"@) {
        Some((op::VREDUCE, Shape::Rr, 1u32, "vreduce"@))
    } else if eq_fold(m, "vreduce.w"@) {
        Some((op::VREDUCE, Shape::Rr, 2u32, "vreduce"@))
    } else if eq_fold(m, "vreduce.d"@) {
        Some((op::VREDUCE, Shape::Rr, 3u32, "vreduce"@))
    } else if eq_fold(m, "zipper"@) {
        Some((op::ZIPPER, Shape::Rrr, 0u32, "zipper"@))
    } else if eq_fold(m, "zipper2"@) {
        Some((op::ZIPPER2, Shape::Rrr, 0u32, "zipper2"@))
    } else if eq_fold(m, "trunc"@) {
        Some((op::TRUNC, Shape::Rri, 0u32, "trunc"@))
    } else if eq_fold(m, "cadd"@) {
        Some((op::CADD, Shape::Rrr, 0u32, "cadd"@))
    } else if eq_fold(m, "csub"@) {
        Some((op::CSUB, Shape::Rrr, 0u32, "csub"@))
    } else if eq_fold(m, "cmul"@) {
        Some((op::CMUL, Shape::Rrr, 0u32, "cmul"@))
    } else if eq_fold(m, "cconj"@) {
        Some((op::CCONJ, Shape::Rr, 0u32, "cconj"@))
    } else if eq_fold(m, "cnorm"@) {
        Some((op::CNORM, Shape::Rr, 0u32, "cnorm"@))
    } else if eq_fold(m, "cmag"@) {
        Some((op::CMAG, Shape::Rr, 0u32, "cmag"@))
    } else if eq_fold(m, "entropy"@) {
        Some((op::ENTROPY, Shape::Rr, 0u32, "entropy"@))
    } else if eq_fold(m, "hamming"@) {
        Some((op::HAMMING, Shape::Rrr, 0u32, "hamming"@))
    } else if eq_fold(m, "popcnt"@) {
        Some((op::POPCNT, Shape::Rr, 0u32, "popcnt"@))
    } else if eq_fold(m, "qrand"@) {
        Some((op::QRAND, Shape::R, 0u32, "qrand"@))
    } else if eq_fold(m, "ntt"@) {
        Some((op::NTT, Shape::Rr, 0u32, "ntt"@))
    } else if eq_fold(m, "invntt"@) {
        Some((op::INVNTT, Shape::Rr, 0u32, "invntt"@))
    } else if eq_fold(m, "polymul"@) {
        Some((op::POLYMUL, Shape::Rrr, 0u32, "polymul"@))
    } else if eq_fold(m, "polyadd"@) {
        Some((op::POLYADD, Shape::Rrr, 0u32, "polyadd"@))
    } else if eq_fold(m, "modred"@) {
        Some((op::MODRED, Shape::Rri, 0u32, "modred"@))
    } else if eq_fold(m, "tact"@) {
        Some((op::TACT, Shape::Act, 0u32, "tact"@))
    } else if eq_fold(m, "tsoftmax"@) {
        Some((op::TSOFTMAX, Shape::Rr, 0u32, "tsoftmax"@))
    } else if eq_fold(m, "tmul"@) {
        Some((op::TMUL, Shape::Rrr, 0u32, "tmul"@))
    } else if eq_fold(m, "tdot"@) {
        Some((op::TDOT, Shape::Rrr, 0u32, "tdot"@))
    } else if eq_fold(m, "li"@) {
        Some((op::LI, Shape::Ri, 0u32, "li"@))
    } else if eq_fold(m, "la"@) {
        Some((op::LI, Shape::La, 0u32, "la"@))
    } else if eq_fold(m, "mv"@) {
        Some((op::MV, Shape::Rr, 0u32, "mv"@))
    } else if eq_fold(m, "j"@) {
        Some((op::JAL, Shape::Jump(0), 0u32, "j"@))
    } else if eq_fold(m, "call"@) {
        Some((op::JAL, Shape::Jump(1), 0u32, "call"@))
    } else if eq_fold(m, "ret"@) {
        Some((op::JALR, Shape::Ret, 0u32, "ret"@))
    } else if eq_fold(m, "nop"@) {
        Some((op::NOP, Shape::Bare, 0u32, "nop"@))
    } else if eq_fold(m, "halt"@) {
        Some((op::HALT, Shape::Bare, 0u32, "halt"@))
    } else if eq_fold(m, "ecall"@) {
        Some((op::ECALL, Shape::Bare, 0u32, "ecall"@))
    } else if eq_fold(m, "fence"@) {
        Some((op::FENCE, Shape::Bare, 0u32, "fence"@))
    } else if eq_fold(m, "csrr"@) {
        Some((op::CSRR, Shape::CsrRead, 0u32, "csrr"@))
    } else if eq_fold(m, "csrw"@) {
        Some((op::CSRW, Shape::CsrWrite, 0u32, "csrw"@))
    } else {
        None
    }
}

/// Looks a mnemonic up in the table.
fn mnemonic(m: &[char]) -> (r: Option<(u8, Shape, u32, &'static str)>)
    ensures
        match mnemonic_of(m@) {
            Some(e) => r matches Some(x) && x.0 == e.0 && x.1 == e.1 && x.2 == e.2 && x.3@ == e.3,
            None => r is None,
        },
{
    if eq_fold_str(m, "add") {
        return Some((op::ADD, Shape::Rrr, 0u32, "add"));
    }
    if eq_fold_str(m, "sub") {
        return Some((op::SUB, Shape::Rrr, 0u32, "sub"));
    }
    if eq_fold_str(m, "mul") {
        return Some((op::MUL, Shape::Rrr, 0u32, "mul"));
    }
    if eq_fold_str(m, "mulh") {
        return Some((op::MULH, Shape::Rrr, 0u32, "mulh"));
    }
    if eq_fold_str(m, "div") {
        return Some((op::DIV, Shape::Rrr, 0u32, "div"));
    }
    if eq_fold_str(m, "rem") {
        return Some((op::REM, Shape::Rrr, 0u32, "rem"));
    }
    if eq_fold_str(m, "and") {
        return Some((op::AND, Shape::Rrr, 0u32, "and"));
    }
    if eq_fold_str(m, "or") {
        return Some((op::OR, Shape::Rrr, 0u32, "or"));
    }
    if eq_fold_str(m, "xor") {
        return Some((op::XOR, Shape::Rrr, 0u32, "xor"));
    }
    if eq_fold_str(m, "sll") {
        return Some((op::SLL, Shape::Rrr, 0u32, "sll"));
    }
    if eq_fold_str(m, "srl") {
        return Some((op::SRL, Shape::Rrr, 0u32, "srl"));
    }
    if eq_fold_str(m, "sra") {
        return Some((op::SRA, Shape::Rrr, 0u32, "sra"));
    }
    if eq_fold_str(m, "slt") {
        return Some((op::SLT, Shape::Rrr, 0u32, "slt"));
    }
    if eq_fold_str(m, "sltu") {
        return Some((op::SLTU, Shape::Rrr, 0u32, "sltu"));
    }
    if eq_fold_str(m, "addi") {
        return Some((op::ADDI, Shape::Rri, 0u32, "addi"));
    }
    if eq_fold_str(m, "andi") {
        return Some((op::ANDI, Shape::Rri, 0u32, "andi"));
    }
    if eq_fold_str(m, "ori") {
        return Some((op::ORI, Shape::Rri, 0u32, "ori"));
    }
    if eq_fold_str(m, "xori") {
        return Some((op::XORI, Shape::Rri, 0u32, "xori"));
    }
    if eq_fold_str(m, "slli") {
        return Some((op::SLLI, Shape::Rri, 0u32, "slli"));
    }
    if eq_fold_str(m, "srli") {
        return Some((op::SRLI, Shape::Rri, 0u32, "srli"));
    }
    if eq_fold_str(m, "srai") {
        return Some((op::SRAI, Shape::Rri, 0u32, "srai"));
    }
    if eq_fold_str(m, "slti") {
        return Some((op::SLTI, Shape::Rri, 0u32, "slti"));
    }
    if eq_fold_str(m, "sltiu") {
        return Some((op::SLTIU, Shape::Rri, 0u32, "sltiu"));
    }
    if eq_fold_str(m, "lui") {
        return Some((op::LUI, Shape::Ri, 0u32, "lui"));
    }
    if eq_fold_str(m, "ld") {
        return Some((op::LD, Shape::Load, 0u32, "ld"));
    }
    if eq_fold_str(m, "lw") {
        return Some((op::LW, Shape::Load, 0u32, "lw"));
    }
    if eq_fold_str(m, "lh") {
        return Some((op::LH, Shape::Load, 0u32, "lh"));
    }
    if eq_fold_str(m, "lb") {
        return Some((op::LB, Shape::Load, 0u32, "lb"));
    }
    if eq_fold_str(m, "lbu") {
        return Some((op::LBU, Shape::Load, 0u32, "lbu"));
    }
    if eq_fold_str(m, "sd") {
        return Some((op::SD, Shape::Store, 0u32, "sd"));
    }
    if eq_fold_str(m, "sw") {
        return Some((op::SW, Shape::Store, 0u32, "sw"));
    }
    if eq_fold_str(m, "sh") {
        return Some((op::SH, Shape::Store, 0u32, "sh"));
    }
    if eq_fold_str(m, "sb") {
        return Some((op::SB, Shape::Store, 0u32, "sb"));
    }
    if eq_fold_str(m, "lq") {
        return Some((op::LQ, Shape::Load, 0u32, "lq"));
    }
    if eq_fold_str(m, "sq") {
        return Some((op::SQ, Shape::Store, 0u32, "sq"));
    }
    if eq_fold_str(m, "beq") {
        return Some((op::BEQ, Shape::Branch, 0u32, "beq"));
    }
    if eq_fold_str(m, "bne") {
        return Some((op::BNE, Shape::Branch, 0u32, "bne"));
    }
    if eq_fold_str(m, "blt") {
        return Some((op::BLT, Shape::Branch, 0u32, "blt"));
    }
    if eq_fold_str(m, "bge") {
        return Some((op::BGE, Shape::Branch, 0u32, "bge"));
    }
    if eq_fold_str(m, "bltu") {
        return Some((op::BLTU, Shape::Branch, 0u32, "bltu"));
    }
    if eq_fold_str(m, "bgeu") {
        return Some((op::BGEU, Shape::Branch, 0u32, "bgeu"));
    }
    if eq_fold_str(m, "jal") {
        return Some((op::JAL, Shape::Jal, 0u32, "jal"));
    }
    if eq_fold_str(m, "jalr") {
        return Some((op::JALR, Shape::Load, 0u32, "jalr"));
    }
    if eq_fold_str(m, "vadd") {
        return Some((op::VADD, Shape::Rrr, 3u32, "vadd"));
    }
    if eq_fold_str(m, "vadd.b") {
        return Some((op::VADD, Shape::Rrr, 0u32, "vadd"));
    }
    if eq_fold_str(m, "vadd.h") {
        return Some((op::VADD, Shape::Rrr, 1u32, "vadd"));
    }
    if eq_fold_str(m, "vadd.w") {
        return Some((op::VADD, Shape::Rrr, 2u32, "vadd"));
    }
    if eq_fold_str(m, "vadd.d") {
        return Some((op::VADD, Shape::Rrr, 3u32, "vadd"));
    }
    if eq_fold_str(m, "vsub") {
        return Some((op::VSUB, Shape::Rrr, 3u32, "vsub"));
    }
    if eq_fold_str(m, "vsub.b") {
        return Some((op::VSUB, Shape::Rrr, 0u32, "vsub"));
    }
    if eq_fold_str(m, "vsub.h") {
        return Some((op::VSUB, Shape::Rrr, 1u32, "vsub"));
    }
    if eq_fold_str(m, "vsub.w") {
        return Some((op::VSUB, Shape::Rrr, 2u32, "vsub"));
    }
    if eq_fold_str(m, "vsub.d") {
        return Some((op::VSUB, Shape::Rrr, 3u32, "vsub"));
    }
    if eq_fold_str(m, "vmul") {
        return Some((op::VMUL, Shape::Rrr, 3u32, "vmul"));
    }
    if eq_fold_str(m, "vmul.b") {
        return Some((op::VMUL, Shape::Rrr, 0u32, "vmul"));
    }
    if eq_fold_str(m, "vmul.h") {
        return Some((op::VMUL, Shape::Rrr, 1u32, "vmul"));
    }
    if eq_fold_str(m, "vmul.w") {
        return Some((op::VMUL, Shape::Rrr, 2u32, "vmul"));
    }
    if eq_fold_str(m, "vmul.d") {
        return Some((op::VMUL, Shape::Rrr, 3u32, "vmul"));
    }
    if eq_fold_str(m, "vand") {
        return Some((op::VAND, Shape::Rrr, 0u32, "vand"));
    }
    if eq_fold_str(m, "vor") {
        return Some((op::VOR, Shape::Rrr, 0u32, "vor"));
    }
    if eq_fold_str(m, "vxor") {
        return Some((op::VXOR, Shape::Rrr, 0u32, "vxor"));
    }
    if eq_fold_str(m, "vnot") {
        return Some((op::VNOT, Shape::Rr, 0u32, "vnot"));
    }
    if eq_fold_str(m, "vdot") {
        return Some((op::VDOT, Shape::Rrr, 3u32, "vdot"));
    }
    if eq_fold_str(m, "vdot.b") {
        return Some((op::VDOT, Shape::Rrr, 0u32, "vdot"));
    }
    if eq_fold_str(m, "vdot.h") {
        return Some((op::VDOT, Shape::Rrr, 1u32, "vdot"));
    }
    if eq_fold_str(m, "vdot.w") {
        return Some((op::VDOT, Shape::Rrr, 2u32, "vdot"));
    }
    if eq_fold_str(m, "vdot.d") {
        return Some((op::VDOT, Shape::Rrr, 3u32, "vdot"));
    }
    if eq_fold_str(m, "vsplat") {
        return Some((op::VSPLAT, Shape::Rr, 3u32, "vsplat"));
    }
    if eq_fold_str(m, "vsplat.b") {
        return Some((op::VSPLAT, Shape::Rr, 0u32, "vsplat"));
    }
    if eq_fold_str(m, "vsplat.h") {
        return Some((op::VSPLAT, Shape::Rr, 1u32, "vsplat"));
    }
    if eq_fold_str(m, "vsplat.w") {
        return Some((op::VSPLAT, Shape::Rr, 2u32, "vsplat"));
    }
    if eq_fold_str(m, "vsplat.d") {
        return Some((op::VSPLAT, Shape::Rr, 3u32, "vsplat"));
    }
    if eq_fold_str(m, "vreduce") {
        return Some((op::VREDUCE, Shape::Rr, 3u32, "vreduce"));
    }
    if eq_fold_str(m, "vreduce.b") {
        return Some((op::VREDUCE, Shape::Rr, 0u32, "vreduce"));
    }
    if eq_fold_str(m, "vreduce.h") {
        return Some((op::VREDUCE, Shape::Rr, 1u32, "vreduce"));
    }
    if eq_fold_str(m, "vreduce.w") {
        return Some((op::VREDUCE, Shape::Rr, 2u32, "vreduce"));
    }
    if eq_fold_str(m, "vreduce.d") {
        return Some((op::VREDUCE, Shape::Rr, 3u32, "vreduce"));
    }
    if eq_fold_str(m, "zipper") {
        return Some((op::ZIPPER, Shape::Rrr, 0u32, "zipper"));
    }
    if eq_fold_str(m, "zipper2") {
        return Some((op::ZIPPER2, Shape::Rrr, 0u32, "zipper2"));
    }
    if eq_fold_str(m, "trunc") {
        return Some((op::TRUNC, Shape::Rri, 0u32, "trunc"));
    }
    if eq_fold_str(m, "cadd") {
        return Some((op::CADD, Shape::Rrr, 0u32, "cadd"));
    }
    if eq_fold_str(m, "csub") {
        return Some((op::CSUB, Shape::Rrr, 0u32, "csub"));
    }
    if eq_fold_str(m, "cmul") {
        return Some((op::CMUL, Shape::Rrr, 0u32, "cmul"));
    }
    if eq_fold_str(m, "cconj") {
        return Some((op::CCONJ, Shape::Rr, 0u32, "cconj"));
    }
    if eq_fold_str(m, "cnorm") {
        return Some((op::CNORM, Shape::Rr, 0u32, "cnorm"));
    }
    if eq_fold_str(m, "cmag") {
        return Some((op::CMAG, Shape::Rr, 0u32, "cmag"));
    }
    if eq_fold_str(m, "entropy") {
        return Some((op::ENTROPY, Shape::Rr, 0u32, "entropy"));
    }
    if eq_fold_str(m, "hamming") {
        return Some((op::HAMMING, Shape::Rrr, 0u32, "hamming"));
    }
    if eq_fold_str(m, "popcnt") {
        return Some((op::POPCNT, Shape::Rr, 0u32, "popcnt"));
    }
    if eq_fold_str(m, "qrand") {
        return Some((op::QRAND, Shape::R, 0u32, "qrand"));
    }
    if eq_fold_str(m, "ntt") {
        return Some((op::NTT, Shape::Rr, 0u32, "ntt"));
    }
    if eq_fold_str(m, "invntt") {
        return Some((op::INVNTT, Shape::Rr, 0u32, "invntt"));
    }
    if eq_fold_str(m, "polymul") {
        return Some((op::POLYMUL, Shape::Rrr, 0u32, "polymul"));
    }
    if eq_fold_str(m, "polyadd") {
        return Some((op::POLYADD, Shape::Rrr, 0u32, "polyadd"));
    }
    if eq_fold_str(m, "modred") {
        return Some((op::MODRED, Shape::Rri, 0u32, "modred"));
    }
    if eq_fold_str(m, "tact") {
        return Some((op::TACT, Shape::Act, 0u32, "tact"));
    }
    if eq_fold_str(m, "tsoftmax") {
        return Some((op::TSOFTMAX, Shape::Rr, 0u32, "tsoftmax"));
    }
    if eq_fold_str(m, "tmul") {
        return Some((op::TMUL, Shape::Rrr, 0u32, "tmul"));
    }
    if eq_fold_str(m, "tdot") {
        return Some((op::TDOT, Shape::Rrr, 0u32, "tdot"));
    }
    if eq_fold_str(m, "li") {
        return Some((op::LI, Shape::Ri, 0u32, "li"));
    }
    if eq_fold_str(m, "la") {
        return Some((op::LI, Shape::La, 0u32, "la"));
    }
    if eq_fold_str(m, "mv") {
        return Some((op::MV, Shape::Rr, 0u32, "mv"));
    }
    if eq_fold_str(m, "j") {
        return Some((op::JAL, Shape::Jump(0), 0u32, "j"));
    }
    if eq_fold_str(m, "call") {
        return Some((op::JAL, Shape::Jump(1), 0u32, "call"));
    }
    if eq_fold_str(m, "ret") {
        return Some((op::JALR, Shape::Ret, 0u32, "ret"));
    }
    if eq_fold_str(m, "nop") {
        return Some((op::NOP, Shape::Bare, 0u32, "nop"));
    }
    if eq_fold_str(m, "halt") {
        return Some((op::HALT, Shape::Bare, 0u32, "halt"));
    }
    if eq_fold_str(m, "ecall") {
        return Some((op::ECALL, Shape::Bare, 0u32, "ecall"));
    }
    if eq_fold_str(m, "fence") {
        return Some((op::FENCE, Shape::Bare, 0u32, "fence"));
    }
    if eq_fold_str(m, "csrr") {
        return Some((op::CSRR, Shape::CsrRead, 0u32, "csrr"));
    }
    if eq_fold_str(m, "csrw") {
        return Some((op::CSRW, Shape::CsrWrite, 0u32, "csrw"));
    }
    None
}


fn reg_arg_x(args: &Vec<Vec<char>>, i: usize, name: &str, n: usize) -> (r: Result<u8, String>)
    requires
        i < 3,
    ensures
        match reg_arg(views(args@), i as int, name@, n as nat) {
            Ok(x) => r == Ok::<u8, String>(x),
            Err(m) => r matches Err(e) && e@ == m,
        },
{
    if i < args.len() {
        assert(views(args@)[i as int] == args@[i as int]@);
        if let Some(x) = register_of_chars(args[i].as_slice()) {
            return Ok(x);
        }
    }
    let mut e = String::new();
    push_at_line(&mut e, n);
    e.append("invalid or missing register argument ");
    push_dec(&mut e, (i + 1) as u64);
    e.append(" for ");
    e.append(name);
    Err(e)
}

fn imm_arg_x(args: &Vec<Vec<char>>, i: usize, name: &str, n: usize, syms: &Vec<(Vec<char>, u64)>) -> (r: Result<i64, String>)
    requires
        i < 3,
    ensures
        match imm_arg(views(args@), i as int, name@, n as nat, syms_view(syms@)) {
            Ok(x) => r == Ok::<i64, String>(x),
            Err(m) => r matches Err(e) && e@ == m,
        },
{
    if i < args.len() {
        assert(views(args@)[i as int] == args@[i as int]@);
        return lined_x(n, parse_immediate(args[i].as_slice(), syms));
    }
    let mut e = String::new();
    push_at_line(&mut e, n);
    e.append("missing immediate argument ");
    push_dec(&mut e, (i + 1) as u64);
    e.append(" for ");
    e.append(name);
    Err(e)
}

/// Reads a memory operand.
fn mem_operand_x(s: &[char], syms: &Vec<(Vec<char>, u64)>) -> (r: Result<(u8, i64), String>)
    ensures
        match mem_operand(s@, syms_view(syms@)) {
            Ok(x) => r == Ok::<(u8, i64), String>(x),
            Err(m) => r matches Err(e) && e@ == m,
        },
{
    let t = trim_chars(s);
    let n = t.len();
    match (find_char(t.as_slice(), '('), find_char(t.as_slice(), ')')) {
        (Some(o), Some(c)) => {
            if o < c {
                let off0 = slice_chars(t.as_slice(), 0, o);
                let reg0 = slice_chars(t.as_slice(), o + 1, c);
                assert(off0@ =~= t@.take(o as int));
                let off = trim_chars(off0.as_slice());
                let reg = trim_chars(reg0.as_slice());
                return match register_of_chars(reg.as_slice()) {
                    None => {
                        let mut e = String::from_str("invalid register in address: '");
                        push_chars(&mut e, reg.as_slice());
                        e.append("'");
                        Err(e)
                    },
                    Some(r) => {
                        if off.len() == 0 {
                            Ok((r, 0i64))
                        } else {
                            match parse_immediate(off.as_slice(), syms) {
                                Ok(v) => Ok((r, v)),
                                Err(m) => Err(m),
                            }
                        }
                    },
                };
            }
        },
        _ => {},
    }
    match register_of_chars(t.as_slice()) {
        Some(r) => Ok((r, 0i64)),
        None => {
            let mut e = String::from_str("invalid memory operand format: '");
            push_chars(&mut e, t.as_slice());
            e.append("' (expected 'offset(reg)')");
            Err(e)
        },
    }
}

fn mem_arg_x(args: &Vec<Vec<char>>, i: usize, n: usize, syms: &Vec<(Vec<char>, u64)>) -> (r: Result<(u8, i64), String>)
    ensures
        match mem_arg(views(args@), i as int, n as nat, syms_view(syms@)) {
            Ok(x) => r == Ok::<(u8, i64), String>(x),
            Err(m) => r matches Err(e) && e@ == m,
        },
{
    if i < args.len() {
        assert(views(args@)[i as int] == args@[i as int]@);
        return lined_x(n, mem_operand_x(args[i].as_slice(), syms));
    }
    let mut e = String::new();
    push_at_line(&mut e, n);
    e.append("missing memory operand");
    Err(e)
}

fn target_arg_x(args: &Vec<Vec<char>>, i: usize, n: usize, syms: &Vec<(Vec<char>, u64)>, pc: u64) -> (r: Result<i64, String>)
    ensures
        match target_arg(views(args@), i as int, n as nat, syms_view(syms@), pc) {
            Ok(x) => r == Ok::<i64, String>(x),
            Err(m) => r matches Err(e) && e@ == m,
        },
{
    if i < args.len() {
        assert(views(args@)[i as int] == args@[i as int]@);
        let t = trim_chars(args[i].as_slice());
        return match sym_value(syms, t.as_slice()) {
            Some(tp) => {
                let d: i128 = (tp as i64) as i128 - (pc as i64) as i128;
                Ok(d as i64)
            },
            None => lined_x(n, parse_immediate(t.as_slice(), syms)),
        };
    }
    let mut e = String::new();
    push_at_line(&mut e, n);
    e.append("missing branch target");
    Err(e)
}

/// Reads a control register name or number.
fn csr_x(s: &[char]) -> (r: Result<u16, String>)
    ensures
        match csr_of(s@) {
            Ok(x) => r == Ok::<u16, String>(x),
            Err(m) => r matches Err(e) && e@ == m,
        },
{
    let t = trim_chars(s);
    let ts = t.as_slice();
    if eq_fold_str(ts, "cycle") {
        Ok(csr::CYCLE)
    } else if eq_fold_str(ts, "instret") {
        Ok(csr::INSTRET)
    } else if eq_fold_str(ts, "entropy") || eq_fold_str(ts, "entropy_acc") {
        Ok(csr::ENTROPY_ACC)
    } else if eq_fold_str(ts, "temp") || eq_fold_str(ts, "temp_k") {
        Ok(csr::TEMP_K)
    } else if eq_fold_str(ts, "landauer") {
        Ok(csr::LANDAUER)
    } else if starts2_chars(s, '0', 'x') {
        let digits = slice_chars(s, 2, s.len());
        assert(digits@ =~= s@.skip(2));
        match parse_int_chars(digits.as_slice(), 16, 0, 0xffff) {
            Ok(v) => Ok(v as u16),
            Err(e) => {
                let mut m = String::from_str("invalid CSR hex: ");
                m.append(int_err_str(e));
                Err(m)
            },
        }
    } else {
        match parse_int_chars(s, 10, 0, 0xffff) {
            Ok(v) => Ok(v as u16),
            Err(e) => Err(quoted_err("unknown CSR name '", s, e)),
        }
    }
}

fn csr_arg_x(args: &Vec<Vec<char>>, i: usize, n: usize) -> (r: Result<u16, String>)
    ensures
        match csr_arg(views(args@), i as int, n as nat) {
            Ok(x) => r == Ok::<u16, String>(x),
            Err(m) => r matches Err(e) && e@ == m,
        },
{
    if i < args.len() {
        assert(views(args@)[i as int] == args@[i as int]@);
        lined_x(n, csr_x(args[i].as_slice()))
    } else {
        let empty: Vec<char> = Vec::new();
        assert(empty@ =~= Seq::<char>::empty());
        lined_x(n, csr_x(empty.as_slice()))
    }
}

/// The activation function a name denotes.
fn act_x(s: &[char]) -> (r: Option<ActivationFn>)
    ensures
        r == act_of(s@),
{
    if eq_fold_str(s, "relu") {
        Some(ActivationFn::ReLU)
    } else if eq_fold_str(s, "sigmoid") {
        Some(ActivationFn::Sigmoid)
    } else if eq_fold_str(s, "tanh") {
        Some(ActivationFn::Tanh)
    } else if eq_fold_str(s, "gelu") {
        Some(ActivationFn::GeLU)
    } else if eq_fold_str(s, "silu") {
        Some(ActivationFn::SiLU)
    } else {
        None
    }
}


/// The comma-separated operands, each trimmed.
fn arg_list_x(a: &[char]) -> (r: Vec<Vec<char>>)
    ensures
        views(r@) == arg_list(a@),
{
    let mut out: Vec<Vec<char>> = Vec::new();
    if a.len() == 0 {
        assert(views(out@) =~= arg_list(a@));
        return out;
    }
    let pieces = split_chars(a, ',');
    let ghost ps = split(a@, ',');
    let mut i: usize = 0;
    while i < pieces.len()
        invariant
            i <= pieces@.len(),
            out@.len() == i,
            views(pieces@) == ps,
            ps == split(a@, ','),
            views(out@) == ps.take(i as int).map_values(|x: Seq<char>| trim(x)),
        decreases pieces@.len() - i,
    {
        assert(pieces@[i as int]@ == ps[i as int]);
        let t = trim_chars(pieces[i].as_slice());
        let ghost before = out@;
        out.push(t);
        assert forall|k: int| 0 <= k < i + 1 implies #[trigger] views(out@)[k] == ps.take(i + 1).map_values(|x: Seq<char>| trim(x))[k] by {
            if k < i {
                assert(out@[k] == before[k]);
                assert(views(before)[k] == ps.take(i as int).map_values(|x: Seq<char>| trim(x))[k]);
            }
        }
        assert(views(out@) =~= ps.take(i + 1).map_values(|x: Seq<char>| trim(x)));
        i = i + 1;
    }
    assert(ps.take(i as int) =~= ps);
    out
}

fn make_x(op: u8, rd: u8, rs1: u8, rs2: u8, aux: u32, imm: i64) -> (r: Result<Instruction, String>)
    ensures
        match make(op, rd, rs1, rs2, aux, imm) {
            Ok(x) => r == Ok::<Instruction, String>(x),
            Err(m) => r matches Err(e) && e@ == m,
        },
{
    decode_from_fields(op, rd, rs1, rs2, aux, imm)
}

/// Builds the instruction of mnemonic entry `e` from its operands.
fn operands_x(
    e: (u8, Shape, u32, &str),
    args: &Vec<Vec<char>>,
    syms: &Vec<(Vec<char>, u64)>,
    n: usize,
    pc: u64,
) -> (r: Result<Instruction, String>)
    ensures
        match operands((e.0, e.1, e.2, e.3@), views(args@), syms_view(syms@), n as nat, pc) {
            Ok(x) => r == Ok::<Instruction, String>(x),
            Err(m) => r matches Err(e) && e@ == m,
        },
{
    let (op, shape, aux, name) = e;
    match shape {
        Shape::Rrr => {
            let rd = reg_arg_x(args, 0, name, n)?;
            let rs1 = reg_arg_x(args, 1, name, n)?;
            let rs2 = reg_arg_x(args, 2, name, n)?;
            make_x(op, rd, rs1, rs2, aux, 0)
        },
        Shape::Rr => {
            let rd = reg_arg_x(args, 0, name, n)?;
            let rs1 = reg_arg_x(args, 1, name, n)?;
            make_x(op, rd, rs1, 0, aux, 0)
        },
        Shape::R => {
            let rd = reg_arg_x(args, 0, name, n)?;
            make_x(op, rd, 0, 0, aux, 0)
        },
        Shape::Rri => {
            let rd = reg_arg_x(args, 0, name, n)?;
            let rs1 = reg_arg_x(args, 1, name, n)?;
            let imm = imm_arg_x(args, 2, name, n, syms)?;
            make_x(op, rd, rs1, 0, aux, imm)
        },
        Shape::Ri => {
            let rd = reg_arg_x(args, 0, name, n)?;
            let imm = imm_arg_x(args, 1, name, n, syms)?;
            make_x(op, rd, 0, 0, aux, imm)
        },
        Shape::Load => {
            let rd = reg_arg_x(args, 0, name, n)?;
            let m = mem_arg_x(args, 1, n, syms)?;
            make_x(op, rd, m.0, 0, aux, m.1)
        },
        Shape::Store => {
            let rs2 = reg_arg_x(args, 0, name, n)?;
            let m = mem_arg_x(args, 1, n, syms)?;
            make_x(op, 0, m.0, rs2, aux, m.1)
        },
        Shape::Branch => {
            let rs1 = reg_arg_x(args, 0, name, n)?;
            let rs2 = reg_arg_x(args, 1, name, n)?;
            let off = target_arg_x(args, 2, n, syms, pc)?;
            make_x(op, 0, rs1, rs2, aux, off)
        },
        Shape::Jal => {
            if args.len() == 1 {
                let off = target_arg_x(args, 0, n, syms, pc)?;
                make_x(op, REG_RA, 0, 0, aux, off)
            } else {
                let rd = reg_arg_x(args, 0, name, n)?;
                let off = target_arg_x(args, 1, n, syms, pc)?;
                make_x(op, rd, 0, 0, aux, off)
            }
        },
        Shape::Act => {
            let rd = reg_arg_x(args, 0, name, n)?;
            let rs1 = reg_arg_x(args, 1, name, n)?;
            if args.len() <= 2 {
                let mut e = String::new();
                push_at_line(&mut e, n);
                e.append("missing activation function");
                return Err(e);
            }
            assert(views(args@)[2] == args@[2]@);
            match act_x(args[2].as_slice()) {
                Some(f) => Ok(Instruction::TAct { rd, rs1, func: f }),
                None => {
                    let mut e = String::new();
                    push_at_line(&mut e, n);
                    e.append("unknown activation function '");
                    push_chars(&mut e, args[2].as_slice());
                    e.append("'");
                    Err(e)
                },
            }
        },
        Shape::La => {
            let rd = reg_arg_x(args, 0, name, n)?;
            if args.len() <= 1 {
                let mut e = String::new();
                push_at_line(&mut e, n);
                e.append("missing label for la");
                return Err(e);
            }
            assert(views(args@)[1] == args@[1]@);
            let label = trim_chars(args[1].as_slice());
            match sym_value(syms, label.as_slice()) {
                Some(a) => Ok(Instruction::Li { rd, imm: a as i64 }),
                None => {
                    let mut e = String::new();
                    push_at_line(&mut e, n);
                    e.append("unknown label '");
                    push_chars(&mut e, label.as_slice());
                    e.append("' in la");
                    Err(e)
                },
            }
        },
        Shape::Jump(link) => {
            let off = target_arg_x(args, 0, n, syms, pc)?;
            make_x(op, link, 0, 0, aux, off)
        },
        Shape::Ret => Ok(Instruction::Jalr { rd: REG_ZERO, rs1: REG_RA, offset: 0 }),
        Shape::Bare => make_x(op, 0, 0, 0, aux, 0),
        Shape::CsrRead => {
            let rd = reg_arg_x(args, 0, name, n)?;
            let c = csr_arg_x(args, 1, n)?;
            Ok(Instruction::CsrR { rd, csr: c })
        },
        Shape::CsrWrite => {
            let c = csr_arg_x(args, 0, n)?;
            let rs1 = reg_arg_x(args, 1, name, n)?;
            Ok(Instruction::CsrW { csr: c, rs1 })
        },
    }
}

/// Parses the instruction `text` on line `n` at index `pc`.
fn parse_instruction(syms: &Vec<(Vec<char>, u64)>, n: usize, pc: u64, text: &[char]) -> (r: Result<Instruction, String>)
    ensures
        match instruction_of(text@, syms_view(syms@), n as nat, pc) {
            Ok(x) => r == Ok::<Instruction, String>(x),
            Err(m) => r matches Err(e) && e@ == m,
        },
{
    reveal(instruction_of);
    let (h, a) = head_and_rest(text);
    let m = trim_chars(h.as_slice());
    let args = arg_list_x(a.as_slice());
    match mnemonic(m.as_slice()) {
        Some(e) => operands_x(e, &args, syms, n, pc),
        None => {
            let mut e = String::new();
            push_at_line(&mut e, n);
            e.append("unknown instruction '");
            push_chars(&mut e, m.as_slice());
            e.append("'");
            Err(e)
        },
    }
}


// ─── Passes ─────────────────────────────────────────────────────────────────

/// The data directives, which may not appear in the text section.
pub open spec fn is_data_dir_name(d: Seq<char>) -> bool {
    d == ".ascii"@ || d == ".asciiz"@ || d == ".byte"@ || d == ".half"@ || d == ".word"@ || d
        == ".dword"@ || d == ".quad"@ || d == ".zero"@ || d == ".align"@
}

/// Pass 1 on line `n` (`raw`): section switches, labels, instruction
/// counting and data layout; the layout after it and the error, if any.
pub open spec fn line1(st: Layout, n: nat, raw: Seq<char>) -> (Layout, Option<Seq<char>>) {
    let line = clean_line(raw);
    if line.len() == 0 {
        (st, None)
    } else if line[0] == '.' {
        let d = head(line);
        if d == ".text"@ {
            (Layout { in_text: true, ..st }, None)
        } else if d == ".data"@ {
            (Layout { in_text: false, ..st }, None)
        } else if is_data_dir_name(d) && st.in_text {
            (st, Some(at_line(n) + "data directive '"@ + d + "' found inside .text section"@))
        } else {
            (st, None)
        }
    } else {
        let (label, rest) = split_label(line);
        let st1 = match label {
            Some(l) => Layout {
                syms: sym_insert(
                    st.syms,
                    l,
                    if st.in_text {
                        st.code as u64
                    } else {
                        st.addr
                    },
                ),
                ..st
            },
            None => st,
        };
        if rest.len() == 0 {
            (st1, None)
        } else if st1.in_text {
            (Layout { code: st1.code + 1, ..st1 }, None)
        } else {
            match data_directive(st1, n, rest) {
                Ok(st2) => (st2, None),
                Err(m) => (st1, Some(m)),
            }
        }
    }
}

/// Pass 1 over `lines` from index `i` on, stopping at the first error.
pub open spec fn pass1(lines: Seq<Seq<char>>, i: int, st: Layout) -> (Layout, Option<Seq<char>>)
    decreases lines.len() - i,
{
    if i < 0 || i >= lines.len() {
        (st, None)
    } else {
        let (st2, e) = line1(st, (i + 1) as nat, lines[i]);
        match e {
            Some(m) => (st2, Some(m)),
            None => pass1(lines, i + 1, st2),
        }
    }
}

/// Pass 2 on line `n`: the section after it and the instruction it holds,
/// if it holds one (or the error in it).
pub open spec fn line2(syms: Symbols, in_text: bool, pc: u64, n: nat, raw: Seq<char>) -> (bool, Option<Result<Instruction, Seq<char>>>) {
    let line = clean_line(raw);
    if line.len() == 0 {
        (in_text, None)
    } else if line[0] == '.' {
        let d = head(line);
        if d == ".text"@ {
            (true, None)
        } else if d == ".data"@ {
            (false, None)
        } else {
            (in_text, None)
        }
    } else {
        let rest = split_label(line).1;
        if rest.len() == 0 || !in_text {
            (in_text, None)
        } else {
            (in_text, Some(instruction_of(rest, syms, n, pc)))
        }
    }
}

/// Pass 2 over `lines` from index `i` on, after the instructions `code`.
pub open spec fn pass2(lines: Seq<Seq<char>>, i: int, syms: Symbols, in_text: bool, code: Seq<Instruction>) -> Result<Seq<Instruction>, Seq<char>>
    decreases lines.len() - i,
{
    if i < 0 || i >= lines.len() {
        Ok(code)
    } else {
        let (t2, r) = line2(syms, in_text, code.len() as u64, (i + 1) as nat, lines[i]);
        match r {
            None => pass2(lines, i + 1, syms, t2, code),
            Some(Ok(inst)) => pass2(lines, i + 1, syms, t2, code.push(inst)),
            Some(Err(m)) => Err(m),
        }
    }
}

/// The entry point: label `_start`, else `main`, else 0.
pub open spec fn entry_of(syms: Symbols) -> u64 {
    match sym_get(syms, "_start"@) {
        Some(v) => v,
        None => match sym_get(syms, "main"@) {
            Some(v) => v,
            None => 0,
        },
    }
}

/// The symbol table held by a vector of names and values.
pub open spec fn string_syms(v: Seq<(String, u64)>) -> Symbols {
    v.map_values(|p: (String, u64)| (p.0@, p.1))
}

/// An assembled program: its instructions, data segments (address and
/// bytes), entry point (an instruction index) and labels.
#[derive(Debug)]
pub struct AssembledProgram {
    pub instructions: Vec<Instruction>,
    pub data_segment: Vec<(u64, Vec<u8>)>,
    pub entry_point: u64,
    pub symbols: Vec<(String, u64)>,
}

impl AssembledProgram {
    /// The value of label `name`.
    pub fn symbol(&self, name: &str) -> (r: Option<u64>)
        ensures
            r == sym_get(string_syms(self.symbols@), name@),
    {
        let mut i: usize = 0;
        let ghost t = string_syms(self.symbols@);
        assert(t.subrange(0, t.len() as int) =~= t);
        while i < self.symbols.len()
            invariant
                i <= self.symbols@.len() == t.len(),
                t == string_syms(self.symbols@),
                sym_find(t, name@) == match sym_find(t.subrange(i as int, t.len() as int), name@) {
                    Some(k) => Some(k + i),
                    None => None::<int>,
                },
            decreases self.symbols@.len() - i,
        {
            assert(t.subrange(i as int, t.len() as int).drop_first() =~= t.subrange(i + 1, t.len() as int));
            assert(t.subrange(i as int, t.len() as int)[0] == t[i as int]);
            let cs = chars_of(self.symbols[i].0.as_str());
            if eq_chars(cs.as_slice(), chars_of(name).as_slice()) {
                return Some(self.symbols[i].1);
            }
            i = i + 1;
        }
        assert(t.subrange(i as int, t.len() as int).len() == 0);
        None
    }
}


fn is_data_dir(d: &[char]) -> (r: bool)
    ensures
        r == is_data_dir_name(d@),
{
    eq_str(d, ".ascii") || eq_str(d, ".asciiz") || eq_str(d, ".byte") || eq_str(d, ".half")
        || eq_str(d, ".word") || eq_str(d, ".dword") || eq_str(d, ".quad") || eq_str(d, ".zero")
        || eq_str(d, ".align")
}

/// A copy of the data segments.
fn copy_segments(d: &Vec<(u64, Vec<u8>)>) -> (r: Vec<(u64, Vec<u8>)>)
    ensures
        segs_view(r@) == segs_view(d@),
{
    let mut out: Vec<(u64, Vec<u8>)> = Vec::new();
    let mut i: usize = 0;
    while i < d.len()
        invariant
            i <= d@.len(),
            out@.len() == i,
            forall|k: int| 0 <= k < i ==> out@[k].0 == d@[k].0 && out@[k].1@ == d@[k].1@,
        decreases d@.len() - i,
    {
        let bytes = vstd::slice::slice_to_vec(d[i].1.as_slice());
        out.push((d[i].0, bytes));
        i = i + 1;
    }
    assert(segs_view(out@) =~= segs_view(d@));
    out
}

/// The labels as named strings.
fn named_symbols(syms: &Vec<(Vec<char>, u64)>) -> (r: Vec<(String, u64)>)
    ensures
        string_syms(r@) == syms_view(syms@),
{
    let mut out: Vec<(String, u64)> = Vec::new();
    let mut i: usize = 0;
    while i < syms.len()
        invariant
            i <= syms@.len(),
            out@.len() == i,
            forall|k: int| 0 <= k < i ==> out@[k].0@ == syms@[k].0@ && out@[k].1 == syms@[k].1,
        decreases syms@.len() - i,
    {
        let name = string_of(syms[i].0.as_slice());
        out.push((name, syms[i].1));
        i = i + 1;
    }
    assert(string_syms(out@) =~= syms_view(syms@));
    out
}

impl Default for Assembler {
    /// The same as `Assembler::new`.
    fn default() -> (a: Assembler)
        ensures
            a.syms() == Seq::<(Seq<char>, u64)>::empty(),
            a.segs() == Seq::<(u64, Seq<u8>)>::empty(),
            a.addr() == DATA_START,
    {
        Assembler::new()
    }
}

impl Assembler {
    /// Pass 1 on one line.
    fn pass1_line(&mut self, in_text: &mut bool, code: &mut u64, n: usize, raw: &[char]) -> (r: Result<(), String>)
        requires
            *old(code) < u64::MAX,
        ensures
            ({
                let (st2, e) = line1(old(self).layout(*old(in_text), *old(code) as nat), n as nat, raw@);
                &&& final(self).layout(*final(in_text), *final(code) as nat) == st2
                &&& *final(code) <= *old(code) + 1
                &&& match e {
                    Some(m) => r matches Err(x) && x@ == m,
                    None => r is Ok,
                }
            }),
    {
        let line = clean_line_chars(raw);
        if line.len() == 0 {
            return Ok(());
        }
        if line[0] == '.' {
            let (d, _) = head_and_rest(line.as_slice());
            if eq_str(d.as_slice(), ".text") {
                *in_text = true;
            } else if eq_str(d.as_slice(), ".data") {
                *in_text = false;
            } else if is_data_dir(d.as_slice()) && *in_text {
                let mut e = String::new();
                push_at_line(&mut e, n);
                e.append("data directive '");
                push_chars(&mut e, d.as_slice());
                e.append("' found inside .text section");
                return Err(e);
            }
            return Ok(());
        }
        let (label, rest) = split_label_chars(line.as_slice());
        if let Some(l) = label {
            let v = if *in_text {
                *code
            } else {
                self.current_data_addr
            };
            sym_set(&mut self.symbols, l, v);
        }
        if rest.len() == 0 {
            return Ok(());
        }
        if *in_text {
            *code = *code + 1;
            Ok(())
        } else {
            self.process_data_directive(n, rest.as_slice())
        }
    }

    /// Pass 2 on one line.
    fn pass2_line(&self, in_text: &mut bool, code: &mut Vec<Instruction>, n: usize, raw: &[char]) -> (r: Result<(), String>)
        ensures
            ({
                let (t2, res) = line2(self.syms(), *old(in_text), old(code)@.len() as u64, n as nat, raw@);
                &&& *final(in_text) == t2
                &&& match res {
                    None => r is Ok && final(code)@ == old(code)@,
                    Some(Ok(inst)) => r is Ok && final(code)@ == old(code)@.push(inst),
                    Some(Err(m)) => r matches Err(x) && x@ == m && final(code)@ == old(code)@,
                }
            }),
    {
        let line = clean_line_chars(raw);
        if line.len() == 0 {
            return Ok(());
        }
        if line[0] == '.' {
            let (d, _) = head_and_rest(line.as_slice());
            if eq_str(d.as_slice(), ".text") {
                *in_text = true;
            } else if eq_str(d.as_slice(), ".data") {
                *in_text = false;
            }
            return Ok(());
        }
        let (_, rest) = split_label_chars(line.as_slice());
        if rest.len() == 0 || !*in_text {
            return Ok(());
        }
        let pc = code.len() as u64;
        let inst = parse_instruction(&self.symbols, n, pc, rest.as_slice())?;
        code.push(inst);
        Ok(())
    }

    /// Assembles `source`. Pass 1 records labels and lays out data into the
    /// assembler (what it did before an error stays), pass 2 builds the
    /// instructions; the first error in either pass is returned.
    pub fn assemble(&mut self, source: &str) -> (r: Result<AssembledProgram, String>)
        ensures
            ({
                let lines = split(source@, '\n');
                let p1 = pass1(lines, 0, old(self).layout(true, 0));
                &&& final(self).syms() == p1.0.syms
                &&& final(self).segs() == p1.0.segs
                &&& final(self).addr() == p1.0.addr
                &&& match p1.1 {
                    Some(m) => r matches Err(e) && e@ == m,
                    None => match pass2(lines, 0, p1.0.syms, true, Seq::empty()) {
                        Err(m) => r matches Err(e) && e@ == m,
                        Ok(code) => r matches Ok(p) && p.instructions@ == code && segs_view(
                            p.data_segment@,
                        ) == p1.0.segs && p.entry_point == entry_of(p1.0.syms) && string_syms(
                            p.symbols@,
                        ) == p1.0.syms,
                    },
                }
            }),
    {
        let src = chars_of(source);
        let lines = split_chars(src.as_slice(), '\n');
        let ghost ls = split(source@, '\n');
        let ghost init = self.layout(true, 0);
        let mut in_text = true;
        let mut code_addr: u64 = 0;
        let mut i: usize = 0;
        let mut failed: Option<String> = None;
        while i < lines.len() && failed.is_none()
            invariant
                views(lines@) == ls,
                i <= lines@.len(),
                code_addr <= i,
                init == old(self).layout(true, 0),
                match failed {
                    None => pass1(ls, 0, init) == pass1(ls, i as int, self.layout(in_text, code_addr as nat)),
                    Some(e) => pass1(ls, 0, init) == (self.layout(in_text, code_addr as nat), Some(e@)),
                },
            decreases lines@.len() - i + (if failed is None { 1int } else { 0int }),
        {
            assert(lines@[i as int]@ == ls[i as int]);
            let r = self.pass1_line(&mut in_text, &mut code_addr, i + 1, lines[i].as_slice());
            match r {
                Err(e) => {
                    failed = Some(e);
                },
                Ok(()) => {
                    i = i + 1;
                },
            }
        }
        if let Some(e) = failed {
            return Err(e);
        }
        let mut instructions: Vec<Instruction> = Vec::new();
        in_text = true;
        let ghost syms = self.syms();
        let mut j: usize = 0;
        let mut bad: Option<String> = None;
        while j < lines.len() && bad.is_none()
            invariant
                views(lines@) == ls,
                j <= lines@.len(),
                instructions@.len() <= j,
                syms == self.syms(),
                match bad {
                    None => pass2(ls, 0, syms, true, Seq::empty()) == pass2(ls, j as int, syms, in_text, instructions@),
                    Some(e) => pass2(ls, 0, syms, true, Seq::empty()) == Err::<Seq<Instruction>, Seq<char>>(e@),
                },
            decreases lines@.len() - j + (if bad is None { 1int } else { 0int }),
        {
            assert(lines@[j as int]@ == ls[j as int]);
            let r = self.pass2_line(&mut in_text, &mut instructions, j + 1, lines[j].as_slice());
            match r {
                Err(e) => {
                    bad = Some(e);
                },
                Ok(()) => {
                    j = j + 1;
                },
            }
        }
        if let Some(e) = bad {
            return Err(e);
        }
        let start = chars_of("_start");
        let main = chars_of("main");
        let entry_point = match sym_value(&self.symbols, start.as_slice()) {
            Some(v) => v,
            None => match sym_value(&self.symbols, main.as_slice()) {
                Some(v) => v,
                None => 0,
            },
        };
        Ok(AssembledProgram {
            instructions,
            data_segment: copy_segments(&self.data_bytes),
            entry_point,
            symbols: named_symbols(&self.symbols),
        })
    }
}

} // verus!
