//! Character-level text handling for the assembler: whitespace as Unicode
//! defines it, trimming, searching, splitting, ASCII case folding and
//! integer parsing with the error kinds of std's integer parsers.
use vstd::prelude::*;
use crate::text::push_char;

verus! {

// ─── Whitespace and trimming ────────────────────────────────────────────────

/// A character with the Unicode `White_Space` property (what
/// `char::is_whitespace` accepts).
pub open spec fn is_ws(c: char) -> bool {
    ||| ('\u{9}' <= c && c <= '\u{d}')
    ||| c == ' '
    ||| c == '\u{85}'
    ||| c == '\u{a0}'
    ||| c == '\u{1680}'
    ||| ('\u{2000}' <= c && c <= '\u{200a}')
    ||| c == '\u{2028}'
    ||| c == '\u{2029}'
    ||| c == '\u{202f}'
    ||| c == '\u{205f}'
    ||| c == '\u{3000}'
}

/// `s` without its leading whitespace.
pub open spec fn trim_start(s: Seq<char>) -> Seq<char>
    decreases s.len(),
{
    if s.len() > 0 && is_ws(s[0]) {
        trim_start(s.drop_first())
    } else {
        s
    }
}

/// `s` without its trailing whitespace.
pub open spec fn trim_end(s: Seq<char>) -> Seq<char>
    decreases s.len(),
{
    if s.len() > 0 && is_ws(s.last()) {
        trim_end(s.drop_last())
    } else {
        s
    }
}

/// `s` without leading and trailing whitespace.
pub open spec fn trim(s: Seq<char>) -> Seq<char> {
    trim_end(trim_start(s))
}

/// Whether `c` is whitespace.
pub fn is_whitespace(c: char) -> (r: bool)
    ensures
        r == is_ws(c),
{
    ('\u{9}' <= c && c <= '\u{d}') || c == ' ' || c == '\u{85}' || c == '\u{a0}' || c
        == '\u{1680}' || ('\u{2000}' <= c && c <= '\u{200a}') || c == '\u{2028}' || c
        == '\u{2029}' || c == '\u{202f}' || c == '\u{205f}' || c == '\u{3000}'
}

/// The characters of `s`, in order.
pub fn chars_of(s: &str) -> (r: Vec<char>)
    ensures
        r@ == s@,
{
    broadcast use vstd::string::group_string_axioms;

    let mut out: Vec<char> = Vec::new();
    for c in it: s.chars()
        invariant
            out@ == it.seq().take(it.index()),
    {
        out.push(c);
    }
    out
}

/// A copy of `s[from..to]`.
pub fn slice_chars(s: &[char], from: usize, to: usize) -> (r: Vec<char>)
    requires
        from <= to <= s@.len(),
    ensures
        r@ == s@.subrange(from as int, to as int),
{
    let mut out: Vec<char> = Vec::new();
    let mut i = from;
    while i < to
        invariant
            from <= i <= to <= s@.len(),
            out@ == s@.subrange(from as int, i as int),
        decreases to - i,
    {
        out.push(s[i]);
        i = i + 1;
    }
    out
}

/// `s` with leading and trailing whitespace removed.
pub fn trim_chars(s: &[char]) -> (r: Vec<char>)
    ensures
        r@ == trim(s@),
{
    let n = s.len();
    let mut i: usize = 0;
    assert(s@.subrange(0, n as int) =~= s@);
    while i < n && is_whitespace(s[i])
        invariant
            i <= n == s@.len(),
            trim_start(s@) == trim_start(s@.subrange(i as int, n as int)),
        decreases n - i,
    {
        assert(s@.subrange(i as int, n as int).drop_first() =~= s@.subrange(i + 1, n as int));
        i = i + 1;
    }
    assert(trim_start(s@.subrange(i as int, n as int)) == s@.subrange(i as int, n as int));
    let mut j: usize = n;
    while j > i && is_whitespace(s[j - 1])
        invariant
            i <= j <= n == s@.len(),
            trim(s@) == trim_end(s@.subrange(i as int, j as int)),
        decreases j - i,
    {
        assert(s@.subrange(i as int, j as int).drop_last() =~= s@.subrange(i as int, j - 1));
        j = j - 1;
    }
    slice_chars(s, i, j)
}

// ─── Searching ──────────────────────────────────────────────────────────────

/// Index of the first `c` in `s`, if any.
pub open spec fn find(s: Seq<char>, c: char) -> Option<int>
    decreases s.len(),
{
    if s.len() == 0 {
        None
    } else if s[0] == c {
        Some(0)
    } else {
        match find(s.drop_first(), c) {
            Some(i) => Some(i + 1),
            None => None,
        }
    }
}

/// Index of the last `c` in `s`, if any.
pub open spec fn rfind(s: Seq<char>, c: char) -> Option<int>
    decreases s.len(),
{
    if s.len() == 0 {
        None
    } else if s.last() == c {
        Some(s.len() - 1)
    } else {
        rfind(s.drop_last(), c)
    }
}

/// Index of the first occurrence of the pair `a b` in `s`, if any.
pub open spec fn find_pair(s: Seq<char>, a: char, b: char) -> Option<int>
    decreases s.len(),
{
    if s.len() < 2 {
        None
    } else if s[0] == a && s[1] == b {
        Some(0)
    } else {
        match find_pair(s.drop_first(), a, b) {
            Some(i) => Some(i + 1),
            None => None,
        }
    }
}

/// Index of the first whitespace character of `s`, if any.
pub open spec fn find_ws(s: Seq<char>) -> Option<int>
    decreases s.len(),
{
    if s.len() == 0 {
        None
    } else if is_ws(s[0]) {
        Some(0)
    } else {
        match find_ws(s.drop_first()) {
            Some(i) => Some(i + 1),
            None => None,
        }
    }
}

proof fn lemma_find_step(s: Seq<char>, c: char, i: int)
    requires
        0 <= i < s.len(),
        s[i] != c,
    ensures
        find(s.subrange(i, s.len() as int), c) == match find(s.subrange(i + 1, s.len() as int), c) {
            Some(k) => Some(k + 1),
            None => None::<int>,
        },
{
    assert(s.subrange(i, s.len() as int).drop_first() =~= s.subrange(i + 1, s.len() as int));
}

/// Index of the first `c` in `s`.
pub fn find_char(s: &[char], c: char) -> (r: Option<usize>)
    ensures
        match find(s@, c) {
            Some(i) => r matches Some(j) && j == i,
            None => r is None,
        },
        r matches Some(i) ==> i < s@.len(),
{
    let n = s.len();
    let mut i: usize = 0;
    assert(s@.subrange(0, n as int) =~= s@);
    while i < n
        invariant
            i <= n == s@.len(),
            find(s@, c) == match find(s@.subrange(i as int, n as int), c) {
                Some(k) => Some(k + i),
                None => None::<int>,
            },
        decreases n - i,
    {
        if s[i] == c {
            return Some(i);
        }
        proof {
            lemma_find_step(s@, c, i as int);
        }
        i = i + 1;
    }
    assert(s@.subrange(n as int, n as int).len() == 0);
    None
}

/// Index of the last `c` in `s`.
pub fn rfind_char(s: &[char], c: char) -> (r: Option<usize>)
    ensures
        match rfind(s@, c) {
            Some(i) => r matches Some(j) && j == i,
            None => r is None,
        },
{
    let mut j: usize = s.len();
    assert(s@.subrange(0, j as int) =~= s@);
    while j > 0
        invariant
            j <= s@.len(),
            rfind(s@, c) == rfind(s@.subrange(0, j as int), c),
        decreases j,
    {
        if s[j - 1] == c {
            return Some(j - 1);
        }
        assert(s@.subrange(0, j as int).drop_last() =~= s@.subrange(0, j - 1));
        j = j - 1;
    }
    None
}

/// Index of the first occurrence of the pair `a b` in `s`.
pub fn find_pair_chars(s: &[char], a: char, b: char) -> (r: Option<usize>)
    ensures
        match find_pair(s@, a, b) {
            Some(i) => r matches Some(j) && j == i,
            None => r is None,
        },
{
    let n = s.len();
    let mut i: usize = 0;
    assert(s@.subrange(0, n as int) =~= s@);
    while n >= 2 && i < n - 1
        invariant
            i <= n == s@.len(),
            find_pair(s@, a, b) == match find_pair(s@.subrange(i as int, n as int), a, b) {
                Some(k) => Some(k + i),
                None => None::<int>,
            },
        decreases n - i,
    {
        if s[i] == a && s[i + 1] == b {
            return Some(i);
        }
        assert(s@.subrange(i as int, n as int).drop_first() =~= s@.subrange(i + 1, n as int));
        i = i + 1;
    }
    assert(s@.subrange(i as int, n as int).len() < 2);
    None
}

/// Index of the first whitespace character of `s`.
pub fn find_ws_chars(s: &[char]) -> (r: Option<usize>)
    ensures
        match find_ws(s@) {
            Some(i) => r matches Some(j) && j == i,
            None => r is None,
        },
        r matches Some(i) ==> i < s@.len(),
{
    let n = s.len();
    let mut i: usize = 0;
    assert(s@.subrange(0, n as int) =~= s@);
    while i < n
        invariant
            i <= n == s@.len(),
            find_ws(s@) == match find_ws(s@.subrange(i as int, n as int)) {
                Some(k) => Some(k + i),
                None => None::<int>,
            },
        decreases n - i,
    {
        if is_whitespace(s[i]) {
            return Some(i);
        }
        assert(s@.subrange(i as int, n as int).drop_first() =~= s@.subrange(i + 1, n as int));
        i = i + 1;
    }
    assert(s@.subrange(n as int, n as int).len() == 0);
    None
}

// ─── Case folding ───────────────────────────────────────────────────────────

/// `c` lowercased, as far as it matters for ASCII words: `A`..`Z` become
/// `a`..`z` and the Kelvin sign becomes `k` (Unicode lowercases it so);
/// every other character is left alone. Other characters lowercase to
/// non-ASCII text, so they never match an ASCII word either way.
pub open spec fn fold(c: char) -> char {
    if 'A' <= c && c <= 'Z' {
        ((c as u32) + 32) as char
    } else if c == '\u{212a}' {
        'k'
    } else {
        c
    }
}

/// `s` matches the lowercase ASCII word `w` without regard to case.
pub open spec fn eq_fold(s: Seq<char>, w: Seq<char>) -> bool {
    s.len() == w.len() && forall|i: int| 0 <= i < s.len() ==> #[trigger] fold(s[i]) == w[i]
}

/// `c` lowercased as `fold` says.
pub fn fold_char(c: char) -> (r: char)
    ensures
        r == fold(c),
{
    if 'A' <= c && c <= 'Z' {
        let r = ((c as u32) + 32) as u8 as char;
        assert(r == ((c as u32) + 32) as char);
        r
    } else if c == '\u{212a}' {
        'k'
    } else {
        c
    }
}

/// Whether `s` matches the lowercase ASCII word `w` without regard to case.
pub fn eq_fold_str(s: &[char], w: &str) -> (r: bool)
    ensures
        r == eq_fold(s@, w@),
{
    let n = w.unicode_len();
    if s.len() != n {
        return false;
    }
    let mut i: usize = 0;
    while i < n
        invariant
            i <= n == s@.len() == w@.len(),
            forall|k: int| 0 <= k < i ==> #[trigger] fold(s@[k]) == w@[k],
        decreases n - i,
    {
        if fold_char(s[i]) != w.get_char(i) {
            return false;
        }
        i = i + 1;
    }
    true
}

/// Whether `s` equals the text `w`.
pub fn eq_str(s: &[char], w: &str) -> (r: bool)
    ensures
        r == (s@ == w@),
{
    let n = w.unicode_len();
    if s.len() != n {
        return false;
    }
    let mut i: usize = 0;
    while i < n
        invariant
            i <= n == s@.len() == w@.len(),
            forall|k: int| 0 <= k < i ==> s@[k] == w@[k],
        decreases n - i,
    {
        if s[i] != w.get_char(i) {
            return false;
        }
        i = i + 1;
    }
    assert(s@ =~= w@);
    true
}

/// Whether two character sequences are equal.
pub fn eq_chars(a: &[char], b: &[char]) -> (r: bool)
    ensures
        r == (a@ == b@),
{
    if a.len() != b.len() {
        return false;
    }
    let mut i: usize = 0;
    while i < a.len()
        invariant
            i <= a@.len() == b@.len(),
            forall|k: int| 0 <= k < i ==> a@[k] == b@[k],
        decreases a@.len() - i,
    {
        if a[i] != b[i] {
            return false;
        }
        i = i + 1;
    }
    assert(a@ =~= b@);
    true
}

/// Appends the characters of `cs` to `s`.
pub fn push_chars(s: &mut String, cs: &[char])
    ensures
        final(s)@ == old(s)@ + cs@,
{
    let mut i: usize = 0;
    while i < cs.len()
        invariant
            i <= cs@.len(),
            s@ == old(s)@ + cs@.subrange(0, i as int),
        decreases cs@.len() - i,
    {
        push_char(s, cs[i]);
        assert(cs@.subrange(0, i + 1) =~= cs@.subrange(0, i as int).push(cs@[i as int]));
        i = i + 1;
    }
    assert(cs@.subrange(0, cs@.len() as int) =~= cs@);
}

/// A `String` holding the characters of `cs`.
pub fn string_of(cs: &[char]) -> (s: String)
    ensures
        s@ == cs@,
{
    let mut s = String::new();
    push_chars(&mut s, cs);
    s
}


// ─── Splitting ──────────────────────────────────────────────────────────────

pub proof fn lemma_find_bounds(s: Seq<char>, c: char)
    ensures
        find(s, c) matches Some(i) ==> 0 <= i < s.len() && s[i] == c,
        find(s, c) is None ==> forall|k: int| 0 <= k < s.len() ==> s[k] != c,
    decreases s.len(),
{
    if s.len() > 0 && s[0] != c {
        lemma_find_bounds(s.drop_first(), c);
        if find(s, c) is None {
            assert forall|k: int| 0 <= k < s.len() implies s[k] != c by {
                if k > 0 {
                    assert(s[k] == s.drop_first()[k - 1]);
                }
            }
        }
    }
}

/// The pieces of `s` between the occurrences of `c` (one piece when `c`
/// does not occur; empty pieces kept).
pub open spec fn split(s: Seq<char>, c: char) -> Seq<Seq<char>>
    decreases s.len(),
{
    match find(s, c) {
        None => seq![s],
        Some(i) => {
            proof {
                lemma_find_bounds(s, c);
            }
            seq![s.subrange(0, i)] + split(s.subrange(i + 1, s.len() as int), c)
        },
    }
}

/// The character sequences held by a sequence of vectors.
pub open spec fn views(v: Seq<Vec<char>>) -> Seq<Seq<char>> {
    v.map_values(|x: Vec<char>| x@)
}

/// The pieces of `s` between the occurrences of `c`.
pub fn split_chars(s: &[char], c: char) -> (r: Vec<Vec<char>>)
    ensures
        views(r@) == split(s@, c),
{
    let mut out: Vec<Vec<char>> = Vec::new();
    let mut rest = slice_chars(s, 0, s.len());
    assert(rest@ =~= s@);
    assert(views(out@) =~= Seq::<Seq<char>>::empty());
    assert(split(s@, c) =~= views(out@) + split(rest@, c));
    loop
        invariant
            split(s@, c) == views(out@) + split(rest@, c),
        decreases rest@.len(),
    {
        proof {
            lemma_find_bounds(rest@, c);
        }
        let found = find_char(rest.as_slice(), c);
        match found {
            None => {
                let ghost before = out@;
                out.push(rest);
                assert(views(out@) =~= views(before) + seq![rest@]);
                return out;
            },
            Some(i) => {
                let rl = rest.len();
                assert(i < rl);
                let piece = slice_chars(rest.as_slice(), 0, i);
                let tail = slice_chars(rest.as_slice(), i + 1, rl);
                let ghost before = out@;
                out.push(piece);
                assert(views(out@) =~= views(before) + seq![piece@]);
                rest = tail;
            },
        }
    }
}

// ─── Integers ───────────────────────────────────────────────────────────────

/// Why a string is not an integer of the requested type, as std's integer
/// parsers classify it.
#[derive(Clone, Copy, Debug, PartialEq, Eq, Structural)]
pub enum IntErr {
    Empty,
    InvalidDigit,
    PosOverflow,
    NegOverflow,
}

/// The message std gives for each kind of integer parse error.
pub open spec fn int_err_msg(e: IntErr) -> Seq<char> {
    match e {
        IntErr::Empty => "cannot parse integer from empty string"@,
        IntErr::InvalidDigit => "invalid digit found in string"@,
        IntErr::PosOverflow => "number too large to fit in target type"@,
        IntErr::NegOverflow => "number too small to fit in target type"@,
    }
}

/// The value of digit `c` in base `radix` (2..=36), if it is one.
pub open spec fn digit_of(c: char, radix: nat) -> Option<nat> {
    let v: int = if '0' <= c && c <= '9' {
        c as int - '0' as int
    } else if 'a' <= c && c <= 'z' {
        c as int - 'a' as int + 10
    } else if 'A' <= c && c <= 'Z' {
        c as int - 'A' as int + 10
    } else {
        36
    };
    if v < radix {
        Some(v as nat)
    } else {
        None
    }
}

/// Reads the digits `ds` left to right onto `acc` (subtracting each digit
/// when `neg`), failing at the first non-digit or at the first prefix whose
/// value leaves `lo..=hi`.
pub open spec fn scan_digits(ds: Seq<char>, radix: nat, neg: bool, lo: int, hi: int, acc: int) -> Result<int, IntErr>
    decreases ds.len(),
{
    if ds.len() == 0 {
        Ok(acc)
    } else {
        match digit_of(ds[0], radix) {
            None => Err(IntErr::InvalidDigit),
            Some(d) => {
                let a2 = if neg {
                    acc * radix - d
                } else {
                    acc * radix + d
                };
                if a2 > hi {
                    Err(IntErr::PosOverflow)
                } else if a2 < lo {
                    Err(IntErr::NegOverflow)
                } else {
                    scan_digits(ds.drop_first(), radix, neg, lo, hi, a2)
                }
            },
        }
    }
}

/// `s` read as an integer in base `radix` within `lo..=hi`: an optional
/// `+` (or `-` when `lo` is negative) and at least one digit, as
/// `from_str_radix` of std's integer types reads it.
pub open spec fn parse_int(s: Seq<char>, radix: nat, lo: int, hi: int) -> Result<int, IntErr> {
    if s.len() == 0 {
        Err(IntErr::Empty)
    } else if (s[0] == '+' || s[0] == '-') && s.len() == 1 {
        Err(IntErr::InvalidDigit)
    } else if s[0] == '+' {
        scan_digits(s.drop_first(), radix, false, lo, hi, 0)
    } else if s[0] == '-' && lo < 0 {
        scan_digits(s.drop_first(), radix, true, lo, hi, 0)
    } else {
        scan_digits(s, radix, false, lo, hi, 0)
    }
}

fn digit_value(c: char, radix: u32) -> (r: Option<u32>)
    requires
        2 <= radix <= 36,
    ensures
        match digit_of(c, radix as nat) {
            Some(d) => r == Some(d as u32),
            None => r is None,
        },
{
    let v: u32 = if '0' <= c && c <= '9' {
        (c as u32) - ('0' as u32)
    } else if 'a' <= c && c <= 'z' {
        (c as u32) - ('a' as u32) + 10
    } else if 'A' <= c && c <= 'Z' {
        (c as u32) - ('A' as u32) + 10
    } else {
        36
    };
    if v < radix {
        Some(v)
    } else {
        None
    }
}

proof fn lemma_scan_bounds(ds: Seq<char>, radix: nat, neg: bool, lo: int, hi: int, acc: int)
    requires
        lo <= acc <= hi,
    ensures
        scan_digits(ds, radix, neg, lo, hi, acc) matches Ok(v) ==> lo <= v <= hi,
    decreases ds.len(),
{
    if ds.len() > 0 {
        if let Some(d) = digit_of(ds[0], radix) {
            let a2 = if neg {
                acc * radix - d
            } else {
                acc * radix + d
            };
            if lo <= a2 <= hi {
                lemma_scan_bounds(ds.drop_first(), radix, neg, lo, hi, a2);
            }
        }
    }
}

/// A parsed integer lies within the requested bounds.
pub proof fn lemma_parse_int_bounds(s: Seq<char>, radix: nat, lo: int, hi: int)
    requires
        lo <= 0 <= hi,
    ensures
        parse_int(s, radix, lo, hi) matches Ok(v) ==> lo <= v <= hi,
{
    if s.len() > 0 {
        lemma_scan_bounds(s.drop_first(), radix, false, lo, hi, 0);
        lemma_scan_bounds(s.drop_first(), radix, true, lo, hi, 0);
        lemma_scan_bounds(s, radix, false, lo, hi, 0);
    }
}

/// Parses `s` as an integer in base `radix` within `lo..=hi`.
pub fn parse_int_chars(s: &[char], radix: u32, lo: i128, hi: i128) -> (r: Result<i128, IntErr>)
    requires
        2 <= radix <= 16,
        -0x8000_0000_0000_0000 <= lo <= 0 < hi <= 0xffff_ffff_ffff_ffff,
    ensures
        match parse_int(s@, radix as nat, lo as int, hi as int) {
            Ok(v) => r == Ok::<i128, IntErr>(v as i128) && lo <= v <= hi,
            Err(e) => r == Err::<i128, IntErr>(e),
        },
{
    proof {
        lemma_parse_int_bounds(s@, radix as nat, lo as int, hi as int);
    }
    let n = s.len();
    if n == 0 {
        return Err(IntErr::Empty);
    }
    if (s[0] == '+' || s[0] == '-') && n == 1 {
        return Err(IntErr::InvalidDigit);
    }
    let (start, neg): (usize, bool) = if s[0] == '+' {
        (1, false)
    } else if s[0] == '-' && lo < 0 {
        (1, true)
    } else {
        (0, false)
    };
    let ghost ds = s@.subrange(start as int, n as int);
    assert(start == 1 ==> ds =~= s@.drop_first());
    assert(start == 0 ==> ds =~= s@);
    let mut acc: i128 = 0;
    let mut i = start;
    while i < n
        invariant
            start <= i <= n == s@.len(),
            2 <= radix <= 16,
            -0x8000_0000_0000_0000 <= lo <= 0 < hi <= 0xffff_ffff_ffff_ffff,
            lo <= acc <= hi,
            parse_int(s@, radix as nat, lo as int, hi as int) == scan_digits(ds, radix as nat, neg, lo as int, hi as int, 0),
            scan_digits(ds, radix as nat, neg, lo as int, hi as int, 0) == scan_digits(
                s@.subrange(i as int, n as int),
                radix as nat,
                neg,
                lo as int,
                hi as int,
                acc as int,
            ),
        decreases n - i,
    {
        assert(s@.subrange(i as int, n as int).drop_first() =~= s@.subrange(i + 1, n as int));
        assert(s@.subrange(i as int, n as int)[0] == s@[i as int]);
        let d = match digit_value(s[i], radix) {
            Some(d) => d,
            None => {
                return Err(IntErr::InvalidDigit);
            },
        };
        assert(-0x8000_0000_0000_0000 * 16 <= acc * (radix as i128) <= 0xffff_ffff_ffff_ffff * 16) by (nonlinear_arith)
            requires
                -0x8000_0000_0000_0000 <= acc <= 0xffff_ffff_ffff_ffff,
                2 <= radix <= 16,
        ;
        let a2 = if neg {
            acc * (radix as i128) - (d as i128)
        } else {
            acc * (radix as i128) + (d as i128)
        };
        if a2 > hi {
            return Err(IntErr::PosOverflow);
        }
        if a2 < lo {
            return Err(IntErr::NegOverflow);
        }
        acc = a2;
        i = i + 1;
    }
    Ok(acc)
}


// ─── UTF-8 ──────────────────────────────────────────────────────────────────

/// Appends the UTF-8 encoding of `c`.
pub fn push_utf8(out: &mut Vec<u8>, c: char)
    ensures
        final(out)@ == old(out)@ + vstd::utf8::encode_scalar(c as u32),
{
    let s = c as u32;
    proof {
        vstd::utf8::char_is_scalar(c);
    }
    if s <= 0x7f {
        out.push((s & 0x7f) as u8);
    } else if s <= 0x7ff {
        out.push(0xC0 | ((s >> 6) & 0x1F) as u8);
        out.push(0x80 | (s & 0x3F) as u8);
    } else if s <= 0xffff {
        out.push(0xE0 | ((s >> 12) & 0x0F) as u8);
        out.push(0x80 | ((s >> 6) & 0x3F) as u8);
        out.push(0x80 | (s & 0x3F) as u8);
    } else {
        out.push(0xF0 | ((s >> 18) & 0x7) as u8);
        out.push(0x80 | ((s >> 12) & 0x3F) as u8);
        out.push(0x80 | ((s >> 6) & 0x3F) as u8);
        out.push(0x80 | (s & 0x3F) as u8);
    }
}

} // verus!
