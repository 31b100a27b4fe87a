//! Register names read back as the registers they name.
use vstd::prelude::*;
use crate::isa::{abi_name, first_reg, names_reg, reg_of, x_name};
use crate::lex::{eq_fold, fold, is_ws, trim, trim_end, trim_start};
use crate::text::{dec_chars, digit_char};

verus! {

/// The register a conventional name stands for, read off its letters.
spec fn abi_index(s: Seq<char>) -> int {
    let c0 = s[0];
    let c1 = s[1] as int;
    if c0 == 'z' {
        0
    } else if c0 == 'r' {
        1
    } else if c0 == 'g' {
        3
    } else if c0 == 'f' {
        8
    } else if c0 == 'a' {
        c1 - 48 + 10
    } else if c0 == 't' {
        if s[1] == 'p' {
            4
        } else if c1 < 51 {
            c1 - 48 + 5
        } else {
            c1 - 51 + 28
        }
    } else if s[1] == 'p' {
        2
    } else if s.len() == 3 {
        s[2] as int - 48 + 26
    } else if s[1] == '1' {
        9
    } else {
        c1 - 50 + 18
    }
}

/// A character that case folding leaves alone and that is no whitespace.
spec fn plain(c: char) -> bool {
    ('a' <= c && c <= 'z') || ('0' <= c && c <= '9')
}

proof fn lemma_plain(c: char)
    requires
        plain(c),
    ensures
        fold(c) == c,
        !is_ws(c),
{
}

/// What the proofs below need of each conventional name.
proof fn lemma_abi_facts(i: int)
    requires
        0 <= i < 32,
    ensures
        2 <= abi_name(i).len() <= 4,
        abi_index(abi_name(i)) == i,
        forall|k: int| 0 <= k < abi_name(i).len() ==> plain(#[trigger] abi_name(i)[k]),
        abi_name(i)[0] != 'x',
        abi_name(i)[0] == 's' ==> abi_name(i)[1] != '0',
        abi_name(i).len() == 4 ==> i == 0,
{
    if i == 0 {
        assert(abi_name(i) =~= seq!['z', 'e', 'r', 'o']);
    } else if i == 1 {
        assert(abi_name(i) =~= seq!['r', 'a']);
    } else if i == 2 {
        assert(abi_name(i) =~= seq!['s', 'p']);
    } else if i == 3 {
        assert(abi_name(i) =~= seq!['g', 'p']);
    } else if i == 4 {
        assert(abi_name(i) =~= seq!['t', 'p']);
    } else if i == 5 {
        assert(abi_name(i) =~= seq!['t', '0']);
    } else if i == 6 {
        assert(abi_name(i) =~= seq!['t', '1']);
    } else if i == 7 {
        assert(abi_name(i) =~= seq!['t', '2']);
    } else if i == 8 {
        assert(abi_name(i) =~= seq!['f', 'p']);
    } else if i == 9 {
        assert(abi_name(i) =~= seq!['s', '1']);
    } else if i == 10 {
        assert(abi_name(i) =~= seq!['a', '0']);
    } else if i == 11 {
        assert(abi_name(i) =~= seq!['a', '1']);
    } else if i == 12 {
        assert(abi_name(i) =~= seq!['a', '2']);
    } else if i == 13 {
        assert(abi_name(i) =~= seq!['a', '3']);
    } else if i == 14 {
        assert(abi_name(i) =~= seq!['a', '4']);
    } else if i == 15 {
        assert(abi_name(i) =~= seq!['a', '5']);
    } else if i == 16 {
        assert(abi_name(i) =~= seq!['a', '6']);
    } else if i == 17 {
        assert(abi_name(i) =~= seq!['a', '7']);
    } else if i == 18 {
        assert(abi_name(i) =~= seq!['s', '2']);
    } else if i == 19 {
        assert(abi_name(i) =~= seq!['s', '3']);
    } else if i == 20 {
        assert(abi_name(i) =~= seq!['s', '4']);
    } else if i == 21 {
        assert(abi_name(i) =~= seq!['s', '5']);
    } else if i == 22 {
        assert(abi_name(i) =~= seq!['s', '6']);
    } else if i == 23 {
        assert(abi_name(i) =~= seq!['s', '7']);
    } else if i == 24 {
        assert(abi_name(i) =~= seq!['s', '8']);
    } else if i == 25 {
        assert(abi_name(i) =~= seq!['s', '9']);
    } else if i == 26 {
        assert(abi_name(i) =~= seq!['s', '1', '0']);
    } else if i == 27 {
        assert(abi_name(i) =~= seq!['s', '1', '1']);
    } else if i == 28 {
        assert(abi_name(i) =~= seq!['t', '3']);
    } else if i == 29 {
        assert(abi_name(i) =~= seq!['t', '4']);
    } else if i == 30 {
        assert(abi_name(i) =~= seq!['t', '5']);
    } else {
        assert(abi_name(i) =~= seq!['t', '6']);
    }
}

proof fn lemma_trim_plain(s: Seq<char>)
    requires
        s.len() > 0,
        forall|k: int| 0 <= k < s.len() ==> plain(#[trigger] s[k]),
    ensures
        trim(s) == s,
{
    lemma_plain(s[0]);
    lemma_plain(s[s.len() - 1]);
}

proof fn lemma_eq_fold_self(s: Seq<char>)
    requires
        forall|k: int| 0 <= k < s.len() ==> plain(#[trigger] s[k]),
    ensures
        eq_fold(s, s),
{
    assert forall|k: int| 0 <= k < s.len() implies #[trigger] fold(s[k]) == s[k] by {
        lemma_plain(s[k]);
    }
}

/// A conventional name names no register but its own.
proof fn lemma_abi_only(i: int, j: int)
    requires
        0 <= i < 32,
        0 <= j < 32,
        i != j,
    ensures
        !names_reg(abi_name(i), j),
{
    let s = abi_name(i);
    lemma_abi_facts(i);
    lemma_abi_facts(j);
    lemma_plain(s[0]);
    lemma_plain(s[1]);
    if eq_fold(s, abi_name(j)) {
        assert(fold(s[0]) == abi_name(j)[0]);
        assert(fold(s[1]) == abi_name(j)[1]);
        if s.len() >= 3 {
            lemma_plain(s[2]);
            assert(fold(s[2]) == abi_name(j)[2]);
        }
        assert(abi_index(s) == abi_index(abi_name(j)));
    }
    if eq_fold(s, x_name(j)) {
        assert(fold(s[0]) == x_name(j)[0]);
    }
    if eq_fold(s, seq!['s', '0']) {
        assert(fold(s[0]) == 's');
        assert(fold(s[1]) == '0');
    }
}

proof fn lemma_first_reg_abi(i: int, j: int)
    requires
        0 <= j <= i < 32,
    ensures
        first_reg(abi_name(i), j) == Some(i as u8),
    decreases i - j,
{
    if j == i {
        lemma_abi_facts(i);
        lemma_eq_fold_self(abi_name(i));
    } else {
        lemma_abi_only(i, j);
        lemma_first_reg_abi(i, j + 1);
    }
}

/// The register a numeric name stands for, read off its digits.
spec fn x_index(s: Seq<char>) -> int {
    if s.len() == 2 {
        s[1] as int - 48
    } else {
        (s[1] as int - 48) * 10 + (s[2] as int - 48)
    }
}

/// What the proofs below need of each numeric name.
proof fn lemma_x_facts(i: int)
    requires
        0 <= i < 32,
    ensures
        2 <= x_name(i).len() <= 3,
        x_index(x_name(i)) == i,
        forall|k: int| 0 <= k < x_name(i).len() ==> plain(#[trigger] x_name(i)[k]),
        x_name(i)[0] == 'x',
{
    reveal_with_fuel(dec_chars, 2);
    let s = x_name(i);
    if i < 10 {
        assert(s =~= seq!['x', digit_char(i)]);
    } else {
        assert(dec_chars((i / 10) as nat) == seq![digit_char(i / 10)]);
        assert(s =~= seq!['x', digit_char(i / 10), digit_char(i % 10)]);
    }
}

/// A numeric name names no register but its own.
proof fn lemma_x_only(i: int, j: int)
    requires
        0 <= i < 32,
        0 <= j < 32,
        i != j,
    ensures
        !names_reg(x_name(i), j),
{
    let s = x_name(i);
    lemma_x_facts(i);
    lemma_x_facts(j);
    lemma_abi_facts(j);
    lemma_plain(s[0]);
    lemma_plain(s[1]);
    if eq_fold(s, abi_name(j)) {
        assert(fold(s[0]) == abi_name(j)[0]);
    }
    if eq_fold(s, x_name(j)) {
        assert(fold(s[1]) == x_name(j)[1]);
        if s.len() == 3 {
            lemma_plain(s[2]);
            assert(fold(s[2]) == x_name(j)[2]);
        }
        assert(x_index(s) == x_index(x_name(j)));
    }
    if eq_fold(s, seq!['s', '0']) {
        assert(fold(s[0]) == 's');
    }
}

proof fn lemma_first_reg_x(i: int, j: int)
    requires
        0 <= j <= i < 32,
    ensures
        first_reg(x_name(i), j) == Some(i as u8),
    decreases i - j,
{
    if j == i {
        lemma_x_facts(i);
        lemma_eq_fold_self(x_name(i));
    } else {
        lemma_x_only(i, j);
        lemma_first_reg_x(i, j + 1);
    }
}

/// Register names read back: the conventional name and the numeric name of
/// every register denote that register and no other.
pub proof fn law_register_names_round_trip(i: int)
    requires
        0 <= i < 32,
    ensures
        reg_of(abi_name(i)) == Some(i as u8),
        reg_of(x_name(i)) == Some(i as u8),
{
    lemma_abi_facts(i);
    lemma_x_facts(i);
    lemma_trim_plain(abi_name(i));
    lemma_trim_plain(x_name(i));
    lemma_first_reg_abi(i, 0);
    lemma_first_reg_x(i, 0);
}

/// The conventional names are two to four lowercase letters and digits.
pub proof fn lemma_abi_name_chars(i: int)
    requires
        0 <= i < 32,
    ensures
        2 <= abi_name(i).len() <= 4,
        forall|k: int|
            0 <= k < abi_name(i).len() ==> ('a' <= #[trigger] abi_name(i)[k] && abi_name(i)[k] <= 'z')
                || ('0' <= abi_name(i)[k] && abi_name(i)[k] <= '9'),
{
    lemma_abi_facts(i);
}

} // verus!
