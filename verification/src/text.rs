//! Building text: decimal and hexadecimal numerals and padding, appended to a
//! `String`, each with the characters it produces stated as a spec.
use vstd::prelude::*;

verus! {

/// The lowercase digit character for `d` (0..16).
pub open spec fn digit_char(d: int) -> char {
    if d < 10 {
        (d + 48) as char
    } else {
        (d + 87) as char
    }
}

/// Decimal numeral of `n`, no sign, no leading zeros.
pub open spec fn dec_chars(n: nat) -> Seq<char>
    decreases n,
{
    if n < 10 {
        seq![digit_char(n as int)]
    } else {
        dec_chars(n / 10).push(digit_char((n % 10) as int))
    }
}

/// Lowercase hexadecimal numeral of `n`, no prefix, no leading zeros.
pub open spec fn hex_chars(n: nat) -> Seq<char>
    decreases n,
{
    if n < 16 {
        seq![digit_char(n as int)]
    } else {
        hex_chars(n / 16).push(digit_char((n % 16) as int))
    }
}

/// Decimal numeral of a signed value, with a leading `-` when negative.
pub open spec fn signed_chars(v: int) -> Seq<char> {
    if v < 0 {
        seq!['-'] + dec_chars((-v) as nat)
    } else {
        dec_chars(v as nat)
    }
}

/// `s` preceded by enough copies of `c` to make it `w` characters long.
pub open spec fn pad_left(s: Seq<char>, c: char, w: nat) -> Seq<char> {
    if s.len() >= w {
        s
    } else {
        Seq::new((w - s.len()) as nat, |i: int| c) + s
    }
}

/// `s` followed by enough spaces to make it `w` characters long.
pub open spec fn pad_right(s: Seq<char>, w: nat) -> Seq<char> {
    if s.len() >= w {
        s
    } else {
        s + Seq::new((w - s.len()) as nat, |i: int| ' ')
    }
}

/// `0x` followed by the hexadecimal numeral of `n`.
pub open spec fn prefixed_hex(n: nat) -> Seq<char> {
    seq!['0', 'x'] + hex_chars(n)
}

/// `String::push`: appends the character `c`.
#[verifier::external_body]
pub(crate) fn push_char(s: &mut String, c: char)
    ensures
        final(s)@ == old(s)@.push(c),
{
    s.push(c);
}

fn digit_str(d: u64) -> (r: &'static str)
    requires
        d < 16,
    ensures
        r@ == seq![digit_char(d as int)],
{
    match d {
        0 => {
            proof {
                reveal_strlit("0");
            }
            "0"
        },
        1 => {
            proof {
                reveal_strlit("1");
            }
            "1"
        },
        2 => {
            proof {
                reveal_strlit("2");
            }
            "2"
        },
        3 => {
            proof {
                reveal_strlit("3");
            }
            "3"
        },
        4 => {
            proof {
                reveal_strlit("4");
            }
            "4"
        },
        5 => {
            proof {
                reveal_strlit("5");
            }
            "5"
        },
        6 => {
            proof {
                reveal_strlit("6");
            }
            "6"
        },
        7 => {
            proof {
                reveal_strlit("7");
            }
            "7"
        },
        8 => {
            proof {
                reveal_strlit("8");
            }
            "8"
        },
        9 => {
            proof {
                reveal_strlit("9");
            }
            "9"
        },
        10 => {
            proof {
                reveal_strlit("a");
            }
            "a"
        },
        11 => {
            proof {
                reveal_strlit("b");
            }
            "b"
        },
        12 => {
            proof {
                reveal_strlit("c");
            }
            "c"
        },
        13 => {
            proof {
                reveal_strlit("d");
            }
            "d"
        },
        14 => {
            proof {
                reveal_strlit("e");
            }
            "e"
        },
        _ => {
            proof {
                reveal_strlit("f");
            }
            "f"
        },
    }
}

/// Appends the decimal numeral of `n`.
pub fn push_dec(s: &mut String, n: u64)
    ensures
        final(s)@ == old(s)@ + dec_chars(n as nat),
    decreases n,
{
    if n >= 10 {
        push_dec(s, n / 10);
    }
    s.append(digit_str(n % 10));
}

/// Appends the lowercase hexadecimal numeral of `n`.
pub fn push_hex(s: &mut String, n: u64)
    ensures
        final(s)@ == old(s)@ + hex_chars(n as nat),
    decreases n,
{
    if n >= 16 {
        push_hex(s, n / 16);
    }
    s.append(digit_str(n % 16));
}

/// Appends the signed decimal numeral of `v`.
pub fn push_i64(s: &mut String, v: i64)
    ensures
        final(s)@ == old(s)@ + signed_chars(v as int),
{
    if v < 0 {
        proof {
            reveal_strlit("-");
        }
        s.append("-");
        let mag: u64 = if v == i64::MIN {
            0x8000_0000_0000_0000u64
        } else {
            (-v) as u64
        };
        push_dec(s, mag);
        assert(s@ == old(s)@ + signed_chars(v as int));
    } else {
        push_dec(s, v as u64);
    }
}

/// Number of characters of the hexadecimal numeral of `n`.
pub fn hex_len(n: u64) -> (r: usize)
    ensures
        r == hex_chars(n as nat).len(),
        1 <= r <= 16,
    decreases n,
{
    proof {
        reveal_with_fuel(ipow, 17);
        assert(ipow(16, 16) == 0x1_0000_0000_0000_0000);
        lemma_radix_len(n as nat, 16, 16);
    }
    if n < 16 {
        1
    } else {
        let k = hex_len(n / 16);
        k + 1
    }
}

/// Number of characters of the decimal numeral of `n`.
pub fn dec_len(n: u64) -> (r: usize)
    ensures
        r == dec_chars(n as nat).len(),
        1 <= r <= 20,
    decreases n,
{
    proof {
        reveal_with_fuel(ipow, 21);
        assert(ipow(10, 20) == 100_000_000_000_000_000_000);
        lemma_radix_len(n as nat, 10, 20);
    }
    if n < 10 {
        1
    } else {
        let k = dec_len(n / 10);
        k + 1
    }
}

/// `b` raised to `k`.
pub open spec fn ipow(b: nat, k: nat) -> nat
    decreases k,
{
    if k == 0 {
        1
    } else {
        b * ipow(b, (k - 1) as nat)
    }
}

/// A numeral in base 10 or 16 of a value below `base^k` has at most `k` digits.
proof fn lemma_radix_len(n: nat, base: nat, k: nat)
    requires
        base == 10 || base == 16,
        k >= 1,
        n < ipow(base, k),
    ensures
        base == 10 ==> dec_chars(n).len() <= k,
        base == 16 ==> hex_chars(n).len() <= k,
        base == 10 ==> dec_chars(n).len() >= 1,
        base == 16 ==> hex_chars(n).len() >= 1,
    decreases n,
{
    if n >= base {
        if k == 1 {
            assert(ipow(base, 1) == base * ipow(base, 0));
        }
        let p = ipow(base, (k - 1) as nat);
        assert(n / base < p) by (nonlinear_arith)
            requires
                n < base * p,
                base > 0,
        ;
        lemma_radix_len(n / base, base, (k - 1) as nat);
    }
}

/// Appends `count` copies of the single-character string `c`.
pub fn push_repeat(s: &mut String, c: &str, count: usize)
    requires
        c@.len() == 1,
    ensures
        final(s)@ == old(s)@ + Seq::new(count as nat, |i: int| c@[0]),
{
    let mut i: usize = 0;
    while i < count
        invariant
            c@.len() == 1,
            i <= count,
            s@ == old(s)@ + Seq::new(i as nat, |k: int| c@[0]),
        decreases count - i,
    {
        s.append(c);
        i = i + 1;
        assert(s@ =~= old(s)@ + Seq::new(i as nat, |k: int| c@[0]));
    }
}

/// Appends the hexadecimal numeral of `n`, zero-padded to `width` digits.
pub fn push_hex_padded(s: &mut String, n: u64, width: usize)
    ensures
        final(s)@ == old(s)@ + pad_left(hex_chars(n as nat), '0', width as nat),
{
    let len = hex_len(n);
    if len < width {
        proof {
            reveal_strlit("0");
        }
        let ghost before = s@;
        push_repeat(s, "0", width - len);
        push_hex(s, n);
        assert(s@ =~= before + pad_left(hex_chars(n as nat), '0', width as nat));
    } else {
        push_hex(s, n);
    }
}

/// Appends `t`, followed by spaces up to `width` characters.
pub fn push_padded(s: &mut String, t: &str, t_len: usize, width: usize)
    requires
        t_len == t@.len(),
    ensures
        final(s)@ == old(s)@ + pad_right(t@, width as nat),
{
    let ghost before = s@;
    s.append(t);
    if t_len < width {
        proof {
            reveal_strlit(" ");
        }
        push_repeat(s, " ", width - t_len);
    }
    assert(s@ =~= before + pad_right(t@, width as nat));
}

} // verus!
