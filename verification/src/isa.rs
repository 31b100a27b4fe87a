//! The instruction set: the 256-bit register, lane widths, activation
//! functions, the instruction enum and the register names.
use vstd::prelude::*;
use vstd::arithmetic::power2::*;
use vstd::arithmetic::div_mod::*;
use crate::lex::{fold, eq_fold, trim, trim_chars, chars_of, eq_fold_str, fold_char};
use crate::text::{dec_chars, digit_char};

pub mod csr;
pub mod syscall;
pub mod names;

verus! {

// ─── 64-bit arithmetic ───────────────────────────────────────────────────────

/// 2^64.
pub open spec fn two64() -> int {
    0x1_0000_0000_0000_0000
}

/// The integer whose two's-complement 64-bit pattern is `x`.
pub open spec fn signed(x: u64) -> int {
    if x < 0x8000_0000_0000_0000 {
        x as int
    } else {
        x as int - two64()
    }
}

/// Reading a 64-bit pattern as `i64` gives its signed value.
pub proof fn lemma_as_i64(x: u64)
    ensures
        (x as i64) as int == signed(x),
{
    if x >= 0x8000_0000_0000_0000 {
        assert((x as i64) as int == x as int - 0x1_0000_0000_0000_0000) by (bit_vector)
            requires
                x >= 0x8000_0000_0000_0000u64,
        ;
    }
}

/// `v` reduced to its 64-bit two's-complement pattern.
pub open spec fn wrap64(v: int) -> u64 {
    (v % two64()) as u64
}

/// Adding to a wrapped value wraps like adding to the value itself.
pub proof fn lemma_wrap_add_any(a: int, c: int)
    ensures
        wrap64(wrap64(a) + c) == wrap64(a + c),
{
    lemma_mod_bound(a, two64());
    lemma_add_mod_noop(a, c, two64());
    lemma_mod_twice(a, two64());
    lemma_add_mod_noop(a % two64(), c, two64());
    lemma_mod_bound(c, two64());
}

/// Addition modulo 2^64.
pub fn wadd(a: u64, b: u64) -> (r: u64)
    ensures
        r == wrap64(a + b),
{
    let r = a.wrapping_add(b);
    proof {
        if a + b >= two64() {
            lemma_mod_sub_multiples_vanish(a + b, two64());
            lemma_small_mod((a + b - two64()) as nat, two64() as nat);
        } else {
            lemma_small_mod((a + b) as nat, two64() as nat);
        }
    }
    r
}

// ─── 256-bit register ───────────────────────────────────────────────────────

/// A 256-bit register made of four 64-bit lanes, lane 0 least significant.
#[derive(Clone, Copy, Debug, Default, PartialEq, Eq)]
pub struct Reg256 {
    pub lanes: [u64; 4],
}

/// Byte `k` (0..8) of a 64-bit lane, little-endian.
pub open spec fn lane_byte(x: u64, k: u64) -> u8 {
    ((x >> (8 * k)) & 0xff) as u8
}

/// 32-bit half `k` (0..2) of a 64-bit lane.
pub open spec fn lane_word(x: u64, k: u64) -> u32 {
    ((x >> (32 * k)) & 0xffff_ffff) as u32
}

/// 16-bit quarter `k` (0..4) of a 64-bit lane.
pub open spec fn lane_half(x: u64, k: u64) -> u16 {
    ((x >> (16 * k)) & 0xffff) as u16
}

/// `x` with byte `k` replaced by `v`.
pub open spec fn put_byte(x: u64, k: u64, v: u8) -> u64 {
    (x & !(0xff_u64 << (8 * k))) | ((v as u64) << (8 * k))
}

/// `x` with 32-bit half `k` replaced by `v`.
pub open spec fn put_word(x: u64, k: u64, v: u32) -> u64 {
    (x & !(0xffff_ffff_u64 << (32 * k))) | ((v as u64) << (32 * k))
}

proof fn lemma_put_byte(x: u64, k: u64, v: u8, j: u64)
    requires
        k < 8,
        j < 8,
    ensures
        lane_byte(put_byte(x, k, v), j) == if j == k { v } else { lane_byte(x, j) },
{
    let y = put_byte(x, k, v);
    assert(((((x & !(0xff_u64 << (8 * k))) | ((v as u64) << (8 * k))) >> (8 * j)) & 0xff) as u8
        == if j == k { v } else { ((x >> (8 * j)) & 0xff) as u8 }) by (bit_vector)
        requires
            k < 8,
            j < 8,
    ;
}

/// `x` with 16-bit quarter `k` replaced by `v`.
pub open spec fn put_half(x: u64, k: u64, v: u16) -> u64 {
    (x & !(0xffff_u64 << (16 * k))) | ((v as u64) << (16 * k))
}

proof fn lemma_put_half(x: u64, k: u64, v: u16, j: u64)
    requires
        k < 4,
        j < 4,
    ensures
        lane_half(put_half(x, k, v), j) == if j == k { v } else { lane_half(x, j) },
{
    assert(((((x & !(0xffff_u64 << (16 * k))) | ((v as u64) << (16 * k))) >> (16 * j)) & 0xffff)
        as u16 == if j == k { v } else { ((x >> (16 * j)) & 0xffff) as u16 }) by (bit_vector)
        requires
            k < 4,
            j < 4,
    ;
}

proof fn lemma_put_word(x: u64, k: u64, v: u32, j: u64)
    requires
        k < 2,
        j < 2,
    ensures
        lane_word(put_word(x, k, v), j) == if j == k { v } else { lane_word(x, j) },
{
    assert(((((x & !(0xffff_ffff_u64 << (32 * k))) | ((v as u64) << (32 * k))) >> (32 * j))
        & 0xffff_ffff) as u32 == if j == k { v } else { ((x >> (32 * j)) & 0xffff_ffff) as u32 })
        by (bit_vector)
        requires
            k < 2,
            j < 2,
    ;
}

/// Number of set bits of a 64-bit value.
pub open spec fn popcount64(x: u64) -> nat
    decreases x,
{
    if x == 0 {
        0
    } else {
        popcount64((x / 2) as u64) + (x % 2) as nat
    }
}

/// Number of set bits of `x`.
pub fn count_ones_u64(x: u64) -> (r: u32)
    ensures
        r == popcount64(x),
        r <= 64,
{
    let mut v = x;
    let mut c: u32 = 0;
    let mut i: u32 = 0;
    proof {
        lemma2_to64();
        lemma2_to64_rest();
    }
    while i < 64
        invariant
            i <= 64,
            c <= i,
            c + popcount64(v) == popcount64(x),
            v < pow2((64 - i) as nat),
        decreases 64 - i,
    {
        proof {
            lemma_pow2_unfold((64 - i) as nat);
        }
        c = c + (v % 2) as u32;
        v = v / 2;
        i = i + 1;
    }
    proof {
        lemma2_to64();
    }
    c
}

impl Reg256 {
    /// Byte `i` (0..32) of the register.
    pub open spec fn byte(self, i: int) -> u8 {
        lane_byte(self.lanes[i / 8], (i % 8) as u64)
    }

    /// 32-bit word `i` (0..8) of the register.
    pub open spec fn word(self, i: int) -> u32 {
        lane_word(self.lanes[i / 2], (i % 2) as u64)
    }

    /// 16-bit half-word `i` (0..16) of the register.
    pub open spec fn half(self, i: int) -> u16 {
        lane_half(self.lanes[i / 4], (i % 4) as u64)
    }

    /// Total number of set bits over all 256 bits.
    pub open spec fn bit_count(self) -> nat {
        popcount64(self.lanes[0]) + popcount64(self.lanes[1]) + popcount64(self.lanes[2])
            + popcount64(self.lanes[3])
    }

    /// Number of bit positions in which `self` and `other` differ.
    pub open spec fn distance(self, other: Reg256) -> nat {
        popcount64(self.lanes[0] ^ other.lanes[0]) + popcount64(self.lanes[1] ^ other.lanes[1])
            + popcount64(self.lanes[2] ^ other.lanes[2]) + popcount64(self.lanes[3] ^ other.lanes[3])
    }

    /// The register holding `v` in lane 0 and zero elsewhere.
    pub open spec fn scalar(v: u64) -> Reg256 {
        Reg256 { lanes: [v, 0, 0, 0] }
    }

    /// The all-zero register.
    pub fn zero() -> (r: Reg256)
        ensures
            r == Reg256::scalar(0),
    {
        Reg256 { lanes: [0, 0, 0, 0] }
    }

    /// A register holding `val` in lane 0.
    pub fn from_u64(val: u64) -> (r: Reg256)
        ensures
            r == Reg256::scalar(val),
    {
        Reg256 { lanes: [val, 0, 0, 0] }
    }

    /// A register holding the two's-complement bits of `val` in lane 0.
    pub fn from_i64(val: i64) -> (r: Reg256)
        ensures
            r == Reg256::scalar(val as u64),
    {
        Self::from_u64(val as u64)
    }

    /// Lane 0 as an unsigned value.
    pub fn as_u64(&self) -> (r: u64)
        ensures
            r == self.lanes[0],
    {
        self.lanes[0]
    }

    /// Lane 0 read as a two's-complement signed value.
    pub fn as_i64(&self) -> (r: i64)
        ensures
            r == self.lanes[0] as i64,
    {
        self.lanes[0] as i64
    }

    /// 64-bit lane `lane` (taken modulo 4).
    pub fn d(&self, lane: usize) -> (r: u64)
        ensures
            r == self.lanes[lane as int % 4],
    {
        assert(lane & 3 == lane % 4) by (bit_vector);
        self.lanes[lane & 3]
    }

    /// Replaces 64-bit lane `lane` (taken modulo 4).
    pub fn set_d(&mut self, lane: usize, val: u64)
        ensures
            final(self).lanes@ == old(self).lanes@.update(lane as int % 4, val),
    {
        assert(lane & 3 == lane % 4) by (bit_vector);
        self.lanes[lane & 3] = val;
    }

    /// Total number of set bits over all four lanes.
    pub fn popcount(&self) -> (r: u32)
        ensures
            r == self.bit_count(),
    {
        count_ones_u64(self.lanes[0]) + count_ones_u64(self.lanes[1]) + count_ones_u64(
            self.lanes[2],
        ) + count_ones_u64(self.lanes[3])
    }

    /// Number of bit positions in which the two registers differ.
    pub fn hamming_distance(&self, other: &Reg256) -> (r: u32)
        ensures
            r == self.distance(*other),
    {
        count_ones_u64(self.lanes[0] ^ other.lanes[0]) + count_ones_u64(
            self.lanes[1] ^ other.lanes[1],
        ) + count_ones_u64(self.lanes[2] ^ other.lanes[2]) + count_ones_u64(
            self.lanes[3] ^ other.lanes[3],
        )
    }

    /// 32-bit word `idx` (taken modulo 8).
    pub fn w(&self, idx: usize) -> (r: u32)
        ensures
            r == self.word(idx as int % 8),
    {
        let lane = (idx >> 1) & 3;
        let half = idx & 1;
        assert(lane == (idx % 8) / 2 && half == (idx % 8) % 2) by (bit_vector)
            requires
                lane == (idx >> 1) & 3,
                half == idx & 1,
        ;
        ((self.lanes[lane] >> ((half * 32) as u64)) & 0xFFFF_FFFF) as u32
    }

    /// Replaces 32-bit word `idx` (taken modulo 8); the other words keep their value.
    pub fn set_w(&mut self, idx: usize, val: u32)
        ensures
            forall|j: int|
                0 <= j < 8 ==> #[trigger] final(self).word(j) == if j == idx as int % 8 {
                    val
                } else {
                    old(self).word(j)
                },
    {
        let lane = (idx >> 1) & 3;
        let half = idx & 1;
        assert(lane == (idx % 8) / 2 && half == (idx % 8) % 2) by (bit_vector)
            requires
                lane == (idx >> 1) & 3,
                half == idx & 1,
        ;
        let sh = (half * 32) as u64;
        let mask = !(0xFFFF_FFFF_u64 << sh);
        let x = self.lanes[lane];
        let y = (x & mask) | ((val as u64) << sh);
        assert(y == put_word(x, half as u64, val));
        self.lanes[lane] = y;
        proof {
            assert forall|j: int| 0 <= j < 8 implies #[trigger] self.word(j) == if j == idx as int
                % 8 {
                val
            } else {
                old(self).word(j)
            } by {
                if j / 2 == lane as int {
                    lemma_put_word(x, half as u64, val, (j % 2) as u64);
                }
            }
        }
    }

    /// 16-bit half-word `idx` (taken modulo 16).
    pub(crate) fn h(&self, idx: usize) -> (r: u16)
        ensures
            r == self.half(idx as int % 16),
    {
        let lane = (idx >> 2) & 3;
        let q = idx & 3;
        assert(lane == (idx % 16) / 4 && q == (idx % 16) % 4) by (bit_vector)
            requires
                lane == (idx >> 2) & 3,
                q == idx & 3,
        ;
        ((self.lanes[lane] >> ((q * 16) as u64)) & 0xFFFF) as u16
    }

    /// Replaces half-word `idx` (taken modulo 16); the others keep their value.
    pub(crate) fn set_h(&mut self, idx: usize, val: u16)
        ensures
            forall|j: int|
                0 <= j < 16 ==> #[trigger] final(self).half(j) == if j == idx as int % 16 {
                    val
                } else {
                    old(self).half(j)
                },
    {
        let lane = (idx >> 2) & 3;
        let q = idx & 3;
        assert(lane == (idx % 16) / 4 && q == (idx % 16) % 4) by (bit_vector)
            requires
                lane == (idx >> 2) & 3,
                q == idx & 3,
        ;
        let sh = (q * 16) as u64;
        let mask = !(0xFFFF_u64 << sh);
        let x = self.lanes[lane];
        let y = (x & mask) | ((val as u64) << sh);
        assert(y == put_half(x, q as u64, val));
        self.lanes[lane] = y;
        proof {
            assert forall|j: int| 0 <= j < 16 implies #[trigger] self.half(j) == if j == idx as int
                % 16 {
                val
            } else {
                old(self).half(j)
            } by {
                if j / 4 == lane as int {
                    lemma_put_half(x, q as u64, val, (j % 4) as u64);
                }
            }
        }
    }

    /// Byte `idx` (taken modulo 32).
    pub fn b(&self, idx: usize) -> (r: u8)
        ensures
            r == self.byte(idx as int % 32),
    {
        let lane = (idx >> 3) & 3;
        let byte_in_lane = idx & 7;
        assert(lane == (idx % 32) / 8 && byte_in_lane == (idx % 32) % 8) by (bit_vector)
            requires
                lane == (idx >> 3) & 3,
                byte_in_lane == idx & 7,
        ;
        ((self.lanes[lane] >> ((byte_in_lane * 8) as u64)) & 0xFF) as u8
    }

    /// Replaces byte `idx` (taken modulo 32); the other bytes keep their value.
    pub fn set_b(&mut self, idx: usize, val: u8)
        ensures
            forall|j: int|
                0 <= j < 32 ==> #[trigger] final(self).byte(j) == if j == idx as int % 32 {
                    val
                } else {
                    old(self).byte(j)
                },
    {
        let lane = (idx >> 3) & 3;
        let byte_in_lane = idx & 7;
        assert(lane == (idx % 32) / 8 && byte_in_lane == (idx % 32) % 8) by (bit_vector)
            requires
                lane == (idx >> 3) & 3,
                byte_in_lane == idx & 7,
        ;
        let sh = (byte_in_lane * 8) as u64;
        let mask = !(0xFF_u64 << sh);
        let x = self.lanes[lane];
        let y = (x & mask) | ((val as u64) << sh);
        assert(y == put_byte(x, byte_in_lane as u64, val));
        self.lanes[lane] = y;
        proof {
            assert forall|j: int| 0 <= j < 32 implies #[trigger] self.byte(j) == if j == idx as int
                % 32 {
                val
            } else {
                old(self).byte(j)
            } by {
                if j / 8 == lane as int {
                    lemma_put_byte(x, byte_in_lane as u64, val, (j % 8) as u64);
                }
            }
        }
    }
}

// ─── Register aliases ───────────────────────────────────────────────────────

/// Hard-wired zero.
pub const REG_ZERO: u8 = 0;
/// Return address.
pub const REG_RA: u8 = 1;
/// Stack pointer.
pub const REG_SP: u8 = 2;
/// Global pointer.
pub const REG_GP: u8 = 3;
/// Thread pointer.
pub const REG_TP: u8 = 4;
/// Temporary t0.
pub const REG_T0: u8 = 5;
/// Temporary t1.
pub const REG_T1: u8 = 6;
/// Temporary t2.
pub const REG_T2: u8 = 7;
/// Frame pointer (s0).
pub const REG_FP: u8 = 8;
/// Saved register s1.
pub const REG_S1: u8 = 9;
/// Argument / return value a0.
pub const REG_A0: u8 = 10;
/// Argument a1.
pub const REG_A1: u8 = 11;
/// Argument a2.
pub const REG_A2: u8 = 12;
/// Argument a3.
pub const REG_A3: u8 = 13;
/// Argument a4.
pub const REG_A4: u8 = 14;
/// Argument a5.
pub const REG_A5: u8 = 15;
/// Argument a6.
pub const REG_A6: u8 = 16;
/// Argument a7, the system call number.
pub const REG_A7: u8 = 17;

/// The conventional name of register `i` (0..32).
pub open spec fn abi_name(i: int) -> Seq<char> {
    seq![
        seq!['z', 'e', 'r', 'o'], seq!['r', 'a'], seq!['s', 'p'], seq!['g', 'p'], seq!['t', 'p'],
        seq!['t', '0'], seq!['t', '1'], seq!['t', '2'], seq!['f', 'p'], seq!['s', '1'],
        seq!['a', '0'], seq!['a', '1'], seq!['a', '2'], seq!['a', '3'], seq!['a', '4'],
        seq!['a', '5'], seq!['a', '6'], seq!['a', '7'], seq!['s', '2'], seq!['s', '3'],
        seq!['s', '4'], seq!['s', '5'], seq!['s', '6'], seq!['s', '7'], seq!['s', '8'],
        seq!['s', '9'], seq!['s', '1', '0'], seq!['s', '1', '1'], seq!['t', '3'], seq!['t', '4'],
        seq!['t', '5'], seq!['t', '6'],
    ][i]
}

/// The numeric name `x<i>` of register `i`.
pub open spec fn x_name(i: int) -> Seq<char> {
    seq!['x'] + dec_chars(i as nat)
}

/// `s` names register `i`, in any letter case: its conventional name, its
/// numeric name, or `s0` for register 8.
pub open spec fn names_reg(s: Seq<char>, i: int) -> bool {
    eq_fold(s, abi_name(i)) || eq_fold(s, x_name(i)) || (i == 8 && eq_fold(s, seq!['s', '0']))
}

/// The first register from `j` on that `s` names.
pub open spec fn first_reg(s: Seq<char>, j: int) -> Option<u8>
    decreases 32 - j,
{
    if j >= 32 || j < 0 {
        None
    } else if names_reg(s, j) {
        Some(j as u8)
    } else {
        first_reg(s, j + 1)
    }
}

/// The register `name` denotes once surrounding whitespace is dropped (no
/// text names two registers, see `law_register_names_round_trip`).
pub open spec fn reg_of(name: Seq<char>) -> Option<u8> {
    first_reg(trim(name), 0)
}

/// Whether `s` is the numeric name of register `i`, in any letter case.
fn is_x_name(s: &[char], i: u8) -> (r: bool)
    requires
        i < 32,
    ensures
        r == eq_fold(s@, x_name(i as int)),
{
    let ghost x = x_name(i as int);
    proof {
        reveal_with_fuel(dec_chars, 2);
        if i < 10 {
            assert(x =~= seq!['x', digit_char(i as int)]);
        } else {
            assert(dec_chars((i / 10) as nat) == seq![digit_char((i / 10) as int)]);
            assert(x =~= seq!['x', digit_char((i / 10) as int), digit_char((i % 10) as int)]);
        }
    }
    if i < 10 {
        if s.len() != 2 {
            return false;
        }
        let r = fold_char(s[0]) == 'x' && fold_char(s[1]) == ((i + 48) as char);
        assert(r == (fold(s@[0]) == x[0] && fold(s@[1]) == x[1]));
        r
    } else {
        if s.len() != 3 {
            return false;
        }
        let r = fold_char(s[0]) == 'x' && fold_char(s[1]) == ((i / 10 + 48) as char) && fold_char(s[2])
            == ((i % 10 + 48) as char);
        assert(r == (fold(s@[0]) == x[0] && fold(s@[1]) == x[1] && fold(s@[2]) == x[2]));
        r
    }
}

/// Whether `s` names register `i`.
fn is_name_of(s: &[char], i: u8) -> (r: bool)
    requires
        i < 32,
    ensures
        r == names_reg(s@, i as int),
{
    proof {
        reveal_strlit("s0");
    }
    eq_fold_str(s, reg_name(i)) || is_x_name(s, i) || (i == 8 && eq_fold_str(s, "s0"))
}

/// The register a name denotes: the conventional names (`zero`, `ra`, `sp`,
/// ..., `t6`, and `s0` as well as `fp` for register 8) and the numeric
/// names `x0`..`x31`, in any letter case, with surrounding whitespace
/// ignored.
pub fn parse_register(name: &str) -> (r: Option<u8>)
    ensures
        r == reg_of(name@),
{
    let cs = chars_of(name);
    register_of_chars(cs.as_slice())
}

/// The register the characters `name` denote.
pub fn register_of_chars(name: &[char]) -> (r: Option<u8>)
    ensures
        r == reg_of(name@),
{
    let t = trim_chars(name);
    let mut i: u8 = 0;
    while i < 32
        invariant
            i <= 32,
            t@ == trim(name@),
            reg_of(name@) == first_reg(t@, i as int),
        decreases 32 - i,
    {
        if is_name_of(t.as_slice(), i) {
            return Some(i);
        }
        i = i + 1;
    }
    None
}

/// The conventional name of register `idx`, or `??` past the last one.
pub fn reg_name(idx: u8) -> (r: &'static str)
    ensures
        r@ == if idx < 32 { abi_name(idx as int) } else { seq!['?', '?'] },
{
    match idx {
        0 => {
            proof {
                reveal_strlit("zero");
            }
            "zero"
        },
        1 => {
            proof {
                reveal_strlit("ra");
            }
            "ra"
        },
        2 => {
            proof {
                reveal_strlit("sp");
            }
            "sp"
        },
        3 => {
            proof {
                reveal_strlit("gp");
            }
            "gp"
        },
        4 => {
            proof {
                reveal_strlit("tp");
            }
            "tp"
        },
        5 => {
            proof {
                reveal_strlit("t0");
            }
            "t0"
        },
        6 => {
            proof {
                reveal_strlit("t1");
            }
            "t1"
        },
        7 => {
            proof {
                reveal_strlit("t2");
            }
            "t2"
        },
        8 => {
            proof {
                reveal_strlit("fp");
            }
            "fp"
        },
        9 => {
            proof {
                reveal_strlit("s1");
            }
            "s1"
        },
        10 => {
            proof {
                reveal_strlit("a0");
            }
            "a0"
        },
        11 => {
            proof {
                reveal_strlit("a1");
            }
            "a1"
        },
        12 => {
            proof {
                reveal_strlit("a2");
            }
            "a2"
        },
        13 => {
            proof {
                reveal_strlit("a3");
            }
            "a3"
        },
        14 => {
            proof {
                reveal_strlit("a4");
            }
            "a4"
        },
        15 => {
            proof {
                reveal_strlit("a5");
            }
            "a5"
        },
        16 => {
            proof {
                reveal_strlit("a6");
            }
            "a6"
        },
        17 => {
            proof {
                reveal_strlit("a7");
            }
            "a7"
        },
        18 => {
            proof {
                reveal_strlit("s2");
            }
            "s2"
        },
        19 => {
            proof {
                reveal_strlit("s3");
            }
            "s3"
        },
        20 => {
            proof {
                reveal_strlit("s4");
            }
            "s4"
        },
        21 => {
            proof {
                reveal_strlit("s5");
            }
            "s5"
        },
        22 => {
            proof {
                reveal_strlit("s6");
            }
            "s6"
        },
        23 => {
            proof {
                reveal_strlit("s7");
            }
            "s7"
        },
        24 => {
            proof {
                reveal_strlit("s8");
            }
            "s8"
        },
        25 => {
            proof {
                reveal_strlit("s9");
            }
            "s9"
        },
        26 => {
            proof {
                reveal_strlit("s10");
            }
            "s10"
        },
        27 => {
            proof {
                reveal_strlit("s11");
            }
            "s11"
        },
        28 => {
            proof {
                reveal_strlit("t3");
            }
            "t3"
        },
        29 => {
            proof {
                reveal_strlit("t4");
            }
            "t4"
        },
        30 => {
            proof {
                reveal_strlit("t5");
            }
            "t5"
        },
        31 => {
            proof {
                reveal_strlit("t6");
            }
            "t6"
        },
        _ => {
            proof {
                reveal_strlit("??");
            }
            "??"
        },
    }
}


// ─── Lane width ─────────────────────────────────────────────────────────────

/// Lane width of a vector operation.
#[derive(Clone, Copy, Debug, PartialEq, Eq, Structural)]
pub enum Width {
    /// 32 lanes of 8 bits.
    B8,
    /// 16 lanes of 16 bits.
    B16,
    /// 8 lanes of 32 bits.
    B32,
    /// 4 lanes of 64 bits.
    B64,
}

impl Width {
    /// Lane width in bits.
    pub open spec fn bit_width(self) -> nat {
        match self {
            Width::B8 => 8,
            Width::B16 => 16,
            Width::B32 => 32,
            Width::B64 => 64,
        }
    }

    /// Number of lanes of this width in a 256-bit register.
    pub open spec fn lane_total(self) -> int {
        match self {
            Width::B8 => 32,
            Width::B16 => 16,
            Width::B32 => 8,
            Width::B64 => 4,
        }
    }

    /// Number of distinct values of one lane: 2 to the lane width.
    pub open spec fn modulus(self) -> int {
        match self {
            Width::B8 => 0x100,
            Width::B16 => 0x1_0000,
            Width::B32 => 0x1_0000_0000,
            Width::B64 => 0x1_0000_0000_0000_0000,
        }
    }

    /// Number of lanes in a 256-bit register; lanes times bits is always 256.
    pub fn lanes(&self) -> (r: usize)
        ensures
            r * self.bit_width() == 256,
            r == self.lane_total(),
    {
        match self {
            Width::B8 => 32,
            Width::B16 => 16,
            Width::B32 => 8,
            Width::B64 => 4,
        }
    }

    /// Lane width in bits.
    pub fn bits(&self) -> (r: usize)
        ensures
            r == self.bit_width(),
    {
        match self {
            Width::B8 => 8,
            Width::B16 => 16,
            Width::B32 => 32,
            Width::B64 => 64,
        }
    }
}

// ─── Activation functions ───────────────────────────────────────────────────

/// Activation functions of the tensor unit.
#[derive(Clone, Copy, Debug, PartialEq, Eq, Structural)]
pub enum ActivationFn {
    ReLU,
    Sigmoid,
    Tanh,
    GeLU,
    SiLU,
}

// ─── Instruction set ────────────────────────────────────────────────────────

/// Every instruction of the machine.
#[derive(Clone, Copy, Debug, PartialEq, Eq, Structural)]
pub enum Instruction {
    // scalar ALU on lane 0
    Add { rd: u8, rs1: u8, rs2: u8 },
    Sub { rd: u8, rs1: u8, rs2: u8 },
    Mul { rd: u8, rs1: u8, rs2: u8 },
    MulH { rd: u8, rs1: u8, rs2: u8 },
    Div { rd: u8, rs1: u8, rs2: u8 },
    Rem { rd: u8, rs1: u8, rs2: u8 },
    And { rd: u8, rs1: u8, rs2: u8 },
    Or { rd: u8, rs1: u8, rs2: u8 },
    Xor { rd: u8, rs1: u8, rs2: u8 },
    Sll { rd: u8, rs1: u8, rs2: u8 },
    Srl { rd: u8, rs1: u8, rs2: u8 },
    Sra { rd: u8, rs1: u8, rs2: u8 },
    Slt { rd: u8, rs1: u8, rs2: u8 },
    Sltu { rd: u8, rs1: u8, rs2: u8 },
    // scalar with immediate
    Addi { rd: u8, rs1: u8, imm: i64 },
    Andi { rd: u8, rs1: u8, imm: i64 },
    Ori { rd: u8, rs1: u8, imm: i64 },
    Xori { rd: u8, rs1: u8, imm: i64 },
    Slli { rd: u8, rs1: u8, imm: i64 },
    Srli { rd: u8, rs1: u8, imm: i64 },
    Srai { rd: u8, rs1: u8, imm: i64 },
    Slti { rd: u8, rs1: u8, imm: i64 },
    Sltiu { rd: u8, rs1: u8, imm: i64 },
    Lui { rd: u8, imm: i64 },
    // memory
    Ld { rd: u8, rs1: u8, offset: i64 },
    Lw { rd: u8, rs1: u8, offset: i64 },
    Lh { rd: u8, rs1: u8, offset: i64 },
    Lb { rd: u8, rs1: u8, offset: i64 },
    Lbu { rd: u8, rs1: u8, offset: i64 },
    Sd { rs1: u8, rs2: u8, offset: i64 },
    Sw { rs1: u8, rs2: u8, offset: i64 },
    Sh { rs1: u8, rs2: u8, offset: i64 },
    Sb { rs1: u8, rs2: u8, offset: i64 },
    Lq { rd: u8, rs1: u8, offset: i64 },
    Sq { rs1: u8, rs2: u8, offset: i64 },
    // branches, offset in instructions
    Beq { rs1: u8, rs2: u8, offset: i64 },
    Bne { rs1: u8, rs2: u8, offset: i64 },
    Blt { rs1: u8, rs2: u8, offset: i64 },
    Bge { rs1: u8, rs2: u8, offset: i64 },
    Bltu { rs1: u8, rs2: u8, offset: i64 },
    Bgeu { rs1: u8, rs2: u8, offset: i64 },
    // jumps with link
    Jal { rd: u8, offset: i64 },
    Jalr { rd: u8, rs1: u8, offset: i64 },
    // vector
    VAdd { rd: u8, rs1: u8, rs2: u8, width: Width },
    VSub { rd: u8, rs1: u8, rs2: u8, width: Width },
    VMul { rd: u8, rs1: u8, rs2: u8, width: Width },
    VAnd { rd: u8, rs1: u8, rs2: u8 },
    VOr { rd: u8, rs1: u8, rs2: u8 },
    VXor { rd: u8, rs1: u8, rs2: u8 },
    VNot { rd: u8, rs1: u8 },
    VDot { rd: u8, rs1: u8, rs2: u8, width: Width },
    VSplat { rd: u8, rs1: u8, width: Width },
    VReduce { rd: u8, rs1: u8, width: Width },
    // tensor network
    Zipper { rd: u8, rs1: u8, rs2: u8 },
    Zipper2 { rd: u8, rs1: u8, rs2: u8 },
    Trunc { rd: u8, rs1: u8, eps_bits: u64 },
    // tensor
    TMul { rd: u8, rs1: u8, rs2: u8 },
    TDot { rd: u8, rs1: u8, rs2: u8 },
    TAct { rd: u8, rs1: u8, func: ActivationFn },
    TSoftmax { rd: u8, rs1: u8 },
    // lattice
    Ntt { rd: u8, rs1: u8 },
    InvNtt { rd: u8, rs1: u8 },
    PolyMul { rd: u8, rs1: u8, rs2: u8 },
    ModRed { rd: u8, rs1: u8, modulus: u64 },
    PolyAdd { rd: u8, rs1: u8, rs2: u8 },
    // information theory
    Entropy { rd: u8, rs1: u8 },
    Hamming { rd: u8, rs1: u8, rs2: u8 },
    PopCnt { rd: u8, rs1: u8 },
    QRand { rd: u8 },
    // complex
    CAdd { rd: u8, rs1: u8, rs2: u8 },
    CSub { rd: u8, rs1: u8, rs2: u8 },
    CMul { rd: u8, rs1: u8, rs2: u8 },
    CConj { rd: u8, rs1: u8 },
    CNorm { rd: u8, rs1: u8 },
    CMag { rd: u8, rs1: u8 },
    // system
    Ecall,
    Halt,
    Nop,
    Fence,
    CsrR { rd: u8, csr: u16 },
    CsrW { csr: u16, rs1: u8 },
    // moves
    Mv { rd: u8, rs1: u8 },
    Li { rd: u8, imm: i64 },
}

impl Instruction {
    /// The `rd` field of the instruction, for the variants that have one.
    pub open spec fn rd_field(self) -> Option<u8> {
        match self {
            Instruction::Add { rd, .. } | Instruction::Sub { rd, .. } | Instruction::Mul { rd, .. }
            | Instruction::MulH { rd, .. } | Instruction::Div { rd, .. } | Instruction::Rem {
                rd,
                ..
            } | Instruction::And { rd, .. } | Instruction::Or { rd, .. } | Instruction::Xor {
                rd,
                ..
            } | Instruction::Sll { rd, .. } | Instruction::Srl { rd, .. } | Instruction::Sra {
                rd,
                ..
            } | Instruction::Slt { rd, .. } | Instruction::Sltu { rd, .. } | Instruction::Addi {
                rd,
                ..
            } | Instruction::Andi { rd, .. } | Instruction::Ori { rd, .. } | Instruction::Xori {
                rd,
                ..
            } | Instruction::Slli { rd, .. } | Instruction::Srli { rd, .. } | Instruction::Srai {
                rd,
                ..
            } | Instruction::Slti { rd, .. } | Instruction::Sltiu { rd, .. } | Instruction::Lui {
                rd,
                ..
            } | Instruction::Ld { rd, .. } | Instruction::Lw { rd, .. } | Instruction::Lh {
                rd,
                ..
            } | Instruction::Lb { rd, .. } | Instruction::Lbu { rd, .. } | Instruction::Lq {
                rd,
                ..
            } | Instruction::Jal { rd, .. } | Instruction::Jalr { rd, .. } | Instruction::VAdd {
                rd,
                ..
            } | Instruction::VSub { rd, .. } | Instruction::VMul { rd, .. } | Instruction::VAnd {
                rd,
                ..
            } | Instruction::VOr { rd, .. } | Instruction::VXor { rd, .. } | Instruction::VNot {
                rd,
                ..
            } | Instruction::VDot { rd, .. } | Instruction::VSplat { rd, .. }
            | Instruction::VReduce { rd, .. } | Instruction::Zipper { rd, .. }
            | Instruction::Zipper2 { rd, .. } | Instruction::Trunc { rd, .. }
            | Instruction::TMul { rd, .. } | Instruction::TDot {
                rd,
                ..
            } | Instruction::TAct { rd, .. } | Instruction::TSoftmax { rd, .. }
            | Instruction::Ntt { rd, .. } | Instruction::InvNtt { rd, .. }
            | Instruction::PolyMul { rd, .. } | Instruction::ModRed { rd, .. }
            | Instruction::PolyAdd { rd, .. } | Instruction::Entropy { rd, .. }
            | Instruction::Hamming { rd, .. } | Instruction::PopCnt { rd, .. }
            | Instruction::QRand { rd, .. } | Instruction::CAdd { rd, .. } | Instruction::CSub {
                rd,
                ..
            } | Instruction::CMul { rd, .. } | Instruction::CConj { rd, .. } | Instruction::CNorm {
                rd,
                ..
            } | Instruction::CMag { rd, .. } | Instruction::CsrR { rd, .. } | Instruction::Mv {
                rd,
                ..
            } | Instruction::Li { rd, .. } => Some(rd),
            _ => None,
        }
    }

    /// The register the instruction writes: its `rd` field, unless it has
    /// none or it is the hard-wired zero register.
    pub fn dest_reg(&self) -> (r: Option<u8>)
        ensures
            r == (match self.rd_field() {
                Some(rd) => if rd == 0 { None } else { Some(rd) },
                None => None,
            }),
    {
        match *self {
            Instruction::Add { rd, .. } | Instruction::Sub { rd, .. } | Instruction::Mul { rd, .. }
            | Instruction::MulH { rd, .. } | Instruction::Div { rd, .. } | Instruction::Rem {
                rd,
                ..
            } | Instruction::And { rd, .. } | Instruction::Or { rd, .. } | Instruction::Xor {
                rd,
                ..
            } | Instruction::Sll { rd, .. } | Instruction::Srl { rd, .. } | Instruction::Sra {
                rd,
                ..
            } | Instruction::Slt { rd, .. } | Instruction::Sltu { rd, .. } | Instruction::Addi {
                rd,
                ..
            } | Instruction::Andi { rd, .. } | Instruction::Ori { rd, .. } | Instruction::Xori {
                rd,
                ..
            } | Instruction::Slli { rd, .. } | Instruction::Srli { rd, .. } | Instruction::Srai {
                rd,
                ..
            } | Instruction::Slti { rd, .. } | Instruction::Sltiu { rd, .. } | Instruction::Lui {
                rd,
                ..
            } | Instruction::Ld { rd, .. } | Instruction::Lw { rd, .. } | Instruction::Lh {
                rd,
                ..
            } | Instruction::Lb { rd, .. } | Instruction::Lbu { rd, .. } | Instruction::Lq {
                rd,
                ..
            } | Instruction::Jal { rd, .. } | Instruction::Jalr { rd, .. } | Instruction::VAdd {
                rd,
                ..
            } | Instruction::VSub { rd, .. } | Instruction::VMul { rd, .. } | Instruction::VAnd {
                rd,
                ..
            } | Instruction::VOr { rd, .. } | Instruction::VXor { rd, .. } | Instruction::VNot {
                rd,
                ..
            } | Instruction::VDot { rd, .. } | Instruction::VSplat { rd, .. }
            | Instruction::VReduce { rd, .. } | Instruction::Zipper { rd, .. }
            | Instruction::Zipper2 { rd, .. } | Instruction::Trunc { rd, .. }
            | Instruction::TMul { rd, .. } | Instruction::TDot {
                rd,
                ..
            } | Instruction::TAct { rd, .. } | Instruction::TSoftmax { rd, .. }
            | Instruction::Ntt { rd, .. } | Instruction::InvNtt { rd, .. }
            | Instruction::PolyMul { rd, .. } | Instruction::ModRed { rd, .. }
            | Instruction::PolyAdd { rd, .. } | Instruction::Entropy { rd, .. }
            | Instruction::Hamming { rd, .. } | Instruction::PopCnt { rd, .. }
            | Instruction::QRand { rd, .. } | Instruction::CAdd { rd, .. } | Instruction::CSub {
                rd,
                ..
            } | Instruction::CMul { rd, .. } | Instruction::CConj { rd, .. } | Instruction::CNorm {
                rd,
                ..
            } | Instruction::CMag { rd, .. } | Instruction::CsrR { rd, .. } | Instruction::Mv {
                rd,
                ..
            } | Instruction::Li { rd, .. } => {
                if rd == 0 {
                    None
                } else {
                    Some(rd)
                }
            },
            _ => None,
        }
    }
}

} // verus!
