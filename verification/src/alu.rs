//! Integer execution units: the scalar ALU, the 256-bit vector unit, the
//! information-theory unit and the lattice (post-quantum) unit.
use vstd::prelude::*;
use vstd::arithmetic::div_mod::*;
use vstd::arithmetic::mul::*;
use vstd::arithmetic::power::*;
use crate::isa::{Reg256, Width, popcount64, two64, signed, wrap64, lemma_as_i64};

pub mod transform;
pub mod lanes;
pub mod moduli;
pub mod rng;

use transform::{ring_product, spectrum};

verus! {

/// Absolute value.
pub open spec fn abs(v: int) -> int {
    if v < 0 {
        -v
    } else {
        v
    }
}

/// Quotient rounded toward zero.
pub open spec fn trunc_div(a: int, b: int) -> int {
    let q = abs(a) / abs(b);
    if (a < 0) != (b < 0) {
        -q
    } else {
        q
    }
}

/// Remainder with the sign of the dividend.
pub open spec fn trunc_rem(a: int, b: int) -> int {
    let r = abs(a) % abs(b);
    if a < 0 {
        -r
    } else {
        r
    }
}

/// Quotient and remainder rounded toward zero recompose the dividend.
pub proof fn lemma_trunc_div_rem(a: int, b: int)
    requires
        b != 0,
    ensures
        b * trunc_div(a, b) + trunc_rem(a, b) == a,
        abs(trunc_rem(a, b)) < abs(b),
{
    lemma_fundamental_div_mod(abs(a), abs(b));
    lemma_mod_bound(abs(a), abs(b));
    let q = abs(a) / abs(b);
    if b < 0 {
        lemma_mul_unary_negation(abs(b), q);
        lemma_mul_unary_negation(-abs(b), q);
        assert(b * (-q) == abs(b) * q) by (nonlinear_arith)
            requires
                b == -abs(b),
        ;
        assert(b * q == -(abs(b) * q)) by (nonlinear_arith)
            requires
                b == -abs(b),
        ;
    } else {
        assert(b * (-q) == -(abs(b) * q)) by (nonlinear_arith)
            requires
                b == abs(b),
        ;
    }
}

/// Negation modulo 2^64.
fn neg64(x: u64) -> (r: u64)
    ensures
        r == wrap64(-(x as int)),
{
    let r = 0u64.wrapping_sub(x);
    proof {
        if x == 0 {
            assert(r == 0);
        } else {
            assert(r as int == two64() - x);
            lemma_mod_add_multiples_vanish(-(x as int), two64());
            lemma_small_mod((two64() - x) as nat, two64() as nat);
        }
    }
    r
}

/// Magnitude of the signed value encoded by `x`.
fn magnitude(x: u64) -> (r: u64)
    ensures
        r as int == abs(signed(x)),
{
    if x >= 0x8000_0000_0000_0000 {
        0u64.wrapping_sub(x)
    } else {
        x
    }
}

/// The 64-bit scalar ALU. Arithmetic wraps modulo 2^64; division and
/// remainder are signed and give 0 for a zero divisor.
pub struct ScalarAlu;

impl ScalarAlu {
    pub fn add(a: u64, b: u64) -> (r: u64)
        ensures
            r == wrap64(a + b),
    {
        let r = a.wrapping_add(b);
        proof {
            if a + b >= two64() {
                lemma_mod_sub_multiples_vanish(a + b, two64());
                lemma_small_mod((a + b - two64()) as nat, two64() as nat);
            } else {
                lemma_small_mod((a + b) as nat, two64() as nat);
            }
        }
        r
    }

    pub fn sub(a: u64, b: u64) -> (r: u64)
        ensures
            r == wrap64(a - b),
    {
        let r = a.wrapping_sub(b);
        proof {
            if a < b {
                lemma_mod_add_multiples_vanish(a - b, two64());
                lemma_small_mod((a - b + two64()) as nat, two64() as nat);
            } else {
                lemma_small_mod((a - b) as nat, two64() as nat);
            }
        }
        r
    }

    pub fn mul(a: u64, b: u64) -> (r: u64)
        ensures
            r == wrap64(a * b),
    {
        a.wrapping_mul(b)
    }

    /// Upper 64 bits of the 128-bit unsigned product.
    pub fn mulh(a: u64, b: u64) -> (r: u64)
        ensures
            r == (a * b) / two64(),
    {
        assert((a as int) * (b as int) <= u128::MAX) by (nonlinear_arith)
            requires
                a <= u64::MAX,
                b <= u64::MAX,
        ;
        let full = (a as u128) * (b as u128);
        assert(full >> 64 == full / 0x1_0000_0000_0000_0000) by (bit_vector);
        assert(full / 0x1_0000_0000_0000_0000 <= u64::MAX) by (nonlinear_arith)
            requires
                full <= u128::MAX,
        ;
        (full >> 64) as u64
    }

    /// Signed division rounded toward zero; a zero divisor gives 0 and the
    /// one overflowing case wraps.
    pub fn div(a: u64, b: u64) -> (r: u64)
        ensures
            b == 0 ==> r == 0,
            b != 0 ==> r == wrap64(trunc_div(signed(a), signed(b))),
    {
        if b == 0 {
            0
        } else {
            let ma = magnitude(a);
            let mb = magnitude(b);
            let q = ma / mb;
            let neg_a = a >= 0x8000_0000_0000_0000;
            let neg_b = b >= 0x8000_0000_0000_0000;
            if neg_a != neg_b {
                neg64(q)
            } else {
                proof {
                    lemma_small_mod(q as nat, two64() as nat);
                }
                q
            }
        }
    }

    /// Signed remainder with the sign of the dividend; a zero divisor gives 0.
    pub fn rem(a: u64, b: u64) -> (r: u64)
        ensures
            b == 0 ==> r == 0,
            b != 0 ==> r == wrap64(trunc_rem(signed(a), signed(b))),
    {
        if b == 0 {
            0
        } else {
            let ma = magnitude(a);
            let mb = magnitude(b);
            let m = ma % mb;
            if a >= 0x8000_0000_0000_0000 {
                neg64(m)
            } else {
                proof {
                    lemma_small_mod(m as nat, two64() as nat);
                }
                m
            }
        }
    }

    pub fn and(a: u64, b: u64) -> (r: u64)
        ensures
            r == a & b,
    {
        a & b
    }

    pub fn or(a: u64, b: u64) -> (r: u64)
        ensures
            r == a | b,
    {
        a | b
    }

    pub fn xor(a: u64, b: u64) -> (r: u64)
        ensures
            r == a ^ b,
    {
        a ^ b
    }

    /// Logical left shift by the low six bits of `shamt`.
    pub fn sll(a: u64, shamt: u64) -> (r: u64)
        ensures
            r == a << (shamt % 64),
    {
        let k = (shamt & 63) as u32;
        assert(shamt & 63 == shamt % 64) by (bit_vector);
        a.wrapping_shl(k)
    }

    /// Logical right shift by the low six bits of `shamt`.
    pub fn srl(a: u64, shamt: u64) -> (r: u64)
        ensures
            r == a >> (shamt % 64),
    {
        let k = (shamt & 63) as u32;
        assert(shamt & 63 == shamt % 64) by (bit_vector);
        a.wrapping_shr(k)
    }

    /// Arithmetic right shift by the low six bits of `shamt`.
    pub fn sra(a: u64, shamt: u64) -> (r: u64)
        ensures
            r == ((a as i64) >> (shamt % 64)) as u64,
    {
        let k = shamt & 63;
        assert(shamt & 63 == shamt % 64) by (bit_vector);
        ((a as i64) >> k) as u64
    }

    /// 1 when `a < b` as signed values, else 0.
    pub fn slt(a: u64, b: u64) -> (r: u64)
        ensures
            r == if signed(a) < signed(b) { 1u64 } else { 0u64 },
    {
        proof {
            lemma_as_i64(a);
            lemma_as_i64(b);
        }
        if (a as i64) < (b as i64) {
            1
        } else {
            0
        }
    }

    /// 1 when `a < b` as unsigned values, else 0.
    pub fn sltu(a: u64, b: u64) -> (r: u64)
        ensures
            r == if a < b { 1u64 } else { 0u64 },
    {
        if a < b {
            1
        } else {
            0
        }
    }
}

/// Division and remainder recompose the dividend modulo 2^64, for every
/// nonzero divisor.
pub proof fn law_div_rem_recompose(a: u64, b: u64)
    requires
        b != 0,
    ensures
        wrap64(signed(b) * trunc_div(signed(a), signed(b)) + trunc_rem(signed(a), signed(b)))
            == a,
{
    lemma_trunc_div_rem(signed(a), signed(b));
    if a >= 0x8000_0000_0000_0000 {
        lemma_mod_add_multiples_vanish(a - two64(), two64());
    }
    lemma_small_mod(a as nat, two64() as nat);
}

// ─── Vector unit ────────────────────────────────────────────────────────────

/// Lane `i` of `r` at width `w`, as an unsigned value.
pub open spec fn elem(r: Reg256, w: Width, i: int) -> int {
    match w {
        Width::B8 => r.byte(i) as int,
        Width::B16 => r.half(i) as int,
        Width::B32 => r.word(i) as int,
        Width::B64 => r.lanes[i] as int,
    }
}

/// The lane-wise integer operations of the vector unit.
#[derive(Clone, Copy, PartialEq, Eq, Structural)]
pub enum LaneOp {
    Add,
    Sub,
    Mul,
}

/// `op` applied to two lane values, wrapping modulo `m`.
pub open spec fn lane_op(op: LaneOp, x: int, y: int, m: int) -> int {
    match op {
        LaneOp::Add => (x + y) % m,
        LaneOp::Sub => (x - y) % m,
        LaneOp::Mul => (x * y) % m,
    }
}

/// `out` holds `op` applied lane by lane to `a` and `b` at width `w`.
pub open spec fn lanewise_rel(op: LaneOp, a: Reg256, b: Reg256, w: Width, out: Reg256) -> bool {
    forall|i: int|
        0 <= i < w.lane_total() ==> #[trigger] elem(out, w, i) == lane_op(
            op,
            elem(a, w, i),
            elem(b, w, i),
            w.modulus(),
        )
}

/// `out` holds lane 0 of `a` at width `w` in every lane.
pub open spec fn splat_rel(a: Reg256, w: Width, out: Reg256) -> bool {
    forall|i: int| 0 <= i < w.lane_total() ==> #[trigger] elem(out, w, i) == elem(a, w, 0)
}

/// Sum of the first `n` lanes of `a` at width `w`.
pub open spec fn lane_sum(a: Reg256, w: Width, n: int) -> int
    decreases n,
{
    if n <= 0 {
        0
    } else {
        lane_sum(a, w, n - 1) + elem(a, w, n - 1)
    }
}

/// Sum of the lane-wise products of the first `n` lanes of `a` and `b`.
pub open spec fn lane_dot(a: Reg256, b: Reg256, w: Width, n: int) -> int
    decreases n,
{
    if n <= 0 {
        0
    } else {
        lane_dot(a, b, w, n - 1) + elem(a, w, n - 1) * elem(b, w, n - 1)
    }
}

fn get_elem(r: &Reg256, w: Width, i: usize) -> (v: u64)
    requires
        i < w.lane_total(),
    ensures
        v == elem(*r, w, i as int),
        v < w.modulus(),
{
    match w {
        Width::B8 => r.b(i) as u64,
        Width::B16 => r.h(i) as u64,
        Width::B32 => r.w(i) as u64,
        Width::B64 => r.lanes[i],
    }
}

fn set_elem(r: &mut Reg256, w: Width, i: usize, v: u64)
    requires
        i < w.lane_total(),
        v < w.modulus(),
    ensures
        forall|j: int|
            0 <= j < w.lane_total() ==> #[trigger] elem(*final(r), w, j) == if j == i {
                v as int
            } else {
                elem(*old(r), w, j)
            },
{
    match w {
        Width::B8 => r.set_b(i, v as u8),
        Width::B16 => r.set_h(i, v as u16),
        Width::B32 => r.set_w(i, v as u32),
        Width::B64 => {
            r.lanes[i] = v;
        },
    }
}

fn elem_op(op: LaneOp, x: u64, y: u64, w: Width) -> (r: u64)
    requires
        x < w.modulus(),
        y < w.modulus(),
    ensures
        r == lane_op(op, x as int, y as int, w.modulus()),
        r < w.modulus(),
{
    match w {
        Width::B64 => {
            let r = match op {
                LaneOp::Add => ScalarAlu::add(x, y),
                LaneOp::Sub => ScalarAlu::sub(x, y),
                LaneOp::Mul => ScalarAlu::mul(x, y),
            };
            r
        },
        _ => {
            let m: u64 = match w {
                Width::B8 => 0x100,
                Width::B16 => 0x1_0000,
                _ => 0x1_0000_0000,
            };
            assert(m == w.modulus());
            let r = match op {
                LaneOp::Add => (x + y) % m,
                LaneOp::Sub => {
                    proof {
                        lemma_mod_add_multiples_vanish(x - y, m as int);
                    }
                    (x + m - y) % m
                },
                LaneOp::Mul => {
                    assert(x * y < 0x1_0000_0000_0000_0000) by (nonlinear_arith)
                        requires
                            x < 0x1_0000_0000,
                            y < 0x1_0000_0000,
                    ;
                    (x * y) % m
                },
            };
            r
        },
    }
}

fn lanewise(a: &Reg256, b: &Reg256, width: Width, op: LaneOp) -> (out: Reg256)
    ensures
        forall|i: int|
            0 <= i < width.lane_total() ==> #[trigger] elem(out, width, i) == lane_op(
                op,
                elem(*a, width, i),
                elem(*b, width, i),
                width.modulus(),
            ),
{
    let n = width.lanes();
    let mut out = Reg256::zero();
    for i in 0..n
        invariant
            n == width.lane_total(),
            forall|j: int|
                0 <= j < i ==> #[trigger] elem(out, width, j) == lane_op(
                    op,
                    elem(*a, width, j),
                    elem(*b, width, j),
                    width.modulus(),
                ),
    {
        let x = get_elem(a, width, i);
        let y = get_elem(b, width, i);
        let r = elem_op(op, x, y, width);
        set_elem(&mut out, width, i, r);
    }
    out
}

/// The 256-bit vector unit: lane-wise integer arithmetic at a chosen width,
/// wrapping modulo 2 to the lane width, and whole-register bitwise logic.
pub struct VectorUnit;

impl VectorUnit {
    /// Lane-wise wrapping addition.
    pub fn vadd(a: &Reg256, b: &Reg256, width: Width) -> (out: Reg256)
        ensures
            lanewise_rel(LaneOp::Add, *a, *b, width, out),
    {
        lanewise(a, b, width, LaneOp::Add)
    }

    /// Lane-wise wrapping subtraction.
    pub fn vsub(a: &Reg256, b: &Reg256, width: Width) -> (out: Reg256)
        ensures
            lanewise_rel(LaneOp::Sub, *a, *b, width, out),
    {
        lanewise(a, b, width, LaneOp::Sub)
    }

    /// Lane-wise wrapping multiplication.
    pub fn vmul(a: &Reg256, b: &Reg256, width: Width) -> (out: Reg256)
        ensures
            lanewise_rel(LaneOp::Mul, *a, *b, width, out),
    {
        lanewise(a, b, width, LaneOp::Mul)
    }

    pub fn vand(a: &Reg256, b: &Reg256) -> (out: Reg256)
        ensures
            forall|i: int| 0 <= i < 4 ==> #[trigger] out.lanes[i] == a.lanes[i] & b.lanes[i],
    {
        Reg256 {
            lanes: [
                a.lanes[0] & b.lanes[0],
                a.lanes[1] & b.lanes[1],
                a.lanes[2] & b.lanes[2],
                a.lanes[3] & b.lanes[3],
            ],
        }
    }

    pub fn vor(a: &Reg256, b: &Reg256) -> (out: Reg256)
        ensures
            forall|i: int| 0 <= i < 4 ==> #[trigger] out.lanes[i] == a.lanes[i] | b.lanes[i],
    {
        Reg256 {
            lanes: [
                a.lanes[0] | b.lanes[0],
                a.lanes[1] | b.lanes[1],
                a.lanes[2] | b.lanes[2],
                a.lanes[3] | b.lanes[3],
            ],
        }
    }

    pub fn vxor(a: &Reg256, b: &Reg256) -> (out: Reg256)
        ensures
            forall|i: int| 0 <= i < 4 ==> #[trigger] out.lanes[i] == a.lanes[i] ^ b.lanes[i],
    {
        Reg256 {
            lanes: [
                a.lanes[0] ^ b.lanes[0],
                a.lanes[1] ^ b.lanes[1],
                a.lanes[2] ^ b.lanes[2],
                a.lanes[3] ^ b.lanes[3],
            ],
        }
    }

    pub fn vnot(a: &Reg256) -> (out: Reg256)
        ensures
            forall|i: int| 0 <= i < 4 ==> #[trigger] out.lanes[i] == !a.lanes[i],
    {
        Reg256 { lanes: [!a.lanes[0], !a.lanes[1], !a.lanes[2], !a.lanes[3]] }
    }

    /// Sum of lane-wise products, wrapping modulo 2^64, in lane 0.
    pub fn vdot(a: &Reg256, b: &Reg256, width: Width) -> (out: Reg256)
        ensures
            out == Reg256::scalar(wrap64(lane_dot(*a, *b, width, width.lane_total()))),
    {
        let n = width.lanes();
        let mut acc: u64 = 0;
        for i in 0..n
            invariant
                n == width.lane_total(),
                acc == wrap64(lane_dot(*a, *b, width, i as int)),
        {
            let x = get_elem(a, width, i);
            let y = get_elem(b, width, i);
            let p = ScalarAlu::mul(x, y);
            let ghost old_acc = acc;
            acc = ScalarAlu::add(acc, p);
            proof {
                let d = lane_dot(*a, *b, width, i as int);
                lemma_add_mod_noop(d, (x * y) as int, two64());
                lemma_mod_twice(d, two64());
                lemma_mod_twice((x * y) as int, two64());
                lemma_add_mod_noop(old_acc as int, p as int, two64());
                lemma_mod_bound(d, two64());
                lemma_mod_bound((x * y) as int, two64());
                assert(old_acc as int == d % two64());
                assert(p as int == (x * y) % two64());
            }
        }
        Reg256::from_u64(acc)
    }

    /// Lane 0 of `a` at width `width`, repeated in every lane.
    pub fn vsplat(a: &Reg256, width: Width) -> (out: Reg256)
        ensures
            splat_rel(*a, width, out),
    {
        let n = width.lanes();
        let v = get_elem(a, width, 0);
        let mut out = Reg256::zero();
        for i in 0..n
            invariant
                n == width.lane_total(),
                v == elem(*a, width, 0),
                v < width.modulus(),
                forall|j: int| 0 <= j < i ==> #[trigger] elem(out, width, j) == v,
        {
            set_elem(&mut out, width, i, v);
        }
        out
    }

    /// Sum of all lanes, wrapping modulo 2^64, in lane 0.
    pub fn vreduce(a: &Reg256, width: Width) -> (out: Reg256)
        ensures
            out == Reg256::scalar(wrap64(lane_sum(*a, width, width.lane_total()))),
    {
        let n = width.lanes();
        let mut sum: u64 = 0;
        for i in 0..n
            invariant
                n == width.lane_total(),
                sum == wrap64(lane_sum(*a, width, i as int)),
        {
            let x = get_elem(a, width, i);
            let ghost old_sum = sum;
            sum = ScalarAlu::add(sum, x);
            proof {
                let d = lane_sum(*a, width, i as int);
                lemma_add_mod_noop(d, x as int, two64());
                lemma_mod_twice(d, two64());
                lemma_small_mod(x as nat, two64() as nat);
                lemma_add_mod_noop(old_sum as int, x as int, two64());
                lemma_mod_bound(d, two64());
                assert(old_sum as int == d % two64());
            }
        }
        Reg256::from_u64(sum)
    }
}

// ─── Information-theory unit ────────────────────────────────────────────────

/// One step of the generator: its output word.
pub open spec fn rng_out(s: (u64, u64, u64, u64)) -> u64 {
    ((rotl(((s.0 + s.3) % two64()) as u64, 23) + s.0) % two64()) as u64
}

/// One step of the generator: its next state.
pub open spec fn rng_next(s: (u64, u64, u64, u64)) -> (u64, u64, u64, u64) {
    let t = s.1 << 17u64;
    let s2 = s.2 ^ s.0;
    let s3 = s.3 ^ s.1;
    let s1 = s.1 ^ s2;
    let s0 = s.0 ^ s3;
    (s0, s1, s2 ^ t, rotl(s3, 45))
}

/// The generator state derived from a seed.
pub open spec fn rng_seed_state(v: u64) -> (u64, u64, u64, u64) {
    let s = (v, v ^ 0x9E37_79B9_7F4A_7C15u64, rotl(v, 13), v ^ 0xBF58_476D_1CE4_E5B9u64);
    if s.0 == 0 && s.1 == 0 && s.2 == 0 && s.3 == 0 {
        (0x853C_49E6_748F_EA9Bu64, s.1, s.2, s.3)
    } else {
        s
    }
}

/// Left rotation of a 64-bit value by `k` (1..64) bits.
pub open spec fn rotl(x: u64, k: u64) -> u64 {
    (x << k) | (x >> (64 - k) as u64)
}

fn rotate_left(x: u64, k: u64) -> (r: u64)
    requires
        1 <= k < 64,
    ensures
        r == rotl(x, k),
{
    (x << k) | (x >> (64 - k))
}

/// The register the generator produces from `seed`: four successive outputs.
pub open spec fn rng_lanes(seed: u64) -> [u64; 4] {
    let s0 = rng_seed_state(seed);
    let s1 = rng_next(s0);
    let s2 = rng_next(s1);
    let s3 = rng_next(s2);
    [rng_out(s0), rng_out(s1), rng_out(s2), rng_out(s3)]
}

/// Information-theory unit: bit counts, Hamming distance and the
/// pseudo-random generator.
pub struct InfoUnit;

impl InfoUnit {
    /// Number of differing bits, in lane 0.
    pub fn hamming(a: &Reg256, b: &Reg256) -> (r: Reg256)
        ensures
            r == Reg256::scalar(a.distance(*b) as u64),
    {
        let dist = a.hamming_distance(b);
        Reg256::from_u64(dist as u64)
    }

    /// Number of set bits, in lane 0.
    pub fn popcount(a: &Reg256) -> (r: Reg256)
        ensures
            r == Reg256::scalar(a.bit_count() as u64),
    {
        let count = a.popcount();
        Reg256::from_u64(count as u64)
    }

    /// Fills a register from the generator seeded with `seed`; the last
    /// output word becomes the next seed.
    pub fn qrand(seed: &mut u64) -> (r: Reg256)
        ensures
            r.lanes == rng_lanes(*old(seed)),
            *final(seed) == r.lanes[3],
    {
        let val = *seed;
        let mut s0 = val;
        let mut s1 = val ^ 0x9E37_79B9_7F4A_7C15u64;
        let mut s2 = rotate_left(val, 13);
        let mut s3 = val ^ 0xBF58_476D_1CE4_E5B9u64;
        if s0 == 0 && s1 == 0 && s2 == 0 && s3 == 0 {
            s0 = 0x853C_49E6_748F_EA9Bu64;
        }
        let ghost init = (s0, s1, s2, s3);
        assert(init == rng_seed_state(val));
        let mut lanes = [0u64; 4];
        let mut lane: usize = 0;
        while lane < 4
            invariant
                lane <= 4,
                forall|i: int|
                    0 <= i < lane ==> lanes[i] == #[trigger] rng_lanes(val)[i],
                (s0, s1, s2, s3) == if lane == 0 {
                    rng_seed_state(val)
                } else if lane == 1 {
                    rng_next(rng_seed_state(val))
                } else if lane == 2 {
                    rng_next(rng_next(rng_seed_state(val)))
                } else if lane == 3 {
                    rng_next(rng_next(rng_next(rng_seed_state(val))))
                } else {
                    rng_next(rng_next(rng_next(rng_next(rng_seed_state(val)))))
                },
            decreases 4 - lane,
        {
            let ghost st = (s0, s1, s2, s3);
            let result = ScalarAlu::add(rotate_left(ScalarAlu::add(s0, s3), 23), s0);
            let t = s1 << 17u64;
            s2 = s2 ^ s0;
            s3 = s3 ^ s1;
            s1 = s1 ^ s2;
            s0 = s0 ^ s3;
            s2 = s2 ^ t;
            s3 = rotate_left(s3, 45);
            assert((s0, s1, s2, s3) == rng_next(st));
            assert(result == rng_out(st));
            lanes[lane] = result;
            lane = lane + 1;
        }
        *seed = lanes[3];
        Reg256 { lanes }
    }
}

// ─── Lattice unit ───────────────────────────────────────────────────────────

/// The Kyber modulus, used when a modulus of 0 is given.
pub const KYBER_Q: u64 = 3329;

/// The Dilithium modulus.
pub const DILITHIUM_Q: u64 = 8380417;

/// Degree of the ring Z_q[X]/(X^N + 1): one coefficient per 64-bit lane.
pub const RING_N: usize = 4;

/// The modulus in effect: `q`, or the Kyber modulus when `q` is 0.
pub open spec fn eff_q(q: u64) -> int {
    if q == 0 {
        KYBER_Q as int
    } else {
        q as int
    }
}

/// `x` is a starting point from which `x^((q-1)/2N)` is a primitive
/// 2N-th root of unity mod q, that is its N-th power is -1.
pub open spec fn root_witness(q: u64, x: u64) -> bool {
    pow(pow(x as int, ((q - 1) / 8) as nat) % (q as int), 4) % (q as int) == q - 1
}

/// The root derived from the first witness at or above `x`, if any below `q`.
pub open spec fn root_search(q: u64, x: u64) -> Option<u64>
    decreases q - x,
{
    if x >= q {
        None
    } else if root_witness(q, x) {
        Some((pow(x as int, ((q - 1) / 8) as nat) % (q as int)) as u64)
    } else {
        root_search(q, (x + 1) as u64)
    }
}

/// The primitive 2N-th root of unity mod `q` that the lattice unit uses:
/// none unless `q >= 3` and 2N divides `q - 1`; otherwise the root derived
/// from the least witness `x >= 2`.
pub open spec fn root_of(q: u64) -> Option<u64> {
    if q < 3 || (q - 1) % 8 != 0 {
        None
    } else {
        root_search(q, 2)
    }
}

/// Coefficient `j` of a register reduced mod `q`.
pub open spec fn coef(a: Reg256, q: int, j: int) -> int {
    a.lanes[j] as int % q
}

/// Coefficient `k` of the product of `a` and `b` in Z_q[X]/(X^4 + 1):
/// terms whose degree wraps past X^4 change sign.
pub open spec fn ring_coeff(a: Reg256, b: Reg256, q: int, k: int) -> int {
    let a0 = coef(a, q, 0);
    let a1 = coef(a, q, 1);
    let a2 = coef(a, q, 2);
    let a3 = coef(a, q, 3);
    let b0 = coef(b, q, 0);
    let b1 = coef(b, q, 1);
    let b2 = coef(b, q, 2);
    let b3 = coef(b, q, 3);
    let v = if k == 0 {
        a0 * b0 - (a1 * b3 + a2 * b2 + a3 * b1)
    } else if k == 1 {
        a0 * b1 + a1 * b0 - (a2 * b3 + a3 * b2)
    } else if k == 2 {
        a0 * b2 + a1 * b1 + a2 * b0 - a3 * b3
    } else {
        a0 * b3 + a1 * b2 + a2 * b1 + a3 * b0
    };
    v % q
}

/// The contribution of `a_i * b_j` to coefficient `k` of the ring product.
pub open spec fn ring_term(a: Reg256, b: Reg256, q: int, i: int, j: int, k: int) -> int {
    if (i + j) % 4 != k {
        0
    } else if i + j < 4 {
        coef(a, q, i) * coef(b, q, j)
    } else {
        -(coef(a, q, i) * coef(b, q, j))
    }
}

/// Sum of the contributions to coefficient `k` of the first `n` pairs
/// `(i, j)` taken in the order `4 * i + j`.
pub open spec fn ring_partial(a: Reg256, b: Reg256, q: int, k: int, n: int) -> int
    decreases n,
{
    if n <= 0 {
        0
    } else {
        ring_partial(a, b, q, k, n - 1) + ring_term(a, b, q, (n - 1) / 4, (n - 1) % 4, k)
    }
}

/// Sum of the first `n` terms of the forward transform at frequency `k`:
/// `a_j * psi^j * omega^(j*k)`, with `omega = psi^2 mod q`.
pub open spec fn ntt_partial(a: Reg256, q: int, psi: int, k: int, n: int) -> int
    decreases n,
{
    if n <= 0 {
        0
    } else {
        ntt_partial(a, q, psi, k, n - 1) + coef(a, q, n - 1) * pow(psi, (n - 1) as nat) * pow(
            (psi * psi) % q,
            ((n - 1) * k) as nat,
        )
    }
}

/// Coefficient `k` of the negacyclic transform of `a` with root `psi`.
pub open spec fn ntt_coeff(a: Reg256, q: int, psi: int, k: int) -> int {
    ntt_partial(a, q, psi, k, 4) % q
}

/// Sum of the first `n` terms of the inverse transform at index `j`:
/// `A_k * w^(j*k)`, with `w` the inverse of omega.
pub open spec fn intt_partial(a: Reg256, q: int, w: int, j: int, n: int) -> int
    decreases n,
{
    if n <= 0 {
        0
    } else {
        intt_partial(a, q, w, j, n - 1) + coef(a, q, n - 1) * pow(w, (j * (n - 1)) as nat)
    }
}

/// Inverse modulo a prime `q`, by Fermat: `x^(q-2) mod q`.
pub open spec fn fermat_inv(x: int, q: int) -> int {
    pow(x, (q - 2) as nat) % q
}

/// Coefficient `j` of the inverse negacyclic transform of `a` with root
/// `psi`: `N^-1 * psi^-j * sum_k A_k * omega^(-j*k)`, every inverse taken
/// as `x^(q-2)`.
pub open spec fn intt_coeff(a: Reg256, q: int, psi: int, j: int) -> int {
    let omega = (psi * psi) % q;
    let w = fermat_inv(omega, q);
    let ip = fermat_inv(psi, q);
    let inv_n = fermat_inv(4, q);
    (intt_partial(a, q, w, j, 4) * pow(ip, j as nat) * inv_n) % q
}

/// `a * b mod q`.
pub fn mod_mul(a: u64, b: u64, q: u64) -> (r: u64)
    requires
        q > 0,
    ensures
        r == (a * b) % (q as int),
        r < q,
{
    assert((a as int) * (b as int) <= u128::MAX) by (nonlinear_arith)
        requires
            a <= u64::MAX,
            b <= u64::MAX,
    ;
    let p = (a as u128) * (b as u128);
    (p % (q as u128)) as u64
}

proof fn lemma_mod_pow_step(acc: int, b: int, e: nat, q: int)
    requires
        q > 0,
        e > 0,
    ensures
        (acc * pow(b, e)) % q == ((if e % 2 == 1 {
            (acc * b) % q
        } else {
            acc
        }) * pow((b * b) % q, e / 2)) % q,
{
    let h = e / 2;
    let r = e % 2;
    lemma_pow_adds(b, 2 * h, r);
    lemma_pow_multiplies(b, 2, h);
    lemma_square_is_pow2(b);
    lemma_pow_mod_noop(b * b, h, q);
    let p = pow(b * b, h);
    let p2 = pow((b * b) % q, h);
    assert(pow(b, e) == p * pow(b, r)) by {
        assert(e == 2 * h + r);
    }
    if r == 1 {
        lemma_pow1(b);
        assert(acc * (p * b) == (acc * b) * p) by (nonlinear_arith);
        lemma_mul_mod_noop_left(acc * b, p, q);
        lemma_mul_mod_noop_right((acc * b) % q, p, q);
        lemma_mul_mod_noop_right((acc * b) % q, p2, q);
    } else {
        lemma_pow0(b);
        lemma_mul_mod_noop_right(acc, p, q);
        lemma_mul_mod_noop_right(acc, p2, q);
    }
}

/// `base^exp mod q`, by square and multiply.
pub fn mod_pow(base: u64, exp: u64, q: u64) -> (r: u64)
    requires
        q > 0,
    ensures
        r == pow(base as int, exp as nat) % (q as int),
        r < q,
{
    let mut acc = 1 % q;
    let mut b = base % q;
    let mut e = exp;
    proof {
        lemma_pow_mod_noop(base as int, exp as nat, q as int);
        lemma_mul_mod_noop_left(1, pow((base % q) as int, exp as nat), q as int);
    }
    while e > 0
        invariant
            q > 0,
            acc < q,
            b < q,
            (acc * pow(b as int, e as nat)) % (q as int) == pow(base as int, exp as nat) % (q as int),
        decreases e,
    {
        proof {
            lemma_mod_pow_step(acc as int, b as int, e as nat, q as int);
        }
        if e % 2 == 1 {
            acc = mod_mul(acc, b, q);
        }
        b = mod_mul(b, b, q);
        e = e / 2;
    }
    proof {
        lemma_pow0(b as int);
        lemma_small_mod(acc as nat, q as nat);
    }
    acc
}

/// a^-1 mod q by Fermat's little theorem (exact when q is prime).
fn mod_inv(a: u64, q: u64) -> (r: u64)
    requires
        q >= 2,
    ensures
        r == fermat_inv(a as int, q as int),
        r < q,
{
    mod_pow(a, q - 2, q)
}

proof fn lemma_mul3_mod(x: int, p: int, w: int, q: int)
    requires
        q > 0,
    ensures
        (((x * (p % q)) % q) * (w % q)) % q == (x * p * w) % q,
{
    lemma_mul_mod_noop_right(x, p, q);
    lemma_mul_mod_noop_general(x * p, w, q);
}

proof fn lemma_acc_step(acc: int, part: int, t: int, term: int, q: int)
    requires
        q > 0,
        acc == part % q,
        t == term % q,
    ensures
        (acc + t) % q == (part + term) % q,
{
    lemma_add_mod_noop(part, term, q);
}

proof fn lemma_ring_partial_full(a: Reg256, b: Reg256, q: int, k: int)
    requires
        q > 0,
        0 <= k < 4,
    ensures
        ring_partial(a, b, q, k, 16) % q == ring_coeff(a, b, q, k),
{
    reveal_with_fuel(ring_partial, 17);
}

/// Post-quantum lattice unit: arithmetic in Z_q[X]/(X^4 + 1), one
/// coefficient per 64-bit lane. A modulus of 0 stands for the Kyber modulus.
pub struct LatticeUnit;

impl LatticeUnit {
    /// A primitive 2N-th root of unity mod `q` (its N-th power is -1), or
    /// `None` when 2N does not divide `q - 1` or no root is found below `q`.
    pub fn negacyclic_root(q: u64) -> (r: Option<u64>)
        ensures
            r == root_of(q),
    {
        let two_n: u64 = 8;
        if q < 3 || (q - 1) % two_n != 0 {
            return None;
        }
        let exp = (q - 1) / two_n;
        let neg_one = q - 1;
        let mut x: u64 = 2;
        while x < q
            invariant
                3 <= q,
                2 <= x <= q,
                (q - 1) % 8 == 0,
                exp == (q - 1) / 8,
                neg_one == q - 1,
                root_of(q) == root_search(q, x),
            decreases q - x,
        {
            let psi = mod_pow(x, exp, q);
            let p4 = mod_pow(psi, 4, q);
            if p4 == neg_one {
                return Some(psi);
            }
            x = x + 1;
        }
        None
    }

    /// Coefficient-wise sum mod q.
    pub fn poly_add(a: &Reg256, b: &Reg256, q: u64) -> (r: Reg256)
        ensures
            forall|i: int|
                0 <= i < 4 ==> #[trigger] r.lanes[i] == (a.lanes[i] + b.lanes[i]) % eff_q(q),
    {
        let q = if q == 0 {
            KYBER_Q
        } else {
            q
        };
        let mut lanes = [0u64; 4];
        for i in 0..4
            invariant
                q as int == eff_q(q),
                q > 0,
                forall|j: int|
                    0 <= j < i ==> #[trigger] lanes[j] == (a.lanes[j] + b.lanes[j]) % (q as int),
        {
            let s = (a.lanes[i] % q) as u128 + (b.lanes[i] % q) as u128;
            proof {
                lemma_add_mod_noop(a.lanes[i as int] as int, b.lanes[i as int] as int, q as int);
            }
            lanes[i] = (s % (q as u128)) as u64;
        }
        Reg256 { lanes }
    }

    /// Every coefficient reduced mod `modulus`.
    pub fn mod_red(a: &Reg256, modulus: u64) -> (r: Reg256)
        ensures
            forall|i: int| 0 <= i < 4 ==> #[trigger] r.lanes[i] == a.lanes[i] as int % eff_q(modulus),
    {
        let q = if modulus == 0 {
            KYBER_Q
        } else {
            modulus
        };
        let mut lanes = [0u64; 4];
        for i in 0..4
            invariant
                q as int == eff_q(modulus),
                q > 0,
                forall|j: int| 0 <= j < i ==> #[trigger] lanes[j] == a.lanes[j] as int % (q as int),
        {
            lanes[i] = a.lanes[i] % q;
        }
        Reg256 { lanes }
    }

    /// Product in Z_q[X]/(X^4 + 1): schoolbook negacyclic convolution.
    pub fn poly_mul(a: &Reg256, b: &Reg256, q: u64) -> (r: Reg256)
        ensures
            r == ring_product(*a, *b, eff_q(q)),
            forall|k: int| 0 <= k < 4 ==> #[trigger] r.lanes[k] == ring_coeff(*a, *b, eff_q(q), k),
    {
        let q = if q == 0 {
            KYBER_Q
        } else {
            q
        };
        let ghost qi = q as int;
        let mut c = [0u64; 4];
        proof {
            assert forall|k: int| 0 <= k < 4 implies #[trigger] c[k] == ring_partial(
                *a,
                *b,
                qi,
                k,
                0,
            ) % qi by {
                lemma_small_mod(0, qi as nat);
            }
        }
        for t in 0..16
            invariant
                qi == eff_q(q),
                q > 0,
                forall|k: int|
                    0 <= k < 4 ==> #[trigger] c[k] == ring_partial(*a, *b, qi, k, t as int) % qi,
        {
            let i = t / 4;
            let j = t % 4;
            let prod = mod_mul(a.lanes[i] % q, b.lanes[j] % q, q);
            let idx = (i + j) % 4;
            let old_c = c[idx];
            proof {
                lemma_mul_mod_noop_general(
                    a.lanes[i as int] as int,
                    b.lanes[j as int] as int,
                    qi,
                );
                lemma_mod_bound(ring_partial(*a, *b, qi, idx as int, t as int), qi);
            }
            if i + j < 4 {
                c[idx] = ((old_c as u128 + prod as u128) % (q as u128)) as u64;
                proof {
                    lemma_acc_step(
                        old_c as int,
                        ring_partial(*a, *b, qi, idx as int, t as int),
                        prod as int,
                        coef(*a, qi, i as int) * coef(*b, qi, j as int),
                        qi,
                    );
                }
            } else {
                c[idx] = ((old_c as u128 + q as u128 - prod as u128) % (q as u128)) as u64;
                proof {
                    let term = coef(*a, qi, i as int) * coef(*b, qi, j as int);
                    lemma_mod_add_multiples_vanish(old_c as int - prod as int, qi);
                    lemma_sub_mod_noop(old_c as int, prod as int, qi);
                    lemma_sub_mod_noop(ring_partial(*a, *b, qi, idx as int, t as int), term, qi);
                    lemma_mod_twice(ring_partial(*a, *b, qi, idx as int, t as int), qi);
                    lemma_mod_twice(term, qi);
                    lemma_small_mod(old_c as nat, qi as nat);
                    lemma_small_mod(prod as nat, qi as nat);
                }
            }
            proof {
                assert forall|k: int| 0 <= k < 4 implies #[trigger] c[k] == ring_partial(
                    *a,
                    *b,
                    qi,
                    k,
                    t + 1,
                ) % qi by {
                    if k != idx as int {
                        assert(ring_term(*a, *b, qi, i as int, j as int, k) == 0);
                    }
                }
            }
        }
        proof {
            assert forall|k: int| 0 <= k < 4 implies #[trigger] c[k] == ring_coeff(*a, *b, qi, k) by {
                lemma_ring_partial_full(*a, *b, qi, k);
                lemma_mod_bound(ring_partial(*a, *b, qi, k, 16), qi);
            }
            assert(c =~= ring_product(*a, *b, qi).lanes);
        }
        Reg256 { lanes: c }
    }

    /// Forward negacyclic transform over Z_q[X]/(X^4 + 1):
    /// `A[k] = sum_j a[j] * psi^j * omega^(j*k) mod q`, `omega = psi^2`;
    /// `None` when `q` has no primitive 2N-th root of unity.
    pub fn ntt(a: &Reg256, q: u64) -> (r: Option<Reg256>)
        ensures
            match root_of(eff_q(q) as u64) {
                None => r is None,
                Some(psi) => r matches Some(v) && v == spectrum(*a, eff_q(q), psi as int) && forall|k: int|
                    0 <= k < 4 ==> #[trigger] v.lanes[k] == ntt_coeff(*a, eff_q(q), psi as int, k),
            },
    {
        let q = if q == 0 {
            KYBER_Q
        } else {
            q
        };
        let ghost qi = q as int;
        let psi = match Self::negacyclic_root(q) {
            Some(p) => p,
            None => return None,
        };
        proof {
            lemma_root_bound(q);
        }
        let omega = mod_mul(psi, psi, q);
        let mut twisted = [0u64; 4];
        let mut psi_j = 1 % q;
        proof {
            lemma_pow0(psi as int);
        }
        for j in 0..4
            invariant
                qi == q,
                q >= 3,
                psi_j == pow(psi as int, j as nat) % qi,
                forall|jj: int|
                    0 <= jj < j ==> #[trigger] twisted[jj] == (coef(*a, qi, jj) * (pow(
                        psi as int,
                        jj as nat,
                    ) % qi)) % qi,
        {
            twisted[j] = mod_mul(a.lanes[j] % q, psi_j, q);
            proof {
                lemma_pow_adds(psi as int, j as nat, 1);
                lemma_pow1(psi as int);
                lemma_mul_mod_noop_left(pow(psi as int, j as nat), psi as int, qi);
            }
            psi_j = mod_mul(psi_j, psi, q);
        }
        let mut lanes = [0u64; 4];
        for k in 0..4
            invariant
                qi == q,
                q >= 3,
                omega == (psi * psi) % qi,
                forall|jj: int|
                    0 <= jj < 4 ==> #[trigger] twisted[jj] == (coef(*a, qi, jj) * (pow(
                        psi as int,
                        jj as nat,
                    ) % qi)) % qi,
                forall|kk: int|
                    0 <= kk < k ==> #[trigger] lanes[kk] == ntt_coeff(*a, qi, psi as int, kk),
        {
            let mut acc: u64 = 0;
            proof {
                lemma_small_mod(0, qi as nat);
            }
            for j in 0..4
                invariant
                    qi == q,
                    q >= 3,
                    omega == (psi * psi) % qi,
                    0 <= k < 4,
                    forall|jj: int|
                        0 <= jj < 4 ==> #[trigger] twisted[jj] == (coef(*a, qi, jj) * (pow(
                            psi as int,
                            jj as nat,
                        ) % qi)) % qi,
                    acc == ntt_partial(*a, qi, psi as int, k as int, j as int) % qi,
            {
                assert((j as int) * (k as int) <= 9) by (nonlinear_arith)
                    requires
                        j < 4,
                        k < 4,
                ;
                let tw = mod_pow(omega, (j * k) as u64, q);
                let t = mod_mul(twisted[j], tw, q);
                proof {
                    lemma_mul3_mod(
                        coef(*a, qi, j as int),
                        pow(psi as int, j as nat),
                        pow((psi * psi) % qi, (j * k) as nat),
                        qi,
                    );
                    lemma_acc_step(
                        acc as int,
                        ntt_partial(*a, qi, psi as int, k as int, j as int),
                        t as int,
                        coef(*a, qi, j as int) * pow(psi as int, j as nat) * pow(
                            (psi * psi) % qi,
                            (j * k) as nat,
                        ),
                        qi,
                    );
                }
                acc = ((acc as u128 + t as u128) % (q as u128)) as u64;
            }
            lanes[k] = acc;
        }
        proof {
            assert forall|k: int| 0 <= k < 4 implies #[trigger] lanes[k] == spectrum(*a, qi, psi as int).lanes[k] by {
                lemma_mod_bound(ntt_partial(*a, qi, psi as int, k, 4), qi);
            }
            assert(lanes =~= spectrum(*a, qi, psi as int).lanes);
        }
        Some(Reg256 { lanes })
    }

    /// Inverse negacyclic transform, an exact left inverse of `ntt` for a
    /// prime modulus: `a[j] = N^-1 * psi^-j * sum_k A[k] * omega^(-j*k) mod q`,
    /// each inverse computed as `x^(q-2) mod q`.
    pub fn inv_ntt(a: &Reg256, q: u64) -> (r: Option<Reg256>)
        ensures
            match root_of(eff_q(q) as u64) {
                None => r is None,
                Some(psi) => r matches Some(v) && forall|j: int|
                    0 <= j < 4 ==> #[trigger] v.lanes[j] == intt_coeff(*a, eff_q(q), psi as int, j),
            },
    {
        let q = if q == 0 {
            KYBER_Q
        } else {
            q
        };
        let ghost qi = q as int;
        let psi = match Self::negacyclic_root(q) {
            Some(p) => p,
            None => return None,
        };
        proof {
            lemma_root_bound(q);
        }
        let omega = mod_mul(psi, psi, q);
        let inv_omega = mod_inv(omega, q);
        let inv_psi = mod_inv(psi, q);
        let inv_n = mod_inv(4, q);
        let mut lanes = [0u64; 4];
        let mut inv_psi_j = 1 % q;
        proof {
            lemma_pow0(inv_psi as int);
        }
        for j in 0..4
            invariant
                qi == q,
                q >= 3,
                omega == (psi * psi) % qi,
                inv_omega == fermat_inv((psi * psi) % qi, qi),
                inv_psi == fermat_inv(psi as int, qi),
                inv_n == fermat_inv(4, qi),
                inv_psi_j == pow(inv_psi as int, j as nat) % qi,
                forall|jj: int|
                    0 <= jj < j ==> #[trigger] lanes[jj] == intt_coeff(*a, qi, psi as int, jj),
        {
            let mut acc: u64 = 0;
            proof {
                lemma_small_mod(0, qi as nat);
            }
            for k in 0..4
                invariant
                    qi == q,
                    q >= 3,
                    0 <= j < 4,
                    acc == intt_partial(*a, qi, inv_omega as int, j as int, k as int) % qi,
            {
                assert((j as int) * (k as int) <= 9) by (nonlinear_arith)
                    requires
                        j < 4,
                        k < 4,
                ;
                let tw = mod_pow(inv_omega, (j * k) as u64, q);
                let t = mod_mul(a.lanes[k] % q, tw, q);
                proof {
                    lemma_mul_mod_noop_right(
                        coef(*a, qi, k as int),
                        pow(inv_omega as int, (j * k) as nat),
                        qi,
                    );
                    lemma_acc_step(
                        acc as int,
                        intt_partial(*a, qi, inv_omega as int, j as int, k as int),
                        t as int,
                        coef(*a, qi, k as int) * pow(inv_omega as int, (j * k) as nat),
                        qi,
                    );
                }
                acc = ((acc as u128 + t as u128) % (q as u128)) as u64;
            }
            let scaled = mod_mul(acc, inv_psi_j, q);
            lanes[j] = mod_mul(scaled, inv_n, q);
            proof {
                let part = intt_partial(*a, qi, inv_omega as int, j as int, 4);
                let pj = pow(inv_psi as int, j as nat);
                lemma_mul_mod_noop_general(part, pj, qi);
                lemma_mul_mod_noop_left(part * pj, inv_n as int, qi);
                lemma_small_mod(inv_n as nat, qi as nat);
            }
            proof {
                lemma_pow_adds(inv_psi as int, j as nat, 1);
                lemma_pow1(inv_psi as int);
                lemma_mul_mod_noop_left(pow(inv_psi as int, j as nat), inv_psi as int, qi);
            }
            inv_psi_j = mod_mul(inv_psi_j, inv_psi, q);
        }
        Some(Reg256 { lanes })
    }
}

/// A root, when there is one, lies below `q` and `q >= 3`.
proof fn lemma_root_bound(q: u64)
    requires
        root_of(q) is Some,
    ensures
        q >= 3,
        (q - 1) % 8 == 0,
{
}

} // verus!
