//! Lane-wise subtraction undoes lane-wise addition.
use vstd::prelude::*;
use vstd::arithmetic::div_mod::*;
use crate::alu::{LaneOp, elem, lanewise_rel};
use crate::isa::{Reg256, Width, lane_byte, lane_half, lane_word};

verus! {

proof fn lemma_bytes_determine(x: u64, y: u64)
    requires
        lane_byte(x, 0) == lane_byte(y, 0),
        lane_byte(x, 1) == lane_byte(y, 1),
        lane_byte(x, 2) == lane_byte(y, 2),
        lane_byte(x, 3) == lane_byte(y, 3),
        lane_byte(x, 4) == lane_byte(y, 4),
        lane_byte(x, 5) == lane_byte(y, 5),
        lane_byte(x, 6) == lane_byte(y, 6),
        lane_byte(x, 7) == lane_byte(y, 7),
    ensures
        x == y,
{
    assert(x == y) by (bit_vector)
        requires
            ((x >> 0u64) & 0xff) as u8 == ((y >> 0u64) & 0xff) as u8,
            ((x >> 8u64) & 0xff) as u8 == ((y >> 8u64) & 0xff) as u8,
            ((x >> 16u64) & 0xff) as u8 == ((y >> 16u64) & 0xff) as u8,
            ((x >> 24u64) & 0xff) as u8 == ((y >> 24u64) & 0xff) as u8,
            ((x >> 32u64) & 0xff) as u8 == ((y >> 32u64) & 0xff) as u8,
            ((x >> 40u64) & 0xff) as u8 == ((y >> 40u64) & 0xff) as u8,
            ((x >> 48u64) & 0xff) as u8 == ((y >> 48u64) & 0xff) as u8,
            ((x >> 56u64) & 0xff) as u8 == ((y >> 56u64) & 0xff) as u8,
    ;
}

proof fn lemma_halves_determine(x: u64, y: u64)
    requires
        lane_half(x, 0) == lane_half(y, 0),
        lane_half(x, 1) == lane_half(y, 1),
        lane_half(x, 2) == lane_half(y, 2),
        lane_half(x, 3) == lane_half(y, 3),
    ensures
        x == y,
{
    assert(x == y) by (bit_vector)
        requires
            ((x >> 0u64) & 0xffff) as u16 == ((y >> 0u64) & 0xffff) as u16,
            ((x >> 16u64) & 0xffff) as u16 == ((y >> 16u64) & 0xffff) as u16,
            ((x >> 32u64) & 0xffff) as u16 == ((y >> 32u64) & 0xffff) as u16,
            ((x >> 48u64) & 0xffff) as u16 == ((y >> 48u64) & 0xffff) as u16,
    ;
}

proof fn lemma_words_determine(x: u64, y: u64)
    requires
        lane_word(x, 0) == lane_word(y, 0),
        lane_word(x, 1) == lane_word(y, 1),
    ensures
        x == y,
{
    assert(x == y) by (bit_vector)
        requires
            ((x >> 0u64) & 0xffff_ffff) as u32 == ((y >> 0u64) & 0xffff_ffff) as u32,
            ((x >> 32u64) & 0xffff_ffff) as u32 == ((y >> 32u64) & 0xffff_ffff) as u32,
    ;
}

/// Lane `k` of two registers agrees when their elements at width `w` do.
proof fn lemma_lane_determined(r1: Reg256, r2: Reg256, w: Width, k: int)
    requires
        0 <= k < 4,
        forall|i: int| 0 <= i < w.lane_total() ==> #[trigger] elem(r1, w, i) == elem(r2, w, i),
    ensures
        r1.lanes[k] == r2.lanes[k],
{
    match w {
        Width::B8 => {
            assert(elem(r1, w, 8 * k) == elem(r2, w, 8 * k));
            assert(elem(r1, w, 8 * k + 1) == elem(r2, w, 8 * k + 1));
            assert(elem(r1, w, 8 * k + 2) == elem(r2, w, 8 * k + 2));
            assert(elem(r1, w, 8 * k + 3) == elem(r2, w, 8 * k + 3));
            assert(elem(r1, w, 8 * k + 4) == elem(r2, w, 8 * k + 4));
            assert(elem(r1, w, 8 * k + 5) == elem(r2, w, 8 * k + 5));
            assert(elem(r1, w, 8 * k + 6) == elem(r2, w, 8 * k + 6));
            assert(elem(r1, w, 8 * k + 7) == elem(r2, w, 8 * k + 7));
            lemma_bytes_determine(r1.lanes[k], r2.lanes[k]);
        },
        Width::B16 => {
            assert(elem(r1, w, 4 * k) == elem(r2, w, 4 * k));
            assert(elem(r1, w, 4 * k + 1) == elem(r2, w, 4 * k + 1));
            assert(elem(r1, w, 4 * k + 2) == elem(r2, w, 4 * k + 2));
            assert(elem(r1, w, 4 * k + 3) == elem(r2, w, 4 * k + 3));
            lemma_halves_determine(r1.lanes[k], r2.lanes[k]);
        },
        Width::B32 => {
            assert(elem(r1, w, 2 * k) == elem(r2, w, 2 * k));
            assert(elem(r1, w, 2 * k + 1) == elem(r2, w, 2 * k + 1));
            lemma_words_determine(r1.lanes[k], r2.lanes[k]);
        },
        Width::B64 => {
            assert(elem(r1, w, k) == elem(r2, w, k));
        },
    }
}

/// Registers whose elements at some width all agree are equal.
proof fn lemma_elems_determine(r1: Reg256, r2: Reg256, w: Width)
    requires
        forall|i: int| 0 <= i < w.lane_total() ==> #[trigger] elem(r1, w, i) == elem(r2, w, i),
    ensures
        r1 == r2,
{
    lemma_lane_determined(r1, r2, w, 0);
    lemma_lane_determined(r1, r2, w, 1);
    lemma_lane_determined(r1, r2, w, 2);
    lemma_lane_determined(r1, r2, w, 3);
    assert(r1.lanes =~= r2.lanes);
}

proof fn lemma_elem_bound(r: Reg256, w: Width, i: int)
    ensures
        0 <= elem(r, w, i) < w.modulus(),
{
}

/// Lane-wise wrapping subtraction at a width undoes lane-wise wrapping
/// addition at the same width: subtracting `b` from `a + b` gives `a`
/// back, and a register minus itself is zero.
pub proof fn law_vsub_undoes_vadd(a: Reg256, b: Reg256, w: Width)
    ensures
        forall|s: Reg256, d: Reg256|
            #![trigger lanewise_rel(LaneOp::Add, a, b, w, s), lanewise_rel(LaneOp::Sub, s, b, w, d)]
            lanewise_rel(LaneOp::Add, a, b, w, s) && lanewise_rel(LaneOp::Sub, s, b, w, d) ==> d == a,
        forall|d: Reg256|
            #[trigger] lanewise_rel(LaneOp::Sub, a, a, w, d) ==> d == Reg256::scalar(0),
{
    let m = w.modulus();
    assert forall|s: Reg256, d: Reg256|
        lanewise_rel(LaneOp::Add, a, b, w, s) && lanewise_rel(LaneOp::Sub, s, b, w, d) implies d
        == a by {
        assert forall|i: int| 0 <= i < w.lane_total() implies #[trigger] elem(d, w, i) == elem(a, w, i) by {
            let x = elem(a, w, i);
            let y = elem(b, w, i);
            assert(elem(s, w, i) == (x + y) % m);
            assert(elem(d, w, i) == (elem(s, w, i) - y) % m);
            lemma_elem_bound(a, w, i);
            lemma_elem_bound(b, w, i);
            lemma_sub_mod_noop(x + y, y, m);
            lemma_mod_twice(y, m);
            lemma_small_mod(y as nat, m as nat);
            lemma_small_mod(x as nat, m as nat);
            lemma_mod_twice(x + y, m);
            lemma_sub_mod_noop((x + y) % m, y, m);
        }
        lemma_elems_determine(d, a, w);
    }
    assert forall|d: Reg256| #[trigger] lanewise_rel(LaneOp::Sub, a, a, w, d) implies d
        == Reg256::scalar(0) by {
        assert forall|i: int| 0 <= i < w.lane_total() implies #[trigger] elem(d, w, i) == elem(
            Reg256::scalar(0),
            w,
            i,
        ) by {
            assert(elem(d, w, i) == (elem(a, w, i) - elem(a, w, i)) % m);
            lemma_zero_elem(w, i);
        }
        lemma_elems_determine(d, Reg256::scalar(0), w);
    }
}

proof fn lemma_zero_elem(w: Width, i: int)
    requires
        0 <= i < w.lane_total(),
    ensures
        elem(Reg256::scalar(0), w, i) == 0,
{
    let z = Reg256::scalar(0);
    assert(forall|k: int| 0 <= k < 4 ==> z.lanes[k] == 0);
    lemma_zero_parts((i % 8) as u64);
    lemma_zero_parts((i % 4) as u64);
    lemma_zero_parts((i % 2) as u64);
}

proof fn lemma_zero_parts(k: u64)
    requires
        k < 8,
    ensures
        lane_byte(0, k) == 0,
        lane_half(0, k) == 0,
        lane_word(0, k) == 0,
{
    let z: u64 = 0;
    assert(((z >> (8 * k)) & 0xff) as u8 == 0) by (bit_vector)
        requires
            z == 0,
            k < 8,
    ;
    assert(((z >> (16 * k)) & 0xffff) as u16 == 0) by (bit_vector)
        requires
            z == 0,
            k < 8,
    ;
    assert(((z >> (32 * k)) & 0xffff_ffff) as u32 == 0) by (bit_vector)
        requires
            z == 0,
            k < 8,
    ;
}

} // verus!
