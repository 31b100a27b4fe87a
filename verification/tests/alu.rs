use unibit::alu::{
    mod_mul, mod_pow, InfoUnit, LatticeUnit, ScalarAlu, VectorUnit, DILITHIUM_Q, KYBER_Q, RING_N,
};
use unibit::isa::{Reg256, Width};

/// Deterministic xorshift, so failures are reproducible.
fn rng(state: &mut u64) -> u64 {
    *state ^= *state << 13;
    *state ^= *state >> 7;
    *state ^= *state << 17;
    *state
}

fn random_poly(state: &mut u64, q: u64) -> Reg256 {
    let mut r = Reg256::zero();
    for i in 0..RING_N {
        r.lanes[i] = rng(state) % q;
    }
    r
}

#[test]
fn test_scalar_alu() {
    assert_eq!(ScalarAlu::add(10, 20), 30);
    assert_eq!(ScalarAlu::sub(30, 10), 20);
    assert_eq!(ScalarAlu::mul(6, 7), 42);
    assert_eq!(ScalarAlu::div(100, 4), 25);
    assert_eq!(ScalarAlu::rem(100, 7), 2);
    assert_eq!(ScalarAlu::slt(5, 10), 1);
    assert_eq!(ScalarAlu::slt(10, 5), 0);
}

#[test]
fn test_simd_vadd_b8() {
    let mut a = Reg256::zero();
    let mut b = Reg256::zero();
    for i in 0..32 {
        a.set_b(i, i as u8);
        b.set_b(i, 10);
    }
    let c = VectorUnit::vadd(&a, &b, Width::B8);
    for i in 0..32 {
        assert_eq!(c.b(i), (i as u8) + 10);
    }
}

#[test]
fn test_pqc_polymul_identity() {
    let mut one = Reg256::zero();
    one.lanes[0] = 1;
    let mut st = 0x2545F491_4F6CDD1D;
    for _ in 0..64 {
        let b = random_poly(&mut st, KYBER_Q);
        let c = LatticeUnit::poly_mul(&one, &b, KYBER_Q);
        assert_eq!(c.lanes, b.lanes);
    }
}

#[test]
fn test_pqc_polymul_negacyclic_wrap() {
    let mut x3 = Reg256::zero();
    x3.lanes[3] = 1;
    let mut x1 = Reg256::zero();
    x1.lanes[1] = 1;
    let c = LatticeUnit::poly_mul(&x3, &x1, KYBER_Q);
    assert_eq!(c.lanes, [KYBER_Q - 1, 0, 0, 0]);
}

#[test]
fn test_negacyclic_root_properties() {
    for &q in &[KYBER_Q, DILITHIUM_Q, 12289] {
        let psi = LatticeUnit::negacyclic_root(q)
            .unwrap_or_else(|| panic!("no 2N-th root of unity mod {}", q));
        assert_eq!(mod_pow(psi, RING_N as u64, q), q - 1, "q={}", q);
        assert_eq!(mod_pow(psi, 2 * RING_N as u64, q), 1, "q={}", q);
    }
    assert_eq!(LatticeUnit::negacyclic_root(7), None);
}

#[test]
fn test_ntt_roundtrip() {
    for &q in &[KYBER_Q, DILITHIUM_Q] {
        let mut st = 0x9E3779B9_7F4A7C15;
        for _ in 0..256 {
            let a = random_poly(&mut st, q);
            let spectrum = LatticeUnit::ntt(&a, q).expect("forward ntt");
            let back = LatticeUnit::inv_ntt(&spectrum, q).expect("inverse ntt");
            assert_eq!(back.lanes, a.lanes, "invntt(ntt(a)) != a for q={}", q);
        }
    }
}

#[test]
fn test_ntt_convolution_theorem() {
    for &q in &[KYBER_Q, DILITHIUM_Q] {
        let mut st = 0xDEADBEEF_CAFEF00D;
        for _ in 0..256 {
            let a = random_poly(&mut st, q);
            let b = random_poly(&mut st, q);

            let lhs = LatticeUnit::ntt(&LatticeUnit::poly_mul(&a, &b, q), q).unwrap();

            let na = LatticeUnit::ntt(&a, q).unwrap();
            let nb = LatticeUnit::ntt(&b, q).unwrap();
            let mut rhs = Reg256::zero();
            for i in 0..RING_N {
                rhs.lanes[i] = mod_mul(na.lanes[i], nb.lanes[i], q);
            }

            assert_eq!(lhs.lanes, rhs.lanes, "convolution theorem broken for q={}", q);
        }
    }
}

#[test]
fn test_ntt_rejects_unsupported_modulus() {
    assert!(LatticeUnit::ntt(&Reg256::zero(), 7).is_none());
    assert!(LatticeUnit::inv_ntt(&Reg256::zero(), 7).is_none());
}

#[test]
fn test_poly_add_no_overflow() {
    let mut a = Reg256::zero();
    let mut b = Reg256::zero();
    for i in 0..RING_N {
        a.lanes[i] = u64::MAX;
        b.lanes[i] = u64::MAX;
    }
    let c = LatticeUnit::poly_add(&a, &b, KYBER_Q);
    let expected = (u64::MAX % KYBER_Q + u64::MAX % KYBER_Q) % KYBER_Q;
    for i in 0..RING_N {
        assert_eq!(c.lanes[i], expected);
    }
}

#[test]
fn the_integer_reduce_never_had_that_choice_to_make() {
    let nasty: [u32; 8] = [
        u32::MAX,
        1,
        u32::MAX / 2,
        7,
        0x8000_0000,
        0xDEAD_BEEF,
        3,
        0xFFFF_FFFE,
    ];
    let seq = nasty.iter().fold(0u64, |a, x| a.wrapping_add(*x as u64));
    let mut s: Vec<u64> = nasty.iter().map(|x| *x as u64).collect();
    let mut stride = 4;
    while stride > 0 {
        for t in 0..stride {
            s[t] = s[t].wrapping_add(s[t + stride]);
        }
        stride /= 2;
    }
    assert_eq!(seq, s[0], "integer lanes cannot distinguish the two orders");
}

#[test]
fn scalar_edge_cases_follow_the_hardware_rules() {
    assert_eq!(ScalarAlu::div(7, 0), 0);
    assert_eq!(ScalarAlu::rem(7, 0), 0);
    assert_eq!(ScalarAlu::div(i64::MIN as u64, -1i64 as u64), i64::MIN as u64);
    assert_eq!(ScalarAlu::rem(i64::MIN as u64, -1i64 as u64), 0);
    assert_eq!(ScalarAlu::div(-7i64 as u64, 2), -3i64 as u64);
    assert_eq!(ScalarAlu::rem(-7i64 as u64, 2), -1i64 as u64);
    assert_eq!(ScalarAlu::add(u64::MAX, 1), 0);
    assert_eq!(ScalarAlu::sub(0, 1), u64::MAX);
    assert_eq!(ScalarAlu::mulh(u64::MAX, u64::MAX), u64::MAX - 1);
    assert_eq!(ScalarAlu::sll(1, 65), 2);
    assert_eq!(ScalarAlu::srl(0x80, 68), 0x8);
    assert_eq!(ScalarAlu::sra(-16i64 as u64, 2), -4i64 as u64);
    assert_eq!(ScalarAlu::sltu(1, u64::MAX), 1);
    assert_eq!(ScalarAlu::slt(1, u64::MAX), 0);
    assert_eq!(ScalarAlu::and(0b1100, 0b1010), 0b1000);
    assert_eq!(ScalarAlu::or(0b1100, 0b1010), 0b1110);
    assert_eq!(ScalarAlu::xor(0b1100, 0b1010), 0b0110);
}

#[test]
fn vector_lanes_wrap_at_their_width() {
    let a = Reg256 { lanes: [u64::MAX; 4] };
    let one = Reg256 { lanes: [0x0101_0101_0101_0101; 4] };
    assert_eq!(VectorUnit::vadd(&a, &one, Width::B8).lanes, [0; 4]);
    let x = Reg256 { lanes: [0x0000_0001_0000_0002, 0, 0, 0] };
    let y = Reg256 { lanes: [0x0000_0003_0000_0004, 0, 0, 0] };
    assert_eq!(VectorUnit::vmul(&x, &y, Width::B32).lanes[0], 0x0000_0003_0000_0008);
    assert_eq!(VectorUnit::vsub(&y, &x, Width::B32).lanes[0], 0x0000_0002_0000_0002);
    assert_eq!(VectorUnit::vdot(&x, &y, Width::B32).lanes, [11, 0, 0, 0]);
    assert_eq!(VectorUnit::vreduce(&y, Width::B16).lanes, [7, 0, 0, 0]);
    let s = VectorUnit::vsplat(&Reg256::from_u64(0xABCD), Width::B16);
    assert_eq!(s.lanes, [0xABCD_ABCD_ABCD_ABCD; 4]);
    assert_eq!(VectorUnit::vnot(&Reg256::zero()).lanes, [u64::MAX; 4]);
    assert_eq!(VectorUnit::vand(&a, &x).lanes, x.lanes);
    assert_eq!(VectorUnit::vor(&x, &y).lanes[0], 0x0000_0003_0000_0006);
    assert_eq!(VectorUnit::vxor(&x, &x).lanes, [0; 4]);
}

#[test]
fn information_unit_counts_bits_and_seeds_the_generator() {
    let a = Reg256 { lanes: [0xFF, 1, 0, 1 << 63] };
    assert_eq!(InfoUnit::popcount(&a).lanes, [10, 0, 0, 0]);
    assert_eq!(InfoUnit::hamming(&a, &Reg256::zero()).lanes, [10, 0, 0, 0]);
    let mut seed = 0x1337_CAFE_BABE_F00D;
    let first = InfoUnit::qrand(&mut seed);
    assert_eq!(seed, first.lanes[3]);
    let mut again = 0x1337_CAFE_BABE_F00D;
    assert_eq!(InfoUnit::qrand(&mut again).lanes, first.lanes);
    let second = InfoUnit::qrand(&mut seed);
    assert_ne!(first.lanes, second.lanes);
}

#[test]
fn modular_reduction_uses_kyber_for_zero() {
    let a = Reg256 { lanes: [3329, 3330, 10, u64::MAX] };
    assert_eq!(LatticeUnit::mod_red(&a, 0).lanes, [0, 1, 10, u64::MAX % 3329]);
    assert_eq!(LatticeUnit::mod_red(&a, 10).lanes, [9, 0, 0, u64::MAX % 10]);
    assert_eq!(LatticeUnit::negacyclic_root(17), Some(9));
    assert_eq!(mod_pow(3, 4, 17), 81 % 17);
    assert_eq!(mod_mul(u64::MAX, u64::MAX, 1_000_000_007), ((u64::MAX as u128 * u64::MAX as u128) % 1_000_000_007) as u64);
}

#[test]
fn the_round_trip_needs_four_to_be_invertible_by_fermat() {
    // 697 = 17 * 41 has a primitive 8th root of unity, but 4^(q-2) is not
    // the inverse of 4 modulo a composite, so the inverse transform scales.
    let mut one = Reg256::zero();
    one.lanes[0] = 1;
    let spectrum = LatticeUnit::ntt(&one, 697).expect("697 has a root");
    assert_eq!(spectrum.lanes, [1, 1, 1, 1]);
    let back = LatticeUnit::inv_ntt(&spectrum, 697).expect("697 has a root");
    assert_eq!(back.lanes, [324, 0, 0, 0]);
}

#[test]
fn the_root_of_another_prime_has_order_eight() {
    let q = 7681;
    let psi = LatticeUnit::negacyclic_root(q).expect("8 divides 7680");
    assert_eq!(psi, 1213);
    assert_eq!(mod_pow(psi, 4, q), q - 1);
    assert_eq!(mod_pow(psi, 8, q), 1);
    let mut x = Reg256::zero();
    x.lanes[1] = 5;
    let s = LatticeUnit::ntt(&x, q).unwrap();
    assert_eq!(LatticeUnit::inv_ntt(&s, q).unwrap().lanes, [0, 5, 0, 0]);
}

#[test]
fn subtraction_undoes_addition_at_every_width() {
    let mut a = Reg256::zero();
    let mut b = Reg256::zero();
    a.lanes = [0xFFFF_0001_8000_7FFF, 0x0123_4567_89AB_CDEF, u64::MAX, 5];
    b.lanes = [0x0001_FFFF_8000_0001, 0xFEDC_BA98_7654_3210, 1, u64::MAX];
    for w in [Width::B8, Width::B16, Width::B32, Width::B64] {
        let s = VectorUnit::vadd(&a, &b, w);
        assert_eq!(VectorUnit::vsub(&s, &b, w), a);
        assert_eq!(VectorUnit::vsub(&a, &a, w), Reg256::zero());
    }
}

#[test]
fn the_standard_moduli_have_their_roots() {
    assert_eq!(LatticeUnit::negacyclic_root(KYBER_Q), Some(749));
    assert_eq!(LatticeUnit::negacyclic_root(DILITHIUM_Q), Some(3761513));
    assert_eq!(mod_mul(4, mod_pow(4, KYBER_Q - 2, KYBER_Q), KYBER_Q), 1);
    assert_eq!(mod_mul(4, mod_pow(4, DILITHIUM_Q - 2, DILITHIUM_Q), DILITHIUM_Q), 1);
}
