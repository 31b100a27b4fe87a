//! The lattice moduli the library names have the roots and inverses the
//! transform laws ask for, worked out by repeated squaring.
use vstd::prelude::*;
use vstd::arithmetic::div_mod::*;
use vstd::arithmetic::power::*;
use crate::alu::{DILITHIUM_Q, KYBER_Q, eff_q, fermat_inv, intt_coeff, ntt_coeff, root_of, root_search, root_witness};
use crate::alu::transform::{law_ntt_convolution, law_ntt_round_trip, ring_product, spectrum};
use crate::isa::Reg256;

verus! {

proof fn lemma_pow_dbl(b: int, e: nat, q: int, v: int)
    requires
        q > 0,
        pow(b, e) % q == v,
    ensures
        pow(b, 2 * e) % q == (v * v) % q,
{
    lemma_pow_adds(b, e, e);
    assert(2 * e == e + e);
    lemma_mul_mod_noop_general(pow(b, e), pow(b, e), q);
}

proof fn lemma_pow_inc(b: int, e: nat, q: int, v: int)
    requires
        q > 0,
        pow(b, e) % q == v,
    ensures
        pow(b, e + 1) % q == (v * b) % q,
{
    lemma_pow_adds(b, e, 1);
    lemma_pow1(b);
    lemma_mul_mod_noop_left(pow(b, e), b, q);
}

proof fn lemma_pow_2_3329()
    ensures
        pow(2, 416) % 3329 == 1600,
{
    lemma_pow1(2);
    assert(pow(2, 1) % 3329 == 2);
    lemma_pow_dbl(2, 1, 3329, 2);
    assert(pow(2, 2) % 3329 == 4);
    lemma_pow_inc(2, 2, 3329, 4);
    assert(pow(2, 3) % 3329 == 8);
    lemma_pow_dbl(2, 3, 3329, 8);
    assert(pow(2, 6) % 3329 == 64);
    lemma_pow_dbl(2, 6, 3329, 64);
    assert(pow(2, 12) % 3329 == 767);
    lemma_pow_inc(2, 12, 3329, 767);
    assert(pow(2, 13) % 3329 == 1534);
    lemma_pow_dbl(2, 13, 3329, 1534);
    assert(pow(2, 26) % 3329 == 2882);
    lemma_pow_dbl(2, 26, 3329, 2882);
    assert(pow(2, 52) % 3329 == 69);
    lemma_pow_dbl(2, 52, 3329, 69);
    assert(pow(2, 104) % 3329 == 1432);
    lemma_pow_dbl(2, 104, 3329, 1432);
    assert(pow(2, 208) % 3329 == 3289);
    lemma_pow_dbl(2, 208, 3329, 3289);
    assert(pow(2, 416) % 3329 == 1600);
}

proof fn lemma_pow4_1600_3329()
    ensures
        pow(1600, 4) % 3329 == 1,
{
    lemma_pow1(1600);
    assert(pow(1600, 1) % 3329 == 1600);
    lemma_pow_dbl(1600, 1, 3329, 1600);
    assert(pow(1600, 2) % 3329 == 3328);
    lemma_pow_dbl(1600, 2, 3329, 3328);
    assert(pow(1600, 4) % 3329 == 1);
}

proof fn lemma_pow_3_3329()
    ensures
        pow(3, 416) % 3329 == 749,
{
    lemma_pow1(3);
    assert(pow(3, 1) % 3329 == 3);
    lemma_pow_dbl(3, 1, 3329, 3);
    assert(pow(3, 2) % 3329 == 9);
    lemma_pow_inc(3, 2, 3329, 9);
    assert(pow(3, 3) % 3329 == 27);
    lemma_pow_dbl(3, 3, 3329, 27);
    assert(pow(3, 6) % 3329 == 729);
    lemma_pow_dbl(3, 6, 3329, 729);
    assert(pow(3, 12) % 3329 == 2130);
    lemma_pow_inc(3, 12, 3329, 2130);
    assert(pow(3, 13) % 3329 == 3061);
    lemma_pow_dbl(3, 13, 3329, 3061);
    assert(pow(3, 26) % 3329 == 1915);
    lemma_pow_dbl(3, 26, 3329, 1915);
    assert(pow(3, 52) % 3329 == 1996);
    lemma_pow_dbl(3, 52, 3329, 1996);
    assert(pow(3, 104) % 3329 == 2532);
    lemma_pow_dbl(3, 104, 3329, 2532);
    assert(pow(3, 208) % 3329 == 2699);
    lemma_pow_dbl(3, 208, 3329, 2699);
    assert(pow(3, 416) % 3329 == 749);
}

proof fn lemma_pow4_749_3329()
    ensures
        pow(749, 4) % 3329 == 3328,
{
    lemma_pow1(749);
    assert(pow(749, 1) % 3329 == 749);
    lemma_pow_dbl(749, 1, 3329, 749);
    assert(pow(749, 2) % 3329 == 1729);
    lemma_pow_dbl(749, 2, 3329, 1729);
    assert(pow(749, 4) % 3329 == 3328);
}

proof fn lemma_pow_4_3329_fermat()
    ensures
        pow(4, 3327) % 3329 == 2497,
{
    lemma_pow1(4);
    assert(pow(4, 1) % 3329 == 4);
    lemma_pow_dbl(4, 1, 3329, 4);
    assert(pow(4, 2) % 3329 == 16);
    lemma_pow_inc(4, 2, 3329, 16);
    assert(pow(4, 3) % 3329 == 64);
    lemma_pow_dbl(4, 3, 3329, 64);
    assert(pow(4, 6) % 3329 == 767);
    lemma_pow_dbl(4, 6, 3329, 767);
    assert(pow(4, 12) % 3329 == 2385);
    lemma_pow_dbl(4, 12, 3329, 2385);
    assert(pow(4, 24) % 3329 == 2293);
    lemma_pow_inc(4, 24, 3329, 2293);
    assert(pow(4, 25) % 3329 == 2514);
    lemma_pow_dbl(4, 25, 3329, 2514);
    assert(pow(4, 50) % 3329 == 1754);
    lemma_pow_inc(4, 50, 3329, 1754);
    assert(pow(4, 51) % 3329 == 358);
    lemma_pow_dbl(4, 51, 3329, 358);
    assert(pow(4, 102) % 3329 == 1662);
    lemma_pow_inc(4, 102, 3329, 1662);
    assert(pow(4, 103) % 3329 == 3319);
    lemma_pow_dbl(4, 103, 3329, 3319);
    assert(pow(4, 206) % 3329 == 100);
    lemma_pow_inc(4, 206, 3329, 100);
    assert(pow(4, 207) % 3329 == 400);
    lemma_pow_dbl(4, 207, 3329, 400);
    assert(pow(4, 414) % 3329 == 208);
    lemma_pow_inc(4, 414, 3329, 208);
    assert(pow(4, 415) % 3329 == 832);
    lemma_pow_dbl(4, 415, 3329, 832);
    assert(pow(4, 830) % 3329 == 3121);
    lemma_pow_inc(4, 830, 3329, 3121);
    assert(pow(4, 831) % 3329 == 2497);
    lemma_pow_dbl(4, 831, 3329, 2497);
    assert(pow(4, 1662) % 3329 == 3121);
    lemma_pow_inc(4, 1662, 3329, 3121);
    assert(pow(4, 1663) % 3329 == 2497);
    lemma_pow_dbl(4, 1663, 3329, 2497);
    assert(pow(4, 3326) % 3329 == 3121);
    lemma_pow_inc(4, 3326, 3329, 3121);
    assert(pow(4, 3327) % 3329 == 2497);
}

proof fn lemma_pow_2_8380417()
    ensures
        pow(2, 1047552) % 8380417 == 4808194,
{
    lemma_pow1(2);
    assert(pow(2, 1) % 8380417 == 2);
    lemma_pow_dbl(2, 1, 8380417, 2);
    assert(pow(2, 2) % 8380417 == 4);
    lemma_pow_inc(2, 2, 8380417, 4);
    assert(pow(2, 3) % 8380417 == 8);
    lemma_pow_dbl(2, 3, 8380417, 8);
    assert(pow(2, 6) % 8380417 == 64);
    lemma_pow_inc(2, 6, 8380417, 64);
    assert(pow(2, 7) % 8380417 == 128);
    lemma_pow_dbl(2, 7, 8380417, 128);
    assert(pow(2, 14) % 8380417 == 16384);
    lemma_pow_inc(2, 14, 8380417, 16384);
    assert(pow(2, 15) % 8380417 == 32768);
    lemma_pow_dbl(2, 15, 8380417, 32768);
    assert(pow(2, 30) % 8380417 == 1048448);
    lemma_pow_inc(2, 30, 8380417, 1048448);
    assert(pow(2, 31) % 8380417 == 2096896);
    lemma_pow_dbl(2, 31, 8380417, 2096896);
    assert(pow(2, 62) % 8380417 == 2686592);
    lemma_pow_inc(2, 62, 8380417, 2686592);
    assert(pow(2, 63) % 8380417 == 5373184);
    lemma_pow_dbl(2, 63, 8380417, 5373184);
    assert(pow(2, 126) % 8380417 == 8244917);
    lemma_pow_inc(2, 126, 8380417, 8244917);
    assert(pow(2, 127) % 8380417 == 8109417);
    lemma_pow_dbl(2, 127, 8380417, 8109417);
    assert(pow(2, 254) % 8380417 == 3405829);
    lemma_pow_inc(2, 254, 8380417, 3405829);
    assert(pow(2, 255) % 8380417 == 6811658);
    lemma_pow_dbl(2, 255, 8380417, 6811658);
    assert(pow(2, 510) % 8380417 == 3163444);
    lemma_pow_inc(2, 510, 8380417, 3163444);
    assert(pow(2, 511) % 8380417 == 6326888);
    lemma_pow_dbl(2, 511, 8380417, 6326888);
    assert(pow(2, 1022) % 8380417 == 5801943);
    lemma_pow_inc(2, 1022, 8380417, 5801943);
    assert(pow(2, 1023) % 8380417 == 3223469);
    lemma_pow_dbl(2, 1023, 8380417, 3223469);
    assert(pow(2, 2046) % 8380417 == 7442333);
    lemma_pow_dbl(2, 2046, 8380417, 7442333);
    assert(pow(2, 4092) % 8380417 == 7523554);
    lemma_pow_dbl(2, 4092, 8380417, 7523554);
    assert(pow(2, 8184) % 8380417 == 5867399);
    lemma_pow_dbl(2, 8184, 8380417, 5867399);
    assert(pow(2, 16368) % 8380417 == 3488383);
    lemma_pow_dbl(2, 16368, 8380417, 3488383);
    assert(pow(2, 32736) % 8380417 == 6308588);
    lemma_pow_dbl(2, 32736, 8380417, 6308588);
    assert(pow(2, 65472) % 8380417 == 676590);
    lemma_pow_dbl(2, 65472, 8380417, 676590);
    assert(pow(2, 130944) % 8380417 == 2129892);
    lemma_pow_dbl(2, 130944, 8380417, 2129892);
    assert(pow(2, 261888) % 8380417 == 2883726);
    lemma_pow_dbl(2, 261888, 8380417, 2883726);
    assert(pow(2, 523776) % 8380417 == 4614810);
    lemma_pow_dbl(2, 523776, 8380417, 4614810);
    assert(pow(2, 1047552) % 8380417 == 4808194);
}

proof fn lemma_pow4_4808194_8380417()
    ensures
        pow(4808194, 4) % 8380417 == 1,
{
    lemma_pow1(4808194);
    assert(pow(4808194, 1) % 8380417 == 4808194);
    lemma_pow_dbl(4808194, 1, 8380417, 4808194);
    assert(pow(4808194, 2) % 8380417 == 8380416);
    lemma_pow_dbl(4808194, 2, 8380417, 8380416);
    assert(pow(4808194, 4) % 8380417 == 1);
}

proof fn lemma_pow_3_8380417()
    ensures
        pow(3, 1047552) % 8380417 == 4808194,
{
    lemma_pow1(3);
    assert(pow(3, 1) % 8380417 == 3);
    lemma_pow_dbl(3, 1, 8380417, 3);
    assert(pow(3, 2) % 8380417 == 9);
    lemma_pow_inc(3, 2, 8380417, 9);
    assert(pow(3, 3) % 8380417 == 27);
    lemma_pow_dbl(3, 3, 8380417, 27);
    assert(pow(3, 6) % 8380417 == 729);
    lemma_pow_inc(3, 6, 8380417, 729);
    assert(pow(3, 7) % 8380417 == 2187);
    lemma_pow_dbl(3, 7, 8380417, 2187);
    assert(pow(3, 14) % 8380417 == 4782969);
    lemma_pow_inc(3, 14, 8380417, 4782969);
    assert(pow(3, 15) % 8380417 == 5968490);
    lemma_pow_dbl(3, 15, 8380417, 5968490);
    assert(pow(3, 30) % 8380417 == 8066941);
    lemma_pow_inc(3, 30, 8380417, 8066941);
    assert(pow(3, 31) % 8380417 == 7439989);
    lemma_pow_dbl(3, 31, 8380417, 7439989);
    assert(pow(3, 62) % 8380417 == 2656340);
    lemma_pow_inc(3, 62, 8380417, 2656340);
    assert(pow(3, 63) % 8380417 == 7969020);
    lemma_pow_dbl(3, 63, 8380417, 7969020);
    assert(pow(3, 126) % 8380417 == 4970294);
    lemma_pow_inc(3, 126, 8380417, 4970294);
    assert(pow(3, 127) % 8380417 == 6530465);
    lemma_pow_dbl(3, 127, 8380417, 6530465);
    assert(pow(3, 254) % 8380417 == 3131597);
    lemma_pow_inc(3, 254, 8380417, 3131597);
    assert(pow(3, 255) % 8380417 == 1014374);
    lemma_pow_dbl(3, 255, 8380417, 1014374);
    assert(pow(3, 510) % 8380417 == 7012616);
    lemma_pow_inc(3, 510, 8380417, 7012616);
    assert(pow(3, 511) % 8380417 == 4277014);
    lemma_pow_dbl(3, 511, 8380417, 4277014);
    assert(pow(3, 1022) % 8380417 == 7485260);
    lemma_pow_inc(3, 1022, 8380417, 7485260);
    assert(pow(3, 1023) % 8380417 == 5694946);
    lemma_pow_dbl(3, 1023, 8380417, 5694946);
    assert(pow(3, 2046) % 8380417 == 3403325);
    lemma_pow_dbl(3, 2046, 8380417, 3403325);
    assert(pow(3, 4092) % 8380417 == 4817840);
    lemma_pow_dbl(3, 4092, 8380417, 4817840);
    assert(pow(3, 8184) % 8380417 == 6084020);
    lemma_pow_dbl(3, 8184, 8380417, 6084020);
    assert(pow(3, 16368) % 8380417 == 3121440);
    lemma_pow_dbl(3, 16368, 8380417, 3121440);
    assert(pow(3, 32736) % 8380417 == 4793971);
    lemma_pow_dbl(3, 32736, 8380417, 4793971);
    assert(pow(3, 65472) % 8380417 == 4063053);
    lemma_pow_dbl(3, 65472, 8380417, 4063053);
    assert(pow(3, 130944) % 8380417 == 601683);
    lemma_pow_dbl(3, 130944, 8380417, 601683);
    assert(pow(3, 261888) % 8380417 == 5178923);
    lemma_pow_dbl(3, 261888, 8380417, 5178923);
    assert(pow(3, 523776) % 8380417 == 3765607);
    lemma_pow_dbl(3, 523776, 8380417, 3765607);
    assert(pow(3, 1047552) % 8380417 == 4808194);
}

proof fn lemma_pow_4_8380417()
    ensures
        pow(4, 1047552) % 8380417 == 8380416,
{
    lemma_pow1(4);
    assert(pow(4, 1) % 8380417 == 4);
    lemma_pow_dbl(4, 1, 8380417, 4);
    assert(pow(4, 2) % 8380417 == 16);
    lemma_pow_inc(4, 2, 8380417, 16);
    assert(pow(4, 3) % 8380417 == 64);
    lemma_pow_dbl(4, 3, 8380417, 64);
    assert(pow(4, 6) % 8380417 == 4096);
    lemma_pow_inc(4, 6, 8380417, 4096);
    assert(pow(4, 7) % 8380417 == 16384);
    lemma_pow_dbl(4, 7, 8380417, 16384);
    assert(pow(4, 14) % 8380417 == 262112);
    lemma_pow_inc(4, 14, 8380417, 262112);
    assert(pow(4, 15) % 8380417 == 1048448);
    lemma_pow_dbl(4, 15, 8380417, 1048448);
    assert(pow(4, 30) % 8380417 == 671648);
    lemma_pow_inc(4, 30, 8380417, 671648);
    assert(pow(4, 31) % 8380417 == 2686592);
    lemma_pow_dbl(4, 31, 8380417, 2686592);
    assert(pow(4, 62) % 8380417 == 8346542);
    lemma_pow_inc(4, 62, 8380417, 8346542);
    assert(pow(4, 63) % 8380417 == 8244917);
    lemma_pow_dbl(4, 63, 8380417, 8244917);
    assert(pow(4, 126) % 8380417 == 7136770);
    lemma_pow_inc(4, 126, 8380417, 7136770);
    assert(pow(4, 127) % 8380417 == 3405829);
    lemma_pow_dbl(4, 127, 8380417, 3405829);
    assert(pow(4, 254) % 8380417 == 790861);
    lemma_pow_inc(4, 254, 8380417, 790861);
    assert(pow(4, 255) % 8380417 == 3163444);
    lemma_pow_dbl(4, 255, 8380417, 3163444);
    assert(pow(4, 510) % 8380417 == 3545590);
    lemma_pow_inc(4, 510, 8380417, 3545590);
    assert(pow(4, 511) % 8380417 == 5801943);
    lemma_pow_dbl(4, 511, 8380417, 5801943);
    assert(pow(4, 1022) % 8380417 == 8145896);
    lemma_pow_inc(4, 1022, 8380417, 8145896);
    assert(pow(4, 1023) % 8380417 == 7442333);
    lemma_pow_dbl(4, 1023, 8380417, 7442333);
    assert(pow(4, 2046) % 8380417 == 7523554);
    lemma_pow_dbl(4, 2046, 8380417, 7523554);
    assert(pow(4, 4092) % 8380417 == 5867399);
    lemma_pow_dbl(4, 4092, 8380417, 5867399);
    assert(pow(4, 8184) % 8380417 == 3488383);
    lemma_pow_dbl(4, 8184, 8380417, 3488383);
    assert(pow(4, 16368) % 8380417 == 6308588);
    lemma_pow_dbl(4, 16368, 8380417, 6308588);
    assert(pow(4, 32736) % 8380417 == 676590);
    lemma_pow_dbl(4, 32736, 8380417, 676590);
    assert(pow(4, 65472) % 8380417 == 2129892);
    lemma_pow_dbl(4, 65472, 8380417, 2129892);
    assert(pow(4, 130944) % 8380417 == 2883726);
    lemma_pow_dbl(4, 130944, 8380417, 2883726);
    assert(pow(4, 261888) % 8380417 == 4614810);
    lemma_pow_dbl(4, 261888, 8380417, 4614810);
    assert(pow(4, 523776) % 8380417 == 4808194);
    lemma_pow_dbl(4, 523776, 8380417, 4808194);
    assert(pow(4, 1047552) % 8380417 == 8380416);
}

proof fn lemma_pow4_8380416_8380417()
    ensures
        pow(8380416, 4) % 8380417 == 1,
{
    lemma_pow1(8380416);
    assert(pow(8380416, 1) % 8380417 == 8380416);
    lemma_pow_dbl(8380416, 1, 8380417, 8380416);
    assert(pow(8380416, 2) % 8380417 == 1);
    lemma_pow_dbl(8380416, 2, 8380417, 1);
    assert(pow(8380416, 4) % 8380417 == 1);
}

proof fn lemma_pow_5_8380417()
    ensures
        pow(5, 1047552) % 8380417 == 3761513,
{
    lemma_pow1(5);
    assert(pow(5, 1) % 8380417 == 5);
    lemma_pow_dbl(5, 1, 8380417, 5);
    assert(pow(5, 2) % 8380417 == 25);
    lemma_pow_inc(5, 2, 8380417, 25);
    assert(pow(5, 3) % 8380417 == 125);
    lemma_pow_dbl(5, 3, 8380417, 125);
    assert(pow(5, 6) % 8380417 == 15625);
    lemma_pow_inc(5, 6, 8380417, 15625);
    assert(pow(5, 7) % 8380417 == 78125);
    lemma_pow_dbl(5, 7, 8380417, 78125);
    assert(pow(5, 14) % 8380417 == 2572049);
    lemma_pow_inc(5, 14, 8380417, 2572049);
    assert(pow(5, 15) % 8380417 == 4479828);
    lemma_pow_dbl(5, 15, 8380417, 4479828);
    assert(pow(5, 30) % 8380417 == 6146340);
    lemma_pow_inc(5, 30, 8380417, 6146340);
    assert(pow(5, 31) % 8380417 == 5590449);
    lemma_pow_dbl(5, 31, 8380417, 5590449);
    assert(pow(5, 62) % 8380417 == 5762250);
    lemma_pow_inc(5, 62, 8380417, 5762250);
    assert(pow(5, 63) % 8380417 == 3669999);
    lemma_pow_dbl(5, 63, 8380417, 3669999);
    assert(pow(5, 126) % 8380417 == 3783439);
    lemma_pow_inc(5, 126, 8380417, 3783439);
    assert(pow(5, 127) % 8380417 == 2156361);
    lemma_pow_dbl(5, 127, 8380417, 2156361);
    assert(pow(5, 254) % 8380417 == 1629037);
    lemma_pow_inc(5, 254, 8380417, 1629037);
    assert(pow(5, 255) % 8380417 == 8145185);
    lemma_pow_dbl(5, 255, 8380417, 8145185);
    assert(pow(5, 510) % 8380417 == 6580790);
    lemma_pow_inc(5, 510, 8380417, 6580790);
    assert(pow(5, 511) % 8380417 == 7762699);
    lemma_pow_dbl(5, 511, 8380417, 7762699);
    assert(pow(5, 1022) % 8380417 == 6761097);
    lemma_pow_inc(5, 1022, 8380417, 6761097);
    assert(pow(5, 1023) % 8380417 == 283817);
    lemma_pow_dbl(5, 1023, 8380417, 283817);
    assert(pow(5, 2046) % 8380417 == 7901702);
    lemma_pow_dbl(5, 2046, 8380417, 7901702);
    assert(pow(5, 4092) % 8380417 == 5548360);
    lemma_pow_dbl(5, 4092, 8380417, 5548360);
    assert(pow(5, 8184) % 8380417 == 1718063);
    lemma_pow_dbl(5, 8184, 8380417, 1718063);
    assert(pow(5, 16368) % 8380417 == 6757063);
    lemma_pow_dbl(5, 16368, 8380417, 6757063);
    assert(pow(5, 32736) % 8380417 == 5801164);
    lemma_pow_dbl(5, 32736, 8380417, 5801164);
    assert(pow(5, 65472) % 8380417 == 3415069);
    lemma_pow_dbl(5, 65472, 8380417, 3415069);
    assert(pow(5, 130944) % 8380417 == 5152541);
    lemma_pow_dbl(5, 130944, 8380417, 5152541);
    assert(pow(5, 261888) % 8380417 == 3764867);
    lemma_pow_dbl(5, 261888, 8380417, 3764867);
    assert(pow(5, 523776) % 8380417 == 5234739);
    lemma_pow_dbl(5, 523776, 8380417, 5234739);
    assert(pow(5, 1047552) % 8380417 == 3761513);
}

proof fn lemma_pow4_3761513_8380417()
    ensures
        pow(3761513, 4) % 8380417 == 8380416,
{
    lemma_pow1(3761513);
    assert(pow(3761513, 1) % 8380417 == 3761513);
    lemma_pow_dbl(3761513, 1, 8380417, 3761513);
    assert(pow(3761513, 2) % 8380417 == 3572223);
    lemma_pow_dbl(3761513, 2, 8380417, 3572223);
    assert(pow(3761513, 4) % 8380417 == 8380416);
}

proof fn lemma_pow_4_8380417_fermat()
    ensures
        pow(4, 8380415) % 8380417 == 6285313,
{
    lemma_pow1(4);
    assert(pow(4, 1) % 8380417 == 4);
    lemma_pow_dbl(4, 1, 8380417, 4);
    assert(pow(4, 2) % 8380417 == 16);
    lemma_pow_inc(4, 2, 8380417, 16);
    assert(pow(4, 3) % 8380417 == 64);
    lemma_pow_dbl(4, 3, 8380417, 64);
    assert(pow(4, 6) % 8380417 == 4096);
    lemma_pow_inc(4, 6, 8380417, 4096);
    assert(pow(4, 7) % 8380417 == 16384);
    lemma_pow_dbl(4, 7, 8380417, 16384);
    assert(pow(4, 14) % 8380417 == 262112);
    lemma_pow_inc(4, 14, 8380417, 262112);
    assert(pow(4, 15) % 8380417 == 1048448);
    lemma_pow_dbl(4, 15, 8380417, 1048448);
    assert(pow(4, 30) % 8380417 == 671648);
    lemma_pow_inc(4, 30, 8380417, 671648);
    assert(pow(4, 31) % 8380417 == 2686592);
    lemma_pow_dbl(4, 31, 8380417, 2686592);
    assert(pow(4, 62) % 8380417 == 8346542);
    lemma_pow_inc(4, 62, 8380417, 8346542);
    assert(pow(4, 63) % 8380417 == 8244917);
    lemma_pow_dbl(4, 63, 8380417, 8244917);
    assert(pow(4, 126) % 8380417 == 7136770);
    lemma_pow_inc(4, 126, 8380417, 7136770);
    assert(pow(4, 127) % 8380417 == 3405829);
    lemma_pow_dbl(4, 127, 8380417, 3405829);
    assert(pow(4, 254) % 8380417 == 790861);
    lemma_pow_inc(4, 254, 8380417, 790861);
    assert(pow(4, 255) % 8380417 == 3163444);
    lemma_pow_dbl(4, 255, 8380417, 3163444);
    assert(pow(4, 510) % 8380417 == 3545590);
    lemma_pow_inc(4, 510, 8380417, 3545590);
    assert(pow(4, 511) % 8380417 == 5801943);
    lemma_pow_dbl(4, 511, 8380417, 5801943);
    assert(pow(4, 1022) % 8380417 == 8145896);
    lemma_pow_dbl(4, 1022, 8380417, 8145896);
    assert(pow(4, 2044) % 8380417 == 7803087);
    lemma_pow_inc(4, 2044, 8380417, 7803087);
    assert(pow(4, 2045) % 8380417 == 6071097);
    lemma_pow_dbl(4, 2045, 8380417, 6071097);
    assert(pow(4, 4090) % 8380417 == 5080697);
    lemma_pow_inc(4, 4090, 8380417, 5080697);
    assert(pow(4, 4091) % 8380417 == 3561954);
    lemma_pow_dbl(4, 4091, 8380417, 3561954);
    assert(pow(4, 8182) % 8380417 == 741800);
    lemma_pow_inc(4, 8182, 8380417, 741800);
    assert(pow(4, 8183) % 8380417 == 2967200);
    lemma_pow_dbl(4, 8183, 8380417, 2967200);
    assert(pow(4, 16366) % 8380417 == 2489391);
    lemma_pow_inc(4, 16366, 8380417, 2489391);
    assert(pow(4, 16367) % 8380417 == 1577147);
    lemma_pow_dbl(4, 16367, 8380417, 1577147);
    assert(pow(4, 32734) % 8380417 == 1089839);
    lemma_pow_inc(4, 32734, 8380417, 1089839);
    assert(pow(4, 32735) % 8380417 == 4359356);
    lemma_pow_dbl(4, 32735, 8380417, 4359356);
    assert(pow(4, 65470) % 8380417 == 6418431);
    lemma_pow_inc(4, 65470, 8380417, 6418431);
    assert(pow(4, 65471) % 8380417 == 532473);
    lemma_pow_dbl(4, 65471, 8380417, 532473);
    assert(pow(4, 130942) % 8380417 == 1227785);
    lemma_pow_inc(4, 130942, 8380417, 1227785);
    assert(pow(4, 130943) % 8380417 == 4911140);
    lemma_pow_dbl(4, 130943, 8380417, 4911140);
    assert(pow(4, 261886) % 8380417 == 3431082);
    lemma_pow_inc(4, 261886, 8380417, 3431082);
    assert(pow(4, 261887) % 8380417 == 5343911);
    lemma_pow_dbl(4, 261887, 8380417, 5343911);
    assert(pow(4, 523774) % 8380417 == 7633377);
    lemma_pow_inc(4, 523774, 8380417, 7633377);
    assert(pow(4, 523775) % 8380417 == 5392257);
    lemma_pow_dbl(4, 523775, 8380417, 5392257);
    assert(pow(4, 1047550) % 8380417 == 523776);
    lemma_pow_inc(4, 1047550, 8380417, 523776);
    assert(pow(4, 1047551) % 8380417 == 2095104);
    lemma_pow_dbl(4, 1047551, 8380417, 2095104);
    assert(pow(4, 2095102) % 8380417 == 7856641);
    lemma_pow_inc(4, 2095102, 8380417, 7856641);
    assert(pow(4, 2095103) % 8380417 == 6285313);
    lemma_pow_dbl(4, 2095103, 8380417, 6285313);
    assert(pow(4, 4190206) % 8380417 == 7856641);
    lemma_pow_inc(4, 4190206, 8380417, 7856641);
    assert(pow(4, 4190207) % 8380417 == 6285313);
    lemma_pow_dbl(4, 4190207, 8380417, 6285313);
    assert(pow(4, 8380414) % 8380417 == 7856641);
    lemma_pow_inc(4, 8380414, 8380417, 7856641);
    assert(pow(4, 8380415) % 8380417 == 6285313);
}

/// The Kyber modulus 3329 and the Dilithium modulus 8380417 both have a
/// primitive 8th root of unity (749 and 3761513, the ones the lattice unit
/// derives), and 4^(q-2) is the inverse of 4 modulo each.
pub proof fn law_standard_moduli()
    ensures
        root_of(3329) == Some(749u64),
        (4 * fermat_inv(4, 3329)) % 3329 == 1,
        root_of(8380417) == Some(3761513u64),
        (4 * fermat_inv(4, 8380417)) % 8380417 == 1,
{
    reveal_with_fuel(root_search, 5);
    lemma_pow_2_3329();
    lemma_pow4_1600_3329();
    lemma_pow_3_3329();
    lemma_pow4_749_3329();
    assert(!root_witness(3329, 2));
    assert(root_witness(3329, 3));
    lemma_pow_4_3329_fermat();
    lemma_pow_2_8380417();
    lemma_pow4_4808194_8380417();
    lemma_pow_3_8380417();
    lemma_pow_4_8380417();
    lemma_pow4_8380416_8380417();
    lemma_pow_5_8380417();
    lemma_pow4_3761513_8380417();
    assert(!root_witness(8380417, 2));
    assert(!root_witness(8380417, 3));
    assert(!root_witness(8380417, 4));
    assert(root_witness(8380417, 5));
    lemma_pow_4_8380417_fermat();
}

/// For the Kyber and Dilithium moduli (and 0, which stands for Kyber) the
/// transform always succeeds, the inverse transform of the transform of `a`
/// is `a` with its coefficients reduced, and the transform of a ring product
/// is the coefficient-wise product of the transforms.
pub proof fn law_ntt_standard_moduli(a: Reg256, b: Reg256, q: u64)
    requires
        q == 0 || q == KYBER_Q || q == DILITHIUM_Q,
    ensures
        root_of(eff_q(q) as u64) is Some,
        forall|j: int|
            0 <= j < 4 ==> #[trigger] intt_coeff(
                spectrum(a, eff_q(q), root_of(eff_q(q) as u64)->0 as int),
                eff_q(q),
                root_of(eff_q(q) as u64)->0 as int,
                j,
            ) == a.lanes[j] as int % eff_q(q),
        forall|k: int|
            0 <= k < 4 ==> #[trigger] ntt_coeff(
                ring_product(a, b, eff_q(q)),
                eff_q(q),
                root_of(eff_q(q) as u64)->0 as int,
                k,
            ) == (ntt_coeff(a, eff_q(q), root_of(eff_q(q) as u64)->0 as int, k) * ntt_coeff(
                b,
                eff_q(q),
                root_of(eff_q(q) as u64)->0 as int,
                k,
            )) % eff_q(q),
{
    law_standard_moduli();
    law_ntt_round_trip(a, q);
    law_ntt_convolution(a, b, q);
}

} // verus!
