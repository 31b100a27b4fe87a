//! The inverse negacyclic transform undoes the forward one.
//!
//! Modulo `q`, with `psi^4 == -1`, every quantity the two transforms build
//! is congruent to `x0 + x1*psi + x2*psi^2 + x3*psi^3` for integers `x0..x3`
//! that depend linearly on the coefficients: multiplying by `psi` only
//! rotates the four integers and negates the one that wraps. The proof
//! follows both transforms in that form.
use vstd::prelude::*;
use vstd::arithmetic::div_mod::*;
use vstd::arithmetic::mul::*;
use vstd::arithmetic::power::*;
use crate::alu::{coef, eff_q, fermat_inv, intt_coeff, intt_partial, ntt_coeff, ntt_partial, ring_coeff, root_of, root_search, root_witness};
use crate::isa::Reg256;

verus! {

/// `x0 + x1*p + x2*p^2 + x3*p^3`.
pub open spec fn val(x: (int, int, int, int), p: int) -> int {
    x.0 + x.1 * p + x.2 * (p * p) + x.3 * (p * p * p)
}

/// The coefficients of `val(x, p) * p^e` once `p^4` is replaced by `-1`.
pub open spec fn rot(x: (int, int, int, int), e: int) -> (int, int, int, int) {
    let r = e % 8;
    if r == 0 {
        x
    } else if r == 1 {
        (-x.3, x.0, x.1, x.2)
    } else if r == 2 {
        (-x.2, -x.3, x.0, x.1)
    } else if r == 3 {
        (-x.1, -x.2, -x.3, x.0)
    } else if r == 4 {
        (-x.0, -x.1, -x.2, -x.3)
    } else if r == 5 {
        (x.3, -x.0, -x.1, -x.2)
    } else if r == 6 {
        (x.2, x.3, -x.0, -x.1)
    } else {
        (x.1, x.2, x.3, -x.0)
    }
}

/// Coefficient-wise sum.
pub open spec fn qadd(x: (int, int, int, int), y: (int, int, int, int)) -> (int, int, int, int) {
    (x.0 + y.0, x.1 + y.1, x.2 + y.2, x.3 + y.3)
}

proof fn lemma_val_add(x: (int, int, int, int), y: (int, int, int, int), p: int)
    ensures
        val(qadd(x, y), p) == val(x, p) + val(y, p),
{
    assert((x.1 + y.1) * p == x.1 * p + y.1 * p) by (nonlinear_arith);
    assert((x.2 + y.2) * (p * p) == x.2 * (p * p) + y.2 * (p * p)) by (nonlinear_arith);
    assert((x.3 + y.3) * (p * p * p) == x.3 * (p * p * p) + y.3 * (p * p * p)) by (nonlinear_arith);
}

proof fn lemma_val_const(c: int, p: int)
    ensures
        val((c, 0, 0, 0), p) == c,
{
    assert(c + 0 * p + 0 * (p * p) + 0 * (p * p * p) == c) by (nonlinear_arith);
}

/// Multiplying by `p` rotates the coefficients, the wrapped one negated.
proof fn lemma_shift(x: (int, int, int, int), p: int, q: int)
    requires
        q > 0,
        (p * p * p * p + 1) % q == 0,
    ensures
        (val(x, p) * p) % q == val(rot(x, 1), p) % q,
{
    let z = p * p * p * p + 1;
    let (x0, x1, x2, x3) = x;
    assert((x0 + x1 * p + x2 * (p * p) + x3 * (p * p * p)) * p == (-x3 + x0 * p + x1 * (p * p) + x2 * (
    p * p * p)) + x3 * (p * p * p * p + 1)) by (nonlinear_arith);
    assert(rot(x, 1) == (-x3, x0, x1, x2));
    assert(val(x, p) * p == val(rot(x, 1), p) + x.3 * z);
    lemma_mul_mod_noop_right(x.3, z, q);
    assert(x.3 * (z % q) == 0) by (nonlinear_arith)
        requires
            z % q == 0,
    ;
    lemma_add_mod_noop(val(rot(x, 1), p), x.3 * z, q);
    lemma_mod_twice(val(rot(x, 1), p), q);
}

/// Multiplying by `p^e` rotates the coefficients `e` times.
proof fn lemma_rot(x: (int, int, int, int), p: int, q: int, e: nat)
    requires
        q > 0,
        (p * p * p * p + 1) % q == 0,
    ensures
        (val(x, p) * pow(p, e)) % q == val(rot(x, e as int), p) % q,
    decreases e,
{
    if e == 0 {
        lemma_pow0(p);
    } else {
        let e1 = (e - 1) as nat;
        lemma_rot(x, p, q, e1);
        let y = rot(x, e1 as int);
        assert(rot(y, 1) == rot(x, e as int));
        lemma_pow_adds(p, e1, 1);
        lemma_pow1(p);
        assert(val(x, p) * pow(p, e) == (val(x, p) * pow(p, e1)) * p) by (nonlinear_arith)
            requires
                pow(p, e) == pow(p, e1) * p,
        ;
        lemma_mul_mod_noop_left(val(x, p) * pow(p, e1), p, q);
        lemma_mul_mod_noop_left(val(y, p), p, q);
        lemma_shift(y, p, q);
    }
}

proof fn lemma_add_cong(a: int, b: int, x: int, y: int, q: int)
    requires
        q > 0,
        a % q == x % q,
        b % q == y % q,
    ensures
        (a + b) % q == (x + y) % q,
{
    lemma_add_mod_noop(a, b, q);
    lemma_add_mod_noop(x, y, q);
}

proof fn lemma_mul_cong(a: int, b: int, x: int, y: int, q: int)
    requires
        q > 0,
        a % q == x % q,
        b % q == y % q,
    ensures
        (a * b) % q == (x * y) % q,
{
    lemma_mul_mod_noop_general(a, b, q);
    lemma_mul_mod_noop_general(x, y, q);
}

/// `(p^2 mod q)^e` is `p^(2e)` modulo `q`.
proof fn lemma_pow_square_mod(p: int, q: int, e: nat)
    requires
        q > 0,
    ensures
        pow((p * p) % q, e) % q == pow(p, 2 * e) % q,
{
    lemma_pow_mod_noop(p * p, e, q);
    lemma_square_is_pow2(p);
    lemma_pow_multiplies(p, 2, e);
}

/// The forward transform's coefficients as rotations: term `m` of frequency
/// `k` is `c_m * psi^(m + 2mk)`.
pub open spec fn fwd_quad(a: Reg256, q: int, k: int, n: int) -> (int, int, int, int)
    decreases n,
{
    if n <= 0 {
        (0, 0, 0, 0)
    } else {
        qadd(fwd_quad(a, q, k, n - 1), rot((coef(a, q, n - 1), 0, 0, 0), (n - 1) + 2 * (n - 1) * k))
    }
}

proof fn lemma_fwd(a: Reg256, q: int, p: int, k: int, n: int)
    requires
        q > 0,
        (p * p * p * p + 1) % q == 0,
        k >= 0,
        n >= 0,
    ensures
        ntt_partial(a, q, p, k, n) % q == val(fwd_quad(a, q, k, n), p) % q,
    decreases n,
{
    if n > 0 {
        lemma_fwd(a, q, p, k, n - 1);
        let m = n - 1;
        let c = coef(a, q, m);
        assert(m * k >= 0) by (nonlinear_arith)
            requires
                m >= 0,
                k >= 0,
        ;
        let mk = (m * k) as nat;
        assert(2 * m * k == 2 * (m * k)) by (nonlinear_arith);
        let x = pow((p * p) % q, mk);
        let e = (m + 2 * m * k) as nat;
        lemma_pow_square_mod(p, q, mk);
        lemma_mul_cong(c * pow(p, m as nat), x, c * pow(p, m as nat), pow(p, 2 * mk), q);
        lemma_pow_adds(p, m as nat, 2 * mk);
        assert(c * pow(p, m as nat) * pow(p, 2 * mk) == c * pow(p, e)) by (nonlinear_arith)
            requires
                pow(p, m as nat) * pow(p, 2 * mk) == pow(p, e),
        ;
        lemma_rot((c, 0, 0, 0), p, q, e);
        let r = rot((c, 0, 0, 0), m + 2 * m * k);
        lemma_val_const(c, p);
        assert(e as int == m + 2 * m * k);
        assert((c * pow(p, m as nat) * x) % q == val(r, p) % q);
        lemma_add_cong(
            ntt_partial(a, q, p, k, m),
            c * pow(p, m as nat) * x,
            val(fwd_quad(a, q, k, m), p),
            val(r, p),
            q,
        );
        lemma_val_add(fwd_quad(a, q, k, m), r, p);
    } else {
        lemma_val_const(0, p);
    }
}

/// The inverse transform's sum, as rotations: term `k` at index `j` is
/// the forward coefficient `k` times `psi^(-2jk)`.
pub open spec fn inv_quad(a: Reg256, q: int, j: int, n: int) -> (int, int, int, int)
    decreases n,
{
    if n <= 0 {
        (0, 0, 0, 0)
    } else {
        qadd(inv_quad(a, q, j, n - 1), rot(fwd_quad(a, q, n - 1, 4), -2 * j * (n - 1)))
    }
}

/// For `q = 1 mod 8`, `p^((q-2)*e)` is `p^(-e)` as far as rotations go.
proof fn lemma_exp_mod8(q: int, e: int)
    requires
        q % 8 == 1,
        q >= 3,
        e >= 0,
    ensures
        ((q - 2) * e) % 8 == (-e) % 8,
        (2 * ((q - 2) * e)) % 8 == (-2 * e) % 8,
{
    let t = (q - 1) / 8;
    assert(q == 8 * t + 1);
    assert((q - 2) * e == 8 * (t * e) + (-e)) by (nonlinear_arith)
        requires
            q == 8 * t + 1,
    ;
    assert(2 * ((q - 2) * e) == 8 * (2 * t * e) + (-2 * e)) by (nonlinear_arith)
        requires
            q == 8 * t + 1,
    ;
    lemma_mod_multiples_vanish(t * e, -e, 8);
    lemma_mod_multiples_vanish(2 * t * e, -2 * e, 8);
}

proof fn lemma_rot_mod8(x: (int, int, int, int), e: int, f: int)
    requires
        e % 8 == f % 8,
    ensures
        rot(x, e) == rot(x, f),
{
}

/// `(x^(q-2) mod q)^e` is `x^((q-2)*e)` modulo `q`.
proof fn lemma_pow_inv_mod(x: int, q: int, e: nat)
    requires
        q >= 2,
    ensures
        pow(pow(x, (q - 2) as nat) % q, e) % q == pow(x, ((q - 2) * e) as nat) % q,
{
    lemma_pow_mod_noop(pow(x, (q - 2) as nat), e, q);
    lemma_pow_multiplies(x, (q - 2) as nat, e);
}

proof fn lemma_inv(s: Reg256, a: Reg256, q: int, p: int, j: int, n: int)
    requires
        q >= 3,
        q % 8 == 1,
        (p * p * p * p + 1) % q == 0,
        0 <= j,
        0 <= n <= 4,
        forall|k: int| 0 <= k < 4 ==> #[trigger] coef(s, q, k) == ntt_coeff(a, q, p, k),
    ensures
        intt_partial(s, q, fermat_inv((p * p) % q, q), j, n) % q == val(inv_quad(a, q, j, n), p) % q,
    decreases n,
{
    let w = fermat_inv((p * p) % q, q);
    if n > 0 {
        let k = n - 1;
        lemma_inv(s, a, q, p, j, k);
        assert(j * k >= 0) by (nonlinear_arith)
            requires
                j >= 0,
                k >= 0,
        ;
        let jk = (j * k) as nat;
        let f = fwd_quad(a, q, k, 4);
        // coefficient k of the spectrum is the forward sum
        lemma_fwd(a, q, p, k, 4);
        lemma_mod_twice(ntt_partial(a, q, p, k, 4), q);
        assert(coef(s, q, k) % q == val(f, p) % q);
        // w^(jk) is p^(2(q-2)jk)
        lemma_pow_inv_mod((p * p) % q, q, jk);
        assert((q - 2) * jk >= 0) by (nonlinear_arith)
            requires
                q >= 3,
                jk >= 0,
        ;
        let e1 = ((q - 2) * jk) as nat;
        lemma_pow_square_mod(p, q, e1);
        let e = 2 * e1;
        assert(pow(w, jk) % q == pow(p, e) % q);
        lemma_mul_cong(coef(s, q, k), pow(w, jk), val(f, p), pow(p, e), q);
        lemma_rot(f, p, q, e);
        lemma_exp_mod8(q, j * k);
        assert(-2 * j * k == -2 * (j * k)) by (nonlinear_arith);
        lemma_rot_mod8(f, e as int, -2 * j * k);
        let r = rot(f, -2 * j * k);
        lemma_add_cong(
            intt_partial(s, q, w, j, k),
            coef(s, q, k) * pow(w, jk),
            val(inv_quad(a, q, j, k), p),
            val(r, p),
            q,
        );
        lemma_val_add(inv_quad(a, q, j, k), r, p);
    } else {
        lemma_val_const(0, p);
    }
}

/// The forward coefficients written out.
proof fn lemma_fwd_quads(a: Reg256, q: int)
    ensures
        fwd_quad(a, q, 0, 4) == (coef(a, q, 0), coef(a, q, 1), coef(a, q, 2), coef(a, q, 3)),
        fwd_quad(a, q, 1, 4) == (coef(a, q, 0), coef(a, q, 3), -coef(a, q, 2), coef(a, q, 1)),
        fwd_quad(a, q, 2, 4) == (coef(a, q, 0), -coef(a, q, 1), coef(a, q, 2), -coef(a, q, 3)),
        fwd_quad(a, q, 3, 4) == (coef(a, q, 0), -coef(a, q, 3), -coef(a, q, 2), -coef(a, q, 1)),
{
    reveal_with_fuel(fwd_quad, 5);
}

/// Undoing the twist of index `j` leaves four times coefficient `j`:
/// every other coefficient's contributions cancel.
proof fn lemma_collapse(a: Reg256, q: int, j: int)
    requires
        0 <= j < 4,
    ensures
        rot(inv_quad(a, q, j, 4), -j) == (4 * coef(a, q, j), 0int, 0int, 0int),
{
    lemma_fwd_quads(a, q);
    reveal_with_fuel(inv_quad, 2);
    let c0 = coef(a, q, 0);
    let c1 = coef(a, q, 1);
    let c2 = coef(a, q, 2);
    let c3 = coef(a, q, 3);
    if j == 0 {
        assert(inv_quad(a, q, 0, 1) == (c0, c1, c2, c3));
        assert(inv_quad(a, q, 0, 2) == (2 * c0, c1 + c3, 0int, c1 + c3));
        assert(inv_quad(a, q, 0, 3) == (3 * c0, c3, c2, c1));
        assert(inv_quad(a, q, 0, 4) == (4 * c0, 0int, 0int, 0int));
    } else if j == 1 {
        assert(inv_quad(a, q, 1, 1) == (c0, c1, c2, c3));
        assert(inv_quad(a, q, 1, 2) == (c0 - c2, 2 * c1, -c0 + c2, 0int));
        assert(inv_quad(a, q, 1, 3) == (-c2, 3 * c1, -c0, c3));
        assert(inv_quad(a, q, 1, 4) == (0int, 4 * c1, 0int, 0int));
    } else if j == 2 {
        assert(inv_quad(a, q, 2, 1) == (c0, c1, c2, c3));
        assert(inv_quad(a, q, 2, 2) == (0int, c1 - c3, 2 * c2, -c1 + c3));
        assert(inv_quad(a, q, 2, 3) == (c0, -c3, 3 * c2, -c1));
        assert(inv_quad(a, q, 2, 4) == (0int, 0int, 4 * c2, 0int));
    } else {
        assert(inv_quad(a, q, 3, 1) == (c0, c1, c2, c3));
        assert(inv_quad(a, q, 3, 2) == (c0 + c2, 0int, c0 + c2, 2 * c3));
        assert(inv_quad(a, q, 3, 3) == (c2, c1, c0, 3 * c3));
        assert(inv_quad(a, q, 3, 4) == (0int, 0int, 0int, 4 * c3));
    }
}

/// The register of forward-transform coefficients of `a` with root `psi`.
pub open spec fn spectrum(a: Reg256, q: int, psi: int) -> Reg256 {
    Reg256 {
        lanes: [
            ntt_coeff(a, q, psi, 0) as u64,
            ntt_coeff(a, q, psi, 1) as u64,
            ntt_coeff(a, q, psi, 2) as u64,
            ntt_coeff(a, q, psi, 3) as u64,
        ],
    }
}

/// The root found from witness `x` on lies below `q` and its fourth power
/// is `-1` modulo `q`.
proof fn lemma_root_search(q: u64, x: u64)
    requires
        q >= 3,
        root_search(q, x) is Some,
    ensures
        root_search(q, x)->0 < q,
        pow(root_search(q, x)->0 as int, 4) % (q as int) == q - 1,
    decreases q - x,
{
    if x < q && !root_witness(q, x) {
        lemma_root_search(q, (x + 1) as u64);
    } else if x < q {
        lemma_mod_bound(pow(x as int, ((q - 1) / 8) as nat), q as int);
    }
}

proof fn lemma_pow4(p: int)
    ensures
        pow(p, 4) == p * p * p * p,
{
    reveal_with_fuel(pow, 5);
    assert(p * (p * (p * (p * 1))) == p * p * p * p) by (nonlinear_arith);
}

/// Round trip of the lattice transforms: for a modulus with a primitive
/// 2N-th root of unity, under which `4^(q-2)` is the inverse of 4 (as it is
/// for every prime modulus, by Fermat's little theorem), the inverse
/// transform of the forward transform of `a` is `a` with every coefficient
/// reduced modulo `q`.
pub proof fn law_ntt_round_trip(a: Reg256, q: u64)
    requires
        root_of(eff_q(q) as u64) is Some,
        (4 * fermat_inv(4, eff_q(q))) % eff_q(q) == 1,
    ensures
        forall|j: int|
            0 <= j < 4 ==> #[trigger] intt_coeff(
                spectrum(a, eff_q(q), root_of(eff_q(q) as u64)->0 as int),
                eff_q(q),
                root_of(eff_q(q) as u64)->0 as int,
                j,
            ) == a.lanes[j] as int % eff_q(q),
{
    let qq = eff_q(q);
    let q64 = qq as u64;
    assert(q64 as int == qq);
    let psi = root_of(q64)->0;
    let p = psi as int;
    lemma_root_search(q64, 2);
    assert((q64 - 1) % 8 == 0 && q64 >= 3);
    lemma_pow4(p);
    lemma_add_mod_noop(pow(p, 4), 1, qq);
    lemma_small_mod(1, qq as nat);
    lemma_mod_self_0(qq);
    assert((p * p * p * p + 1) % qq == 0);
    let s = spectrum(a, qq, p);
    assert forall|k: int| 0 <= k < 4 implies #[trigger] coef(s, qq, k) == ntt_coeff(a, qq, p, k) by {
        lemma_mod_bound(ntt_partial(a, qq, p, k, 4), qq);
        lemma_small_mod(ntt_coeff(a, qq, p, k) as nat, qq as nat);
    }
    assert forall|j: int| 0 <= j < 4 implies #[trigger] intt_coeff(s, qq, p, j) == a.lanes[j] as int
        % qq by {
        let w = fermat_inv((p * p) % qq, qq);
        let ip = fermat_inv(p, qq);
        let inv_n = fermat_inv(4, qq);
        let i = intt_partial(s, qq, w, j, 4);
        let sq = inv_quad(a, qq, j, 4);
        let c = coef(a, qq, j);
        lemma_inv(s, a, qq, p, j, 4);
        lemma_pow_inv_mod(p, qq, j as nat);
        let e = ((qq - 2) * j) as nat;
        lemma_mul_cong(i, pow(ip, j as nat), val(sq, p), pow(p, e), qq);
        lemma_rot(sq, p, qq, e);
        lemma_exp_mod8(qq, j);
        lemma_rot_mod8(sq, e as int, -j);
        lemma_collapse(a, qq, j);
        lemma_val_const(4 * c, p);
        lemma_mul_cong(i * pow(ip, j as nat), inv_n, 4 * c, inv_n, qq);
        assert(4 * c * inv_n == c * (4 * inv_n)) by (nonlinear_arith);
        lemma_mul_mod_noop_right(c, 4 * inv_n, qq);
        lemma_mod_twice(a.lanes[j] as int, qq);
    }
}

/// The register of the product of `a` and `b` in Z_q[X]/(X^4 + 1).
pub open spec fn ring_product(a: Reg256, b: Reg256, q: int) -> Reg256 {
    Reg256 {
        lanes: [
            ring_coeff(a, b, q, 0) as u64,
            ring_coeff(a, b, q, 1) as u64,
            ring_coeff(a, b, q, 2) as u64,
            ring_coeff(a, b, q, 3) as u64,
        ],
    }
}

/// The coefficients of `a` reduced mod `q`.
pub open spec fn coefs(a: Reg256, q: int) -> (int, int, int, int) {
    (coef(a, q, 0), coef(a, q, 1), coef(a, q, 2), coef(a, q, 3))
}

/// Substituting `X^(2k+1)` for `X`, with `X^4 = -1`.
pub open spec fn twist(x: (int, int, int, int), k: int) -> (int, int, int, int) {
    if k == 0 {
        x
    } else if k == 1 {
        (x.0, x.3, -x.2, x.1)
    } else if k == 2 {
        (x.0, -x.1, x.2, -x.3)
    } else {
        (x.0, -x.3, -x.2, -x.1)
    }
}

/// Product in Z[X]/(X^4 + 1), by coefficients.
pub open spec fn qmul(x: (int, int, int, int), y: (int, int, int, int)) -> (int, int, int, int) {
    (
        x.0 * y.0 - (x.1 * y.3 + x.2 * y.2 + x.3 * y.1),
        x.0 * y.1 + x.1 * y.0 - (x.2 * y.3 + x.3 * y.2),
        x.0 * y.2 + x.1 * y.1 + x.2 * y.0 - x.3 * y.3,
        x.0 * y.3 + x.1 * y.2 + x.2 * y.1 + x.3 * y.0,
    )
}

/// `s` times every coefficient.
pub open spec fn qscale(s: int, x: (int, int, int, int)) -> (int, int, int, int) {
    (s * x.0, s * x.1, s * x.2, s * x.3)
}

proof fn lemma_val_scale(s: int, x: (int, int, int, int), p: int)
    ensures
        val(qscale(s, x), p) == s * val(x, p),
{
    let (x0, x1, x2, x3) = x;
    assert(s * x0 + (s * x1) * p + (s * x2) * (p * p) + (s * x3) * (p * p * p) == s * (x0 + x1 * p
        + x2 * (p * p) + x3 * (p * p * p))) by (nonlinear_arith);
}

/// With `p^4 = -1`, the value of a product is the product of the values.
proof fn lemma_val_mul(x: (int, int, int, int), y: (int, int, int, int), p: int, q: int)
    requires
        q > 0,
        (p * p * p * p + 1) % q == 0,
    ensures
        (val(x, p) * val(y, p)) % q == val(qmul(x, y), p) % q,
{
    let (x0, x1, x2, x3) = x;
    let v = val(y, p);
    assert((x0 + x1 * p + x2 * (p * p) + x3 * (p * p * p)) * v == x0 * v + x1 * (v * p) + x2 * (v
        * (p * p)) + x3 * (v * (p * p * p))) by (nonlinear_arith);
    reveal_with_fuel(pow, 4);
    assert(pow(p, 1) == p) by (nonlinear_arith)
        requires
            pow(p, 1) == p * 1,
    ;
    assert(pow(p, 2) == p * p) by (nonlinear_arith)
        requires
            pow(p, 2) == p * (p * 1),
    ;
    assert(pow(p, 3) == p * p * p) by (nonlinear_arith)
        requires
            pow(p, 3) == p * (p * (p * 1)),
    ;
    lemma_rot(y, p, q, 1);
    lemma_rot(y, p, q, 2);
    lemma_rot(y, p, q, 3);
    let r1 = rot(y, 1);
    let r2 = rot(y, 2);
    let r3 = rot(y, 3);
    lemma_mul_cong(x1, v * p, x1, val(r1, p), q);
    lemma_mul_cong(x2, v * (p * p), x2, val(r2, p), q);
    lemma_mul_cong(x3, v * (p * p * p), x3, val(r3, p), q);
    lemma_add_cong(x0 * v, x1 * (v * p), x0 * v, x1 * val(r1, p), q);
    lemma_add_cong(
        x0 * v + x1 * (v * p),
        x2 * (v * (p * p)),
        x0 * v + x1 * val(r1, p),
        x2 * val(r2, p),
        q,
    );
    lemma_add_cong(
        x0 * v + x1 * (v * p) + x2 * (v * (p * p)),
        x3 * (v * (p * p * p)),
        x0 * v + x1 * val(r1, p) + x2 * val(r2, p),
        x3 * val(r3, p),
        q,
    );
    let t0 = qscale(x0, y);
    let t1 = qscale(x1, r1);
    let t2 = qscale(x2, r2);
    let t3 = qscale(x3, r3);
    lemma_val_scale(x0, y, p);
    lemma_val_scale(x1, r1, p);
    lemma_val_scale(x2, r2, p);
    lemma_val_scale(x3, r3, p);
    lemma_val_add(t0, t1, p);
    lemma_val_add(qadd(t0, t1), t2, p);
    lemma_val_add(qadd(qadd(t0, t1), t2), t3, p);
    let (y0, y1, y2, y3) = y;
    assert(r1 == (-y3, y0, y1, y2));
    assert(r2 == (-y2, -y3, y0, y1));
    assert(r3 == (-y1, -y2, -y3, y0));
    assert(x0 * y0 + x1 * (-y3) + x2 * (-y2) + x3 * (-y1) == x0 * y0 - (x1 * y3 + x2 * y2 + x3
        * y1)) by (nonlinear_arith);
    assert(x0 * y1 + x1 * y0 + x2 * (-y3) + x3 * (-y2) == x0 * y1 + x1 * y0 - (x2 * y3 + x3 * y2))
        by (nonlinear_arith);
    assert(x0 * y2 + x1 * y1 + x2 * y0 + x3 * (-y3) == x0 * y2 + x1 * y1 + x2 * y0 - x3 * y3) by (
    nonlinear_arith);
    assert(qadd(qadd(qadd(t0, t1), t2), t3) == qmul(x, y));
}

/// The substitution commutes with products.
proof fn lemma_twist_mul(x: (int, int, int, int), y: (int, int, int, int), k: int)
    requires
        0 <= k < 4,
    ensures
        twist(qmul(x, y), k) == qmul(twist(x, k), twist(y, k)),
{
    let (x0, x1, x2, x3) = x;
    let (y0, y1, y2, y3) = y;
    if k == 1 {
        assert(x0 * y0 - (x1 * y3 + x2 * y2 + x3 * y1) == x0 * y0 - (x3 * y1 + (-x2) * (-y2) + x1
            * y3)) by (nonlinear_arith);
        assert(x0 * y3 + x1 * y2 + x2 * y1 + x3 * y0 == x0 * y3 + x3 * y0 - ((-x2) * y1 + x1 * (
        -y2))) by (nonlinear_arith);
        assert(-(x0 * y2 + x1 * y1 + x2 * y0 - x3 * y3) == x0 * (-y2) + x3 * y3 + (-x2) * y0 - x1
            * y1) by (nonlinear_arith);
        assert(x0 * y1 + x1 * y0 - (x2 * y3 + x3 * y2) == x0 * y1 + x3 * (-y2) + (-x2) * y3 + x1
            * y0) by (nonlinear_arith);
    } else if k == 2 {
        assert(x0 * y0 - (x1 * y3 + x2 * y2 + x3 * y1) == x0 * y0 - ((-x1) * (-y3) + x2 * y2 + (
        -x3) * (-y1))) by (nonlinear_arith);
        assert(-(x0 * y1 + x1 * y0 - (x2 * y3 + x3 * y2)) == x0 * (-y1) + (-x1) * y0 - (x2 * (-y3)
            + (-x3) * y2)) by (nonlinear_arith);
        assert(x0 * y2 + x1 * y1 + x2 * y0 - x3 * y3 == x0 * y2 + (-x1) * (-y1) + x2 * y0 - (-x3)
            * (-y3)) by (nonlinear_arith);
        assert(-(x0 * y3 + x1 * y2 + x2 * y1 + x3 * y0) == x0 * (-y3) + (-x1) * y2 + x2 * (-y1) + (
        -x3) * y0) by (nonlinear_arith);
    } else if k == 3 {
        assert(x0 * y0 - (x1 * y3 + x2 * y2 + x3 * y1) == x0 * y0 - ((-x3) * (-y1) + (-x2) * (-y2)
            + (-x1) * (-y3))) by (nonlinear_arith);
        assert(-(x0 * y3 + x1 * y2 + x2 * y1 + x3 * y0) == x0 * (-y3) + (-x3) * y0 - ((-x2) * (-y1)
            + (-x1) * (-y2))) by (nonlinear_arith);
        assert(-(x0 * y2 + x1 * y1 + x2 * y0 - x3 * y3) == x0 * (-y2) + (-x3) * (-y3) + (-x2) * y0
            - (-x1) * (-y1)) by (nonlinear_arith);
        assert(-(x0 * y1 + x1 * y0 - (x2 * y3 + x3 * y2)) == x0 * (-y1) + (-x3) * (-y2) + (-x2) * (
        -y3) + (-x1) * y0) by (nonlinear_arith);
    }
}

/// Coefficients congruent one by one give congruent values.
proof fn lemma_val_cong(x: (int, int, int, int), y: (int, int, int, int), p: int, q: int)
    requires
        q > 0,
        x.0 % q == y.0 % q,
        x.1 % q == y.1 % q,
        x.2 % q == y.2 % q,
        x.3 % q == y.3 % q,
    ensures
        val(x, p) % q == val(y, p) % q,
{
    lemma_mul_cong(x.1, p, y.1, p, q);
    lemma_mul_cong(x.2, p * p, y.2, p * p, q);
    lemma_mul_cong(x.3, p * p * p, y.3, p * p * p, q);
    lemma_add_cong(x.0, x.1 * p, y.0, y.1 * p, q);
    lemma_add_cong(x.0 + x.1 * p, x.2 * (p * p), y.0 + y.1 * p, y.2 * (p * p), q);
    lemma_add_cong(
        x.0 + x.1 * p + x.2 * (p * p),
        x.3 * (p * p * p),
        y.0 + y.1 * p + y.2 * (p * p),
        y.3 * (p * p * p),
        q,
    );
}

proof fn lemma_neg_cong(a: int, b: int, q: int)
    requires
        q > 0,
        a % q == b % q,
    ensures
        (-a) % q == (-b) % q,
{
    lemma_sub_mod_noop(0, a, q);
    lemma_sub_mod_noop(0, b, q);
}

/// Forward coefficient `k` is the value of the twisted coefficients.
proof fn lemma_ntt_val(a: Reg256, q: int, p: int, k: int)
    requires
        q > 0,
        (p * p * p * p + 1) % q == 0,
        0 <= k < 4,
    ensures
        ntt_coeff(a, q, p, k) % q == val(twist(coefs(a, q), k), p) % q,
{
    lemma_fwd(a, q, p, k, 4);
    lemma_fwd_quads(a, q);
    lemma_mod_twice(ntt_partial(a, q, p, k, 4), q);
}

/// The root's fourth power is `-1` modulo `q`.
proof fn lemma_root_facts(q: u64)
    requires
        root_of(q) is Some,
    ensures
        q >= 3,
        (q - 1) % 8 == 0,
        root_of(q)->0 < q,
        ({
            let p = root_of(q)->0 as int;
            (p * p * p * p + 1) % (q as int) == 0
        }),
{
    let qq = q as int;
    lemma_root_search(q, 2);
    let p = root_of(q)->0 as int;
    lemma_pow4(p);
    lemma_add_mod_noop(pow(p, 4), 1, qq);
    lemma_small_mod(1, qq as nat);
    lemma_mod_self_0(qq);
}

/// Convolution theorem of the lattice transform: the transform of the
/// product of `a` and `b` in Z_q[X]/(X^4 + 1) is the coefficient-wise
/// product of their transforms, modulo `q`.
pub proof fn law_ntt_convolution(a: Reg256, b: Reg256, q: u64)
    requires
        root_of(eff_q(q) as u64) is Some,
    ensures
        forall|k: int|
            0 <= k < 4 ==> #[trigger] ntt_coeff(
                ring_product(a, b, eff_q(q)),
                eff_q(q),
                root_of(eff_q(q) as u64)->0 as int,
                k,
            ) == (ntt_coeff(a, eff_q(q), root_of(eff_q(q) as u64)->0 as int, k) * ntt_coeff(
                b,
                eff_q(q),
                root_of(eff_q(q) as u64)->0 as int,
                k,
            )) % eff_q(q),
{
    let qq = eff_q(q);
    let q64 = qq as u64;
    assert(q64 as int == qq);
    lemma_root_facts(q64);
    let p = root_of(q64)->0 as int;
    let r = ring_product(a, b, qq);
    let ca = coefs(a, qq);
    let cb = coefs(b, qq);
    let m = qmul(ca, cb);
    let cr = coefs(r, qq);
    lemma_mod_bound(ring_coeff(a, b, qq, 0), qq);
    lemma_mod_bound(ring_coeff(a, b, qq, 1), qq);
    lemma_mod_bound(ring_coeff(a, b, qq, 2), qq);
    lemma_mod_bound(ring_coeff(a, b, qq, 3), qq);
    lemma_mod_twice(ring_coeff(a, b, qq, 0), qq);
    lemma_mod_twice(ring_coeff(a, b, qq, 1), qq);
    lemma_mod_twice(ring_coeff(a, b, qq, 2), qq);
    lemma_mod_twice(ring_coeff(a, b, qq, 3), qq);
    assert(ring_coeff(a, b, qq, 0) == m.0 % qq);
    assert(ring_coeff(a, b, qq, 1) == m.1 % qq);
    assert(ring_coeff(a, b, qq, 2) == m.2 % qq);
    assert(ring_coeff(a, b, qq, 3) == m.3 % qq);
    lemma_mod_twice(m.0, qq);
    lemma_mod_twice(m.1, qq);
    lemma_mod_twice(m.2, qq);
    lemma_mod_twice(m.3, qq);
    assert(cr.0 % qq == m.0 % qq && cr.1 % qq == m.1 % qq && cr.2 % qq == m.2 % qq && cr.3 % qq
        == m.3 % qq);
    assert forall|k: int| 0 <= k < 4 implies #[trigger] ntt_coeff(r, qq, p, k) == (ntt_coeff(
        a,
        qq,
        p,
        k,
    ) * ntt_coeff(b, qq, p, k)) % qq by {
        lemma_ntt_val(r, qq, p, k);
        lemma_ntt_val(a, qq, p, k);
        lemma_ntt_val(b, qq, p, k);
        let tr = twist(cr, k);
        let tm = twist(m, k);
        lemma_neg_cong(cr.1, m.1, qq);
        lemma_neg_cong(cr.2, m.2, qq);
        lemma_neg_cong(cr.3, m.3, qq);
        lemma_val_cong(tr, tm, p, qq);
        lemma_twist_mul(ca, cb, k);
        lemma_val_mul(twist(ca, k), twist(cb, k), p, qq);
        lemma_mul_cong(
            ntt_coeff(a, qq, p, k),
            ntt_coeff(b, qq, p, k),
            val(twist(ca, k), p),
            val(twist(cb, k), p),
            qq,
        );
        lemma_mod_bound(ntt_partial(r, qq, p, k, 4), qq);
        lemma_mod_twice(ntt_partial(r, qq, p, k, 4), qq);
    }
}

/// The root the lattice unit derives is a primitive 2N-th root of unity:
/// its N-th power is `-1` and its 2N-th power is 1, modulo `q`.
pub proof fn law_root_order(q: u64)
    requires
        root_of(q) is Some,
    ensures
        pow(root_of(q)->0 as int, 4) % (q as int) == q - 1,
        pow(root_of(q)->0 as int, 8) % (q as int) == 1,
{
    let qq = q as int;
    lemma_root_search(q, 2);
    let p = root_of(q)->0 as int;
    lemma_pow_adds(p, 4, 4);
    lemma_small_mod((qq - 1) as nat, qq as nat);
    lemma_mul_cong(pow(p, 4), pow(p, 4), qq - 1, qq - 1, qq);
    assert((qq - 1) * (qq - 1) == qq * (qq - 2) + 1) by (nonlinear_arith);
    lemma_mod_multiples_vanish(qq - 2, 1, qq);
    lemma_small_mod(1, qq as nat);
}

/// The polynomial 1.
pub open spec fn ring_one() -> Reg256 {
    Reg256 { lanes: [1, 0, 0, 0] }
}

/// The polynomial 1 is the unit of the ring product: multiplying by it
/// leaves every coefficient of `b`, reduced modulo `q`.
pub proof fn law_ring_unit(b: Reg256, q: u64)
    ensures
        forall|k: int|
            0 <= k < 4 ==> #[trigger] ring_coeff(ring_one(), b, eff_q(q), k)
                == b.lanes[k] as int % eff_q(q),
{
    let qq = eff_q(q);
    let one = ring_one();
    assert forall|k: int| 0 <= k < 4 implies #[trigger] ring_coeff(one, b, qq, k) == b.lanes[k] as int
        % qq by {
        let a0 = coef(one, qq, 0);
        lemma_small_mod(0, qq as nat);
        assert(coef(one, qq, 1) == 0 && coef(one, qq, 2) == 0 && coef(one, qq, 3) == 0);
        let bk = coef(b, qq, k);
        let b0 = coef(b, qq, 0);
        let b1 = coef(b, qq, 1);
        let b2 = coef(b, qq, 2);
        let b3 = coef(b, qq, 3);
        assert(a0 * bk - (0 * b3 + 0 * b2 + 0 * b1) == a0 * bk) by (nonlinear_arith);
        assert(a0 * bk + 0 * b0 - (0 * b3 + 0 * b2) == a0 * bk) by (nonlinear_arith);
        assert(a0 * bk + 0 * b1 + 0 * b0 - 0 * b3 == a0 * bk) by (nonlinear_arith);
        assert(a0 * bk + 0 * b2 + 0 * b1 + 0 * b0 == a0 * bk) by (nonlinear_arith);
        lemma_mul_mod_noop_left(1, bk, qq);
        lemma_mod_twice(b.lanes[k] as int, qq);
        assert(a0 * bk == (1int % qq) * bk);
    }
}

} // verus!
