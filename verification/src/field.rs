//! Mathematical model of the scalar field: residues modulo the BLS12-381
//! scalar-field order, represented as `nat`, with the modular operations the
//! contracts of this crate are stated over.
use vstd::prelude::*;
use vstd::arithmetic::div_mod::{
    lemma_add_mod_noop, lemma_mod_bound, lemma_mod_multiples_vanish, lemma_mul_mod_noop_general,
    lemma_small_mod,
};

verus! {

/// Order of the BLS12-381 scalar field (a prime, here taken as given).
pub open spec fn r_order() -> nat {
    0x73eda753299d7d483339d80809a1d80553bda402fffe5bfeffffffff00000001nat
}

/// Field addition on residues.
pub open spec fn fadd(a: nat, b: nat) -> nat {
    (a + b) % r_order()
}

/// Field multiplication on residues.
pub open spec fn fmul(a: nat, b: nat) -> nat {
    (a * b) % r_order()
}

/// Field negation on residues.
pub open spec fn fneg(a: nat) -> nat {
    ((r_order() - a % r_order()) as nat) % r_order()
}

/// Field subtraction on residues.
pub open spec fn fsub(a: nat, b: nat) -> nat {
    fadd(a, fneg(b))
}

/// b raised to the e-th power in the field.
pub open spec fn fpow(b: nat, e: nat) -> nat
    decreases e,
{
    if e == 0 {
        1nat % r_order()
    } else {
        fmul(b, fpow(b, (e - 1) as nat))
    }
}

/// Value of the polynomial with coefficient sequence `c` (low degree first)
/// at the point `x`, by Horner's rule.
pub open spec fn poly_eval(c: Seq<nat>, x: nat) -> nat
    decreases c.len(),
{
    if c.len() == 0 {
        0nat
    } else {
        fadd(c[0], fmul(x, poly_eval(c.drop_first(), x)))
    }
}

/// All entries of a residue sequence are reduced.
pub open spec fn all_reduced(s: Seq<nat>) -> bool {
    forall|i: int| 0 <= i < s.len() ==> s[i] < r_order()
}

pub proof fn lemma_fadd_bound(a: nat, b: nat)
    ensures
        fadd(a, b) < r_order(),
{
    lemma_mod_bound((a + b) as int, r_order() as int);
}

pub proof fn lemma_fmul_bound(a: nat, b: nat)
    ensures
        fmul(a, b) < r_order(),
{
    lemma_mod_bound((a * b) as int, r_order() as int);
}

pub proof fn lemma_fmul_comm(a: nat, b: nat)
    ensures
        fmul(a, b) == fmul(b, a),
{
    assert(a * b == b * a) by (nonlinear_arith);
}

/// Multiplication of residues is associative.
pub proof fn lemma_fmul_assoc(a: nat, b: nat, c: nat)
    ensures
        fmul(fmul(a, b), c) == fmul(a, fmul(b, c)),
{
    let r = r_order() as int;
    lemma_mul_mod_noop_general((a * b) as int, c as int, r);
    lemma_mul_mod_noop_general(a as int, (b * c) as int, r);
    assert((a * b) * c == a * (b * c)) by (nonlinear_arith);
}

/// A reduced residue is unchanged by multiplication with one.
pub proof fn lemma_fmul_one(a: nat)
    requires
        a < r_order(),
    ensures
        fmul(a, 1) == a,
        fmul(1, a) == a,
{
    assert(a * 1 == a);
    assert(1 * a == a);
    lemma_small_mod(a, r_order());
}

/// Multiplying by an element and then by its inverse gives the element back.
pub proof fn lemma_cancel_inverse(n: nat, v: nat, w: nat)
    requires
        n < r_order(),
        fmul(v, w) == 1,
    ensures
        fmul(fmul(n, w), v) == n,
{
    lemma_fmul_assoc(n, w, v);
    lemma_fmul_comm(w, v);
    lemma_fmul_one(n);
}

/// Exponent addition law for field powers.
pub proof fn lemma_fpow_adds(b: nat, m: nat, n: nat)
    ensures
        fpow(b, m + n) == fmul(fpow(b, m), fpow(b, n)),
    decreases m,
{
    let r = r_order() as int;
    if m == 0 {
        lemma_fpow_bound(b, n);
        lemma_small_mod(1, r_order());
        lemma_mul_mod_noop_general(1, fpow(b, n) as int, r);
        lemma_small_mod(fpow(b, n), r_order());
        assert(1 * fpow(b, n) == fpow(b, n));
    } else {
        lemma_fpow_adds(b, (m - 1) as nat, n);
        assert(fpow(b, m + n) == fmul(b, fpow(b, (m + n - 1) as nat)));
        lemma_fmul_assoc(b, fpow(b, (m - 1) as nat), fpow(b, n));
    }
}

/// Powers are always reduced.
pub proof fn lemma_fpow_bound(b: nat, e: nat)
    ensures
        fpow(b, e) < r_order(),
    decreases e,
{
    if e == 0 {
        lemma_mod_bound(1, r_order() as int);
    } else {
        lemma_fmul_bound(b, fpow(b, (e - 1) as nat));
    }
}

pub proof fn lemma_fadd_comm(a: nat, b: nat)
    ensures
        fadd(a, b) == fadd(b, a),
{
}

/// Addition of residues is associative.
pub proof fn lemma_fadd_assoc(a: nat, b: nat, c: nat)
    ensures
        fadd(fadd(a, b), c) == fadd(a, fadd(b, c)),
{
    let r = r_order() as int;
    lemma_mod_bound((a + b) as int, r);
    lemma_mod_bound((b + c) as int, r);
    lemma_small_mod(c % r_order(), r_order());
    lemma_small_mod(a % r_order(), r_order());
    lemma_add_mod_noop((a + b) as int, c as int, r);
    lemma_add_mod_noop(a as int, (b + c) as int, r);
    assert(((a + b) % r_order() + c % r_order()) % r_order() == fadd(fadd(a, b), c)) by {
        lemma_add_mod_noop(((a + b) % r_order()) as int, c as int, r);
        lemma_small_mod((a + b) % r_order(), r_order());
    }
    assert((a % r_order() + (b + c) % r_order()) % r_order() == fadd(a, fadd(b, c))) by {
        lemma_add_mod_noop(a as int, ((b + c) % r_order()) as int, r);
        lemma_small_mod((b + c) % r_order(), r_order());
    }
}

/// A reduced residue is unchanged by adding zero.
pub proof fn lemma_fadd_zero(a: nat)
    requires
        a < r_order(),
    ensures
        fadd(a, 0) == a,
        fadd(0, a) == a,
{
    lemma_small_mod(a, r_order());
}

/// A residue and its negation sum to zero.
pub proof fn lemma_fadd_fneg(a: nat)
    ensures
        fadd(a, fneg(a)) == 0,
{
    let r = r_order() as int;
    let rn = r_order();
    lemma_mod_bound(a as int, r);
    if a % rn == 0 {
        lemma_small_mod(0, rn);
        assert(fneg(a) == rn % rn);
        lemma_small_mod((rn % rn) as nat, rn);
        lemma_add_mod_noop(a as int, 0, r);
        assert(fadd(a, 0) == (a % rn + 0) % rn);
        lemma_small_mod((a % rn) as nat, rn);
    } else {
        assert(fneg(a) == (rn - a % rn) as nat) by {
            lemma_small_mod((rn - a % rn) as nat, rn);
        }
        assert((a + (rn - a % rn)) as int == r * (a as int / r) + r) by {
            vstd::arithmetic::div_mod::lemma_fundamental_div_mod(a as int, r);
        }
        lemma_mod_multiples_vanish(a as int / r + 1, 0, r);
        lemma_small_mod(0, rn);
    }
}

/// Multiplying by the negation of one negates.
pub proof fn lemma_fneg_one_mul(a: nat)
    ensures
        fmul(fneg(1), a) == fneg(a),
{
    let r = r_order() as int;
    let rn = r_order();
    lemma_small_mod(1, rn);
    assert(fneg(1) == (rn - 1) as nat) by {
        lemma_small_mod((rn - 1) as nat, rn);
    }
    assert(((rn - 1) as nat) * a == r * (a as int) + (-(a as int))) by (nonlinear_arith)
        requires
            rn == r && rn >= 1,
    ;
    lemma_mod_multiples_vanish(a as int, -(a as int), r);
    assert(fmul(fneg(1), a) == (-(a as int)) % r);
    lemma_mod_bound(a as int, r);
    if a % rn == 0 {
        vstd::arithmetic::div_mod::lemma_fundamental_div_mod(a as int, r);
        lemma_mod_multiples_vanish(-(a as int / r), 0, r);
        lemma_small_mod(0, rn);
        assert(fneg(a) == rn % rn);
        lemma_small_mod((rn % rn) as nat, rn);
    } else {
        vstd::arithmetic::div_mod::lemma_fundamental_div_mod(a as int, r);
        assert(-(a as int) == r * (-(a as int / r) - 1) + (r - a as int % r));
        lemma_mod_multiples_vanish(-(a as int / r) - 1, r - a as int % r, r);
        lemma_small_mod((rn - a % rn) as nat, rn);
        lemma_small_mod((rn - a % rn) as nat, rn);
        assert(fneg(a) == (rn - a % rn) as nat) by {
            lemma_small_mod((rn - a % rn) as nat, rn);
        }
    }
}

/// The first `k` terms of the inverse-transform sum for coefficient `j`:
/// the evaluations weighted by powers of the inverse domain generator.
pub open spec fn idft_partial(evals: Seq<nat>, w_inv: nat, j: int, k: int) -> nat
    decreases k,
{
    if k <= 0 {
        0nat
    } else {
        fadd(
            idft_partial(evals, w_inv, j, k - 1),
            fmul(evals[k - 1], fpow(w_inv, (j * (k - 1)) as nat)),
        )
    }
}

/// Coefficient `j` of the inverse transform of an evaluation vector:
/// `(1/N) * sum_i evals[i] * w_inv^(i*j)`.
pub open spec fn idft_coeff(evals: Seq<nat>, w_inv: nat, n_inv: nat, j: int) -> nat {
    fmul(n_inv, idft_partial(evals, w_inv, j, evals.len() as int))
}

/// Exponent multiplication law for field powers.
pub proof fn lemma_fpow_mul(b: nat, m: nat, n: nat)
    ensures
        fpow(fpow(b, m), n) == fpow(b, m * n),
    decreases n,
{
    if n == 0 {
        assert(m * 0 == 0) by (nonlinear_arith);
    } else {
        lemma_fpow_mul(b, m, (n - 1) as nat);
        assert(m * n == m + m * (n - 1)) by (nonlinear_arith)
            requires
                n >= 1,
        ;
        lemma_fpow_adds(b, m, (m * (n - 1)) as nat);
        lemma_fpow_bound(b, m);
        lemma_small_mod(fpow(b, m), r_order());
        assert(fpow(fpow(b, m), n) == fmul(fpow(b, m), fpow(fpow(b, m), (n - 1) as nat)));
        assert(fmul(fpow(b, m) % r_order(), fpow(b, (m * (n - 1)) as nat)) == fmul(
            fpow(b, m),
            fpow(b, (m * (n - 1)) as nat),
        ));
    }
}

/// Zero raised to any positive power is zero.
pub proof fn lemma_fpow_zero_base(e: nat)
    requires
        e >= 1,
    ensures
        fpow(0, e) == 0,
{
    assert(fpow(0, e) == fmul(0, fpow(0, (e - 1) as nat)));
    assert(0nat * fpow(0, (e - 1) as nat) == 0);
    lemma_small_mod(0, r_order());
}

/// An element with a known power equal to one is nonzero.
pub proof fn lemma_root_nonzero(v: nat, e: nat)
    requires
        e >= 1,
        fpow(v, e) == 1,
    ensures
        v != 0,
{
    if v == 0 {
        lemma_fpow_zero_base(e);
    }
}

} // verus!
