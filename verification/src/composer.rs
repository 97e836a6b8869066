//! The constraint-system builder: accumulates gates, wires, selectors and
//! public inputs for one circuit. Every gate-construction call appends one
//! row to every column atomically, so the columns can never desynchronize.
use vstd::prelude::*;
use bls12_381::Scalar;
use crate::field::{fadd, fmul, fneg, r_order};
use crate::field::{
    lemma_fadd_assoc, lemma_fadd_bound, lemma_fadd_comm, lemma_fadd_fneg, lemma_fadd_zero,
    lemma_fmul_bound, lemma_fmul_one, lemma_fneg_one_mul,
};
use crate::permutation::{
    lemma_occ4_wf, lemma_push_empty_wf, occ4, occ_view, occurs_wf, Permutation, WireData,
};
use crate::scalar::{s_add, s_clone, s_eq, s_mul, s_neg, s_one, s_zero, scalar_v};

verus! {

/// An opaque, stable index into the composer's witness-value table. It
/// carries identity only; the composer owns the values.
#[derive(Clone, Copy, Debug, PartialEq, Eq, Structural)]
pub struct Variable(pub usize);

/// The residues a scalar column holds.
pub open spec fn seq_vals(s: Seq<Scalar>) -> Seq<nat> {
    Seq::new(s.len(), |i: int| scalar_v(s[i]))
}

/// The residue a sparse public-input entry contributes: zero where absent.
pub open spec fn pi_as_nat(p: Option<Scalar>) -> nat {
    match p {
        Some(s) => scalar_v(s),
        None => 0nat,
    }
}

/// The residues the public-input column contributes, row by row.
pub open spec fn pi_vals(s: Seq<Option<Scalar>>) -> Seq<nat> {
    Seq::new(s.len(), |i: int| pi_as_nat(s[i]))
}

/// The selector-weighted terms of one arithmetic row that do not involve
/// the output wire: `q_m·(a·b) + q_l·a + q_r·b + q_4·d + q_c`.
pub open spec fn gate_terms(
    qm: nat,
    ql: nat,
    qr: nat,
    q4: nat,
    qc: nat,
    a: nat,
    b: nat,
    d: nat,
) -> nat {
    fadd(fadd(fadd(fadd(fmul(qm, fmul(a, b)), fmul(ql, a)), fmul(qr, b)), fmul(q4, d)), qc)
}

/// The output value a computing gate wrapper binds its fresh variable to:
/// the row's terms plus the public input.
pub open spec fn gate_output(
    qm: nat,
    ql: nat,
    qr: nat,
    q4: nat,
    qc: nat,
    a: nat,
    b: nat,
    d: nat,
    pin: nat,
) -> nat {
    fadd(gate_terms(qm, ql, qr, q4, qc, a, b, d), pin)
}

/// The value of the full arithmetic gate equation at one row:
/// `q_arith·(q_m·(a·b) + q_l·a + q_r·b + q_4·d + q_c + q_o·c) + PI`.
/// The row's constraint holds exactly when this is zero.
pub open spec fn arith_row_value(
    qarith: nat,
    qm: nat,
    ql: nat,
    qr: nat,
    qo: nat,
    q4: nat,
    qc: nat,
    a: nat,
    b: nat,
    c: nat,
    d: nat,
    pin: nat,
) -> nat {
    fadd(fmul(qarith, fadd(gate_terms(qm, ql, qr, q4, qc, a, b, d), fmul(qo, c))), pin)
}

/// A gate whose output wire carries the row's computed value satisfies the
/// gate equation: the computing wrappers produce satisfied gates by
/// construction.
pub proof fn lemma_constructed_gate_satisfied(
    qm: nat,
    ql: nat,
    qr: nat,
    q4: nat,
    qc: nat,
    a: nat,
    b: nat,
    d: nat,
    pin: nat,
)
    ensures
        arith_row_value(
            1,
            qm,
            ql,
            qr,
            fneg(1),
            q4,
            qc,
            a,
            b,
            gate_output(qm, ql, qr, q4, qc, a, b, d, pin),
            d,
            pin,
        ) == 0,
{
    let s = gate_terms(qm, ql, qr, q4, qc, a, b, d);
    let c = gate_output(qm, ql, qr, q4, qc, a, b, d, pin);
    lemma_fneg_one_mul(c);
    let inner = fadd(s, fneg(c));
    lemma_fadd_bound(s, fneg(c));
    lemma_fmul_one(inner);
    lemma_fadd_assoc(s, fneg(c), pin);
    lemma_fadd_comm(fneg(c), pin);
    lemma_fadd_assoc(s, pin, fneg(c));
    lemma_fadd_fneg(c);
}

/// A circuit under construction: the four wire columns, the eleven
/// selector columns, the sparse public-input column, the witness-value
/// table, and the wire-occurrence data for the permutation argument.
pub struct StandardComposer {
    /// Number of gate rows so far.
    pub n: usize,
    pub q_m: Vec<Scalar>,
    pub q_l: Vec<Scalar>,
    pub q_r: Vec<Scalar>,
    pub q_o: Vec<Scalar>,
    pub q_c: Vec<Scalar>,
    pub q_4: Vec<Scalar>,
    pub q_arith: Vec<Scalar>,
    pub q_range: Vec<Scalar>,
    pub q_logic: Vec<Scalar>,
    pub q_fixed_group_add: Vec<Scalar>,
    pub q_variable_group_add: Vec<Scalar>,
    pub w_l: Vec<Variable>,
    pub w_r: Vec<Variable>,
    pub w_o: Vec<Variable>,
    pub w_4: Vec<Variable>,
    /// At most one public input per row; `None` where a row has none.
    pub public_inputs: Vec<Option<Scalar>>,
    /// Witness values, indexed by `Variable`.
    pub variables: Vec<Scalar>,
    /// The reserved variable permanently bound to zero.
    pub zero_var: Variable,
    pub perm: Permutation,
}

impl StandardComposer {
    /// Every column has exactly `n` rows, every recorded wire is a live
    /// variable, the reserved zero-variable is in place, and the
    /// occurrence data matches the circuit size.
    pub open spec fn wf(self) -> bool {
        &&& self.q_m@.len() == self.n
        &&& self.q_l@.len() == self.n
        &&& self.q_r@.len() == self.n
        &&& self.q_o@.len() == self.n
        &&& self.q_c@.len() == self.n
        &&& self.q_4@.len() == self.n
        &&& self.q_arith@.len() == self.n
        &&& self.q_range@.len() == self.n
        &&& self.q_logic@.len() == self.n
        &&& self.q_fixed_group_add@.len() == self.n
        &&& self.q_variable_group_add@.len() == self.n
        &&& self.w_l@.len() == self.n
        &&& self.w_r@.len() == self.n
        &&& self.w_o@.len() == self.n
        &&& self.w_4@.len() == self.n
        &&& self.public_inputs@.len() == self.n
        &&& self.variables@.len() >= 1
        &&& self.zero_var.0 == 0
        &&& scalar_v(self.variables@[0]) == 0
        &&& forall|i: int|
            0 <= i < self.n ==> (#[trigger] self.w_l@[i]).0 < self.variables@.len()
        &&& forall|i: int|
            0 <= i < self.n ==> (#[trigger] self.w_r@[i]).0 < self.variables@.len()
        &&& forall|i: int|
            0 <= i < self.n ==> (#[trigger] self.w_o@[i]).0 < self.variables@.len()
        &&& forall|i: int|
            0 <= i < self.n ==> (#[trigger] self.w_4@[i]).0 < self.variables@.len()
        &&& occ_view(self.perm.variable_map).len() == self.variables@.len()
        &&& occurs_wf(occ_view(self.perm.variable_map), self.n as int)
    }

    /// The residue the witness table binds a variable to.
    pub open spec fn var_val(self, v: Variable) -> nat {
        scalar_v(self.variables@[v.0 as int])
    }

    /// The public-input residue at a row, zero where the row has none.
    pub open spec fn pi_at(self, i: int) -> nat {
        pi_as_nat(self.public_inputs@[i])
    }

    /// The value of the arithmetic gate equation at row `i`.
    pub open spec fn gate_value(self, i: int) -> nat {
        arith_row_value(
            scalar_v(self.q_arith@[i]),
            scalar_v(self.q_m@[i]),
            scalar_v(self.q_l@[i]),
            scalar_v(self.q_r@[i]),
            scalar_v(self.q_o@[i]),
            scalar_v(self.q_4@[i]),
            scalar_v(self.q_c@[i]),
            self.var_val(self.w_l@[i]),
            self.var_val(self.w_r@[i]),
            self.var_val(self.w_o@[i]),
            self.var_val(self.w_4@[i]),
            self.pi_at(i),
        )
    }

    /// Row `i`'s arithmetic constraint holds.
    pub open spec fn gate_satisfied(self, i: int) -> bool {
        self.gate_value(i) == 0
    }

    /// The two composers hold identical gate data: only the witness table
    /// may differ.
    pub open spec fn same_gates(pre: Self, post: Self) -> bool {
        &&& post.n == pre.n
        &&& post.q_m@ == pre.q_m@
        &&& post.q_l@ == pre.q_l@
        &&& post.q_r@ == pre.q_r@
        &&& post.q_o@ == pre.q_o@
        &&& post.q_c@ == pre.q_c@
        &&& post.q_4@ == pre.q_4@
        &&& post.q_arith@ == pre.q_arith@
        &&& post.q_range@ == pre.q_range@
        &&& post.q_logic@ == pre.q_logic@
        &&& post.q_fixed_group_add@ == pre.q_fixed_group_add@
        &&& post.q_variable_group_add@ == pre.q_variable_group_add@
        &&& post.w_l@ == pre.w_l@
        &&& post.w_r@ == pre.w_r@
        &&& post.w_o@ == pre.w_o@
        &&& post.w_4@ == pre.w_4@
        &&& post.public_inputs@ == pre.public_inputs@
        &&& post.zero_var == pre.zero_var
    }

    /// One row was appended with the given wires and selector residues,
    /// and everything else was left alone.
    pub open spec fn row_appended(
        pre: Self,
        post: Self,
        a: Variable,
        b: Variable,
        c: Variable,
        d4: Variable,
        qm: nat,
        ql: nat,
        qr: nat,
        qo: nat,
        q4: nat,
        qc: nat,
        qarith: nat,
        qrange: nat,
        qlogic: nat,
        qfixed: nat,
        qvar: nat,
        pin: nat,
    ) -> bool {
        &&& post.n == pre.n + 1
        &&& post.w_l@ == pre.w_l@.push(a)
        &&& post.w_r@ == pre.w_r@.push(b)
        &&& post.w_o@ == pre.w_o@.push(c)
        &&& post.w_4@ == pre.w_4@.push(d4)
        &&& seq_vals(post.q_m@) == seq_vals(pre.q_m@).push(qm)
        &&& seq_vals(post.q_l@) == seq_vals(pre.q_l@).push(ql)
        &&& seq_vals(post.q_r@) == seq_vals(pre.q_r@).push(qr)
        &&& seq_vals(post.q_o@) == seq_vals(pre.q_o@).push(qo)
        &&& seq_vals(post.q_4@) == seq_vals(pre.q_4@).push(q4)
        &&& seq_vals(post.q_c@) == seq_vals(pre.q_c@).push(qc)
        &&& seq_vals(post.q_arith@) == seq_vals(pre.q_arith@).push(qarith)
        &&& seq_vals(post.q_range@) == seq_vals(pre.q_range@).push(qrange)
        &&& seq_vals(post.q_logic@) == seq_vals(pre.q_logic@).push(qlogic)
        &&& seq_vals(post.q_fixed_group_add@) == seq_vals(pre.q_fixed_group_add@).push(qfixed)
        &&& seq_vals(post.q_variable_group_add@) == seq_vals(pre.q_variable_group_add@).push(qvar)
        &&& pi_vals(post.public_inputs@) == pi_vals(pre.public_inputs@).push(pin)
        &&& post.variables@ == pre.variables@
        &&& post.zero_var == pre.zero_var
        &&& occ_view(post.perm.variable_map) == occ4(
            occ_view(pre.perm.variable_map),
            a.0 as int,
            b.0 as int,
            c.0 as int,
            d4.0 as int,
            pre.n,
        )
    }


    /// One computed row was appended: the caller's wires and selectors
    /// with the family defaults, `q_o` fixed to minus one and the
    /// arithmetic selector on, the row's public input, exactly one fresh
    /// witness entry holding the computed output value, and the four wire
    /// occurrences recorded after the fresh variable's registration.
    pub open spec fn computed_row_appended(
        pre: Self,
        post: Self,
        a: Variable,
        b: Variable,
        c: Variable,
        d4: Variable,
        qm: nat,
        ql: nat,
        qr: nat,
        q4: nat,
        qc: nat,
        pin: nat,
        outv: nat,
    ) -> bool {
        &&& post.n == pre.n + 1
        &&& post.w_l@ == pre.w_l@.push(a)
        &&& post.w_r@ == pre.w_r@.push(b)
        &&& post.w_o@ == pre.w_o@.push(c)
        &&& post.w_4@ == pre.w_4@.push(d4)
        &&& seq_vals(post.q_m@) == seq_vals(pre.q_m@).push(qm)
        &&& seq_vals(post.q_l@) == seq_vals(pre.q_l@).push(ql)
        &&& seq_vals(post.q_r@) == seq_vals(pre.q_r@).push(qr)
        &&& seq_vals(post.q_o@) == seq_vals(pre.q_o@).push(fneg(1))
        &&& seq_vals(post.q_4@) == seq_vals(pre.q_4@).push(q4)
        &&& seq_vals(post.q_c@) == seq_vals(pre.q_c@).push(qc)
        &&& seq_vals(post.q_arith@) == seq_vals(pre.q_arith@).push(1)
        &&& seq_vals(post.q_range@) == seq_vals(pre.q_range@).push(0)
        &&& seq_vals(post.q_logic@) == seq_vals(pre.q_logic@).push(0)
        &&& seq_vals(post.q_fixed_group_add@) == seq_vals(pre.q_fixed_group_add@).push(0)
        &&& seq_vals(post.q_variable_group_add@) == seq_vals(pre.q_variable_group_add@).push(0)
        &&& pi_vals(post.public_inputs@) == pi_vals(pre.public_inputs@).push(pin)
        &&& seq_vals(post.variables@) == seq_vals(pre.variables@).push(outv)
        &&& forall|v: Variable|
            v.0 < pre.variables@.len() ==> #[trigger] post.var_val(v) == pre.var_val(v)
        &&& post.zero_var == pre.zero_var
        &&& occ_view(post.perm.variable_map) == occ4(
            occ_view(pre.perm.variable_map).push(Seq::<WireData>::empty()),
            a.0 as int,
            b.0 as int,
            c.0 as int,
            d4.0 as int,
            pre.n,
        )
    }

    /// A fresh composer: no gates, and only the reserved zero-variable.
    pub fn new() -> (r: StandardComposer)
        ensures
            r.wf(),
            r.n == 0,
            r.variables@.len() == 1,
    {
        let zero = s_zero();
        let mut variables: Vec<Scalar> = Vec::new();
        variables.push(zero);
        let mut perm = Permutation::new();
        perm.add_variable();
        StandardComposer {
            n: 0,
            q_m: Vec::new(),
            q_l: Vec::new(),
            q_r: Vec::new(),
            q_o: Vec::new(),
            q_c: Vec::new(),
            q_4: Vec::new(),
            q_arith: Vec::new(),
            q_range: Vec::new(),
            q_logic: Vec::new(),
            q_fixed_group_add: Vec::new(),
            q_variable_group_add: Vec::new(),
            w_l: Vec::new(),
            w_r: Vec::new(),
            w_o: Vec::new(),
            w_4: Vec::new(),
            public_inputs: Vec::new(),
            variables,
            zero_var: Variable(0),
            perm,
        }
    }

    /// The reserved variable permanently bound to the additive identity.
    pub fn zero_var(&self) -> (r: Variable)
        requires
            self.wf(),
        ensures
            r == self.zero_var,
            r.0 == 0,
            self.var_val(r) == 0,
    {
        self.zero_var
    }

    /// Allocates a fresh variable bound to `value`. No gate is added.
    pub fn add_input(&mut self, value: Scalar) -> (v: Variable)
        requires
            old(self).wf(),
            old(self).variables@.len() < usize::MAX,
        ensures
            final(self).wf(),
            v.0 == old(self).variables@.len(),
            final(self).variables@ == old(self).variables@.push(value),
            final(self).var_val(v) == scalar_v(value),
            Self::same_gates(*old(self), *final(self)),
            occ_view(final(self).perm.variable_map) == occ_view(old(self).perm.variable_map).push(
                Seq::<WireData>::empty(),
            ),
    {
        let v = Variable(self.variables.len());
        self.variables.push(value);
        self.perm.add_variable();
        proof {
            lemma_push_empty_wf(occ_view(old(self).perm.variable_map), self.n as int);
        }
        v
    }

    /// Appends one full gate row atomically: four wires, all eleven
    /// selectors (arithmetic enabled, the other families off), the row's
    /// optional public input, and the four wire occurrences.
    fn append_gate(
        &mut self,
        a: Variable,
        b: Variable,
        c: Variable,
        d4: Variable,
        q_m: Scalar,
        q_l: Scalar,
        q_r: Scalar,
        q_o: Scalar,
        q_4: Scalar,
        q_c: Scalar,
        pi: Option<Scalar>,
    )
        requires
            old(self).wf(),
            a.0 < old(self).variables@.len(),
            b.0 < old(self).variables@.len(),
            c.0 < old(self).variables@.len(),
            d4.0 < old(self).variables@.len(),
            old(self).n < usize::MAX,
        ensures
            final(self).wf(),
            Self::row_appended(
                *old(self),
                *final(self),
                a,
                b,
                c,
                d4,
                scalar_v(q_m),
                scalar_v(q_l),
                scalar_v(q_r),
                scalar_v(q_o),
                scalar_v(q_4),
                scalar_v(q_c),
                1,
                0,
                0,
                0,
                0,
                pi_as_nat(pi),
            ),
            final(self).variables@ == old(self).variables@,
    {
        self.w_l.push(a);
        self.w_r.push(b);
        self.w_o.push(c);
        self.w_4.push(d4);
        self.q_m.push(q_m);
        self.q_l.push(q_l);
        self.q_r.push(q_r);
        self.q_o.push(q_o);
        self.q_4.push(q_4);
        self.q_c.push(q_c);
        let arith = s_one();
        self.q_arith.push(arith);
        let z_range = s_zero();
        self.q_range.push(z_range);
        let z_logic = s_zero();
        self.q_logic.push(z_logic);
        let z_fixed = s_zero();
        self.q_fixed_group_add.push(z_fixed);
        let z_var = s_zero();
        self.q_variable_group_add.push(z_var);
        self.public_inputs.push(pi);
        let row = self.n;
        self.perm.add_variables_to_map(a.0, b.0, c.0, d4.0, row);
        self.n = self.n + 1;
        proof {
            assert(seq_vals(self.q_m@) =~= seq_vals(old(self).q_m@).push(scalar_v(q_m)));
            assert(seq_vals(self.q_l@) =~= seq_vals(old(self).q_l@).push(scalar_v(q_l)));
            assert(seq_vals(self.q_r@) =~= seq_vals(old(self).q_r@).push(scalar_v(q_r)));
            assert(seq_vals(self.q_o@) =~= seq_vals(old(self).q_o@).push(scalar_v(q_o)));
            assert(seq_vals(self.q_4@) =~= seq_vals(old(self).q_4@).push(scalar_v(q_4)));
            assert(seq_vals(self.q_c@) =~= seq_vals(old(self).q_c@).push(scalar_v(q_c)));
            assert(seq_vals(self.q_arith@) =~= seq_vals(old(self).q_arith@).push(1nat));
            assert(seq_vals(self.q_range@) =~= seq_vals(old(self).q_range@).push(0nat));
            assert(seq_vals(self.q_logic@) =~= seq_vals(old(self).q_logic@).push(0nat));
            assert(seq_vals(self.q_fixed_group_add@) =~= seq_vals(
                old(self).q_fixed_group_add@,
            ).push(0nat));
            assert(seq_vals(self.q_variable_group_add@) =~= seq_vals(
                old(self).q_variable_group_add@,
            ).push(0nat));
            assert(pi_vals(self.public_inputs@) =~= pi_vals(old(self).public_inputs@).push(
                pi_as_nat(pi),
            ));
            lemma_occ4_wf(
                occ_view(old(self).perm.variable_map),
                a.0 as int,
                b.0 as int,
                c.0 as int,
                d4.0 as int,
                row,
                old(self).n as int,
            );
            assert forall|i: int|
                0 <= i < self.n implies (#[trigger] self.w_l@[i]).0 < self.variables@.len() by {
                if i < old(self).n {
                    assert(self.w_l@[i] == old(self).w_l@[i]);
                }
            }
            assert forall|i: int|
                0 <= i < self.n implies (#[trigger] self.w_r@[i]).0 < self.variables@.len() by {
                if i < old(self).n {
                    assert(self.w_r@[i] == old(self).w_r@[i]);
                }
            }
            assert forall|i: int|
                0 <= i < self.n implies (#[trigger] self.w_o@[i]).0 < self.variables@.len() by {
                if i < old(self).n {
                    assert(self.w_o@[i] == old(self).w_o@[i]);
                }
            }
            assert forall|i: int|
                0 <= i < self.n implies (#[trigger] self.w_4@[i]).0 < self.variables@.len() by {
                if i < old(self).n {
                    assert(self.w_4@[i] == old(self).w_4@[i]);
                }
            }
        }
    }

    /// Adds a width-3 add gate: `q_l·a + q_r·b + q_o·c + q_c + PI = 0`.
    /// Returns the caller's output wire `c` unchanged.
    pub fn add_gate(
        &mut self,
        a: Variable,
        b: Variable,
        c: Variable,
        q_l: Scalar,
        q_r: Scalar,
        q_o: Scalar,
        q_c: Scalar,
        pi: Option<Scalar>,
    ) -> (r: Variable)
        requires
            old(self).wf(),
            a.0 < old(self).variables@.len(),
            b.0 < old(self).variables@.len(),
            c.0 < old(self).variables@.len(),
            old(self).n < usize::MAX,
        ensures
            final(self).wf(),
            r == c,
            final(self).variables@ == old(self).variables@,
            Self::row_appended(
                *old(self),
                *final(self),
                a,
                b,
                c,
                old(self).zero_var,
                0,
                scalar_v(q_l),
                scalar_v(q_r),
                scalar_v(q_o),
                0,
                scalar_v(q_c),
                1,
                0,
                0,
                0,
                0,
                pi_as_nat(pi),
            ),
    {
        let z4 = s_zero();
        self.big_add_gate(a, b, c, None, q_l, q_r, q_o, z4, q_c, pi)
    }

    /// Adds a width-4 add gate:
    /// `q_l·a + q_r·b + q_o·c + q_4·d + q_c + PI = 0`, with `d` defaulting
    /// to the reserved zero-variable. Returns `c` unchanged.
    pub fn big_add_gate(
        &mut self,
        a: Variable,
        b: Variable,
        c: Variable,
        d: Option<Variable>,
        q_l: Scalar,
        q_r: Scalar,
        q_o: Scalar,
        q_4: Scalar,
        q_c: Scalar,
        pi: Option<Scalar>,
    ) -> (r: Variable)
        requires
            old(self).wf(),
            a.0 < old(self).variables@.len(),
            b.0 < old(self).variables@.len(),
            c.0 < old(self).variables@.len(),
            d is Some ==> (d->0).0 < old(self).variables@.len(),
            old(self).n < usize::MAX,
        ensures
            final(self).wf(),
            r == c,
            final(self).variables@ == old(self).variables@,
            Self::row_appended(
                *old(self),
                *final(self),
                a,
                b,
                c,
                if d is Some {
                    d->0
                } else {
                    old(self).zero_var
                },
                0,
                scalar_v(q_l),
                scalar_v(q_r),
                scalar_v(q_o),
                scalar_v(q_4),
                scalar_v(q_c),
                1,
                0,
                0,
                0,
                0,
                pi_as_nat(pi),
            ),
    {
        let d4 = match d {
            Some(var) => var,
            None => self.zero_var,
        };
        let zm = s_zero();
        self.append_gate(a, b, c, d4, zm, q_l, q_r, q_o, q_4, q_c, pi);
        c
    }

    /// Adds a width-3 mul gate: `q_m·(a·b) + q_o·c + q_c + PI = 0`.
    /// Returns `c` unchanged.
    pub fn mul_gate(
        &mut self,
        a: Variable,
        b: Variable,
        c: Variable,
        q_m: Scalar,
        q_o: Scalar,
        q_c: Scalar,
        pi: Option<Scalar>,
    ) -> (r: Variable)
        requires
            old(self).wf(),
            a.0 < old(self).variables@.len(),
            b.0 < old(self).variables@.len(),
            c.0 < old(self).variables@.len(),
            old(self).n < usize::MAX,
        ensures
            final(self).wf(),
            r == c,
            final(self).variables@ == old(self).variables@,
            Self::row_appended(
                *old(self),
                *final(self),
                a,
                b,
                c,
                old(self).zero_var,
                scalar_v(q_m),
                0,
                0,
                scalar_v(q_o),
                0,
                scalar_v(q_c),
                1,
                0,
                0,
                0,
                0,
                pi_as_nat(pi),
            ),
    {
        let z4 = s_zero();
        self.big_mul_gate(a, b, c, None, q_m, q_o, q_c, z4, pi)
    }

    /// Adds a width-4 mul gate:
    /// `q_m·(a·b) + q_o·c + q_4·d + q_c + PI = 0`, with `d` defaulting to
    /// the reserved zero-variable. Returns `c` unchanged.
    pub fn big_mul_gate(
        &mut self,
        a: Variable,
        b: Variable,
        c: Variable,
        d: Option<Variable>,
        q_m: Scalar,
        q_o: Scalar,
        q_c: Scalar,
        q_4: Scalar,
        pi: Option<Scalar>,
    ) -> (r: Variable)
        requires
            old(self).wf(),
            a.0 < old(self).variables@.len(),
            b.0 < old(self).variables@.len(),
            c.0 < old(self).variables@.len(),
            d is Some ==> (d->0).0 < old(self).variables@.len(),
            old(self).n < usize::MAX,
        ensures
            final(self).wf(),
            r == c,
            final(self).variables@ == old(self).variables@,
            Self::row_appended(
                *old(self),
                *final(self),
                a,
                b,
                c,
                if d is Some {
                    d->0
                } else {
                    old(self).zero_var
                },
                scalar_v(q_m),
                0,
                0,
                scalar_v(q_o),
                scalar_v(q_4),
                scalar_v(q_c),
                1,
                0,
                0,
                0,
                0,
                pi_as_nat(pi),
            ),
    {
        let d4 = match d {
            Some(var) => var,
            None => self.zero_var,
        };
        let zl = s_zero();
        let zr = s_zero();
        self.append_gate(a, b, c, d4, q_m, zl, zr, q_o, q_4, q_c, pi);
        c
    }

    /// Adds a fully general width-4 arithmetic gate:
    /// `q_m·(a·b) + q_l·a + q_r·b + q_o·c + q_4·d + q_c + PI = 0`, with
    /// every selector chosen by the caller and `d` defaulting to the
    /// reserved zero-variable. Returns `c` unchanged.
    pub fn big_arith_gate(
        &mut self,
        a: Variable,
        b: Variable,
        c: Variable,
        d: Option<Variable>,
        q_m: Scalar,
        q_l: Scalar,
        q_r: Scalar,
        q_o: Scalar,
        q_c: Scalar,
        q_4: Scalar,
        pi: Option<Scalar>,
    ) -> (r: Variable)
        requires
            old(self).wf(),
            a.0 < old(self).variables@.len(),
            b.0 < old(self).variables@.len(),
            c.0 < old(self).variables@.len(),
            d is Some ==> (d->0).0 < old(self).variables@.len(),
            old(self).n < usize::MAX,
        ensures
            final(self).wf(),
            r == c,
            final(self).variables@ == old(self).variables@,
            Self::row_appended(
                *old(self),
                *final(self),
                a,
                b,
                c,
                if d is Some {
                    d->0
                } else {
                    old(self).zero_var
                },
                scalar_v(q_m),
                scalar_v(q_l),
                scalar_v(q_r),
                scalar_v(q_o),
                scalar_v(q_4),
                scalar_v(q_c),
                1,
                0,
                0,
                0,
                0,
                pi_as_nat(pi),
            ),
    {
        let d4 = match d {
            Some(var) => var,
            None => self.zero_var,
        };
        self.append_gate(a, b, c, d4, q_m, q_l, q_r, q_o, q_4, q_c, pi);
        c
    }

    /// The `q_4` residue an optional fourth-wire pair supplies: zero where
    /// absent.
    pub open spec fn opt_q4_val(q: Option<(Scalar, Variable)>) -> nat {
        match q {
            Some(p) => scalar_v(p.0),
            None => 0nat,
        }
    }

    /// The fourth-wire variable an optional pair supplies: the reserved
    /// zero-variable where absent.
    pub open spec fn opt_d_var(self, q: Option<(Scalar, Variable)>) -> Variable {
        match q {
            Some(p) => p.1,
            None => self.zero_var,
        }
    }

    /// Adds a computed width-3 addition: allocates the output wire bound to
    /// `q_l·a + q_r·b + q_c + PI` and constrains it with an add gate, which
    /// that gate then satisfies by construction.
    pub fn add(
        &mut self,
        q_l_a: (Scalar, Variable),
        q_r_b: (Scalar, Variable),
        q_c: Scalar,
        pi: Option<Scalar>,
    ) -> (r: Variable)
        requires
            old(self).wf(),
            q_l_a.1.0 < old(self).variables@.len(),
            q_r_b.1.0 < old(self).variables@.len(),
            old(self).variables@.len() < usize::MAX,
            old(self).n < usize::MAX,
        ensures
            final(self).wf(),
            final(self).n == old(self).n + 1,
            r.0 == old(self).variables@.len(),
            final(self).var_val(r) == gate_output(
                0,
                scalar_v(q_l_a.0),
                scalar_v(q_r_b.0),
                0,
                scalar_v(q_c),
                old(self).var_val(q_l_a.1),
                old(self).var_val(q_r_b.1),
                0,
                pi_as_nat(pi),
            ),
            final(self).gate_satisfied(old(self).n as int),
            Self::computed_row_appended(
                *old(self),
                *final(self),
                q_l_a.1,
                q_r_b.1,
                r,
                old(self).zero_var,
                0,
                scalar_v(q_l_a.0),
                scalar_v(q_r_b.0),
                0,
                scalar_v(q_c),
                pi_as_nat(pi),
                gate_output(
                    0,
                    scalar_v(q_l_a.0),
                    scalar_v(q_r_b.0),
                    0,
                    scalar_v(q_c),
                    old(self).var_val(q_l_a.1),
                    old(self).var_val(q_r_b.1),
                    0,
                    pi_as_nat(pi),
                ),
            ),
    {
        self.big_add(q_l_a, q_r_b, None, q_c, pi)
    }

    /// Adds a computed width-4 addition: allocates the output wire bound to
    /// `q_l·a + q_r·b + q_4·d + q_c + PI` and constrains it with a big add
    /// gate (`q_o` fixed to minus one), which that gate then satisfies by
    /// construction.
    pub fn big_add(
        &mut self,
        q_l_a: (Scalar, Variable),
        q_r_b: (Scalar, Variable),
        q_4_d: Option<(Scalar, Variable)>,
        q_c: Scalar,
        pi: Option<Scalar>,
    ) -> (r: Variable)
        requires
            old(self).wf(),
            q_l_a.1.0 < old(self).variables@.len(),
            q_r_b.1.0 < old(self).variables@.len(),
            q_4_d is Some ==> (q_4_d->0).1.0 < old(self).variables@.len(),
            old(self).variables@.len() < usize::MAX,
            old(self).n < usize::MAX,
        ensures
            final(self).wf(),
            final(self).n == old(self).n + 1,
            r.0 == old(self).variables@.len(),
            final(self).var_val(r) == gate_output(
                0,
                scalar_v(q_l_a.0),
                scalar_v(q_r_b.0),
                Self::opt_q4_val(q_4_d),
                scalar_v(q_c),
                old(self).var_val(q_l_a.1),
                old(self).var_val(q_r_b.1),
                old(self).var_val(old(self).opt_d_var(q_4_d)),
                pi_as_nat(pi),
            ),
            final(self).gate_satisfied(old(self).n as int),
            Self::computed_row_appended(
                *old(self),
                *final(self),
                q_l_a.1,
                q_r_b.1,
                r,
                old(self).opt_d_var(q_4_d),
                0,
                scalar_v(q_l_a.0),
                scalar_v(q_r_b.0),
                Self::opt_q4_val(q_4_d),
                scalar_v(q_c),
                pi_as_nat(pi),
                gate_output(
                    0,
                    scalar_v(q_l_a.0),
                    scalar_v(q_r_b.0),
                    Self::opt_q4_val(q_4_d),
                    scalar_v(q_c),
                    old(self).var_val(q_l_a.1),
                    old(self).var_val(q_r_b.1),
                    old(self).var_val(old(self).opt_d_var(q_4_d)),
                    pi_as_nat(pi),
                ),
            ),
    {
        let (q_4, d) = match q_4_d {
            Some(p) => p,
            None => (s_zero(), self.zero_var),
        };
        let (q_l, a) = q_l_a;
        let (q_r, b) = q_r_b;
        let one = s_one();
        let q_o = s_neg(&one);
        let t_l = s_mul(&q_l, &self.variables[a.0]);
        let t_r = s_mul(&q_r, &self.variables[b.0]);
        let t_4 = s_mul(&q_4, &self.variables[d.0]);
        let sum_lr = s_add(&t_l, &t_r);
        let sum_4 = s_add(&sum_lr, &t_4);
        let sum_c = s_add(&sum_4, &q_c);
        let pi_s = match &pi {
            Some(p) => s_clone(p),
            None => s_zero(),
        };
        let c_eval = s_add(&sum_c, &pi_s);
        proof {
            lemma_gate_terms_no_qm(
                scalar_v(q_l),
                scalar_v(q_r),
                scalar_v(q_4),
                scalar_v(q_c),
                old(self).var_val(a),
                old(self).var_val(b),
                old(self).var_val(d),
            );
        }
        let c = self.add_input(c_eval);
        self.big_add_gate(a, b, c, Some(d), q_l, q_r, q_o, q_4, q_c, pi);
        proof {
            let n0 = old(self).n as int;
            assert(seq_vals(self.q_arith@)[n0] == 1);
            assert(seq_vals(self.q_m@)[n0] == 0nat);
            assert(seq_vals(self.q_l@)[n0] == scalar_v(q_l));
            assert(seq_vals(self.q_r@)[n0] == scalar_v(q_r));
            assert(seq_vals(self.q_o@)[n0] == fneg(1));
            assert(seq_vals(self.q_4@)[n0] == scalar_v(q_4));
            assert(seq_vals(self.q_c@)[n0] == scalar_v(q_c));
            assert(pi_vals(self.public_inputs@)[n0] == pi_as_nat(pi));
            assert(self.w_l@[n0] == a && self.w_r@[n0] == b && self.w_o@[n0] == c && self.w_4@[n0]
                == d);
            assert(self.var_val(a) == old(self).var_val(a));
            assert(self.var_val(b) == old(self).var_val(b));
            assert(self.var_val(d) == old(self).var_val(d));
            assert(self.var_val(c) == scalar_v(c_eval));
            assert(seq_vals(self.variables@) =~= seq_vals(old(self).variables@).push(
                scalar_v(c_eval),
            ));
            assert forall|v: Variable| v.0 < old(self).variables@.len() implies #[trigger] self
                .var_val(v) == old(self).var_val(v) by {
                assert(self.variables@[v.0 as int] == old(self).variables@[v.0 as int]);
            }
            lemma_constructed_gate_satisfied(
                0,
                scalar_v(q_l),
                scalar_v(q_r),
                scalar_v(q_4),
                scalar_v(q_c),
                old(self).var_val(a),
                old(self).var_val(b),
                old(self).var_val(d),
                pi_as_nat(pi),
            );
        }
        c
    }

    /// Adds a computed width-3 multiplication: allocates the output wire
    /// bound to `q_m·(a·b) + q_c + PI` and constrains it with a mul gate,
    /// which that gate then satisfies by construction.
    pub fn mul(
        &mut self,
        q_m: Scalar,
        a: Variable,
        b: Variable,
        q_c: Scalar,
        pi: Option<Scalar>,
    ) -> (r: Variable)
        requires
            old(self).wf(),
            a.0 < old(self).variables@.len(),
            b.0 < old(self).variables@.len(),
            old(self).variables@.len() < usize::MAX,
            old(self).n < usize::MAX,
        ensures
            final(self).wf(),
            final(self).n == old(self).n + 1,
            r.0 == old(self).variables@.len(),
            final(self).var_val(r) == gate_output(
                scalar_v(q_m),
                0,
                0,
                0,
                scalar_v(q_c),
                old(self).var_val(a),
                old(self).var_val(b),
                0,
                pi_as_nat(pi),
            ),
            final(self).gate_satisfied(old(self).n as int),
            Self::computed_row_appended(
                *old(self),
                *final(self),
                a,
                b,
                r,
                old(self).zero_var,
                scalar_v(q_m),
                0,
                0,
                0,
                scalar_v(q_c),
                pi_as_nat(pi),
                gate_output(
                    scalar_v(q_m),
                    0,
                    0,
                    0,
                    scalar_v(q_c),
                    old(self).var_val(a),
                    old(self).var_val(b),
                    0,
                    pi_as_nat(pi),
                ),
            ),
    {
        self.big_mul(q_m, a, b, None, q_c, pi)
    }

    /// Adds a computed width-4 multiplication: allocates the output wire
    /// bound to `q_m·(a·b) + q_4·d + q_c + PI` and constrains it with a big
    /// mul gate (`q_o` fixed to minus one), which that gate then satisfies
    /// by construction.
    pub fn big_mul(
        &mut self,
        q_m: Scalar,
        a: Variable,
        b: Variable,
        q_4_d: Option<(Scalar, Variable)>,
        q_c: Scalar,
        pi: Option<Scalar>,
    ) -> (r: Variable)
        requires
            old(self).wf(),
            a.0 < old(self).variables@.len(),
            b.0 < old(self).variables@.len(),
            q_4_d is Some ==> (q_4_d->0).1.0 < old(self).variables@.len(),
            old(self).variables@.len() < usize::MAX,
            old(self).n < usize::MAX,
        ensures
            final(self).wf(),
            final(self).n == old(self).n + 1,
            r.0 == old(self).variables@.len(),
            final(self).var_val(r) == gate_output(
                scalar_v(q_m),
                0,
                0,
                Self::opt_q4_val(q_4_d),
                scalar_v(q_c),
                old(self).var_val(a),
                old(self).var_val(b),
                old(self).var_val(old(self).opt_d_var(q_4_d)),
                pi_as_nat(pi),
            ),
            final(self).gate_satisfied(old(self).n as int),
            Self::computed_row_appended(
                *old(self),
                *final(self),
                a,
                b,
                r,
                old(self).opt_d_var(q_4_d),
                scalar_v(q_m),
                0,
                0,
                Self::opt_q4_val(q_4_d),
                scalar_v(q_c),
                pi_as_nat(pi),
                gate_output(
                    scalar_v(q_m),
                    0,
                    0,
                    Self::opt_q4_val(q_4_d),
                    scalar_v(q_c),
                    old(self).var_val(a),
                    old(self).var_val(b),
                    old(self).var_val(old(self).opt_d_var(q_4_d)),
                    pi_as_nat(pi),
                ),
            ),
    {
        let (q_4, d) = match q_4_d {
            Some(p) => p,
            None => (s_zero(), self.zero_var),
        };
        let one = s_one();
        let q_o = s_neg(&one);
        let ab = s_mul(&self.variables[a.0], &self.variables[b.0]);
        let t_m = s_mul(&q_m, &ab);
        let t_4 = s_mul(&q_4, &self.variables[d.0]);
        let sum_m4 = s_add(&t_m, &t_4);
        let sum_c = s_add(&sum_m4, &q_c);
        let pi_s = match &pi {
            Some(p) => s_clone(p),
            None => s_zero(),
        };
        let c_eval = s_add(&sum_c, &pi_s);
        proof {
            lemma_gate_terms_no_lr(
                scalar_v(q_m),
                scalar_v(q_4),
                scalar_v(q_c),
                old(self).var_val(a),
                old(self).var_val(b),
                old(self).var_val(d),
            );
        }
        let c = self.add_input(c_eval);
        self.big_mul_gate(a, b, c, Some(d), q_m, q_o, q_c, q_4, pi);
        proof {
            let n0 = old(self).n as int;
            assert(seq_vals(self.q_arith@)[n0] == 1);
            assert(seq_vals(self.q_m@)[n0] == scalar_v(q_m));
            assert(seq_vals(self.q_l@)[n0] == 0nat);
            assert(seq_vals(self.q_r@)[n0] == 0nat);
            assert(seq_vals(self.q_o@)[n0] == fneg(1));
            assert(seq_vals(self.q_4@)[n0] == scalar_v(q_4));
            assert(seq_vals(self.q_c@)[n0] == scalar_v(q_c));
            assert(pi_vals(self.public_inputs@)[n0] == pi_as_nat(pi));
            assert(self.w_l@[n0] == a && self.w_r@[n0] == b && self.w_o@[n0] == c && self.w_4@[n0]
                == d);
            assert(self.var_val(a) == old(self).var_val(a));
            assert(self.var_val(b) == old(self).var_val(b));
            assert(self.var_val(d) == old(self).var_val(d));
            assert(self.var_val(c) == scalar_v(c_eval));
            assert(seq_vals(self.variables@) =~= seq_vals(old(self).variables@).push(
                scalar_v(c_eval),
            ));
            assert forall|v: Variable| v.0 < old(self).variables@.len() implies #[trigger] self
                .var_val(v) == old(self).var_val(v) by {
                assert(self.variables@[v.0 as int] == old(self).variables@[v.0 as int]);
            }
            lemma_constructed_gate_satisfied(
                scalar_v(q_m),
                0,
                0,
                scalar_v(q_4),
                scalar_v(q_c),
                old(self).var_val(a),
                old(self).var_val(b),
                old(self).var_val(d),
                pi_as_nat(pi),
            );
        }
        c
    }

    /// Adds a computed fully general arithmetic row: allocates the output
    /// wire bound to `q_m·(a·b) + q_l·a + q_r·b + q_4·d + q_c + PI` and
    /// constrains it with a big arith gate (`q_o` fixed to minus one),
    /// which that gate then satisfies by construction.
    pub fn big_arith(
        &mut self,
        q_m: Scalar,
        a: Variable,
        b: Variable,
        q_l: Scalar,
        q_r: Scalar,
        q_4_d: Option<(Scalar, Variable)>,
        q_c: Scalar,
        pi: Option<Scalar>,
    ) -> (r: Variable)
        requires
            old(self).wf(),
            a.0 < old(self).variables@.len(),
            b.0 < old(self).variables@.len(),
            q_4_d is Some ==> (q_4_d->0).1.0 < old(self).variables@.len(),
            old(self).variables@.len() < usize::MAX,
            old(self).n < usize::MAX,
        ensures
            final(self).wf(),
            final(self).n == old(self).n + 1,
            r.0 == old(self).variables@.len(),
            final(self).var_val(r) == gate_output(
                scalar_v(q_m),
                scalar_v(q_l),
                scalar_v(q_r),
                Self::opt_q4_val(q_4_d),
                scalar_v(q_c),
                old(self).var_val(a),
                old(self).var_val(b),
                old(self).var_val(old(self).opt_d_var(q_4_d)),
                pi_as_nat(pi),
            ),
            final(self).gate_satisfied(old(self).n as int),
            Self::computed_row_appended(
                *old(self),
                *final(self),
                a,
                b,
                r,
                old(self).opt_d_var(q_4_d),
                scalar_v(q_m),
                scalar_v(q_l),
                scalar_v(q_r),
                Self::opt_q4_val(q_4_d),
                scalar_v(q_c),
                pi_as_nat(pi),
                gate_output(
                    scalar_v(q_m),
                    scalar_v(q_l),
                    scalar_v(q_r),
                    Self::opt_q4_val(q_4_d),
                    scalar_v(q_c),
                    old(self).var_val(a),
                    old(self).var_val(b),
                    old(self).var_val(old(self).opt_d_var(q_4_d)),
                    pi_as_nat(pi),
                ),
            ),
    {
        let (q_4, d) = match q_4_d {
            Some(p) => p,
            None => (s_zero(), self.zero_var),
        };
        let one = s_one();
        let q_o = s_neg(&one);
        let ab = s_mul(&self.variables[a.0], &self.variables[b.0]);
        let t_m = s_mul(&q_m, &ab);
        let t_l = s_mul(&q_l, &self.variables[a.0]);
        let t_r = s_mul(&q_r, &self.variables[b.0]);
        let t_4 = s_mul(&q_4, &self.variables[d.0]);
        let sum_ml = s_add(&t_m, &t_l);
        let sum_r = s_add(&sum_ml, &t_r);
        let sum_4 = s_add(&sum_r, &t_4);
        let sum_c = s_add(&sum_4, &q_c);
        let pi_s = match &pi {
            Some(p) => s_clone(p),
            None => s_zero(),
        };
        let c_eval = s_add(&sum_c, &pi_s);
        let c = self.add_input(c_eval);
        self.big_arith_gate(a, b, c, Some(d), q_m, q_l, q_r, q_o, q_c, q_4, pi);
        proof {
            let n0 = old(self).n as int;
            assert(seq_vals(self.q_arith@)[n0] == 1);
            assert(seq_vals(self.q_m@)[n0] == scalar_v(q_m));
            assert(seq_vals(self.q_l@)[n0] == scalar_v(q_l));
            assert(seq_vals(self.q_r@)[n0] == scalar_v(q_r));
            assert(seq_vals(self.q_o@)[n0] == fneg(1));
            assert(seq_vals(self.q_4@)[n0] == scalar_v(q_4));
            assert(seq_vals(self.q_c@)[n0] == scalar_v(q_c));
            assert(pi_vals(self.public_inputs@)[n0] == pi_as_nat(pi));
            assert(self.w_l@[n0] == a && self.w_r@[n0] == b && self.w_o@[n0] == c && self.w_4@[n0]
                == d);
            assert(self.var_val(a) == old(self).var_val(a));
            assert(self.var_val(b) == old(self).var_val(b));
            assert(self.var_val(d) == old(self).var_val(d));
            assert(self.var_val(c) == scalar_v(c_eval));
            assert(seq_vals(self.variables@) =~= seq_vals(old(self).variables@).push(
                scalar_v(c_eval),
            ));
            assert forall|v: Variable| v.0 < old(self).variables@.len() implies #[trigger] self
                .var_val(v) == old(self).var_val(v) by {
                assert(self.variables@[v.0 as int] == old(self).variables@[v.0 as int]);
            }
            lemma_constructed_gate_satisfied(
                scalar_v(q_m),
                scalar_v(q_l),
                scalar_v(q_r),
                scalar_v(q_4),
                scalar_v(q_c),
                old(self).var_val(a),
                old(self).var_val(b),
                old(self).var_val(d),
                pi_as_nat(pi),
            );
        }
        c
    }

    /// Constrains the wire `a` to equal `constant - PI` by one add gate
    /// with `q_l = 1` and `q_c = -constant`.
    pub fn constrain_to_constant(&mut self, a: Variable, constant: Scalar, pi: Option<Scalar>)
        requires
            old(self).wf(),
            a.0 < old(self).variables@.len(),
            old(self).n < usize::MAX,
        ensures
            final(self).wf(),
            final(self).variables@ == old(self).variables@,
            Self::row_appended(
                *old(self),
                *final(self),
                a,
                old(self).zero_var,
                old(self).zero_var,
                old(self).zero_var,
                0,
                1,
                0,
                0,
                0,
                fneg(scalar_v(constant)),
                1,
                0,
                0,
                0,
                0,
                pi_as_nat(pi),
            ),
    {
        let one = s_one();
        let z_r = s_zero();
        let z_o = s_zero();
        let z_4 = s_zero();
        let neg_constant = s_neg(&constant);
        let zv = self.zero_var;
        self.big_add_gate(a, zv, zv, None, one, z_r, z_o, z_4, neg_constant, pi);
        proof {
            vstd::arithmetic::div_mod::lemma_small_mod(1, r_order());
        }
    }

    /// Computes the value of the arithmetic gate equation at row `i`.
    pub fn gate_value_at(&self, i: usize) -> (r: Scalar)
        requires
            self.wf(),
            i < self.n,
        ensures
            scalar_v(r) == self.gate_value(i as int),
    {
        let a = self.w_l[i];
        let b = self.w_r[i];
        let c = self.w_o[i];
        let d = self.w_4[i];
        let ab = s_mul(&self.variables[a.0], &self.variables[b.0]);
        let t_m = s_mul(&self.q_m[i], &ab);
        let t_l = s_mul(&self.q_l[i], &self.variables[a.0]);
        let t_r = s_mul(&self.q_r[i], &self.variables[b.0]);
        let t_4 = s_mul(&self.q_4[i], &self.variables[d.0]);
        let t_o = s_mul(&self.q_o[i], &self.variables[c.0]);
        let sum_ml = s_add(&t_m, &t_l);
        let sum_r = s_add(&sum_ml, &t_r);
        let sum_4 = s_add(&sum_r, &t_4);
        let sum_c = s_add(&sum_4, &self.q_c[i]);
        let inner = s_add(&sum_c, &t_o);
        let scaled = s_mul(&self.q_arith[i], &inner);
        let pi_s = match &self.public_inputs[i] {
            Some(p) => s_clone(p),
            None => s_zero(),
        };
        s_add(&scaled, &pi_s)
    }

    /// Decides whether every row's arithmetic constraint holds under the
    /// current witness values.
    pub fn circuit_satisfied(&self) -> (r: bool)
        requires
            self.wf(),
        ensures
            r <==> (forall|i: int| 0 <= i < self.n ==> self.gate_satisfied(i)),
    {
        let z = s_zero();
        let mut i: usize = 0;
        while i < self.n
            invariant
                self.wf(),
                i <= self.n,
                scalar_v(z) == 0,
                forall|k: int| 0 <= k < i ==> self.gate_satisfied(k),
            decreases self.n - i,
        {
            let v = self.gate_value_at(i);
            if !s_eq(&v, &z) {
                proof {
                    assert(!self.gate_satisfied(i as int));
                }
                return false;
            }
            i += 1;
        }
        true
    }
}

/// After any sequence of gate-construction calls, every selector column,
/// every wire column and the public-input column hold exactly one entry
/// per gate: well-formedness ties each column's length to the row count,
/// and every gate call grows the count by one.
pub proof fn lemma_columns_match_gate_count(c: StandardComposer)
    requires
        c.wf(),
    ensures
        c.q_m@.len() == c.n,
        c.q_l@.len() == c.n,
        c.q_r@.len() == c.n,
        c.q_o@.len() == c.n,
        c.q_c@.len() == c.n,
        c.q_4@.len() == c.n,
        c.q_arith@.len() == c.n,
        c.q_range@.len() == c.n,
        c.q_logic@.len() == c.n,
        c.q_fixed_group_add@.len() == c.n,
        c.q_variable_group_add@.len() == c.n,
        c.w_l@.len() == c.n,
        c.w_r@.len() == c.n,
        c.w_o@.len() == c.n,
        c.w_4@.len() == c.n,
        c.public_inputs@.len() == c.n,
{
}

/// With the multiplication selector off, the row terms reduce to the
/// addition-family sum.
proof fn lemma_gate_terms_no_qm(ql: nat, qr: nat, q4: nat, qc: nat, a: nat, b: nat, d: nat)
    ensures
        gate_terms(0, ql, qr, q4, qc, a, b, d) == fadd(
            fadd(fadd(fmul(ql, a), fmul(qr, b)), fmul(q4, d)),
            qc,
        ),
{
    vstd::arithmetic::div_mod::lemma_small_mod(0, r_order());
    assert(fmul(0, fmul(a, b)) == 0);
    lemma_fmul_bound(ql, a);
    lemma_fadd_zero(fmul(ql, a));
    lemma_fadd_comm(0, fmul(ql, a));
}

/// With the addition selectors off, the row terms reduce to the
/// multiplication-family sum.
proof fn lemma_gate_terms_no_lr(qm: nat, q4: nat, qc: nat, a: nat, b: nat, d: nat)
    ensures
        gate_terms(qm, 0, 0, q4, qc, a, b, d) == fadd(
            fadd(fmul(qm, fmul(a, b)), fmul(q4, d)),
            qc,
        ),
{
    vstd::arithmetic::div_mod::lemma_small_mod(0, r_order());
    assert(fmul(0, a) == 0);
    assert(fmul(0, b) == 0);
    lemma_fmul_bound(qm, fmul(a, b));
    lemma_fadd_zero(fmul(qm, fmul(a, b)));
    lemma_fadd_bound(fmul(qm, fmul(a, b)), 0);
    lemma_fadd_zero(fadd(fmul(qm, fmul(a, b)), 0));
}



} // verus!
