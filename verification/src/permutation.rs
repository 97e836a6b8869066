//! The copy-constraint permutation argument's bookkeeping: which
//! (column, row) positions each variable occupies, and the sigma mappings
//! that send every position to the next occurrence of the same variable.
use vstd::prelude::*;

verus! {

/// One wire position: a column tag together with a gate row.
#[derive(Clone, Copy, Debug, PartialEq, Eq, Structural)]
pub enum WireData {
    Left(usize),
    Right(usize),
    Output(usize),
    Fourth(usize),
}

/// The circuit row a position lies on.
pub open spec fn wire_row(w: WireData) -> int {
    match w {
        WireData::Left(i) => i as int,
        WireData::Right(i) => i as int,
        WireData::Output(i) => i as int,
        WireData::Fourth(i) => i as int,
    }
}

/// The occurrence map with position `w` appended to variable `v`'s list.
pub open spec fn occ_push(m: Seq<Seq<WireData>>, v: int, w: WireData) -> Seq<Seq<WireData>> {
    m.update(v, m[v].push(w))
}

/// The occurrence map after one gate at `row` touched the four wires
/// `a, b, c, d`.
pub open spec fn occ4(
    m: Seq<Seq<WireData>>,
    a: int,
    b: int,
    c: int,
    d: int,
    row: usize,
) -> Seq<Seq<WireData>> {
    occ_push(
        occ_push(
            occ_push(occ_push(m, a, WireData::Left(row)), b, WireData::Right(row)),
            c,
            WireData::Output(row),
        ),
        d,
        WireData::Fourth(row),
    )
}

/// Well-formed occurrence data for a circuit of `n` rows: every recorded
/// position lies on an existing row, and no position is recorded twice —
/// each gate contributes each of its four positions to exactly one
/// variable's list.
pub open spec fn occurs_wf(m: Seq<Seq<WireData>>, n: int) -> bool {
    &&& forall|v: int, j: int|
        0 <= v < m.len() && 0 <= j < m[v].len() ==> 0 <= wire_row(#[trigger] m[v][j]) < n
    &&& forall|v1: int, j1: int, v2: int, j2: int|
        0 <= v1 < m.len() && 0 <= j1 < m[v1].len() && 0 <= v2 < m.len() && 0 <= j2 < m[v2].len()
            && #[trigger] m[v1][j1] == #[trigger] m[v2][j2] ==> v1 == v2 && j1 == j2
}

/// Tracks, for every variable (by index), the ordered list of wire
/// positions it occupies.
pub struct Permutation {
    pub variable_map: Vec<Vec<WireData>>,
}

/// The occurrence map as a sequence of sequences.
pub open spec fn occ_view(m: Vec<Vec<WireData>>) -> Seq<Seq<WireData>> {
    m@.map_values(|inner: Vec<WireData>| inner@)
}

impl Permutation {
    /// An empty map: no variables yet.
    pub fn new() -> (r: Permutation)
        ensures
            r.variable_map@.len() == 0,
    {
        Permutation { variable_map: Vec::new() }
    }

    /// Registers a fresh variable with no occurrences.
    pub fn add_variable(&mut self)
        ensures
            occ_view(final(self).variable_map) == occ_view(old(self).variable_map).push(
                Seq::<WireData>::empty(),
            ),
    {
        let fresh: Vec<WireData> = Vec::new();
        self.variable_map.push(fresh);
        proof {
            assert(occ_view(self.variable_map) =~= occ_view(old(self).variable_map).push(
                Seq::<WireData>::empty(),
            ));
        }
    }

    /// Records that row `row` reads variables `a, b, c, d` on its
    /// left, right, output and fourth wires.
    pub fn add_variables_to_map(&mut self, a: usize, b: usize, c: usize, d: usize, row: usize)
        requires
            a < old(self).variable_map@.len(),
            b < old(self).variable_map@.len(),
            c < old(self).variable_map@.len(),
            d < old(self).variable_map@.len(),
        ensures
            occ_view(final(self).variable_map) == occ4(
                occ_view(old(self).variable_map),
                a as int,
                b as int,
                c as int,
                d as int,
                row,
            ),
    {
        let ghost m0 = occ_view(self.variable_map);
        let slot_a = &mut self.variable_map[a];
        slot_a.push(WireData::Left(row));
        proof {
            assert(occ_view(self.variable_map) =~= occ_push(m0, a as int, WireData::Left(row)));
        }
        let ghost m1 = occ_view(self.variable_map);
        let slot_b = &mut self.variable_map[b];
        slot_b.push(WireData::Right(row));
        proof {
            assert(occ_view(self.variable_map) =~= occ_push(m1, b as int, WireData::Right(row)));
        }
        let ghost m2 = occ_view(self.variable_map);
        let slot_c = &mut self.variable_map[c];
        slot_c.push(WireData::Output(row));
        proof {
            assert(occ_view(self.variable_map) =~= occ_push(m2, c as int, WireData::Output(row)));
        }
        let ghost m3 = occ_view(self.variable_map);
        let slot_d = &mut self.variable_map[d];
        slot_d.push(WireData::Fourth(row));
        proof {
            assert(occ_view(self.variable_map) =~= occ_push(m3, d as int, WireData::Fourth(row)));
        }
    }
}

/// The value `w` appears nowhere in the occurrence data.
pub open spec fn not_present(m: Seq<Seq<WireData>>, w: WireData) -> bool {
    forall|v: int, j: int| 0 <= v < m.len() && 0 <= j < m[v].len() ==> #[trigger] m[v][j] != w
}

/// Appending one not-yet-present position keeps the occurrence data well
/// formed and introduces no other value.
proof fn lemma_occ_push_wf(m: Seq<Seq<WireData>>, v: int, w: WireData, n: int)
    requires
        occurs_wf(m, n),
        0 <= v < m.len(),
        0 <= wire_row(w) < n,
        not_present(m, w),
    ensures
        occurs_wf(occ_push(m, v, w), n),
        occ_push(m, v, w).len() == m.len(),
        forall|w2: WireData| w2 != w && not_present(m, w2) ==> not_present(occ_push(m, v, w), w2),
{
    let m2 = occ_push(m, v, w);
    assert forall|v2: int, j2: int|
        0 <= v2 < m2.len() && 0 <= j2 < m2[v2].len() implies 0 <= wire_row(#[trigger] m2[v2][j2])
        < n by {
        if !(v2 == v && j2 == m[v].len()) {
            assert(m2[v2][j2] == m[v2][j2]);
        }
    }
    assert forall|v1: int, j1: int, v2: int, j2: int|
        0 <= v1 < m2.len() && 0 <= j1 < m2[v1].len() && 0 <= v2 < m2.len() && 0 <= j2
            < m2[v2].len() && #[trigger] m2[v1][j1] == #[trigger] m2[v2][j2] implies v1 == v2 && j1
        == j2 by {
        let fresh1 = v1 == v && j1 == m[v].len();
        let fresh2 = v2 == v && j2 == m[v].len();
        if fresh1 && !fresh2 {
            assert(m2[v2][j2] == m[v2][j2]);
        } else if !fresh1 && fresh2 {
            assert(m2[v1][j1] == m[v1][j1]);
        } else if !fresh1 && !fresh2 {
            assert(m2[v1][j1] == m[v1][j1]);
            assert(m2[v2][j2] == m[v2][j2]);
        }
    }
    assert forall|w2: WireData| w2 != w && not_present(m, w2) implies not_present(m2, w2) by {
        assert forall|v2: int, j2: int|
            0 <= v2 < m2.len() && 0 <= j2 < m2[v2].len() implies #[trigger] m2[v2][j2] != w2 by {
            if !(v2 == v && j2 == m[v].len()) {
                assert(m2[v2][j2] == m[v2][j2]);
            }
        }
    }
}

/// One gate's four fresh occurrences on a fresh row keep the occurrence
/// data well formed for the grown circuit.
pub proof fn lemma_occ4_wf(
    m: Seq<Seq<WireData>>,
    a: int,
    b: int,
    c: int,
    d: int,
    row: usize,
    n: int,
)
    requires
        occurs_wf(m, n),
        row == n,
        0 <= a < m.len(),
        0 <= b < m.len(),
        0 <= c < m.len(),
        0 <= d < m.len(),
    ensures
        occurs_wf(occ4(m, a, b, c, d, row), n + 1),
        occ4(m, a, b, c, d, row).len() == m.len(),
{
    let wl = WireData::Left(row);
    let wr = WireData::Right(row);
    let wo = WireData::Output(row);
    let wf4 = WireData::Fourth(row);
    assert(occurs_wf(m, n + 1)) by {
        assert forall|v2: int, j2: int|
            0 <= v2 < m.len() && 0 <= j2 < m[v2].len() implies 0 <= wire_row(#[trigger] m[v2][j2])
            < n + 1 by {
            assert(wire_row(m[v2][j2]) < n);
        }
    }
    assert(not_present(m, wl) && not_present(m, wr) && not_present(m, wo) && not_present(m, wf4))
        by {
        assert forall|v2: int, j2: int| 0 <= v2 < m.len() && 0 <= j2 < m[v2].len() implies (
        #[trigger] m[v2][j2]) != wl && m[v2][j2] != wr && m[v2][j2] != wo && m[v2][j2] != wf4 by {
            assert(wire_row(m[v2][j2]) < n);
        }
    }
    lemma_occ_push_wf(m, a, wl, n + 1);
    let m1 = occ_push(m, a, wl);
    lemma_occ_push_wf(m1, b, wr, n + 1);
    let m2 = occ_push(m1, b, wr);
    lemma_occ_push_wf(m2, c, wo, n + 1);
    let m3 = occ_push(m2, c, wo);
    lemma_occ_push_wf(m3, d, wf4, n + 1);
}

/// Registering a variable with no occurrences keeps the occurrence data
/// well formed.
pub proof fn lemma_push_empty_wf(m: Seq<Seq<WireData>>, n: int)
    requires
        occurs_wf(m, n),
    ensures
        occurs_wf(m.push(Seq::<WireData>::empty()), n),
{
    let m2 = m.push(Seq::<WireData>::empty());
    assert forall|v2: int, j2: int|
        0 <= v2 < m2.len() && 0 <= j2 < m2[v2].len() implies 0 <= wire_row(#[trigger] m2[v2][j2])
        < n by {
        assert(v2 < m.len() && m2[v2] == m[v2]);
    }
    assert forall|v1: int, j1: int, v2: int, j2: int|
        0 <= v1 < m2.len() && 0 <= j1 < m2[v1].len() && 0 <= v2 < m2.len() && 0 <= j2
            < m2[v2].len() && #[trigger] m2[v1][j1] == #[trigger] m2[v2][j2] implies v1 == v2 && j1
        == j2 by {
        assert(v1 < m.len() && m2[v1] == m[v1]);
        assert(v2 < m.len() && m2[v2] == m[v2]);
    }
}

/// The per-column next-occurrence tables: position `(col, row)` maps to
/// the next position, in gate order, that carries the same variable.
pub struct SigmaMappings {
    pub left: Vec<WireData>,
    pub right: Vec<WireData>,
    pub output: Vec<WireData>,
    pub fourth: Vec<WireData>,
}

/// Where the mapping sends one wire position.
pub open spec fn sigma_at(s: SigmaMappings, w: WireData) -> WireData {
    match w {
        WireData::Left(i) => s.left@[i as int],
        WireData::Right(i) => s.right@[i as int],
        WireData::Output(i) => s.output@[i as int],
        WireData::Fourth(i) => s.fourth@[i as int],
    }
}

/// Each column's table covers every row.
pub open spec fn sigma_lens(s: SigmaMappings, n: nat) -> bool {
    &&& s.left@.len() == n
    &&& s.right@.len() == n
    &&& s.output@.len() == n
    &&& s.fourth@.len() == n
}

/// Some variable's list records the position `w`.
pub open spec fn listed(m: Seq<Seq<WireData>>, w: WireData) -> bool {
    exists|v: int, j: int| 0 <= v < m.len() && 0 <= j < m[v].len() && #[trigger] m[v][j] == w
}

/// Positions nowhere recorded are fixed points of the mapping.
pub open spec fn identity_off_map(m: Seq<Seq<WireData>>, s: SigmaMappings, n: int) -> bool {
    forall|w: WireData|
        0 <= wire_row(w) < n && !listed(m, w) ==> #[trigger] sigma_at(s, w) == w
}

/// The mapping sends every recorded occurrence to the variable's next
/// occurrence, cyclically, and fixes everything else: each variable's
/// occurrence list is one cycle of the permutation.
pub open spec fn sigma_correct(m: Seq<Seq<WireData>>, s: SigmaMappings, n: int) -> bool {
    &&& sigma_lens(s, n as nat)
    &&& forall|v: int, j: int|
        0 <= v < m.len() && 0 <= j < m[v].len() ==> sigma_at(s, #[trigger] m[v][j]) == m[v][(j + 1)
            % (m[v].len() as int)]
    &&& identity_off_map(m, s, n)
}

/// The mapping agrees with the cycle rule on every position processed
/// before `(v, j)` in order, and is still the identity on the rest.
spec fn partial_sigma(m: Seq<Seq<WireData>>, s: SigmaMappings, v: int, j: int) -> bool {
    forall|v2: int, j2: int|
        0 <= v2 < m.len() && 0 <= j2 < m[v2].len() ==> sigma_at(s, #[trigger] m[v2][j2]) == (
        if v2 < v || (v2 == v && j2 < j) {
            m[v2][(j2 + 1) % (m[v2].len() as int)]
        } else {
            m[v2][j2]
        })
}

/// One update step of the sigma construction: writing the next
/// occurrence into the slot of the current one extends the processed
/// region by one position and touches nothing else.
proof fn lemma_sigma_step(
    m: Seq<Seq<WireData>>,
    s_old: SigmaMappings,
    s_new: SigmaMappings,
    n: int,
    v: int,
    j: int,
)
    requires
        occurs_wf(m, n),
        0 <= v < m.len(),
        0 <= j < m[v].len(),
        partial_sigma(m, s_old, v, j),
        identity_off_map(m, s_old, n),
        sigma_at(s_new, m[v][j]) == m[v][(j + 1) % (m[v].len() as int)],
        forall|w: WireData|
            0 <= wire_row(w) < n && w != m[v][j] ==> #[trigger] sigma_at(s_new, w) == sigma_at(
                s_old,
                w,
            ),
    ensures
        partial_sigma(m, s_new, v, j + 1),
        identity_off_map(m, s_new, n),
{
    let cur = m[v][j];
    assert(partial_sigma(m, s_new, v, j + 1)) by {
        assert forall|v2: int, j2: int|
            0 <= v2 < m.len() && 0 <= j2 < m[v2].len() implies sigma_at(
            s_new,
            #[trigger] m[v2][j2],
        ) == (if v2 < v || (v2 == v && j2 < j + 1) {
            m[v2][(j2 + 1) % (m[v2].len() as int)]
        } else {
            m[v2][j2]
        }) by {
            if v2 == v && j2 == j {
            } else {
                assert(m[v2][j2] != cur);
                assert(0 <= wire_row(m[v2][j2]) < n);
                assert(sigma_at(s_new, m[v2][j2]) == sigma_at(s_old, m[v2][j2]));
            }
        }
    }
    assert(identity_off_map(m, s_new, n)) by {
        assert(listed(m, cur));
        assert forall|w: WireData|
            0 <= wire_row(w) < n && !listed(m, w) implies #[trigger] sigma_at(s_new, w) == w by {
            assert(w != cur);
            assert(sigma_at(s_old, w) == w);
        }
    }
}

impl Permutation {
    /// Builds the four sigma mappings from the recorded occurrences: for
    /// each variable, occurrence `j` is sent to occurrence `j+1` (mod the
    /// cycle length), and unrecorded positions map to themselves.
    #[verifier::rlimit(100)]
    #[verifier::spinoff_prover]
    #[verifier::loop_isolation(false)]
    pub fn compute_sigma_mappings(&self, n: usize) -> (s: SigmaMappings)
        requires
            occurs_wf(occ_view(self.variable_map), n as int),
        ensures
            sigma_correct(occ_view(self.variable_map), s, n as int),
    {
        let ghost m = occ_view(self.variable_map);
        let mut left: Vec<WireData> = Vec::new();
        let mut right: Vec<WireData> = Vec::new();
        let mut output: Vec<WireData> = Vec::new();
        let mut fourth: Vec<WireData> = Vec::new();
        let mut i: usize = 0;
        while i < n
            invariant
                i <= n,
                left@.len() == i,
                right@.len() == i,
                output@.len() == i,
                fourth@.len() == i,
                forall|k: int| 0 <= k < i ==> left@[k] == WireData::Left(k as usize),
                forall|k: int| 0 <= k < i ==> right@[k] == WireData::Right(k as usize),
                forall|k: int| 0 <= k < i ==> output@[k] == WireData::Output(k as usize),
                forall|k: int| 0 <= k < i ==> fourth@[k] == WireData::Fourth(k as usize),
            decreases n - i,
        {
            left.push(WireData::Left(i));
            right.push(WireData::Right(i));
            output.push(WireData::Output(i));
            fourth.push(WireData::Fourth(i));
            i = i + 1;
        }
        let mut s = SigmaMappings { left, right, output, fourth };
        proof {
            assert(partial_sigma(m, s, 0, 0));
            assert(identity_off_map(m, s, n as int)) by {
                assert forall|w: WireData|
                    0 <= wire_row(w) < n as int && !listed(m, w) implies #[trigger] sigma_at(s, w)
                    == w by {}
            }
        }
        let mut v: usize = 0;
        while v < self.variable_map.len()
            invariant
                v <= self.variable_map@.len(),
                sigma_lens(s, n as nat),
                partial_sigma(m, s, v as int, 0),
                identity_off_map(m, s, n as int),
            decreases self.variable_map@.len() - v,
        {
            let len_v = self.variable_map[v].len();
            let mut j: usize = 0;
            while j < len_v
                invariant
                    j <= len_v,
                    len_v == m[v as int].len(),
                    v < self.variable_map@.len(),
                    sigma_lens(s, n as nat),
                    partial_sigma(m, s, v as int, j as int),
                    identity_off_map(m, s, n as int),
                decreases len_v - j,
            {
                let cur = self.variable_map[v][j];
                let nxt = self.variable_map[v][(j + 1) % len_v];
                let ghost s_old = s;
                proof {
                    assert(cur == m[v as int][j as int]);
                    assert(nxt == m[v as int][((j as int) + 1) % (m[v as int].len() as int)]);
                    assert(0 <= wire_row(cur) < n as int);
                }
                match cur {
                    WireData::Left(p) => {
                        s.left[p] = nxt;
                    },
                    WireData::Right(p) => {
                        s.right[p] = nxt;
                    },
                    WireData::Output(p) => {
                        s.output[p] = nxt;
                    },
                    WireData::Fourth(p) => {
                        s.fourth[p] = nxt;
                    },
                }
                proof {
                    assert(sigma_at(s, cur) == nxt);
                    assert forall|w: WireData|
                        0 <= wire_row(w) < n as int && w != cur implies #[trigger] sigma_at(s, w)
                        == sigma_at(s_old, w) by {}
                    lemma_sigma_step(m, s_old, s, n as int, v as int, j as int);
                }
                j = j + 1;
            }
            proof {
                assert(partial_sigma(m, s, (v + 1) as int, 0)) by {
                    assert forall|v2: int, j2: int|
                        0 <= v2 < m.len() && 0 <= j2 < m[v2].len() implies sigma_at(
                        s,
                        #[trigger] m[v2][j2],
                    ) == (if v2 < v + 1 || (v2 == v + 1 && j2 < 0) {
                        m[v2][(j2 + 1) % (m[v2].len() as int)]
                    } else {
                        m[v2][j2]
                    }) by {}
                }
            }
            v = v + 1;
        }
        proof {
            assert forall|v2: int, j2: int|
                0 <= v2 < m.len() && 0 <= j2 < m[v2].len() implies sigma_at(
                s,
                #[trigger] m[v2][j2],
            ) == m[v2][(j2 + 1) % (m[v2].len() as int)] by {}
        }
        s
    }
}

/// A variable recorded at exactly three positions forms a three-cycle of
/// the permutation: following the mapping three times returns to the
/// starting position.
pub proof fn lemma_three_cycle(m: Seq<Seq<WireData>>, s: SigmaMappings, n: int, v: int)
    requires
        sigma_correct(m, s, n),
        0 <= v < m.len(),
        m[v].len() == 3,
    ensures
        sigma_at(s, m[v][0]) == m[v][1],
        sigma_at(s, m[v][1]) == m[v][2],
        sigma_at(s, m[v][2]) == m[v][0],
        sigma_at(s, sigma_at(s, sigma_at(s, m[v][0]))) == m[v][0],
{
    assert(sigma_at(s, m[v][0]) == m[v][(0int + 1) % 3]);
    assert(sigma_at(s, m[v][1]) == m[v][(1int + 1) % 3]);
    assert(sigma_at(s, m[v][2]) == m[v][(2int + 1) % 3]);
}

/// A variable recorded exactly once is a fixed point of the permutation.
pub proof fn lemma_fixed_point(m: Seq<Seq<WireData>>, s: SigmaMappings, n: int, v: int)
    requires
        sigma_correct(m, s, n),
        0 <= v < m.len(),
        m[v].len() == 1,
    ensures
        sigma_at(s, m[v][0]) == m[v][0],
{
    assert(sigma_at(s, m[v][0]) == m[v][(0int + 1) % 1]);
}

/// Well-formedness of occurrence data is monotone in the row bound.
pub proof fn lemma_occurs_wf_monotone(m: Seq<Seq<WireData>>, n1: int, n2: int)
    requires
        occurs_wf(m, n1),
        n1 <= n2,
    ensures
        occurs_wf(m, n2),
{
    assert forall|v: int, j: int|
        0 <= v < m.len() && 0 <= j < m[v].len() implies 0 <= wire_row(#[trigger] m[v][j])
        < n2 by {
        assert(wire_row(m[v][j]) < n1);
    }
}

/// The sigma mapping never leaves the circuit's rows: every position on
/// an existing row is sent to a position on an existing row.
pub proof fn lemma_sigma_rows_bounded(m: Seq<Seq<WireData>>, s: SigmaMappings, n: int)
    requires
        occurs_wf(m, n),
        sigma_correct(m, s, n),
    ensures
        forall|w: WireData|
            0 <= wire_row(w) < n ==> 0 <= wire_row(#[trigger] sigma_at(s, w)) < n,
{
    assert forall|w: WireData|
        0 <= wire_row(w) < n implies 0 <= wire_row(#[trigger] sigma_at(s, w)) < n by {
        if listed(m, w) {
            let (v, j) = choose|v: int, j: int|
                0 <= v < m.len() && 0 <= j < m[v].len() && #[trigger] m[v][j] == w;
            vstd::arithmetic::div_mod::lemma_mod_bound(j + 1, m[v].len() as int);
            assert(sigma_at(s, m[v][j]) == m[v][(j + 1) % (m[v].len() as int)]);
        }
    }
}

} // verus!
