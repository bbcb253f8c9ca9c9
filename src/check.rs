//! Checking a witness grid against a constraint system: every enabled gate
//! holds on its row and every copy constraint joins two equal cells of
//! equality-enabled columns.
use crate::circuit::{AddGate, Cell, Column, ColumnKind, ConstraintSystem, Selector};
use crate::fibonacci::{fib, FibonacciConfig, FIB_ROWS};
use crate::field::{modulus, FieldElement};
use crate::witness::{lemma_slot_bound, opt_view, column_view, Witness, WitnessView};
use vstd::prelude::*;

verus! {

/// The first constraint found not to hold.
#[derive(Clone, Copy, Debug, PartialEq, Eq, Structural)]
pub enum ConstraintViolation {
    /// Gate `gate` is enabled on `row` and does not hold there.
    Gate { gate: usize, row: usize },
    /// Copy constraint `index` joins cells that are not equal, are not
    /// assigned, or lie in a column without equality enabled.
    Copy { index: usize },
}

pub open spec fn gate_holds(w: WitnessView, g: AddGate, row: nat) -> bool {
    &&& g.lhs.kind == ColumnKind::Advice
    &&& g.rhs.kind == ColumnKind::Advice
    &&& g.out.kind == ColumnKind::Advice
    &&& match (
        w.advice_at(g.lhs.index as nat, row),
        w.advice_at(g.rhs.index as nat, row),
        w.advice_at(g.out.index as nat, row),
    ) {
        (Some(a), Some(b), Some(c)) => (a + b) % modulus() == c,
        _ => false,
    }
}

pub open spec fn gates_hold(cs: &ConstraintSystem, w: WitnessView) -> bool {
    forall|i: int, r: nat|
        0 <= i < cs.gates@.len() && #[trigger] w.selector_on(cs.gates@[i].selector.index as nat, r)
            ==> gate_holds(w, cs.gates@[i], r)
}

pub open spec fn copy_holds(cs: &ConstraintSystem, w: WitnessView, link: (Cell, Cell)) -> bool {
    &&& cs.equality_enabled(link.0.column)
    &&& cs.equality_enabled(link.1.column)
    &&& w.cell_value(link.0) is Some
    &&& w.cell_value(link.0) == w.cell_value(link.1)
}

pub open spec fn copies_hold(cs: &ConstraintSystem, w: WitnessView) -> bool {
    forall|k: int| 0 <= k < w.copies.len() ==> copy_holds(cs, w, #[trigger] w.copies[k])
}

/// Every constraint of `cs` holds on `w`.
pub open spec fn satisfied(cs: &ConstraintSystem, w: WitnessView) -> bool {
    gates_hold(cs, w) && copies_hold(cs, w)
}

impl ConstraintSystem {
    pub fn is_equality_enabled(&self, c: Column) -> (r: bool)
        ensures
            r == self.equality_enabled(c),
    {
        let mut i: usize = 0;
        while i < self.equality.len()
            invariant
                i <= self.equality@.len(),
                forall|j: int| 0 <= j < i ==> self.equality@[j] != c,
            decreases self.equality@.len() - i,
        {
            if self.equality[i] == c {
                return true;
            }
            i = i + 1;
        }
        false
    }
}

impl Witness {
    pub fn selector_enabled(&self, s: Selector, row: usize) -> (r: bool)
        requires
            self.wf(),
        ensures
            r == self@.selector_on(s.index as nat, row as nat),
    {
        if s.index < self.num_selectors && row < self.n_rows {
            proof {
                lemma_slot_bound(row as nat, s.index as nat, self.num_selectors as nat, self.n_rows as nat);
                assert(self.selectors@.len() == self.selectors.len());
            }
            self.selectors[row * self.num_selectors + s.index]
        } else {
            false
        }
    }

    pub fn advice_value(&self, col: usize, row: usize) -> (r: Option<FieldElement>)
        requires
            self.wf(),
        ensures
            opt_view(r) == self@.advice_at(col as nat, row as nat),
            r matches Some(e) ==> e.wf(),
    {
        if col < self.num_advice && row < self.n_rows {
            proof {
                lemma_slot_bound(row as nat, col as nat, self.num_advice as nat, self.n_rows as nat);
                assert(self.advice@.len() == self.advice.len());
            }
            self.advice[row * self.num_advice + col]
        } else {
            None
        }
    }

    pub fn cell_value(&self, c: Cell) -> (r: Option<FieldElement>)
        requires
            self.wf(),
        ensures
            opt_view(r) == self@.cell_value(c),
            r matches Some(e) ==> e.wf(),
    {
        match c.column.kind {
            ColumnKind::Advice => self.advice_value(c.column.index, c.row),
            ColumnKind::Instance => {
                if c.column.index < self.instance.len() && c.row < self.instance[c.column.index].len() {
                    let v = self.instance[c.column.index][c.row];
                    assert(column_view(self.instance@[c.column.index as int])[c.row as int] == v@);
                    Some(v)
                } else {
                    None
                }
            },
        }
    }
}

fn check_gate(w: &Witness, g: &AddGate, row: usize) -> (r: bool)
    requires
        w.wf(),
    ensures
        r == gate_holds(w@, *g, row as nat),
{
    if g.lhs.kind != ColumnKind::Advice || g.rhs.kind != ColumnKind::Advice || g.out.kind != ColumnKind::Advice {
        return false;
    }
    match (w.advice_value(g.lhs.index, row), w.advice_value(g.rhs.index, row), w.advice_value(g.out.index, row)) {
        (Some(a), Some(b), Some(c)) => a.add(&b).equals(&c),
        _ => false,
    }
}

fn check_copy(cs: &ConstraintSystem, w: &Witness, link: &(Cell, Cell)) -> (r: bool)
    requires
        w.wf(),
    ensures
        r == copy_holds(cs, w@, *link),
{
    if !cs.is_equality_enabled(link.0.column) || !cs.is_equality_enabled(link.1.column) {
        return false;
    }
    match (w.cell_value(link.0), w.cell_value(link.1)) {
        (Some(a), Some(b)) => a.equals(&b),
        _ => false,
    }
}

/// Checks every gate on every row where it is enabled, then every copy
/// constraint, and reports the first that fails.
pub fn check_constraints(cs: &ConstraintSystem, w: &Witness) -> (r: Result<(), ConstraintViolation>)
    requires
        w.wf(),
    ensures
        r is Ok <==> satisfied(cs, w@),
        r matches Err(ConstraintViolation::Gate { gate, row }) ==> gate < cs.gates@.len() && w@.selector_on(
            cs.gates@[gate as int].selector.index as nat,
            row as nat,
        ) && !gate_holds(w@, cs.gates@[gate as int], row as nat),
        r matches Err(ConstraintViolation::Copy { index }) ==> gates_hold(cs, w@) && index < w@.copies.len()
            && !copy_holds(cs, w@, w@.copies[index as int]),
{
    let mut i: usize = 0;
    while i < cs.gates.len()
        invariant
            w.wf(),
            i <= cs.gates@.len(),
            forall|j: int, r: nat|
                0 <= j < i && #[trigger] w@.selector_on(cs.gates@[j].selector.index as nat, r)
                    ==> gate_holds(w@, cs.gates@[j], r),
        decreases cs.gates@.len() - i,
    {
        let g = cs.gates[i];
        let mut row: usize = 0;
        while row < w.n_rows
            invariant
                w.wf(),
                i < cs.gates@.len(),
                g == cs.gates@[i as int],
                row <= w.n_rows,
                forall|j: int, r: nat|
                    0 <= j < i && #[trigger] w@.selector_on(cs.gates@[j].selector.index as nat, r)
                        ==> gate_holds(w@, cs.gates@[j], r),
                forall|r: nat| r < row && #[trigger] w@.selector_on(g.selector.index as nat, r) ==> gate_holds(w@, g, r),
            decreases w.n_rows - row,
        {
            if w.selector_enabled(g.selector, row) && !check_gate(w, &g, row) {
                return Err(ConstraintViolation::Gate { gate: i, row });
            }
            row = row + 1;
        }
        assert forall|j: int, r: nat|
            0 <= j < i + 1 && #[trigger] w@.selector_on(cs.gates@[j].selector.index as nat, r)
                implies gate_holds(w@, cs.gates@[j], r) by {
            if j == i && r >= w@.n_rows {
                assert(!w@.selector_on(g.selector.index as nat, r));
            }
        }
        i = i + 1;
    }
    let mut k: usize = 0;
    while k < w.copies.len()
        invariant
            w.wf(),
            gates_hold(cs, w@),
            k <= w@.copies.len(),
            forall|j: int| 0 <= j < k ==> copy_holds(cs, w@, #[trigger] w@.copies[j]),
        decreases w@.copies.len() - k,
    {
        if !check_copy(cs, w, &w.copies[k]) {
            return Err(ConstraintViolation::Copy { index: k });
        }
        k = k + 1;
    }
    Ok(())
}

/// `cs` is the Fibonacci constraint system of `cfg`: its one gate, and
/// equality on the three advice columns and the instance column.
pub open spec fn is_fibonacci_system(cs: &ConstraintSystem, cfg: FibonacciConfig) -> bool {
    &&& cs.gates@ == seq![cfg.gate()]
    &&& cs.equality_enabled(cfg.col_a)
    &&& cs.equality_enabled(cfg.col_b)
    &&& cs.equality_enabled(cfg.col_c)
    &&& cs.equality_enabled(cfg.instance)
}

proof fn lemma_row_copies_hold(cs: &ConstraintSystem, cfg: FibonacciConfig, w: WitnessView, x: nat, y: nat, m: nat)
    requires
        is_fibonacci_system(cs, cfg),
        cfg.valid_for(w.num_advice, w.num_selectors),
        cfg.rows_laid(w, x, y, FIB_ROWS as nat),
        w.instance_at(cfg.instance.index as nat, 0) == Some(x),
        w.instance_at(cfg.instance.index as nat, 1) == Some(y),
        m <= FIB_ROWS,
    ensures
        cfg.row_copies(m).len() == 2 * m,
        forall|k: int| 0 <= k < 2 * m ==> copy_holds(cs, w, #[trigger] cfg.row_copies(m)[k]),
    decreases m,
{
    if m == 1 {
        assert(fib(x, y, 0) == x && fib(x, y, 1) == y);
        assert(w.advice_at(cfg.col_a.index as nat, 0) == Some(x));
        assert(w.advice_at(cfg.col_b.index as nat, 0) == Some(y));
    } else if m > 1 {
        lemma_row_copies_hold(cs, cfg, w, x, y, (m - 1) as nat);
        let prev = cfg.row_copies((m - 1) as nat);
        let cur = cfg.row_copies(m);
        let r = (m - 2) as nat;
        assert(w.advice_at(cfg.col_b.index as nat, r) == Some(fib(x, y, r + 1)));
        assert(w.advice_at(cfg.col_a.index as nat, r + 1) == Some(fib(x, y, r + 1)));
        assert(w.advice_at(cfg.col_c.index as nat, r) == Some(fib(x, y, r + 2)));
        assert(w.advice_at(cfg.col_b.index as nat, r + 1) == Some(fib(x, y, r + 2)));
        assert forall|k: int| 0 <= k < 2 * m implies copy_holds(cs, w, #[trigger] cur[k]) by {
            if k < 2 * (m - 1) {
                assert(cur[k] == prev[k]);
            }
        }
    }
}

/// Checking the constraints of a synthesized Fibonacci witness succeeds
/// exactly when the last term of the recurrence, computed from the seeds
/// `x` and `y`, equals the declared output `out`.
pub proof fn lemma_local_check_iff_recurrence(
    cs: &ConstraintSystem,
    cfg: FibonacciConfig,
    w: WitnessView,
    x: nat,
    y: nat,
    out: nat,
)
    requires
        is_fibonacci_system(cs, cfg),
        cfg.valid_for(w.num_advice, w.num_selectors),
        cfg.is_layout(w, x, y),
        w.instance_at(cfg.instance.index as nat, 0) == Some(x),
        w.instance_at(cfg.instance.index as nat, 1) == Some(y),
        w.instance_at(cfg.instance.index as nat, 2) == Some(out),
    ensures
        satisfied(cs, w) <==> fib(x, y, (FIB_ROWS + 1) as nat) == out,
{
    assert forall|i: int, r: nat|
        0 <= i < cs.gates@.len() && #[trigger] w.selector_on(cs.gates@[i].selector.index as nat, r)
            implies gate_holds(w, cs.gates@[i], r) by {
        assert(cs.gates@[i] == cfg.gate());
        assert(r < FIB_ROWS);
        assert(fib(x, y, r + 2) == (fib(x, y, r) + fib(x, y, r + 1)) % modulus());
        assert(w.advice_at(cfg.col_a.index as nat, r) == Some(fib(x, y, r)));
        assert(w.advice_at(cfg.col_b.index as nat, r) == Some(fib(x, y, r + 1)));
        assert(w.advice_at(cfg.col_c.index as nat, r) == Some(fib(x, y, r + 2)));
    }
    lemma_row_copies_hold(cs, cfg, w, x, y, FIB_ROWS as nat);
    let rows = cfg.row_copies(FIB_ROWS as nat);
    let last = (FIB_ROWS - 1) as nat;
    assert(w.advice_at(cfg.col_c.index as nat, last) == Some(fib(x, y, last + 2)));
    assert(w.cell_value(cfg.output_link().0) == Some(fib(x, y, (FIB_ROWS + 1) as nat)));
    assert(w.cell_value(cfg.output_link().1) == Some(out));
    if fib(x, y, (FIB_ROWS + 1) as nat) == out {
        assert forall|k: int| 0 <= k < w.copies.len() implies copy_holds(cs, w, #[trigger] w.copies[k]) by {
            if k < rows.len() {
                assert(w.copies[k] == rows[k]);
            }
        }
    } else {
        assert(w.copies[rows.len() as int] == cfg.output_link());
        assert(!copy_holds(cs, w, w.copies[rows.len() as int]));
    }
}

/// Whether constraints hold depends only on enabled selectors, advice
/// values, public inputs and copy constraints.
pub proof fn lemma_satisfied_congruent(cs: &ConstraintSystem, w1: WitnessView, w2: WitnessView)
    requires
        forall|s: nat, r: nat| #[trigger] w1.selector_on(s, r) == w2.selector_on(s, r),
        forall|c: nat, r: nat| #[trigger] w1.advice_at(c, r) == w2.advice_at(c, r),
        w1.instance == w2.instance,
        w1.copies == w2.copies,
    ensures
        satisfied(cs, w1) == satisfied(cs, w2),
{
    assert forall|c: Cell| #[trigger] w1.cell_value(c) == w2.cell_value(c) by {
        match c.column.kind {
            ColumnKind::Advice => {
                assert(w1.advice_at(c.column.index as nat, c.row as nat) == w2.advice_at(c.column.index as nat, c.row as nat));
            },
            ColumnKind::Instance => {},
        }
    }
    assert forall|g: AddGate, r: nat| #[trigger] gate_holds(w1, g, r) == gate_holds(w2, g, r) by {
        assert(w1.advice_at(g.lhs.index as nat, r) == w2.advice_at(g.lhs.index as nat, r));
        assert(w1.advice_at(g.rhs.index as nat, r) == w2.advice_at(g.rhs.index as nat, r));
        assert(w1.advice_at(g.out.index as nat, r) == w2.advice_at(g.out.index as nat, r));
    }
    assert(gates_hold(cs, w1) == gates_hold(cs, w2)) by {
        if gates_hold(cs, w1) {
            assert forall|i: int, r: nat|
                0 <= i < cs.gates@.len() && #[trigger] w2.selector_on(cs.gates@[i].selector.index as nat, r)
                    implies gate_holds(w2, cs.gates@[i], r) by {
                assert(w1.selector_on(cs.gates@[i].selector.index as nat, r));
            }
        }
        if gates_hold(cs, w2) {
            assert forall|i: int, r: nat|
                0 <= i < cs.gates@.len() && #[trigger] w1.selector_on(cs.gates@[i].selector.index as nat, r)
                    implies gate_holds(w1, cs.gates@[i], r) by {
                assert(w2.selector_on(cs.gates@[i].selector.index as nat, r));
            }
        }
    }
    assert forall|l: (Cell, Cell)| #[trigger] copy_holds(cs, w1, l) == copy_holds(cs, w2, l) by {
        assert(w1.cell_value(l.0) == w2.cell_value(l.0));
        assert(w1.cell_value(l.1) == w2.cell_value(l.1));
    }
}

} // verus!
