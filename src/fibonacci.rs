//! The Fibonacci chip and circuit: three advice columns `a`, `b`, `c`, one
//! selector gating `a + b - c = 0`, and one instance column holding the two
//! seed terms and the declared output.
use crate::circuit::{AddGate, Cell, Column, ColumnKind, ConstraintSystem, Selector};
use crate::field::{modulus, FieldElement};
use crate::witness::{AssignedCell, SynthesisError, Witness, WitnessView};
use vstd::prelude::*;

verus! {

/// Rows that the circuit lays out: the seed row and the recurrence rows.
pub const FIB_ROWS: usize = 8;

/// Term `n` of the sequence that starts with `x`, `y`, taken modulo the
/// field order.
pub open spec fn fib(x: nat, y: nat, n: nat) -> nat
    decreases n,
{
    if n == 0 {
        x
    } else if n == 1 {
        y
    } else {
        (fib(x, y, (n - 2) as nat) + fib(x, y, (n - 1) as nat)) % modulus()
    }
}

pub proof fn lemma_fib_bound(x: nat, y: nat, n: nat)
    requires
        x < modulus(),
        y < modulus(),
    ensures
        fib(x, y, n) < modulus(),
{
}

/// Which columns and selector the Fibonacci gate uses.
#[derive(Clone, Copy, Debug, PartialEq, Eq, Structural)]
pub struct FibonacciConfig {
    pub col_a: Column,
    pub col_b: Column,
    pub col_c: Column,
    pub selector: Selector,
    pub instance: Column,
}

impl FibonacciConfig {
    /// Three distinct advice columns, an instance column and a selector,
    /// all within the given counts.
    pub open spec fn valid_for(self, num_advice: nat, num_selectors: nat) -> bool {
        &&& self.col_a.kind == ColumnKind::Advice
        &&& self.col_b.kind == ColumnKind::Advice
        &&& self.col_c.kind == ColumnKind::Advice
        &&& self.instance.kind == ColumnKind::Instance
        &&& self.col_a.index < num_advice
        &&& self.col_b.index < num_advice
        &&& self.col_c.index < num_advice
        &&& self.col_a.index != self.col_b.index
        &&& self.col_a.index != self.col_c.index
        &&& self.col_b.index != self.col_c.index
        &&& self.selector.index < num_selectors
    }

    pub open spec fn gate(self) -> AddGate {
        AddGate { selector: self.selector, lhs: self.col_a, rhs: self.col_b, out: self.col_c }
    }

    pub open spec fn cell_a(self, row: nat) -> Cell {
        Cell { column: self.col_a, row: row as usize }
    }

    pub open spec fn cell_b(self, row: nat) -> Cell {
        Cell { column: self.col_b, row: row as usize }
    }

    pub open spec fn cell_c(self, row: nat) -> Cell {
        Cell { column: self.col_c, row: row as usize }
    }

    pub open spec fn public_cell(self, row: nat) -> Cell {
        Cell { column: self.instance, row: row as usize }
    }

    /// The value that the layout puts in advice cell (`col`, `row`) when its
    /// first `m` rows are laid out from seeds `x`, `y`.
    pub open spec fn advice_value(self, x: nat, y: nat, col: nat, row: nat, m: nat) -> Option<nat> {
        if row < m && col == self.col_a.index {
            Some(fib(x, y, row))
        } else if row < m && col == self.col_b.index {
            Some(fib(x, y, row + 1))
        } else if row < m && col == self.col_c.index {
            Some(fib(x, y, row + 2))
        } else {
            None
        }
    }

    /// Copy constraints recorded by laying out the first `m` rows: the seeds
    /// are copied from the instance column, and each row's `b` and `c` feed
    /// the next row's `a` and `b`.
    pub open spec fn row_copies(self, m: nat) -> Seq<(Cell, Cell)>
        decreases m,
    {
        if m == 0 {
            Seq::empty()
        } else if m == 1 {
            seq![(self.public_cell(0), self.cell_a(0)), (self.public_cell(1), self.cell_b(0))]
        } else {
            self.row_copies((m - 1) as nat) + seq![
                (self.cell_b((m - 2) as nat), self.cell_a((m - 1) as nat)),
                (self.cell_c((m - 2) as nat), self.cell_b((m - 1) as nat)),
            ]
        }
    }

    /// The output assertion: the last row's `c` equals public input 2.
    pub open spec fn output_link(self) -> (Cell, Cell) {
        (self.cell_c((FIB_ROWS - 1) as nat), self.public_cell(2))
    }

    /// The first `m` rows of `w` are laid out from seeds `x`, `y`, and
    /// nothing else has been assigned or enabled.
    pub open spec fn rows_laid(self, w: WitnessView, x: nat, y: nat, m: nat) -> bool {
        &&& w.wf()
        &&& w.next_row == m
        &&& forall|s: nat, r: nat| #[trigger]
            w.selector_on(s, r) == (s == self.selector.index && r < m)
        &&& forall|c: nat, r: nat| #[trigger] w.advice_at(c, r) == self.advice_value(x, y, c, r, m)
    }

    /// `w` is the complete Fibonacci layout for seeds `x`, `y`.
    pub open spec fn is_layout(self, w: WitnessView, x: nat, y: nat) -> bool {
        &&& self.rows_laid(w, x, y, FIB_ROWS as nat)
        &&& w.copies == self.row_copies(FIB_ROWS as nat).push(self.output_link())
    }
}

/// `new` is `old` with one more row laid out: the selector on at `row`,
/// `a`, `b`, `c` holding `va`, `vb`, `vc`, and the copy constraints `links`.
pub open spec fn row_added(
    cfg: FibonacciConfig,
    old: WitnessView,
    new: WitnessView,
    row: nat,
    va: nat,
    vb: nat,
    vc: nat,
    links: Seq<(Cell, Cell)>,
) -> bool {
    &&& new.wf()
    &&& row == old.next_row
    &&& new.next_row == old.next_row + 1
    &&& new.n_rows == old.n_rows
    &&& new.num_advice == old.num_advice
    &&& new.num_selectors == old.num_selectors
    &&& new.instance == old.instance
    &&& new.copies == old.copies + links
    &&& forall|s: nat, r: nat| #[trigger]
        new.selector_on(s, r) == ((s == cfg.selector.index && r == row) || old.selector_on(s, r))
    &&& forall|c: nat, r: nat| #[trigger]
        new.advice_at(c, r) == if r == row && c == cfg.col_a.index {
            Some(va)
        } else if r == row && c == cfg.col_b.index {
            Some(vb)
        } else if r == row && c == cfg.col_c.index {
            Some(vc)
        } else {
            old.advice_at(c, r)
        }
}

pub struct FibonacciChip {
    pub config: FibonacciConfig,
}

impl FibonacciChip {
    pub fn construct(config: FibonacciConfig) -> (r: Self)
        ensures
            r.config == config,
    {
        FibonacciChip { config }
    }

    /// Allocates the columns and the selector, enables equality on the four
    /// columns, and adds the addition gate.
    pub fn configure(meta: &mut ConstraintSystem) -> (cfg: FibonacciConfig)
        requires
            old(meta).num_advice + 3 <= usize::MAX,
            old(meta).num_instance < usize::MAX,
            old(meta).num_selectors < usize::MAX,
        ensures
            cfg.col_a == (Column { kind: ColumnKind::Advice, index: old(meta).num_advice }),
            cfg.col_b == (Column { kind: ColumnKind::Advice, index: (old(meta).num_advice + 1) as usize }),
            cfg.col_c == (Column { kind: ColumnKind::Advice, index: (old(meta).num_advice + 2) as usize }),
            cfg.selector == (Selector { index: old(meta).num_selectors }),
            cfg.instance == (Column { kind: ColumnKind::Instance, index: old(meta).num_instance }),
            final(meta).num_advice == old(meta).num_advice + 3,
            final(meta).num_instance == old(meta).num_instance + 1,
            final(meta).num_selectors == old(meta).num_selectors + 1,
            final(meta).equality@ == old(meta).equality@ + seq![cfg.col_a, cfg.col_b, cfg.col_c, cfg.instance],
            final(meta).gates@ == old(meta).gates@.push(cfg.gate()),
            cfg.valid_for(final(meta).num_advice as nat, final(meta).num_selectors as nat),
    {
        let col_a = meta.advice_column();
        let col_b = meta.advice_column();
        let col_c = meta.advice_column();
        let selector = meta.selector();
        let instance = meta.instance_column();
        let ghost eq0 = meta.equality@;
        meta.enable_equality(col_a);
        meta.enable_equality(col_b);
        meta.enable_equality(col_c);
        meta.enable_equality(instance);
        meta.create_gate(AddGate { selector, lhs: col_a, rhs: col_b, out: col_c });
        assert(meta.equality@ =~= eq0 + seq![col_a, col_b, col_c, instance]);
        FibonacciConfig { col_a, col_b, col_c, selector, instance }
    }
    /// Lays out the seed row: `a` and `b` are copied from public inputs 0
    /// and 1, `c = a + b`, and the selector is turned on.
    pub fn assign_first_row(&self, layouter: &mut Witness) -> (r: Result<(AssignedCell, AssignedCell, AssignedCell), SynthesisError>)
        requires
            old(layouter).wf(),
            self.config.valid_for(old(layouter)@.num_advice, old(layouter)@.num_selectors),
        ensures
            final(layouter).wf(),
            final(layouter).instance@ == old(layouter).instance@,
            final(layouter)@.n_rows == old(layouter)@.n_rows,
            final(layouter)@.num_advice == old(layouter)@.num_advice,
            final(layouter)@.num_selectors == old(layouter)@.num_selectors,
            r is Ok <==> (old(layouter)@.next_row < old(layouter)@.n_rows
                && old(layouter)@.instance_at(self.config.instance.index as nat, 0) is Some
                && old(layouter)@.instance_at(self.config.instance.index as nat, 1) is Some),
            old(layouter)@.next_row >= old(layouter)@.n_rows ==> r == Err::<(AssignedCell, AssignedCell, AssignedCell), SynthesisError>(SynthesisError::NotEnoughRows),
            old(layouter)@.next_row < old(layouter)@.n_rows && r is Err ==> r == Err::<(AssignedCell, AssignedCell, AssignedCell), SynthesisError>(SynthesisError::MissingInstance),
            r matches Ok((a, b, c)) ==> {
                let row = old(layouter)@.next_row;
                let x = old(layouter)@.instance_at(self.config.instance.index as nat, 0)->Some_0;
                let y = old(layouter)@.instance_at(self.config.instance.index as nat, 1)->Some_0;
                &&& a.cell == self.config.cell_a(row) && a.value@ == x && a.value.wf()
                &&& b.cell == self.config.cell_b(row) && b.value@ == y && b.value.wf()
                &&& c.cell == self.config.cell_c(row) && c.value@ == (x + y) % modulus() && c.value.wf()
                &&& row_added(self.config, old(layouter)@, final(layouter)@, row, x, y, c.value@,
                    seq![(self.config.public_cell(0), a.cell), (self.config.public_cell(1), b.cell)])
            },
    {
        let ghost w0 = layouter@;
        let row = match layouter.begin_region() {
            Ok(row) => row,
            Err(e) => return Err(e),
        };
        let ghost w1 = layouter@;
        let _ = layouter.enable_selector(self.config.selector, row);
        let ghost w2 = layouter@;
        let a = match layouter.assign_advice_from_instance(self.config.instance, 0, self.config.col_a, row) {
            Ok(a) => a,
            Err(e) => return Err(e),
        };
        let ghost w3 = layouter@;
        let b = match layouter.assign_advice_from_instance(self.config.instance, 1, self.config.col_b, row) {
            Ok(b) => b,
            Err(e) => return Err(e),
        };
        let ghost w4 = layouter@;
        let c = match layouter.assign_advice(self.config.col_c, row, a.value.add(&b.value)) {
            Ok(c) => c,
            Err(e) => return Err(e),
        };
        let ghost w5 = layouter@;
        let ghost x = a.value@;
        let ghost y = b.value@;
        assert forall|s: nat, r: nat| #[trigger] w5.selector_on(s, r) == ((s == self.config.selector.index && r == row)
            || w0.selector_on(s, r)) by {
            assert(w5.selector_on(s, r) == w2.selector_on(s, r));
            assert(w1.selector_on(s, r) == w0.selector_on(s, r));
        }
        assert forall|col: nat, r: nat| #[trigger] w5.advice_at(col, r) == if r == row && col == self.config.col_a.index {
            Some(x)
        } else if r == row && col == self.config.col_b.index {
            Some(y)
        } else if r == row && col == self.config.col_c.index {
            Some(c.value@)
        } else {
            w0.advice_at(col, r)
        } by {
            assert(w2.advice_at(col, r) == w0.advice_at(col, r));
            assert(w3.advice_at(col, r) == if col == self.config.col_a.index && r == row { Some(x) } else { w2.advice_at(col, r) });
            assert(w4.advice_at(col, r) == if col == self.config.col_b.index && r == row { Some(y) } else { w3.advice_at(col, r) });
        }
        assert(w5.copies =~= w0.copies + seq![(self.config.public_cell(0), a.cell), (self.config.public_cell(1), b.cell)]);
        Ok((a, b, c))
    }

    /// Lays out one recurrence row: the previous row's `b` and `c` are
    /// copied into `a` and `b`, `c = a + b`, and the selector is turned on.
    pub fn assign_row(&self, layouter: &mut Witness, prev_b: &AssignedCell, prev_c: &AssignedCell) -> (r: Result<AssignedCell, SynthesisError>)
        requires
            old(layouter).wf(),
            self.config.valid_for(old(layouter)@.num_advice, old(layouter)@.num_selectors),
            prev_b.value.wf(),
            prev_c.value.wf(),
        ensures
            final(layouter).wf(),
            final(layouter).instance@ == old(layouter).instance@,
            final(layouter)@.n_rows == old(layouter)@.n_rows,
            final(layouter)@.num_advice == old(layouter)@.num_advice,
            final(layouter)@.num_selectors == old(layouter)@.num_selectors,
            r is Ok <==> old(layouter)@.next_row < old(layouter)@.n_rows,
            r is Err ==> r == Err::<AssignedCell, SynthesisError>(SynthesisError::NotEnoughRows),
            r matches Ok(c) ==> {
                let row = old(layouter)@.next_row;
                &&& c.cell == self.config.cell_c(row)
                &&& c.value@ == (prev_b.value@ + prev_c.value@) % modulus() && c.value.wf()
                &&& row_added(self.config, old(layouter)@, final(layouter)@, row, prev_b.value@, prev_c.value@, c.value@,
                    seq![(prev_b.cell, self.config.cell_a(row)), (prev_c.cell, self.config.cell_b(row))])
            },
    {
        let ghost w0 = layouter@;
        let row = match layouter.begin_region() {
            Ok(row) => row,
            Err(e) => return Err(e),
        };
        let ghost w1 = layouter@;
        let _ = layouter.enable_selector(self.config.selector, row);
        let ghost w2 = layouter@;
        let a = match layouter.copy_advice(prev_b, self.config.col_a, row) {
            Ok(a) => a,
            Err(e) => return Err(e),
        };
        let ghost w3 = layouter@;
        let b = match layouter.copy_advice(prev_c, self.config.col_b, row) {
            Ok(b) => b,
            Err(e) => return Err(e),
        };
        let ghost w4 = layouter@;
        let c = match layouter.assign_advice(self.config.col_c, row, prev_b.value.add(&prev_c.value)) {
            Ok(c) => c,
            Err(e) => return Err(e),
        };
        let ghost w5 = layouter@;
        assert(w5.copies =~= w0.copies + seq![(prev_b.cell, a.cell), (prev_c.cell, b.cell)]);
        assert forall|s: nat, r: nat| #[trigger] w5.selector_on(s, r) == ((s == self.config.selector.index && r == row)
            || w0.selector_on(s, r)) by {
            assert(w5.selector_on(s, r) == w2.selector_on(s, r));
            assert(w1.selector_on(s, r) == w0.selector_on(s, r));
        }
        assert forall|col: nat, r: nat| #[trigger] w5.advice_at(col, r) == if r == row && col == self.config.col_a.index {
            Some(prev_b.value@)
        } else if r == row && col == self.config.col_b.index {
            Some(prev_c.value@)
        } else if r == row && col == self.config.col_c.index {
            Some(c.value@)
        } else {
            w0.advice_at(col, r)
        } by {
            assert(w2.advice_at(col, r) == w0.advice_at(col, r));
            assert(w3.advice_at(col, r) == if col == self.config.col_a.index && r == row { Some(prev_b.value@) } else { w2.advice_at(col, r) });
            assert(w4.advice_at(col, r) == if col == self.config.col_b.index && r == row { Some(prev_c.value@) } else { w3.advice_at(col, r) });
        }
        Ok(c)
    }

    /// Asserts that `cell` equals public input `row`.
    pub fn expose_public(&self, layouter: &mut Witness, cell: &AssignedCell, row: usize) -> (r: Result<(), SynthesisError>)
        requires
            old(layouter).wf(),
            self.config.instance.kind == ColumnKind::Instance,
        ensures
            final(layouter).wf(),
            final(layouter).instance@ == old(layouter).instance@,
            r is Ok,
            final(layouter)@ == (WitnessView {
                copies: old(layouter)@.copies.push((cell.cell, self.config.public_cell(row as nat))),
                ..old(layouter)@
            }),
    {
        layouter.constrain_instance(cell.cell, self.config.instance, row)
    }
}

/// The circuit; `public_input` holds the instance column: the two seed
/// terms and the declared output.
#[derive(Clone, Debug)]
pub struct FibonacciCircuit {
    pub public_input: Vec<Vec<FieldElement>>,
}

/// A grid on which nothing has been laid out yet.
pub open spec fn is_blank(w: WitnessView) -> bool {
    &&& w.next_row == 0
    &&& w.copies == Seq::<(Cell, Cell)>::empty()
    &&& forall|s: nat, r: nat| !#[trigger] w.selector_on(s, r)
    &&& forall|c: nat, r: nat| #[trigger] w.advice_at(c, r) == None::<nat>
}

impl FibonacciCircuit {
    /// The same circuit with no public inputs, as key generation sees it.
    pub fn without_witnesses(&self) -> (r: Self)
        ensures
            r.public_input@.len() == 0,
    {
        FibonacciCircuit { public_input: Vec::new() }
    }

    pub fn configure(meta: &mut ConstraintSystem) -> (cfg: FibonacciConfig)
        requires
            old(meta).num_advice + 3 <= usize::MAX,
            old(meta).num_instance < usize::MAX,
            old(meta).num_selectors < usize::MAX,
        ensures
            cfg.col_a == (Column { kind: ColumnKind::Advice, index: old(meta).num_advice }),
            cfg.col_b == (Column { kind: ColumnKind::Advice, index: (old(meta).num_advice + 1) as usize }),
            cfg.col_c == (Column { kind: ColumnKind::Advice, index: (old(meta).num_advice + 2) as usize }),
            cfg.selector == (Selector { index: old(meta).num_selectors }),
            cfg.instance == (Column { kind: ColumnKind::Instance, index: old(meta).num_instance }),
            final(meta).num_advice == old(meta).num_advice + 3,
            final(meta).num_instance == old(meta).num_instance + 1,
            final(meta).num_selectors == old(meta).num_selectors + 1,
            final(meta).equality@ == old(meta).equality@ + seq![cfg.col_a, cfg.col_b, cfg.col_c, cfg.instance],
            final(meta).gates@ == old(meta).gates@.push(cfg.gate()),
            cfg.valid_for(final(meta).num_advice as nat, final(meta).num_selectors as nat),
    {
        FibonacciChip::configure(meta)
    }

    /// The public inputs, one vector per instance column.
    pub fn instances(&self) -> (r: Vec<Vec<FieldElement>>)
        ensures
            r@.len() == self.public_input@.len(),
            forall|i: int| 0 <= i < r@.len() ==> (#[trigger] r@[i])@ == self.public_input@[i]@,
    {
        let mut r: Vec<Vec<FieldElement>> = Vec::new();
        let mut i: usize = 0;
        while i < self.public_input.len()
            invariant
                i <= self.public_input@.len(),
                r@.len() == i,
                forall|j: int| 0 <= j < i ==> (#[trigger] r@[j])@ == self.public_input@[j]@,
            decreases self.public_input@.len() - i,
        {
            let col = &self.public_input[i];
            let mut copy: Vec<FieldElement> = Vec::new();
            let mut j: usize = 0;
            while j < col.len()
                invariant
                    j <= col@.len(),
                    copy@ == col@.subrange(0, j as int),
                decreases col@.len() - j,
            {
                copy.push(col[j]);
                j = j + 1;
            }
            assert(copy@ =~= col@);
            r.push(copy);
            i = i + 1;
        }
        r
    }

    /// Lays out the seed row, seven recurrence rows, and the output
    /// assertion binding the last `c` to public input 2.
    pub fn synthesize(&self, config: FibonacciConfig, layouter: &mut Witness) -> (r: Result<(), SynthesisError>)
        requires
            old(layouter).wf(),
            is_blank(old(layouter)@),
            config.valid_for(old(layouter)@.num_advice, old(layouter)@.num_selectors),
        ensures
            final(layouter).wf(),
            final(layouter).instance@ == old(layouter).instance@,
            final(layouter)@.n_rows == old(layouter)@.n_rows,
            final(layouter)@.num_advice == old(layouter)@.num_advice,
            final(layouter)@.num_selectors == old(layouter)@.num_selectors,
            ({
                let x = old(layouter)@.instance_at(config.instance.index as nat, 0);
                let y = old(layouter)@.instance_at(config.instance.index as nat, 1);
                &&& r is Ok <==> (old(layouter)@.n_rows >= FIB_ROWS && x is Some && y is Some)
                &&& (x is Some && y is Some && r is Err) ==> r == Err::<(), SynthesisError>(SynthesisError::NotEnoughRows)
                &&& (old(layouter)@.n_rows > 0 && !(x is Some && y is Some)) ==> r == Err::<(), SynthesisError>(SynthesisError::MissingInstance)
                &&& r is Ok ==> config.is_layout(final(layouter)@, x->Some_0, y->Some_0)
            }),
    {
        let chip = FibonacciChip::construct(config);
        let ghost w0 = layouter@;
        let (_, b0, c0) = match chip.assign_first_row(layouter) {
            Ok(cells) => cells,
            Err(e) => return Err(e),
        };
        let ghost x = w0.instance_at(config.instance.index as nat, 0)->Some_0;
        let ghost y = w0.instance_at(config.instance.index as nat, 1)->Some_0;
        proof {
            let w1 = layouter@;
            assert(fib(x, y, 0) == x && fib(x, y, 1) == y);
            assert(fib(x, y, 2) == (x + y) % modulus());
            assert forall|s: nat, r: nat| #[trigger] w1.selector_on(s, r) == (s == config.selector.index && r < 1) by {}
            assert forall|c: nat, r: nat| #[trigger] w1.advice_at(c, r) == config.advice_value(x, y, c, r, 1) by {}
            assert(w1.copies =~= config.row_copies(1));
        }
        let mut prev_b = b0;
        let mut prev_c = c0;
        let mut i: usize = 1;
        while i < FIB_ROWS
            invariant
                1 <= i <= FIB_ROWS,
                w0 == old(layouter)@,
                layouter.wf(),
                layouter@.instance == w0.instance,
                layouter.instance@ == old(layouter).instance@,
                layouter@.n_rows == w0.n_rows,
                layouter@.num_advice == w0.num_advice,
                layouter@.num_selectors == w0.num_selectors,
                x == w0.instance_at(config.instance.index as nat, 0)->Some_0,
                y == w0.instance_at(config.instance.index as nat, 1)->Some_0,
                w0.instance_at(config.instance.index as nat, 0) is Some,
                w0.instance_at(config.instance.index as nat, 1) is Some,
                config.valid_for(w0.num_advice, w0.num_selectors),
                chip.config == config,
                config.rows_laid(layouter@, x, y, i as nat),
                layouter@.copies == config.row_copies(i as nat),
                prev_b.cell == config.cell_b((i - 1) as nat),
                prev_c.cell == config.cell_c((i - 1) as nat),
                prev_b.value@ == fib(x, y, i as nat),
                prev_c.value@ == fib(x, y, (i + 1) as nat),
                prev_b.value.wf(),
                prev_c.value.wf(),
            decreases FIB_ROWS - i,
        {
            let ghost before = layouter@;
            let c_cell = match chip.assign_row(layouter, &prev_b, &prev_c) {
                Ok(c) => c,
                Err(e) => return Err(e),
            };
            proof {
                let after = layouter@;
                let n = i as nat;
                assert(fib(x, y, n + 2) == (fib(x, y, n) + fib(x, y, n + 1)) % modulus());
                assert forall|s: nat, r: nat| #[trigger] after.selector_on(s, r) == (s == config.selector.index && r < n + 1) by {
                    assert(before.selector_on(s, r) == (s == config.selector.index && r < n));
                }
                assert forall|c: nat, r: nat| #[trigger] after.advice_at(c, r) == config.advice_value(x, y, c, r, n + 1) by {
                    assert(before.advice_at(c, r) == config.advice_value(x, y, c, r, n));
                }
                assert(after.copies =~= config.row_copies(n + 1));
            }
            // This row's `b` holds the previous `c`; it feeds the next row's `a`.
            prev_b = AssignedCell { cell: Cell { column: config.col_b, row: c_cell.cell.row }, value: prev_c.value };
            prev_c = c_cell;
            i = i + 1;
        }
        let ghost before = layouter@;
        let _ = chip.expose_public(layouter, &prev_c, 2);
        proof {
            let after = layouter@;
            assert forall|s: nat, r: nat| #[trigger] after.selector_on(s, r) == before.selector_on(s, r) by {}
            assert forall|c: nat, r: nat| #[trigger] after.advice_at(c, r) == before.advice_at(c, r) by {}
            assert(config.rows_laid(after, x, y, FIB_ROWS as nat));
        }
        Ok(())
    }
}

} // verus!
