//! The witness grid: advice values, enabled selectors, public inputs and the
//! copy constraints recorded while regions are assigned row by row.
use crate::circuit::{Cell, Column, ColumnKind, ConstraintSystem, Selector};
use crate::field::FieldElement;
use vstd::prelude::*;

verus! {

/// Position of a cell in a row-major grid `width` cells wide.
pub open spec fn slot(row: nat, col: nat, width: nat) -> nat {
    row * width + col
}

pub proof fn lemma_slot_bound(row: nat, col: nat, width: nat, rows: nat)
    requires
        row < rows,
        col < width,
    ensures
        slot(row, col, width) < rows * width,
{
    assert(row * width + col < rows * width) by (nonlinear_arith)
        requires
            row < rows,
            col < width,
    ;
}

pub proof fn lemma_slot_unique(r1: nat, c1: nat, r2: nat, c2: nat, width: nat)
    requires
        c1 < width,
        c2 < width,
        slot(r1, c1, width) == slot(r2, c2, width),
    ensures
        r1 == r2,
        c1 == c2,
{
    if r1 < r2 {
        assert(r1 * width + width <= r2 * width) by (nonlinear_arith)
            requires
                r1 < r2,
        ;
    } else if r2 < r1 {
        assert(r2 * width + width <= r1 * width) by (nonlinear_arith)
            requires
                r2 < r1,
        ;
    }
}

/// A cell that holds a value.
#[derive(Clone, Copy, Debug)]
pub struct AssignedCell {
    pub cell: Cell,
    pub value: FieldElement,
}

/// What synthesis can run into.
#[derive(Clone, Copy, Debug, PartialEq, Eq, Structural)]
pub enum SynthesisError {
    /// Every row of the grid is already taken by a region.
    NotEnoughRows,
    /// A column, selector or row outside the grid.
    OutOfBounds,
    /// A public input that was asked for is not there.
    MissingInstance,
}

/// The mathematical content of a witness grid.
pub struct WitnessView {
    pub n_rows: nat,
    pub num_advice: nat,
    pub num_selectors: nat,
    pub advice: Seq<Option<nat>>,
    pub selectors: Seq<bool>,
    pub instance: Seq<Seq<nat>>,
    pub copies: Seq<(Cell, Cell)>,
    pub next_row: nat,
}

impl WitnessView {
    pub open spec fn wf(self) -> bool {
        &&& self.advice.len() == self.n_rows * self.num_advice
        &&& self.selectors.len() == self.n_rows * self.num_selectors
        &&& self.next_row <= self.n_rows
    }

    pub open spec fn advice_at(self, col: nat, row: nat) -> Option<nat> {
        if col < self.num_advice && row < self.n_rows {
            self.advice[slot(row, col, self.num_advice) as int]
        } else {
            None
        }
    }

    pub open spec fn selector_on(self, s: nat, row: nat) -> bool {
        s < self.num_selectors && row < self.n_rows && self.selectors[slot(
            row,
            s,
            self.num_selectors,
        ) as int]
    }

    pub open spec fn instance_at(self, col: nat, row: nat) -> Option<nat> {
        if col < self.instance.len() && row < self.instance[col as int].len() {
            Some(self.instance[col as int][row as int])
        } else {
            None
        }
    }

    /// The value a cell holds, if any.
    pub open spec fn cell_value(self, c: Cell) -> Option<nat> {
        match c.column.kind {
            ColumnKind::Advice => self.advice_at(c.column.index as nat, c.row as nat),
            ColumnKind::Instance => self.instance_at(c.column.index as nat, c.row as nat),
        }
    }
}

/// The grid that synthesis fills. Rows are handed to regions in order;
/// advice and selectors are stored row-major.
#[derive(Clone, Debug)]
pub struct Witness {
    pub n_rows: usize,
    pub num_advice: usize,
    pub num_selectors: usize,
    pub advice: Vec<Option<FieldElement>>,
    pub selectors: Vec<bool>,
    pub instance: Vec<Vec<FieldElement>>,
    pub copies: Vec<(Cell, Cell)>,
    pub next_row: usize,
}

pub open spec fn opt_view(o: Option<FieldElement>) -> Option<nat> {
    match o {
        Some(e) => Some(e@),
        None => None,
    }
}

/// `new` is `old` with the advice cell at (`col`, `row`) set to `v`.
pub open spec fn advice_set(old: WitnessView, new: WitnessView, col: nat, row: nat, v: nat) -> bool {
    &&& new == WitnessView { advice: new.advice, ..old }
    &&& new.advice.len() == old.advice.len()
    &&& forall|c: nat, r: nat| #[trigger]
        new.advice_at(c, r) == if c == col && r == row {
            Some(v)
        } else {
            old.advice_at(c, r)
        }
}

/// `new` is `old` with the advice cell at (`col`, `row`) set to `v` and the
/// copy constraint `link` recorded.
pub open spec fn advice_copied(old: WitnessView, new: WitnessView, col: nat, row: nat, v: nat, link: (Cell, Cell)) -> bool {
    &&& new == WitnessView { advice: new.advice, copies: old.copies.push(link), ..old }
    &&& new.advice.len() == old.advice.len()
    &&& forall|c: nat, r: nat| #[trigger]
        new.advice_at(c, r) == if c == col && r == row {
            Some(v)
        } else {
            old.advice_at(c, r)
        }
}

pub open spec fn column_view(c: Vec<FieldElement>) -> Seq<nat> {
    c@.map_values(|e: FieldElement| e@)
}

impl View for Witness {
    type V = WitnessView;

    open spec fn view(&self) -> WitnessView {
        WitnessView {
            n_rows: self.n_rows as nat,
            num_advice: self.num_advice as nat,
            num_selectors: self.num_selectors as nat,
            advice: self.advice@.map_values(|o: Option<FieldElement>| opt_view(o)),
            selectors: self.selectors@,
            instance: self.instance@.map_values(|c: Vec<FieldElement>| column_view(c)),
            copies: self.copies@,
            next_row: self.next_row as nat,
        }
    }
}

impl Witness {
    /// Every advice value and public input is a field element.
    pub open spec fn wf(&self) -> bool {
        &&& self@.wf()
        &&& forall|i: int| 0 <= i < self.advice@.len() ==> (#[trigger] self.advice@[i] matches Some(e) ==> e.wf())
        &&& forall|c: int, r: int|
            0 <= c < self.instance@.len() && 0 <= r < self.instance@[c]@.len() ==> (#[trigger] self.instance@[c]@[r]).wf()
    }

    /// An empty grid of `n_rows` rows for the columns and selectors of `cs`,
    /// with the given public inputs.
    pub fn new(cs: &ConstraintSystem, n_rows: usize, instance: Vec<Vec<FieldElement>>) -> (r: Self)
        requires
            n_rows * cs.num_advice <= usize::MAX,
            n_rows * cs.num_selectors <= usize::MAX,
            forall|c: int, r: int|
                0 <= c < instance@.len() && 0 <= r < instance@[c]@.len() ==> (#[trigger] instance@[c]@[r]).wf(),
        ensures
            r.wf(),
            r@.n_rows == n_rows,
            r@.num_advice == cs.num_advice,
            r@.num_selectors == cs.num_selectors,
            forall|c: nat, row: nat| #[trigger] r@.advice_at(c, row) == None::<nat>,
            forall|s: nat, row: nat| !#[trigger] r@.selector_on(s, row),
            r.instance == instance,
            r@.copies == Seq::<(Cell, Cell)>::empty(),
            r@.next_row == 0,
    {
        let n_advice = n_rows * cs.num_advice;
        let n_sel = n_rows * cs.num_selectors;
        let mut advice: Vec<Option<FieldElement>> = Vec::new();
        let mut i: usize = 0;
        while i < n_advice
            invariant
                i <= n_advice,
                advice@.len() == i,
                forall|j: int| 0 <= j < i ==> advice@[j] == None::<FieldElement>,
            decreases n_advice - i,
        {
            advice.push(None);
            i = i + 1;
        }
        let mut selectors: Vec<bool> = Vec::new();
        let mut i: usize = 0;
        while i < n_sel
            invariant
                i <= n_sel,
                selectors@.len() == i,
                forall|j: int| 0 <= j < i ==> !selectors@[j],
            decreases n_sel - i,
        {
            selectors.push(false);
            i = i + 1;
        }
        let w = Witness {
            n_rows,
            num_advice: cs.num_advice,
            num_selectors: cs.num_selectors,
            advice,
            selectors,
            instance,
            copies: Vec::new(),
            next_row: 0,
        };
        assert forall|c: nat, row: nat| #[trigger] w@.advice_at(c, row) == None::<nat> by {
            if c < w@.num_advice && row < w@.n_rows {
                lemma_slot_bound(row, c, w@.num_advice, w@.n_rows);
            }
        }
        assert forall|s: nat, row: nat| !#[trigger] w@.selector_on(s, row) by {
            if s < w@.num_selectors && row < w@.n_rows {
                lemma_slot_bound(row, s, w@.num_selectors, w@.n_rows);
            }
        }
        w
    }

    /// Hands the next free row to a new region.
    pub fn begin_region(&mut self) -> (r: Result<usize, SynthesisError>)
        requires
            old(self).wf(),
        ensures
            final(self).wf(),
            old(self)@.next_row < old(self)@.n_rows ==> r == Ok::<usize, SynthesisError>(
                old(self).next_row,
            ) && final(self)@ == (WitnessView { next_row: old(self)@.next_row + 1, ..old(self)@ }),
            old(self)@.next_row >= old(self)@.n_rows ==> r == Err::<usize, SynthesisError>(
                SynthesisError::NotEnoughRows,
            ) && final(self)@ == old(self)@,
            final(self).advice@ == old(self).advice@,
            final(self).instance@ == old(self).instance@,
    {
        if self.next_row < self.n_rows {
            let r = self.next_row;
            self.next_row = self.next_row + 1;
            Ok(r)
        } else {
            Err(SynthesisError::NotEnoughRows)
        }
    }

    /// Turns selector `s` on at `row`.
    pub fn enable_selector(&mut self, s: Selector, row: usize) -> (r: Result<(), SynthesisError>)
        requires
            old(self).wf(),
        ensures
            final(self).wf(),
            final(self).advice@ == old(self).advice@,
            final(self).instance@ == old(self).instance@,
            r is Ok <==> (s.index < old(self).num_selectors && row < old(self).n_rows),
            r is Err ==> r == Err::<(), SynthesisError>(SynthesisError::OutOfBounds) && final(self)@ == old(self)@,
            r is Ok ==> final(self)@ == (WitnessView { selectors: final(self)@.selectors, ..old(self)@ }),
            r is Ok ==> forall|s2: nat, r2: nat| #[trigger]
                final(self)@.selector_on(s2, r2) == ((s2 == s.index && r2 == row) || old(self)@.selector_on(s2, r2)),
    {
        if s.index < self.num_selectors && row < self.n_rows {
            proof {
                lemma_slot_bound(row as nat, s.index as nat, self.num_selectors as nat, self.n_rows as nat);
                assert(self.selectors@.len() == self.selectors.len());
            }
            let i = row * self.num_selectors + s.index;
            let ghost before = self@;
            self.selectors.set(i, true);
            assert forall|s2: nat, r2: nat| #[trigger]
                self@.selector_on(s2, r2) == ((s2 == s.index && r2 == row) || before.selector_on(s2, r2)) by {
                if s2 < self@.num_selectors && r2 < self@.n_rows {
                    lemma_slot_bound(r2, s2, self@.num_selectors, self@.n_rows);
                    if slot(r2, s2, self@.num_selectors) == i {
                        lemma_slot_unique(r2, s2, row as nat, s.index as nat, self@.num_selectors);
                    }
                }
            }
            Ok(())
        } else {
            Err(SynthesisError::OutOfBounds)
        }
    }
    /// Writes `v` into the advice cell (`col`, `row`).
    pub fn assign_advice(&mut self, col: Column, row: usize, v: FieldElement) -> (r: Result<AssignedCell, SynthesisError>)
        requires
            old(self).wf(),
            v.wf(),
        ensures
            final(self).wf(),
            final(self).instance@ == old(self).instance@,
            r is Ok <==> (col.kind == ColumnKind::Advice && col.index < old(self).num_advice && row < old(self).n_rows),
            r is Err ==> r == Err::<AssignedCell, SynthesisError>(SynthesisError::OutOfBounds) && final(self)@ == old(self)@,
            r matches Ok(c) ==> c.cell == (Cell { column: col, row }) && c.value == v
                && advice_set(old(self)@, final(self)@, col.index as nat, row as nat, v@),
    {
        if col.kind == ColumnKind::Advice && col.index < self.num_advice && row < self.n_rows {
            proof {
                lemma_slot_bound(row as nat, col.index as nat, self.num_advice as nat, self.n_rows as nat);
                assert(self.advice@.len() == self.advice.len());
            }
            let i = row * self.num_advice + col.index;
            let ghost before = self@;
            let ghost before_advice = self.advice@;
            self.advice.set(i, Some(v));
            assert forall|c: nat, r2: nat| #[trigger]
                self@.advice_at(c, r2) == if c == col.index && r2 == row {
                    Some(v@)
                } else {
                    before.advice_at(c, r2)
                } by {
                if c < self@.num_advice && r2 < self@.n_rows {
                    lemma_slot_bound(r2, c, self@.num_advice, self@.n_rows);
                    if slot(r2, c, self@.num_advice) == i {
                        lemma_slot_unique(r2, c, row as nat, col.index as nat, self@.num_advice);
                    }
                }
            }
            assert forall|j: int| 0 <= j < self.advice@.len() implies (#[trigger] self.advice@[j] matches Some(e) ==> e.wf()) by {
                if j != i {
                    assert(self.advice@[j] == before_advice[j]);
                }
            }
            Ok(AssignedCell { cell: Cell { column: col, row }, value: v })
        } else {
            Err(SynthesisError::OutOfBounds)
        }
    }

    /// Copies the public input at (`inst`, `inst_row`) into the advice cell
    /// (`col`, `row`) and records that the two cells are equal.
    pub fn assign_advice_from_instance(&mut self, inst: Column, inst_row: usize, col: Column, row: usize) -> (r: Result<
        AssignedCell,
        SynthesisError,
    >)
        requires
            old(self).wf(),
        ensures
            final(self).wf(),
            final(self).instance@ == old(self).instance@,
            r is Ok <==> (inst.kind == ColumnKind::Instance && old(self)@.instance_at(inst.index as nat, inst_row as nat) is Some
                && col.kind == ColumnKind::Advice && col.index < old(self).num_advice && row < old(self).n_rows),
            r is Err ==> final(self)@ == old(self)@,
            r is Err && !(inst.kind == ColumnKind::Instance && old(self)@.instance_at(inst.index as nat, inst_row as nat) is Some)
                ==> r == Err::<AssignedCell, SynthesisError>(SynthesisError::MissingInstance),
            r matches Ok(c) ==> {
                &&& c.cell == (Cell { column: col, row })
                &&& Some(c.value@) == old(self)@.instance_at(inst.index as nat, inst_row as nat)
                &&& c.value.wf()
                &&& advice_copied(old(self)@, final(self)@, col.index as nat, row as nat, c.value@,
                    (Cell { column: inst, row: inst_row }, c.cell))
            },
    {
        if inst.kind != ColumnKind::Instance || inst.index >= self.instance.len() || inst_row >= self.instance[inst.index].len() {
            return Err(SynthesisError::MissingInstance);
        }
        let v = self.instance[inst.index][inst_row];
        assert(column_view(self.instance@[inst.index as int])[inst_row as int] == v@);
        let c = self.assign_advice(col, row, v);
        match c {
            Ok(c) => {
                let ghost mid = self@;
                self.copies.push((Cell { column: inst, row: inst_row }, c.cell));
                assert(forall|c2: nat, r2: nat| #[trigger] self@.advice_at(c2, r2) == mid.advice_at(c2, r2));
                Ok(c)
            },
            Err(e) => Err(e),
        }
    }

    /// Writes the value of `from` into the advice cell (`col`, `row`) and
    /// records that the two cells are equal.
    pub fn copy_advice(&mut self, from: &AssignedCell, col: Column, row: usize) -> (r: Result<AssignedCell, SynthesisError>)
        requires
            old(self).wf(),
            from.value.wf(),
        ensures
            final(self).wf(),
            final(self).instance@ == old(self).instance@,
            r is Ok <==> (col.kind == ColumnKind::Advice && col.index < old(self).num_advice && row < old(self).n_rows),
            r is Err ==> r == Err::<AssignedCell, SynthesisError>(SynthesisError::OutOfBounds) && final(self)@ == old(self)@,
            r matches Ok(c) ==> {
                &&& c.cell == (Cell { column: col, row })
                &&& c.value == from.value
                &&& advice_copied(old(self)@, final(self)@, col.index as nat, row as nat, from.value@, (from.cell, c.cell))
            },
    {
        let c = self.assign_advice(col, row, from.value);
        match c {
            Ok(c) => {
                let ghost mid = self@;
                self.copies.push((from.cell, c.cell));
                assert(forall|c2: nat, r2: nat| #[trigger] self@.advice_at(c2, r2) == mid.advice_at(c2, r2));
                Ok(c)
            },
            Err(e) => Err(e),
        }
    }

    /// Records that `cell` equals the public input at (`inst`, `row`).
    pub fn constrain_instance(&mut self, cell: Cell, inst: Column, row: usize) -> (r: Result<(), SynthesisError>)
        requires
            old(self).wf(),
        ensures
            final(self).wf(),
            final(self).advice@ == old(self).advice@,
            final(self).instance@ == old(self).instance@,
            r is Ok <==> inst.kind == ColumnKind::Instance,
            r is Err ==> r == Err::<(), SynthesisError>(SynthesisError::OutOfBounds) && final(self)@ == old(self)@,
            r is Ok ==> final(self)@ == (WitnessView {
                copies: old(self)@.copies.push((cell, Cell { column: inst, row })),
                ..old(self)@
            }),
    {
        if inst.kind == ColumnKind::Instance {
            self.copies.push((cell, Cell { column: inst, row }));
            Ok(())
        } else {
            Err(SynthesisError::OutOfBounds)
        }
    }
}

} // verus!
