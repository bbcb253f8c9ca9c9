//! The constraint-system model: columns, selectors, the addition gate,
//! equality-enabled columns, and the witness grid with its copy constraints.
use vstd::prelude::*;

verus! {

#[derive(Clone, Copy, Debug, PartialEq, Eq, Structural)]
pub enum ColumnKind {
    /// Witness-only values.
    Advice,
    /// Public inputs.
    Instance,
}

#[derive(Clone, Copy, Debug, PartialEq, Eq, Structural)]
pub struct Column {
    pub kind: ColumnKind,
    pub index: usize,
}

#[derive(Clone, Copy, Debug, PartialEq, Eq, Structural)]
pub struct Selector {
    pub index: usize,
}

/// One cell of the grid: a column and a row.
#[derive(Clone, Copy, Debug, PartialEq, Eq, Structural)]
pub struct Cell {
    pub column: Column,
    pub row: usize,
}

/// The relation `selector * (lhs + rhs - out) = 0` over the cells of one row.
#[derive(Clone, Copy, Debug, PartialEq, Eq, Structural)]
pub struct AddGate {
    pub selector: Selector,
    pub lhs: Column,
    pub rhs: Column,
    pub out: Column,
}

/// The shape of a circuit: how many columns of each kind and selectors it
/// has, which columns take part in copy constraints, and its gates.
#[derive(Clone, Debug)]
pub struct ConstraintSystem {
    pub num_advice: usize,
    pub num_instance: usize,
    pub num_selectors: usize,
    pub equality: Vec<Column>,
    pub gates: Vec<AddGate>,
}

impl ConstraintSystem {
    pub open spec fn equality_enabled(&self, c: Column) -> bool {
        self.equality@.contains(c)
    }

    pub fn new() -> (r: Self)
        ensures
            r.num_advice == 0,
            r.num_instance == 0,
            r.num_selectors == 0,
            r.equality@ == Seq::<Column>::empty(),
            r.gates@ == Seq::<AddGate>::empty(),
    {
        ConstraintSystem {
            num_advice: 0,
            num_instance: 0,
            num_selectors: 0,
            equality: Vec::new(),
            gates: Vec::new(),
        }
    }

    pub fn advice_column(&mut self) -> (c: Column)
        requires
            old(self).num_advice < usize::MAX,
        ensures
            c == (Column { kind: ColumnKind::Advice, index: old(self).num_advice }),
            *final(self) == (ConstraintSystem { num_advice: (old(self).num_advice + 1) as usize, ..*old(self) }),
    {
        let c = Column { kind: ColumnKind::Advice, index: self.num_advice };
        self.num_advice = self.num_advice + 1;
        c
    }

    pub fn instance_column(&mut self) -> (c: Column)
        requires
            old(self).num_instance < usize::MAX,
        ensures
            c == (Column { kind: ColumnKind::Instance, index: old(self).num_instance }),
            *final(self) == (ConstraintSystem { num_instance: (old(self).num_instance + 1) as usize, ..*old(self) }),
    {
        let c = Column { kind: ColumnKind::Instance, index: self.num_instance };
        self.num_instance = self.num_instance + 1;
        c
    }

    pub fn selector(&mut self) -> (s: Selector)
        requires
            old(self).num_selectors < usize::MAX,
        ensures
            s == (Selector { index: old(self).num_selectors }),
            *final(self) == (ConstraintSystem { num_selectors: (old(self).num_selectors + 1) as usize, ..*old(self) }),
    {
        let s = Selector { index: self.num_selectors };
        self.num_selectors = self.num_selectors + 1;
        s
    }

    /// Lets the column take part in copy constraints.
    pub fn enable_equality(&mut self, c: Column)
        ensures
            final(self).equality@ == old(self).equality@.push(c),
            final(self).num_advice == old(self).num_advice,
            final(self).num_instance == old(self).num_instance,
            final(self).num_selectors == old(self).num_selectors,
            final(self).gates@ == old(self).gates@,
    {
        self.equality.push(c);
    }

    pub fn create_gate(&mut self, g: AddGate)
        ensures
            final(self).gates@ == old(self).gates@.push(g),
            final(self).num_advice == old(self).num_advice,
            final(self).num_instance == old(self).num_instance,
            final(self).num_selectors == old(self).num_selectors,
            final(self).equality@ == old(self).equality@,
    {
        self.gates.push(g);
    }
}

} // verus!
