//! What a circuit declares before any value is assigned: its columns, its selectors and
//! the identities that the selectors guard.

use vstd::prelude::*;
use vstd::arithmetic::div_mod::lemma_mod_equivalence;
use vstd::arithmetic::div_mod::lemma_small_mod;
use crate::field::Field;
use crate::table::Column;
use crate::table::ColumnKind;
use crate::table::Selector;
use crate::table::TableView;
use crate::table::Witness;

verus! {

/// Why a declaration was refused.
#[derive(Clone, Copy, Debug, PartialEq, Eq, Structural)]
pub enum ConfigurationError {
    /// No number is left for another column of that kind.
    TooManyColumns,
    /// An identity names a column or a selector that was not declared.
    UnknownColumn,
    /// An identity names a selector that already guards an identity.
    SelectorInUse,
    /// The table would have more rows than the machine can address.
    TooManyRows,
}

/// Why an assignment was refused.
#[derive(Clone, Copy, Debug, PartialEq, Eq, Structural)]
pub enum AssignmentError {
    /// The column is not an advice column of the table, or the selector not one of its
    /// selectors.
    UnknownColumn,
    /// The row lies outside the rows that the region may use.
    RowOutOfBounds,
    /// The cell already holds another value.
    Conflict,
}

/// A circuit that is malformed: no table is built from it.
#[derive(Clone, Copy, Debug, PartialEq, Eq, Structural)]
pub enum Error {
    Configuration(ConfigurationError),
    Assignment(AssignmentError),
}

/// The identities that a gate can check. Each reads three cells of one advice column:
/// `w0` in the row where the selector is enabled, `w1` and `w2` in the two rows below.
#[derive(Clone, Copy, Debug, PartialEq, Eq, Structural)]
pub enum GateKind {
    /// `w2 - w0 * w1 = 0`
    Mul,
    /// `w2 - w0 - w1 = 0`
    Add,
}

impl GateKind {
    /// The identity's polynomial, over the integers.
    pub open spec fn polynomial(self, w0: int, w1: int, w2: int) -> int {
        match self {
            GateKind::Mul => w2 - w0 * w1,
            GateKind::Add => w2 - w0 - w1,
        }
    }

    /// Whether the identity holds of three residues: its polynomial is zero modulo
    /// `modulus`.
    pub open spec fn holds(self, w0: nat, w1: nat, w2: nat, modulus: nat) -> bool {
        self.polynomial(w0 as int, w1 as int, w2 as int) % (modulus as int) == 0
    }

    /// The residue that a gate of this kind computes from its two inputs.
    pub open spec fn output(self, w0: nat, w1: nat, modulus: nat) -> nat {
        match self {
            GateKind::Mul => (w0 * w1) % modulus,
            GateKind::Add => (w0 + w1) % modulus,
        }
    }

    /// The name of the identity in reports.
    pub open spec fn spec_label(self) -> Seq<char> {
        match self {
            GateKind::Mul => "mul"@,
            GateKind::Add => "add"@,
        }
    }

    /// Among the residues below the modulus, the identity holds of exactly one third
    /// witness: the output.
    pub proof fn lemma_holds_iff_output(self, w0: nat, w1: nat, w2: nat, modulus: nat)
        requires
            w2 < modulus,
        ensures
            self.holds(w0, w1, w2, modulus) <==> w2 == self.output(w0, w1, modulus),
    {
        let m = modulus as int;
        let x: int = match self {
            GateKind::Mul => (w0 * w1) as int,
            GateKind::Add => (w0 + w1) as int,
        };
        assert(self.polynomial(w0 as int, w1 as int, w2 as int) == w2 - x);
        lemma_mod_equivalence(w2 as int, x, m);
        lemma_small_mod(w2, modulus);
    }

    /// The name of the identity in reports.
    pub fn label(&self) -> (s: &'static str)
        ensures
            s@ == self.spec_label(),
    {
        match self {
            GateKind::Mul => "mul",
            GateKind::Add => "add",
        }
    }

    /// Computes the output from the two inputs.
    pub fn apply<F: Field>(&self, w0: &F, w1: &F) -> (r: F)
        ensures
            r.value() == self.output(w0.value(), w1.value(), F::modulus()),
    {
        match self {
            GateKind::Mul => w0.mul(w1),
            GateKind::Add => w0.add(w1),
        }
    }

    /// Decides whether the identity holds of three elements.
    pub fn check<F: Field>(&self, w0: &F, w1: &F, w2: &F) -> (ok: bool)
        ensures
            ok == self.holds(w0.value(), w1.value(), w2.value(), F::modulus()),
    {
        proof {
            w2.lemma_value_reduced();
            self.lemma_holds_iff_output(w0.value(), w1.value(), w2.value(), F::modulus());
        }
        let expected = self.apply(w0, w1);
        expected.equals(w2)
    }
}

/// An identity, the selector that guards it and the advice column that it reads.
#[derive(Clone, Copy, Debug, PartialEq, Eq, Structural)]
pub struct Gate {
    pub kind: GateKind,
    pub selector: Selector,
    pub advice: Column,
}

/// What the verification of a table reports: the first row, and in it the first identity, that
/// is enabled and not satisfied.
#[derive(Clone, Copy, Debug, PartialEq, Eq, Structural)]
pub enum VerifyFailure {
    /// All three cells hold known values, and the identity is not zero on them.
    ConstraintViolation { row: usize, gate_index: usize, gate: GateKind },
    /// A cell that the identity reads is unassigned, or holds a value that is not known.
    MissingWitness { row: usize, gate_index: usize, gate: GateKind },
}

impl VerifyFailure {
    /// The row in which the selector of the failed identity is enabled.
    pub fn row(&self) -> (r: usize)
        ensures
            r == match *self {
                VerifyFailure::ConstraintViolation { row, .. } => row,
                VerifyFailure::MissingWitness { row, .. } => row,
            },
    {
        match self {
            VerifyFailure::ConstraintViolation { row, .. } => *row,
            VerifyFailure::MissingWitness { row, .. } => *row,
        }
    }

    /// The name of the failed identity.
    pub fn gate_label(&self) -> (s: &'static str)
        ensures
            s@ == match *self {
                VerifyFailure::ConstraintViolation { gate, .. } => gate.spec_label(),
                VerifyFailure::MissingWitness { gate, .. } => gate.spec_label(),
            },
    {
        match self {
            VerifyFailure::ConstraintViolation { gate, .. } => gate.label(),
            VerifyFailure::MissingWitness { gate, .. } => gate.label(),
        }
    }
}

impl Gate {
    /// Whether the identity is checked in row `row` of `t`: its selector is enabled
    /// there.
    pub open spec fn active(self, t: TableView, row: int) -> bool {
        t.enabled(self.selector.index as int, row)
    }

    /// The cell that the identity reads `k` rows below row `row`.
    pub open spec fn witness(self, t: TableView, row: int, k: int) -> Witness {
        t.cell(self.advice.index as int, row + k)
    }

    /// Whether all three cells that the identity reads from row `row` hold known values
    /// and the identity is zero on them.
    pub open spec fn holds_at(self, t: TableView, row: int, modulus: nat) -> bool {
        match (self.witness(t, row, 0), self.witness(t, row, 1), self.witness(t, row, 2)) {
            (Witness::Known(w0), Witness::Known(w1), Witness::Known(w2)) => self.kind.holds(
                w0,
                w1,
                w2,
                modulus,
            ),
            _ => false,
        }
    }

    /// Whether one of the three cells that the identity reads from row `row` holds no
    /// known value.
    pub open spec fn lacks_witness(self, t: TableView, row: int) -> bool {
        !(self.witness(t, row, 0) is Known && self.witness(t, row, 1) is Known && self.witness(
            t,
            row,
            2,
        ) is Known)
    }

    /// What verifying this identity, declared as number `gate_index`, finds in row
    /// `row`: nothing where the selector is not enabled or the identity holds; a missing
    /// witness where a cell holds no known value, whatever the other cells hold; a
    /// violation otherwise.
    pub open spec fn finding(self, t: TableView, row: int, gate_index: int, modulus: nat) -> Option<
        VerifyFailure,
    > {
        if !self.active(t, row) {
            None
        } else if self.lacks_witness(t, row) {
            Some(
                VerifyFailure::MissingWitness {
                    row: row as usize,
                    gate_index: gate_index as usize,
                    gate: self.kind,
                },
            )
        } else if !self.holds_at(t, row, modulus) {
            Some(
                VerifyFailure::ConstraintViolation {
                    row: row as usize,
                    gate_index: gate_index as usize,
                    gate: self.kind,
                },
            )
        } else {
            None
        }
    }
}

/// A constraint system as mathematics.
#[verifier::ext_equal]
pub struct ConstraintSystemView {
    pub num_advice: nat,
    pub num_selectors: nat,
    pub gates: Seq<Gate>,
}

impl ConstraintSystemView {
    /// Nothing is declared.
    pub open spec fn empty() -> ConstraintSystemView {
        ConstraintSystemView { num_advice: 0, num_selectors: 0, gates: Seq::empty() }
    }

    /// Whether some identity is guarded by `selector`.
    pub open spec fn guards(self, selector: Selector) -> bool {
        exists|i: int| 0 <= i < self.gates.len() && (#[trigger] self.gates[i]).selector == selector
    }

    /// Whether `column` is an advice column that was declared.
    pub open spec fn has_advice(self, column: Column) -> bool {
        column.kind == ColumnKind::Advice && column.index < self.num_advice
    }

    /// Whether `selector` was declared.
    pub open spec fn has_selector(self, selector: Selector) -> bool {
        selector.index < self.num_selectors
    }

    /// Every identity reads a declared advice column and is guarded by a declared
    /// selector, and no selector guards two identities.
    pub open spec fn wf(self) -> bool {
        &&& forall|i: int|
            0 <= i < self.gates.len() ==> self.has_advice((#[trigger] self.gates[i]).advice)
                && self.has_selector(self.gates[i].selector)
        &&& forall|i: int, j: int|
            0 <= i < j < self.gates.len() ==> (#[trigger] self.gates[i]).selector != (
            #[trigger] self.gates[j]).selector
    }
}

/// The columns, selectors and identities of a circuit.
pub struct ConstraintSystem {
    num_advice: usize,
    num_selectors: usize,
    gates: Vec<Gate>,
}

impl View for ConstraintSystem {
    type V = ConstraintSystemView;

    closed spec fn view(&self) -> ConstraintSystemView {
        ConstraintSystemView {
            num_advice: self.num_advice as nat,
            num_selectors: self.num_selectors as nat,
            gates: self.gates@,
        }
    }
}

impl ConstraintSystem {
    /// The numbers of columns, selectors and identities are numbers of the machine.
    pub proof fn lemma_view_bounded(self)
        ensures
            self@.num_advice <= usize::MAX,
            self@.num_selectors <= usize::MAX,
            self@.gates.len() <= usize::MAX,
    {
        assert(self.gates.len() == self.gates@.len());
    }

    /// A constraint system in which nothing is declared.
    pub fn new() -> (cs: Self)
        ensures
            cs@ == ConstraintSystemView::empty(),
    {
        ConstraintSystem { num_advice: 0, num_selectors: 0, gates: Vec::new() }
    }

    /// The number of advice columns declared.
    pub fn num_advice_columns(&self) -> (n: usize)
        ensures
            n == self@.num_advice,
    {
        self.num_advice
    }

    /// The number of selectors declared.
    pub fn num_selectors(&self) -> (n: usize)
        ensures
            n == self@.num_selectors,
    {
        self.num_selectors
    }

    /// The number of identities declared.
    pub fn num_gates(&self) -> (n: usize)
        ensures
            n == self@.gates.len(),
    {
        self.gates.len()
    }

    /// The identities declared, in the order of their declaration.
    pub fn gates(&self) -> (g: &Vec<Gate>)
        ensures
            g@ == self@.gates,
    {
        &self.gates
    }

    /// Declares a new advice column. Fails with `TooManyColumns`, and declares nothing,
    /// only where every number is taken.
    pub fn advice_column(&mut self) -> (r: Result<Column, Error>)
        ensures
            old(self)@.num_advice < usize::MAX ==> r == Ok::<Column, Error>(
                Column { kind: ColumnKind::Advice, index: old(self)@.num_advice as usize },
            ) && final(self)@ == (ConstraintSystemView {
                num_advice: old(self)@.num_advice + 1,
                ..old(self)@
            }),
            old(self)@.num_advice >= usize::MAX ==> r == Err::<Column, Error>(
                Error::Configuration(ConfigurationError::TooManyColumns),
            ) && final(self)@ == old(self)@,
    {
        if self.num_advice == usize::MAX {
            return Err(Error::Configuration(ConfigurationError::TooManyColumns));
        }
        let column = Column { kind: ColumnKind::Advice, index: self.num_advice };
        self.num_advice = self.num_advice + 1;
        Ok(column)
    }

    /// Declares a new selector. Fails with `TooManyColumns`, and declares nothing, only
    /// where every number is taken.
    pub fn selector(&mut self) -> (r: Result<Selector, Error>)
        ensures
            old(self)@.num_selectors < usize::MAX ==> r == Ok::<Selector, Error>(
                Selector { index: old(self)@.num_selectors as usize },
            ) && final(self)@ == (ConstraintSystemView {
                num_selectors: old(self)@.num_selectors + 1,
                ..old(self)@
            }),
            old(self)@.num_selectors >= usize::MAX ==> r == Err::<Selector, Error>(
                Error::Configuration(ConfigurationError::TooManyColumns),
            ) && final(self)@ == old(self)@,
    {
        if self.num_selectors == usize::MAX {
            return Err(Error::Configuration(ConfigurationError::TooManyColumns));
        }
        let selector = Selector { index: self.num_selectors };
        self.num_selectors = self.num_selectors + 1;
        Ok(selector)
    }

    /// What `create_gate` answers for a declaration.
    pub open spec fn gate_verdict(cs: ConstraintSystemView, selector: Selector, advice: Column) -> Result<
        (),
        Error,
    > {
        if !cs.has_advice(advice) || !cs.has_selector(selector) {
            Err(Error::Configuration(ConfigurationError::UnknownColumn))
        } else if cs.guards(selector) {
            Err(Error::Configuration(ConfigurationError::SelectorInUse))
        } else {
            Ok(())
        }
    }

    /// Declares that wherever `selector` is enabled, the identity `kind` is checked on
    /// the cells of `advice` in that row and the two rows below it.
    ///
    /// Fails with `UnknownColumn` where the column or the selector was not declared, and
    /// with `SelectorInUse` where the selector already guards an identity; nothing is
    /// declared then.
    pub fn create_gate(&mut self, kind: GateKind, selector: Selector, advice: Column) -> (r: Result<
        (),
        Error,
    >)
        ensures
            r == Self::gate_verdict(old(self)@, selector, advice),
            r is Ok ==> final(self)@ == (ConstraintSystemView {
                gates: old(self)@.gates.push(Gate { kind, selector, advice }),
                ..old(self)@
            }),
            r is Err ==> final(self)@ == old(self)@,
            old(self)@.wf() ==> final(self)@.wf(),
    {
        if advice.kind != ColumnKind::Advice || advice.index >= self.num_advice || selector.index
            >= self.num_selectors {
            return Err(Error::Configuration(ConfigurationError::UnknownColumn));
        }
        let mut i: usize = 0;
        while i < self.gates.len()
            invariant
                i <= self.gates@.len(),
                *self == *old(self),
                self@.has_advice(advice),
                self@.has_selector(selector),
                forall|j: int| 0 <= j < i ==> (#[trigger] self.gates@[j]).selector != selector,
            decreases self.gates@.len() - i,
        {
            if self.gates[i].selector == selector {
                return Err(Error::Configuration(ConfigurationError::SelectorInUse));
            }
            i = i + 1;
        }
        self.gates.push(Gate { kind, selector, advice });
        Ok(())
    }
}

} // verus!
