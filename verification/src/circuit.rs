//! Circuits, and the circuit of this crate: one advice column with a multiplication gate
//! and an addition gate.

use vstd::prelude::*;
use std::marker::PhantomData;
use crate::constraint::AssignmentError;
use crate::constraint::ConfigurationError;
use crate::constraint::ConstraintSystem;
use crate::constraint::ConstraintSystemView;
use crate::constraint::Error;
use crate::constraint::Gate;
use crate::constraint::GateKind;
use crate::field::Field;
use crate::layout::AssignedCell;
use crate::layout::AssignedCellView;
use crate::layout::Cell;
use crate::layout::Layouter;
use crate::layout::LayouterView;
use crate::layout::Region;
use crate::layout::RegionView;
use crate::table::assigned;
use crate::table::Column;
use crate::table::ColumnKind;
use crate::table::Selector;
use crate::table::Value;

verus! {

/// A circuit: what it declares, and how it fills a table.
pub trait Circuit<F: Field>: Sized {
    /// What `configure` hands to `synthesize`: the columns and selectors declared.
    type Config;

    /// What `configure` does to a constraint system, and what it returns.
    spec fn configures(
        before: ConstraintSystemView,
        after: ConstraintSystemView,
        r: Result<Self::Config, Error>,
    ) -> bool;

    /// What `synthesize` does to a layouter, and what it returns.
    spec fn synthesizes(
        &self,
        config: Self::Config,
        before: LayouterView,
        after: LayouterView,
        r: Result<(), Error>,
    ) -> bool;

    /// The same circuit with every witness unknown: its shape. Where both the circuit
    /// and its shape can be laid out in an empty table, they use the same rows, assign
    /// the same cells and enable the same selectors, and the shape assigns no known
    /// value.
    fn without_witnesses(&self) -> (shape: Self)
        ensures
            forall|
                config: Self::Config,
                empty: LayouterView,
                full: LayouterView,
                bare: LayouterView,
            |
                #![trigger self.synthesizes(config, empty, full, Ok(())), shape.synthesizes(config, empty, bare, Ok(()))]
                empty == LayouterView::empty(
                    empty.table.rows,
                    empty.table.advice.len(),
                    empty.table.selectors.len(),
                ) && self.synthesizes(config, empty, full, Ok(())) && shape.synthesizes(
                    config,
                    empty,
                    bare,
                    Ok(()),
                ) ==> bare.cursor == full.cursor && bare.table.is_shape_of(full.table),
    ;

    /// Declares the columns, the selectors and the identities of the circuit. It reads
    /// no witness.
    fn configure(meta: &mut ConstraintSystem) -> (r: Result<Self::Config, Error>)
        requires
            old(meta)@.wf(),
        ensures
            final(meta)@.wf(),
            Self::configures(old(meta)@, final(meta)@, r),
    ;

    /// Lays out the regions of the circuit. The table keeps its size.
    fn synthesize(&self, config: Self::Config, layouter: &mut Layouter<F>) -> (r: Result<(), Error>)
        requires
            old(layouter).wf(),
        ensures
            final(layouter).wf(),
            final(layouter)@.table.rows == old(layouter)@.table.rows,
            final(layouter)@.table.advice.len() == old(layouter)@.table.advice.len(),
            final(layouter)@.table.selectors.len() == old(layouter)@.table.selectors.len(),
            self.synthesizes(config, old(layouter)@, final(layouter)@, r),
    ;
}

/// A circuit with a multiplication gate and an addition gate that lays out nothing by
/// itself; the gates are there for its callers to compose.
#[derive(Debug)]
pub struct TestCircuit<F: Field> {
    _ph: PhantomData<F>,
}

impl<F: Field> Copy for TestCircuit<F> {

}

impl<F: Field> Clone for TestCircuit<F> {
    fn clone(&self) -> (r: Self)
        ensures
            r == *self,
    {
        *self
    }
}

/// The column and the selectors that [`TestCircuit`] declares.
#[derive(Clone, Copy, Debug, PartialEq, Eq, Structural)]
pub struct TestConfig {
    pub advice: Column,
    pub q_mul: Selector,
    pub q_add: Selector,
}

impl TestConfig {
    /// The identity that the multiplication selector guards.
    pub open spec fn mul_gate(self) -> Gate {
        Gate { kind: GateKind::Mul, selector: self.q_mul, advice: self.advice }
    }

    /// The identity that the addition selector guards.
    pub open spec fn add_gate(self) -> Gate {
        Gate { kind: GateKind::Add, selector: self.q_add, advice: self.advice }
    }
}

/// The value that a gate assigns to its output cell: its output where both inputs
/// are known, unknown otherwise.
pub open spec fn gate_value(kind: GateKind, lhs: Option<nat>, rhs: Option<nat>, modulus: nat) -> Option<
    nat,
> {
    match (lhs, rhs) {
        (Some(a), Some(b)) => Some(kind.output(a, b, modulus)),
        _ => None,
    }
}

/// The region that a gate fills: the two inputs in rows 0 and 1 of the advice column,
/// the output in row 2, and its selector enabled in row 0.
pub open spec fn gate_region(
    fresh: RegionView,
    kind: GateKind,
    advice: Column,
    selector: Selector,
    lhs: Option<nat>,
    rhs: Option<nat>,
    modulus: nat,
) -> RegionView {
    fresh.with_advice(advice, 0, lhs).with_advice(advice, 1, rhs).with_advice(
        advice,
        2,
        gate_value(kind, lhs, rhs, modulus),
    ).with_selector(selector, 0)
}

/// Whether a gate can be laid out, and if not, why: the advice column and the selector
/// must be part of the table, and three rows must be left.
pub open spec fn gate_verdict(l: LayouterView, advice: Column, selector: Selector) -> Result<(), Error> {
    if !(advice.kind == ColumnKind::Advice && advice.index < l.table.advice.len()) {
        Err(Error::Assignment(AssignmentError::UnknownColumn))
    } else if l.cursor + 3 > l.table.rows {
        Err(Error::Assignment(AssignmentError::RowOutOfBounds))
    } else if selector.index >= l.table.selectors.len() {
        Err(Error::Assignment(AssignmentError::UnknownColumn))
    } else {
        Ok(())
    }
}

/// The layouter after a gate was laid out.
pub open spec fn gate_placed(
    l: LayouterView,
    kind: GateKind,
    advice: Column,
    selector: Selector,
    lhs: Option<nat>,
    rhs: Option<nat>,
    modulus: nat,
) -> LayouterView {
    l.commit(
        gate_region(l.fresh_region(), kind, advice, selector, lhs, rhs, modulus),
        kind.spec_label(),
    )
}

/// The cell that a gate returns: its output cell, two rows below the first row of its
/// region.
pub open spec fn gate_cell(
    l: LayouterView,
    kind: GateKind,
    advice: Column,
    lhs: Option<nat>,
    rhs: Option<nat>,
    modulus: nat,
) -> AssignedCellView {
    AssignedCellView {
        value: gate_value(kind, lhs, rhs, modulus),
        cell: Cell { column: advice, row: (l.cursor + 2) as usize },
    }
}

/// Lays out one gate in a region of its own.
fn lay_gate<F: Field>(
    kind: GateKind,
    advice: Column,
    selector: Selector,
    layouter: &mut Layouter<F>,
    lhs: AssignedCell<F>,
    rhs: AssignedCell<F>,
) -> (r: Result<AssignedCell<F>, Error>)
    requires
        old(layouter).wf(),
    ensures
        final(layouter).wf(),
        r is Ok <==> gate_verdict(old(layouter)@, advice, selector) is Ok,
        r matches Ok(out) ==> out@ == gate_cell(
            old(layouter)@,
            kind,
            advice,
            lhs@.value,
            rhs@.value,
            F::modulus(),
        ) && final(layouter)@ == gate_placed(
            old(layouter)@,
            kind,
            advice,
            selector,
            lhs@.value,
            rhs@.value,
            F::modulus(),
        ),
        r matches Err(e) ==> Err::<(), Error>(e) == gate_verdict(old(layouter)@, advice, selector)
            && final(layouter)@ == old(layouter)@,
{
    let v0 = lhs.value();
    let v1 = rhs.value();
    let ghost before = layouter@;
    let ghost fresh = layouter@.fresh_region();
    let label = kind.label();
    proof {
        layouter.lemma_view_wf();
    }
    let body = |region: Region<F>| -> (out: Result<(Region<F>, AssignedCell<F>), Error>)
        requires
            region.wf(),
            region@ == fresh,
        ensures
            out is Ok <==> gate_verdict(before, advice, selector) is Ok,
            out matches Ok((done, cell)) ==> done.wf() && done@ == gate_region(
                fresh,
                kind,
                advice,
                selector,
                v0@,
                v1@,
                F::modulus(),
            ) && cell@ == gate_cell(before, kind, advice, v0@, v1@, F::modulus()),
            out matches Err(e) ==> Err::<(), Error>(e) == gate_verdict(before, advice, selector),
        {
            let mut region = region;
            let v2 = match (v0, v1) {
                (Value::Known(a), Value::Known(b)) => Value::known(kind.apply(&a, &b)),
                _ => Value::unknown(),
            };
            proof {
                region.lemma_view_wf();
            }
            let to0 = || -> (v: Value<F>)
                ensures
                    v == v0,
                { v0 };
            let w0 = region.assign_advice("assign w0", advice, 0, to0)?;
            let to1 = || -> (v: Value<F>)
                ensures
                    v == v1,
                { v1 };
            let w1 = region.assign_advice("assign w1", advice, 1, to1)?;
            let to2 = || -> (v: Value<F>)
                ensures
                    v == v2,
                { v2 };
            let w2 = region.assign_advice("assign w2", advice, 2, to2)?;
            // switch the identity on
            region.enable_selector(selector, 0)?;
            Ok((region, w2))
        };
    layouter.assign_region(label, body)
}

/// What laying out a gate does to a table: its three cells and its selector stand
/// in the three rows from the cursor on, nothing else has changed, and where both inputs
/// are known its identity holds in its row.
pub proof fn lemma_gate_placed(
    l: LayouterView,
    kind: GateKind,
    advice: Column,
    selector: Selector,
    lhs: Option<nat>,
    rhs: Option<nat>,
    modulus: nat,
)
    requires
        l.wf(),
        gate_verdict(l, advice, selector) is Ok,
        0 < modulus,
    ensures
        ({
            let placed = gate_placed(l, kind, advice, selector, lhs, rhs, modulus);
            let gate = Gate { kind, selector, advice };
            let c = advice.index as int;
            let row = l.cursor as int;
            &&& placed.wf()
            &&& placed.cursor == l.cursor + 3
            &&& placed.table.rows == l.table.rows
            &&& placed.table.advice.len() == l.table.advice.len()
            &&& placed.table.selectors.len() == l.table.selectors.len()
            &&& placed.table.cell(c, row) == assigned(lhs)
            &&& placed.table.cell(c, row + 1) == assigned(rhs)
            &&& placed.table.cell(c, row + 2) == assigned(gate_value(kind, lhs, rhs, modulus))
            &&& forall|c2: int, r2: int|
                !(c2 == c && row <= r2 < row + 3) ==> #[trigger] placed.table.cell(c2, r2)
                    == l.table.cell(c2, r2)
            &&& forall|s2: int, r2: int| #[trigger]
                placed.table.enabled(s2, r2) == (l.table.enabled(s2, r2) || (s2 == selector.index
                    && r2 == row))
            &&& gate.active(placed.table, row)
            &&& lhs is Some && rhs is Some ==> gate.holds_at(placed.table, row, modulus)
        }),
{
    let placed = gate_placed(l, kind, advice, selector, lhs, rhs, modulus);
    let region = gate_region(l.fresh_region(), kind, advice, selector, lhs, rhs, modulus);
    let c = advice.index as int;
    let row = l.cursor as int;
    let w = region.window;
    assert(w.advice[c][0] == assigned(lhs));
    assert(w.advice[c][1] == assigned(rhs));
    assert(w.advice[c][2] == assigned(gate_value(kind, lhs, rhs, modulus)));
    assert(placed.table.advice[c] == l.table.advice[c].take(row) + w.advice[c]);
    assert(placed.table.cell(c, row) == assigned(lhs));
    assert(placed.table.cell(c, row + 1) == assigned(rhs));
    assert(placed.table.cell(c, row + 2) == assigned(gate_value(kind, lhs, rhs, modulus)));
    assert forall|c2: int, r2: int| !(c2 == c && row <= r2 < row + 3) implies #[trigger] placed.table.cell(
        c2,
        r2,
    ) == l.table.cell(c2, r2) by {
        if 0 <= c2 < l.table.advice.len() && 0 <= r2 < l.table.rows {
            assert(placed.table.advice[c2] == l.table.advice[c2].take(row) + w.advice[c2]);
            if r2 >= row {
                assert(l.table.cell(c2, r2) is Unassigned);
            }
        }
    }
    assert forall|s2: int, r2: int| #[trigger]
        placed.table.enabled(s2, r2) == (l.table.enabled(s2, r2) || (s2 == selector.index && r2
            == row)) by {
        if 0 <= s2 < l.table.selectors.len() && 0 <= r2 < l.table.rows {
            assert(placed.table.selectors[s2] == l.table.selectors[s2].take(row) + w.selectors[s2]);
            if r2 >= row {
                assert(!l.table.enabled(s2, r2));
            }
        }
    }
    assert(placed.table.untouched_from(row + 3)) by {
        assert forall|c2: int, r2: int| row + 3 <= r2 implies #[trigger] placed.table.cell(c2, r2)
            is Unassigned by {
            assert(l.table.cell(c2, r2) is Unassigned);
        }
        assert forall|s2: int, r2: int| row + 3 <= r2 implies !#[trigger] placed.table.enabled(
            s2,
            r2,
        ) by {
            assert(!l.table.enabled(s2, r2));
        }
    }
    if lhs is Some && rhs is Some {
        let a = lhs->Some_0;
        let b = rhs->Some_0;
        let out = kind.output(a, b, modulus);
        assert(out < modulus) by {
            vstd::arithmetic::div_mod::lemma_mod_bound(
                match kind {
                    GateKind::Mul => (a * b) as int,
                    GateKind::Add => (a + b) as int,
                },
                modulus as int,
            );
        }
        kind.lemma_holds_iff_output(a, b, out, modulus);
    }
}

impl<F: Field> TestCircuit<F> {
    /// The circuit, as a value in contracts.
    pub closed spec fn spec_new() -> Self {
        TestCircuit { _ph: PhantomData }
    }

    /// The circuit carries no data: there is one value of it.
    pub proof fn lemma_single_value(a: Self, b: Self)
        ensures
            a == b,
    {
    }

    /// The circuit.
    pub fn new() -> (r: Self)
        ensures
            r == Self::spec_new(),
    {
        Self { _ph: PhantomData }
    }

    /// Multiplies two assigned cells in a region of three rows: copies of `lhs` and
    /// `rhs` in rows 0 and 1, their product in row 2, and the multiplication selector
    /// enabled in row 0. Returns the cell of the product.
    ///
    /// Where an input is unknown the rows are laid out all the same, and the product is
    /// unknown. Fails, and lays out nothing, where the column or the selector of
    /// `config` is not part of the table or fewer than three rows are left.
    pub fn mul(
        config: &TestConfig,
        layouter: &mut Layouter<F>,
        lhs: AssignedCell<F>,
        rhs: AssignedCell<F>,
    ) -> (r: Result<AssignedCell<F>, Error>)
        requires
            old(layouter).wf(),
        ensures
            final(layouter).wf(),
            r is Ok <==> gate_verdict(old(layouter)@, config.advice, config.q_mul) is Ok,
            r matches Ok(out) ==> out@ == gate_cell(
                old(layouter)@,
                GateKind::Mul,
                config.advice,
                lhs@.value,
                rhs@.value,
                F::modulus(),
            ) && final(layouter)@ == gate_placed(
                old(layouter)@,
                GateKind::Mul,
                config.advice,
                config.q_mul,
                lhs@.value,
                rhs@.value,
                F::modulus(),
            ),
            r matches Err(e) ==> Err::<(), Error>(e) == gate_verdict(
                old(layouter)@,
                config.advice,
                config.q_mul,
            ) && final(layouter)@ == old(layouter)@,
            r matches Ok(out) ==> final(layouter)@.table.cell(
                out@.cell.column.index as int,
                out@.cell.row as int,
            ) == assigned(out@.value),
            r is Ok ==> config.mul_gate().active(
                final(layouter)@.table,
                old(layouter)@.cursor as int,
            ),
            r is Ok && lhs@.value is Some && rhs@.value is Some ==> config.mul_gate().holds_at(
                final(layouter)@.table,
                old(layouter)@.cursor as int,
                F::modulus(),
            ),
    {
        proof {
            layouter.lemma_view_wf();
            F::lemma_modulus_positive();
            if gate_verdict(layouter@, config.advice, config.q_mul) is Ok {
                lemma_gate_placed(
                    layouter@,
                    GateKind::Mul,
                    config.advice,
                    config.q_mul,
                    lhs@.value,
                    rhs@.value,
                    F::modulus(),
                );
            }
        }
        lay_gate(GateKind::Mul, config.advice, config.q_mul, layouter, lhs, rhs)
    }

    /// Adds two assigned cells in a region of three rows: copies of `lhs` and `rhs` in
    /// rows 0 and 1, their sum in row 2, and the addition selector enabled in row 0.
    /// Returns the cell of the sum.
    ///
    /// Where an input is unknown the rows are laid out all the same, and the sum is
    /// unknown. Fails, and lays out nothing, where the column or the selector of
    /// `config` is not part of the table or fewer than three rows are left.
    pub fn add(
        config: &TestConfig,
        layouter: &mut Layouter<F>,
        lhs: AssignedCell<F>,
        rhs: AssignedCell<F>,
    ) -> (r: Result<AssignedCell<F>, Error>)
        requires
            old(layouter).wf(),
        ensures
            final(layouter).wf(),
            r is Ok <==> gate_verdict(old(layouter)@, config.advice, config.q_add) is Ok,
            r matches Ok(out) ==> out@ == gate_cell(
                old(layouter)@,
                GateKind::Add,
                config.advice,
                lhs@.value,
                rhs@.value,
                F::modulus(),
            ) && final(layouter)@ == gate_placed(
                old(layouter)@,
                GateKind::Add,
                config.advice,
                config.q_add,
                lhs@.value,
                rhs@.value,
                F::modulus(),
            ),
            r matches Err(e) ==> Err::<(), Error>(e) == gate_verdict(
                old(layouter)@,
                config.advice,
                config.q_add,
            ) && final(layouter)@ == old(layouter)@,
            r matches Ok(out) ==> final(layouter)@.table.cell(
                out@.cell.column.index as int,
                out@.cell.row as int,
            ) == assigned(out@.value),
            r is Ok ==> config.add_gate().active(
                final(layouter)@.table,
                old(layouter)@.cursor as int,
            ),
            r is Ok && lhs@.value is Some && rhs@.value is Some ==> config.add_gate().holds_at(
                final(layouter)@.table,
                old(layouter)@.cursor as int,
                F::modulus(),
            ),
    {
        proof {
            layouter.lemma_view_wf();
            F::lemma_modulus_positive();
            if gate_verdict(layouter@, config.advice, config.q_add) is Ok {
                lemma_gate_placed(
                    layouter@,
                    GateKind::Add,
                    config.advice,
                    config.q_add,
                    lhs@.value,
                    rhs@.value,
                    F::modulus(),
                );
            }
        }
        lay_gate(GateKind::Add, config.advice, config.q_add, layouter, lhs, rhs)
    }
}

impl<F: Field> Circuit<F> for TestCircuit<F> {
    type Config = TestConfig;

    /// One advice column and two selectors are declared, with the multiplication
    /// identity under the first selector and the addition identity under the second.
    /// Where the numbers for them are not left, nothing is declared.
    open spec fn configures(
        before: ConstraintSystemView,
        after: ConstraintSystemView,
        r: Result<TestConfig, Error>,
    ) -> bool {
        if before.num_advice < usize::MAX && before.num_selectors + 1 < usize::MAX {
            &&& r matches Ok(config)
            &&& config.advice == Column { kind: ColumnKind::Advice, index: before.num_advice as usize }
            &&& config.q_mul == Selector { index: before.num_selectors as usize }
            &&& config.q_add == Selector { index: (before.num_selectors + 1) as usize }
            &&& after == ConstraintSystemView {
                num_advice: before.num_advice + 1,
                num_selectors: before.num_selectors + 2,
                gates: before.gates.push(config.mul_gate()).push(config.add_gate()),
            }
        } else {
            &&& r == Err::<TestConfig, Error>(
                Error::Configuration(ConfigurationError::TooManyColumns),
            )
            &&& after == before
        }
    }

    /// Nothing is laid out.
    open spec fn synthesizes(
        &self,
        config: TestConfig,
        before: LayouterView,
        after: LayouterView,
        r: Result<(), Error>,
    ) -> bool {
        after == before && r == Ok::<(), Error>(())
    }

    fn without_witnesses(&self) -> (shape: Self)
        ensures
            shape == *self,
    {
        TestCircuit { _ph: PhantomData }
    }

    fn configure(meta: &mut ConstraintSystem) -> (r: Result<TestConfig, Error>) {
        if meta.num_advice_columns() == usize::MAX || meta.num_selectors() >= usize::MAX - 1 {
            return Err(Error::Configuration(ConfigurationError::TooManyColumns));
        }
        let advice = meta.advice_column()?;
        let q_mul = meta.selector()?;
        let q_add = meta.selector()?;
        meta.create_gate(GateKind::Mul, q_mul, advice)?;
        meta.create_gate(GateKind::Add, q_add, advice)?;
        Ok(TestConfig { advice, q_mul, q_add })
    }

    #[allow(unused_variables)]
    fn synthesize(&self, config: TestConfig, layouter: &mut Layouter<F>) -> (r: Result<(), Error>) {
        Ok(())
    }
}

} // verus!
