//! The verification of a filled table: every identity, in every row where its selector is
//! enabled, must be zero on the cells it reads.

use vstd::prelude::*;
use vstd::arithmetic::power2::pow2;
use vstd::arithmetic::power2::lemma_pow2_unfold;
use vstd::arithmetic::power2::lemma_pow2_strictly_increases;
use vstd::arithmetic::power2::lemma2_to64;
use crate::circuit::Circuit;
use crate::constraint::AssignmentError;
use crate::constraint::ConfigurationError;
use crate::constraint::ConstraintSystem;
use crate::constraint::ConstraintSystemView;
use crate::constraint::Error;
use crate::constraint::Gate;
use crate::constraint::VerifyFailure;
use crate::field::Field;
use crate::layout::Layouter;
use crate::layout::LayouterView;
use crate::layout::RegionRecord;
use crate::layout::RegionRecordView;
use crate::table::assigned;
use crate::table::CellValue;
use crate::table::Column;
use crate::table::ColumnKind;
use crate::table::Selector;
use crate::table::Table;
use crate::table::TableView;
use crate::table::Value;
use crate::table::Witness;

verus! {

/// What verifying identity number `g` of `cs` finds in row `row` of `t`.
pub open spec fn finding_at(cs: ConstraintSystemView, t: TableView, modulus: nat, row: int, g: int) -> Option<
    VerifyFailure,
> {
    cs.gates[g].finding(t, row, g, modulus)
}

/// The order in which verification goes through a table: row by row, and in each row
/// identity by identity, in the order of their declaration.
pub open spec fn precedes(row1: int, g1: int, row2: int, g2: int) -> bool {
    row1 < row2 || (row1 == row2 && g1 < g2)
}

/// Whether verification finds nothing before it comes to identity `g` in row `row`.
pub open spec fn clean_before(cs: ConstraintSystemView, t: TableView, modulus: nat, row: int, g: int) -> bool {
    forall|r2: int, g2: int|
        0 <= r2 < t.rows && 0 <= g2 < cs.gates.len() && precedes(r2, g2, row, g) ==> (#[trigger] finding_at(
            cs,
            t,
            modulus,
            r2,
            g2,
        )) is None
}

/// Whether verification finds nothing at all.
pub open spec fn passes(cs: ConstraintSystemView, t: TableView, modulus: nat) -> bool {
    forall|row: int, g: int|
        0 <= row < t.rows && 0 <= g < cs.gates.len() ==> (#[trigger] finding_at(cs, t, modulus, row, g))
            is None
}

/// Whether `f` is what verification finds first: for identity `g` in row `row`, and nothing
/// before.
pub open spec fn is_first_finding(
    cs: ConstraintSystemView,
    t: TableView,
    modulus: nat,
    row: int,
    g: int,
    f: VerifyFailure,
) -> bool {
    &&& 0 <= row < t.rows
    &&& 0 <= g < cs.gates.len()
    &&& finding_at(cs, t, modulus, row, g) == Some(f)
    &&& clean_before(cs, t, modulus, row, g)
}

/// Whether `r` is what the verification of `t` against the identities of `cs` answers: success
/// where it finds nothing, and otherwise what it finds first.
pub open spec fn verdict_is(
    cs: ConstraintSystemView,
    t: TableView,
    modulus: nat,
    r: Result<(), VerifyFailure>,
) -> bool {
    match r {
        Ok(()) => passes(cs, t, modulus),
        Err(f) => exists|row: int, g: int| is_first_finding(cs, t, modulus, row, g, f),
    }
}

/// What verification finds in row `row` for the first `g` identities, in the order of their
/// declaration.
pub open spec fn row_findings(cs: ConstraintSystemView, t: TableView, modulus: nat, row: int, g: int) -> Seq<
    VerifyFailure,
>
    decreases g,
{
    if g <= 0 {
        Seq::empty()
    } else {
        let before = row_findings(cs, t, modulus, row, g - 1);
        match finding_at(cs, t, modulus, row, g - 1) {
            Some(f) => before.push(f),
            None => before,
        }
    }
}

/// What verification finds in the first `rows` rows, row by row.
pub open spec fn findings_above(cs: ConstraintSystemView, t: TableView, modulus: nat, rows: int) -> Seq<
    VerifyFailure,
>
    decreases rows,
{
    if rows <= 0 {
        Seq::empty()
    } else {
        findings_above(cs, t, modulus, rows - 1) + row_findings(
            cs,
            t,
            modulus,
            rows - 1,
            cs.gates.len() as int,
        )
    }
}

/// Everything that verification finds in a table, in the order in which it goes through
/// the table.
pub open spec fn all_findings(cs: ConstraintSystemView, t: TableView, modulus: nat) -> Seq<VerifyFailure> {
    findings_above(cs, t, modulus, t.rows as int)
}

/// The residues of public inputs.
pub open spec fn instance_values<F: Field>(instance: Seq<Vec<F>>) -> Seq<Seq<nat>> {
    instance.map_values(|column: Vec<F>| column@.map_values(|x: F| x.value()))
}

/// A synthesized circuit as mathematics: what it declares, its table, the regions laid
/// out and its public inputs.
#[verifier::ext_equal]
pub struct ProverView {
    pub cs: ConstraintSystemView,
    pub table: TableView,
    pub regions: Seq<RegionRecordView>,
    pub instance: Seq<Seq<nat>>,
}

/// Whether `r` is what synthesizing `circuit` in a table of `2^k` rows gives: the error
/// of the first step that fails, or the constraint system after `configure` with the
/// table and the regions after `synthesize`.
pub open spec fn run_outcome<F: Field, C: Circuit<F>>(
    k: u32,
    circuit: C,
    instance: Seq<Seq<nat>>,
    r: Result<ProverView, Error>,
) -> bool {
    if pow2(k as nat) > usize::MAX {
        r == Err::<ProverView, Error>(Error::Configuration(ConfigurationError::TooManyRows))
    } else {
        exists|cs: ConstraintSystemView, cfg: Result<C::Config, Error>|
            #![trigger C::configures(ConstraintSystemView::empty(), cs, cfg)]
            {
                &&& C::configures(ConstraintSystemView::empty(), cs, cfg)
                &&& cs.wf()
                &&& match cfg {
                    Err(e) => r == Err::<ProverView, Error>(e),
                    Ok(config) => exists|l: LayouterView, s: Result<(), Error>|
                        #![trigger circuit.synthesizes(config, LayouterView::empty(pow2(k as nat), cs.num_advice, cs.num_selectors), l, s)]
                        {
                            &&& circuit.synthesizes(
                                config,
                                LayouterView::empty(pow2(k as nat), cs.num_advice, cs.num_selectors),
                                l,
                                s,
                            )
                            &&& l.wf()
                            &&& l.table.rows == pow2(k as nat)
                            &&& l.table.advice.len() == cs.num_advice
                            &&& l.table.selectors.len() == cs.num_selectors
                            &&& match s {
                                Err(e) => r == Err::<ProverView, Error>(e),
                                Ok(()) => r == Ok::<ProverView, Error>(
                                    ProverView { cs, table: l.table, regions: l.regions, instance },
                                ),
                            }
                        },
                }
            }
    }
}

/// A synthesized circuit, ready to be checked.
pub struct MockProver<F: Field> {
    cs: ConstraintSystem,
    table: Table<F>,
    regions: Vec<RegionRecord>,
    instance: Vec<Vec<F>>,
}

impl<F: Field> View for MockProver<F> {
    type V = ProverView;

    closed spec fn view(&self) -> ProverView {
        ProverView {
            cs: self.cs@,
            table: self.table@,
            regions: self.regions@.map_values(|r: RegionRecord| r@),
            instance: instance_values(self.instance@),
        }
    }
}

/// The number of rows of a table of size parameter `k`, or `None` where the machine
/// cannot address that many.
fn row_budget(k: u32) -> (r: Option<usize>)
    ensures
        r is Some <==> pow2(k as nat) <= usize::MAX,
        r matches Some(n) ==> n == pow2(k as nat),
{
    let mut rows: usize = 1;
    let mut i: u32 = 0;
    proof {
        lemma2_to64();
    }
    while i < k
        invariant
            i <= k,
            rows == pow2(i as nat),
        decreases k - i,
    {
        proof {
            lemma_pow2_unfold((i + 1) as nat);
        }
        match rows.checked_mul(2) {
            Some(doubled) => {
                rows = doubled;
            },
            None => {
                proof {
                    if i + 1 < k {
                        lemma_pow2_strictly_increases((i + 1) as nat, k as nat);
                    }
                }
                return None;
            },
        }
        i = i + 1;
    }
    Some(rows)
}

impl<F: Field> MockProver<F> {
    /// The table is sound.
    pub closed spec fn wf(&self) -> bool {
        self.table.wf()
    }

    /// The view of a sound prover: its table is well formed and one that the machine
    /// can hold, and the values in it are residues.
    pub proof fn lemma_view_wf(self)
        requires
            self.wf(),
        ensures
            self@.table.wf(),
            self@.table.rows <= usize::MAX,
            self@.table.reduced(F::modulus()),
            self@.cs.gates.len() <= usize::MAX,
    {
        self.table.lemma_view_wf();
        self.cs.lemma_view_bounded();
    }

    /// Synthesizes `circuit` in a table of `2^k` rows: declares what the circuit
    /// declares in an empty constraint system, then lets the circuit lay out its regions
    /// in an empty table. `instance` holds the public inputs; no identity reads them.
    ///
    /// Fails with `TooManyRows` where the machine cannot address `2^k` rows, and
    /// otherwise with the error of the circuit's `configure` or `synthesize`.
    pub fn run<C: Circuit<F>>(k: u32, circuit: &C, instance: Vec<Vec<F>>) -> (r: Result<Self, Error>)
        ensures
            r matches Ok(prover) ==> prover.wf() && run_outcome::<F, C>(
                k,
                *circuit,
                instance_values(instance@),
                Ok(prover@),
            ),
            r matches Err(e) ==> run_outcome::<F, C>(k, *circuit, instance_values(instance@), Err(e)),
    {
        let rows = match row_budget(k) {
            Some(rows) => rows,
            None => {
                return Err(Error::Configuration(ConfigurationError::TooManyRows));
            },
        };
        let mut cs = ConstraintSystem::new();
        let cfg = C::configure(&mut cs);
        let config = match cfg {
            Ok(config) => config,
            Err(e) => {
                return Err(e);
            },
        };
        let mut layouter = Layouter::new(&cs, rows);
        let s = circuit.synthesize(config, &mut layouter);
        proof {
            layouter.lemma_view_wf();
            assert(circuit.synthesizes(
                config,
                LayouterView::empty(pow2(k as nat), cs@.num_advice, cs@.num_selectors),
                layouter@,
                s,
            ));
            assert(C::configures(ConstraintSystemView::empty(), cs@, cfg));
        }
        match s {
            Ok(()) => {
                let (table, regions) = layouter.finish();
                Ok(MockProver { cs, table, regions, instance })
            },
            Err(e) => Err(e),
        }
    }

    /// A prover for what `layouter` has laid out with the columns and identities of
    /// `cs`.
    pub fn from_layouter(cs: ConstraintSystem, layouter: Layouter<F>, instance: Vec<Vec<F>>) -> (prover: Self)
        requires
            layouter.wf(),
        ensures
            prover.wf(),
            prover@ == (ProverView {
                cs: cs@,
                table: layouter@.table,
                regions: layouter@.regions,
                instance: instance_values(instance@),
            }),
    {
        let (table, regions) = layouter.finish();
        MockProver { cs, table, regions, instance }
    }

    /// What the circuit declared.
    pub fn constraint_system(&self) -> (cs: &ConstraintSystem)
        ensures
            cs@ == self@.cs,
    {
        &self.cs
    }

    /// The number of rows of the table.
    pub fn rows(&self) -> (n: usize)
        ensures
            n == self@.table.rows,
    {
        self.table.rows()
    }

    /// What the cell of `column` in row `row` holds; a cell outside the table, or of a
    /// column that is no advice column, holds nothing.
    pub fn cell(&self, column: Column, row: usize) -> (v: CellValue<F>)
        requires
            self.wf(),
        ensures
            v@ == (if column.kind == ColumnKind::Advice {
                self@.table.cell(column.index as int, row as int)
            } else {
                Witness::Unassigned
            }),
    {
        if column.kind == ColumnKind::Advice {
            self.table.cell(column.index, row)
        } else {
            CellValue::Unassigned
        }
    }

    /// Whether `selector` is enabled in row `row`.
    pub fn enabled(&self, selector: Selector, row: usize) -> (b: bool)
        requires
            self.wf(),
        ensures
            b == self@.table.enabled(selector.index as int, row as int),
    {
        self.table.enabled(selector.index, row)
    }

    /// The regions laid out, in order.
    pub fn regions(&self) -> (r: &Vec<RegionRecord>)
        ensures
            r@.map_values(|x: RegionRecord| x@) == self@.regions,
    {
        &self.regions
    }

    /// The public inputs.
    pub fn instance(&self) -> (r: &Vec<Vec<F>>)
        ensures
            instance_values(r@) == self@.instance,
    {
        &self.instance
    }

    /// Replaces what one advice cell holds, without regard to the identities that read
    /// it.
    ///
    /// Fails with `UnknownColumn` where `column` is not an advice column of the table
    /// and with `RowOutOfBounds` where the table has no such row; the table is then
    /// left as it was.
    pub fn overwrite_advice(&mut self, column: Column, row: usize, value: Value<F>) -> (r: Result<(), Error>)
        requires
            old(self).wf(),
        ensures
            final(self).wf(),
            r == (if !(column.kind == ColumnKind::Advice && column.index < old(self)@.table.advice.len()) {
                Err::<(), Error>(Error::Assignment(AssignmentError::UnknownColumn))
            } else if row >= old(self)@.table.rows {
                Err::<(), Error>(Error::Assignment(AssignmentError::RowOutOfBounds))
            } else {
                Ok::<(), Error>(())
            }),
            r is Ok ==> final(self)@ == (ProverView {
                table: old(self)@.table.set_cell(column.index as int, row as int, assigned(value@)),
                ..old(self)@
            }),
            r is Err ==> final(self)@ == old(self)@,
    {
        if column.kind != ColumnKind::Advice || column.index >= self.table.num_advice() {
            return Err(Error::Assignment(AssignmentError::UnknownColumn));
        }
        if row >= self.table.rows() {
            return Err(Error::Assignment(AssignmentError::RowOutOfBounds));
        }
        self.table.set_cell(column.index, row, value);
        Ok(())
    }

    /// Checks one identity in one row.
    fn check_gate(&self, gate: Gate, row: usize, gate_index: usize) -> (f: Option<VerifyFailure>)
        requires
            self.wf(),
            row < self@.table.rows,
        ensures
            f == gate.finding(self@.table, row as int, gate_index as int, F::modulus()),
    {
        if !self.table.enabled(gate.selector.index, row) {
            return None;
        }
        let c = gate.advice.index;
        let n = self.table.rows();
        let w0 = self.table.cell(c, row);
        let w1 = if row + 1 < n {
            self.table.cell(c, row + 1)
        } else {
            CellValue::Unassigned
        };
        let w2 = if row + 1 < n && row + 2 < n {
            self.table.cell(c, row + 2)
        } else {
            CellValue::Unassigned
        };
        proof {
            self.table.lemma_view_wf();
        }
        match (w0, w1, w2) {
            (
                CellValue::Assigned(Value::Known(a)),
                CellValue::Assigned(Value::Known(b)),
                CellValue::Assigned(Value::Known(c)),
            ) => {
                if gate.kind.check(&a, &b, &c) {
                    None
                } else {
                    Some(VerifyFailure::ConstraintViolation { row, gate_index, gate: gate.kind })
                }
            },
            _ => Some(VerifyFailure::MissingWitness { row, gate_index, gate: gate.kind }),
        }
    }

    /// Everything that is wrong with the table: for each row from the first to the last,
    /// and in each row for each identity in the order of their declaration, what
    /// [`MockProver::verify`] would report if it came to it first.
    pub fn failures(&self) -> (r: Vec<VerifyFailure>)
        requires
            self.wf(),
        ensures
            r@ == all_findings(self@.cs, self@.table, F::modulus()),
    {
        let n = self.table.rows();
        let m = self.cs.num_gates();
        let mut found: Vec<VerifyFailure> = Vec::new();
        let mut row: usize = 0;
        while row < n
            invariant
                self.wf(),
                n == self@.table.rows,
                m == self@.cs.gates.len(),
                row <= n,
                found@ == findings_above(self@.cs, self@.table, F::modulus(), row as int),
            decreases n - row,
        {
            let ghost above = found@;
            let mut g: usize = 0;
            while g < m
                invariant
                    self.wf(),
                    n == self@.table.rows,
                    m == self@.cs.gates.len(),
                    row < n,
                    g <= m,
                    above == findings_above(self@.cs, self@.table, F::modulus(), row as int),
                    found@ == above + row_findings(
                        self@.cs,
                        self@.table,
                        F::modulus(),
                        row as int,
                        g as int,
                    ),
                decreases m - g,
            {
                let gate = self.cs.gates()[g];
                match self.check_gate(gate, row, g) {
                    Some(f) => {
                        found.push(f);
                    },
                    None => {},
                }
                g = g + 1;
                assert(found@ =~= above + row_findings(
                    self@.cs,
                    self@.table,
                    F::modulus(),
                    row as int,
                    g as int,
                ));
            }
            row = row + 1;
        }
        found
    }

    /// Checks the table: goes through the rows from the first to the last, and in each
    /// row through the identities in the order of their declaration, and reports the
    /// first identity whose selector is enabled and that does not hold: as a missing
    /// witness where one of its cells holds no known value, as a violation where the
    /// identity is not zero. The answer depends on the table and the identities alone.
    pub fn verify(&self) -> (r: Result<(), VerifyFailure>)
        requires
            self.wf(),
        ensures
            verdict_is(self@.cs, self@.table, F::modulus(), r),
    {
        let n = self.table.rows();
        let m = self.cs.num_gates();
        let mut row: usize = 0;
        while row < n
            invariant
                self.wf(),
                n == self@.table.rows,
                m == self@.cs.gates.len(),
                row <= n,
                forall|r2: int, g2: int|
                    0 <= r2 < row && 0 <= g2 < m ==> (#[trigger] finding_at(
                        self@.cs,
                        self@.table,
                        F::modulus(),
                        r2,
                        g2,
                    )) is None,
            decreases n - row,
        {
            let mut g: usize = 0;
            while g < m
                invariant
                    self.wf(),
                    n == self@.table.rows,
                    m == self@.cs.gates.len(),
                    row < n,
                    g <= m,
                    forall|r2: int, g2: int|
                        0 <= r2 < row && 0 <= g2 < m ==> (#[trigger] finding_at(
                            self@.cs,
                            self@.table,
                            F::modulus(),
                            r2,
                            g2,
                        )) is None,
                    forall|g2: int|
                        0 <= g2 < g ==> (#[trigger] finding_at(
                            self@.cs,
                            self@.table,
                            F::modulus(),
                            row as int,
                            g2,
                        )) is None,
                decreases m - g,
            {
                let gate = self.cs.gates()[g];
                match self.check_gate(gate, row, g) {
                    Some(f) => {
                        assert(is_first_finding(
                            self@.cs,
                            self@.table,
                            F::modulus(),
                            row as int,
                            g as int,
                            f,
                        ));
                        return Err(f);
                    },
                    None => {},
                }
                g = g + 1;
            }
            row = row + 1;
        }
        Ok(())
    }
}

} // verus!
