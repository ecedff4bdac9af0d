//! What holds of every circuit, every table and every verification, stated over the views that
//! the contracts of this crate use.

use vstd::prelude::*;
use vstd::arithmetic::div_mod::lemma_mul_mod_noop_general;
use vstd::arithmetic::power2::pow2;
use crate::circuit::gate_placed;
use crate::circuit::gate_value;
use crate::circuit::gate_verdict;
use crate::circuit::lemma_gate_placed;
use crate::circuit::TestCircuit;
use crate::circuit::TestConfig;
use crate::constraint::ConfigurationError;
use crate::constraint::ConstraintSystemView;
use crate::constraint::Error;
use crate::constraint::Gate;
use crate::constraint::GateKind;
use crate::constraint::VerifyFailure;
use crate::field::Field;
use crate::layout::LayouterView;
use crate::layout::RegionView;
use crate::prover::clean_before;
use crate::prover::all_findings;
use crate::prover::finding_at;
use crate::prover::findings_above;
use crate::prover::row_findings;
use crate::prover::is_first_finding;
use crate::prover::passes;
use crate::prover::precedes;
use crate::prover::run_outcome;
use crate::prover::verdict_is;
use crate::prover::ProverView;
use crate::table::Column;
use crate::table::ColumnKind;
use crate::table::Selector;
use crate::table::TableView;
use crate::table::Witness;

verus! {

/// Verification is deterministic: a table and a set of identities have one verdict.
pub proof fn lemma_verdict_unique(
    cs: ConstraintSystemView,
    t: TableView,
    modulus: nat,
    r1: Result<(), VerifyFailure>,
    r2: Result<(), VerifyFailure>,
)
    requires
        verdict_is(cs, t, modulus, r1),
        verdict_is(cs, t, modulus, r2),
    ensures
        r1 == r2,
{
    if r1 is Err {
        let f1 = r1->Err_0;
        let (row1, g1) = choose|row: int, g: int| is_first_finding(cs, t, modulus, row, g, f1);
        assert(is_first_finding(cs, t, modulus, row1, g1, f1));
        if r2 is Err {
            let f2 = r2->Err_0;
            let (row2, g2) = choose|row: int, g: int| is_first_finding(cs, t, modulus, row, g, f2);
            assert(is_first_finding(cs, t, modulus, row2, g2, f2));
            if precedes(row1, g1, row2, g2) {
                assert(finding_at(cs, t, modulus, row1, g1) is None);
            }
            if precedes(row2, g2, row1, g1) {
                assert(finding_at(cs, t, modulus, row2, g2) is None);
            }
            assert(row1 == row2 && g1 == g2);
            assert(f1 == f2);
        } else {
            assert(finding_at(cs, t, modulus, row1, g1) is None);
        }
    } else if r2 is Err {
        let f2 = r2->Err_0;
        let (row2, g2) = choose|row: int, g: int| is_first_finding(cs, t, modulus, row, g, f2);
        assert(is_first_finding(cs, t, modulus, row2, g2, f2));
        assert(finding_at(cs, t, modulus, row2, g2) is None);
    } else {
        assert(r1->Ok_0 == ());
        assert(r2->Ok_0 == ());
    }
}

/// In one row: nothing is found where no identity fails, and otherwise the first finding
/// is that of the first identity that fails.
proof fn lemma_row_findings(cs: ConstraintSystemView, t: TableView, modulus: nat, row: int, g: int) -> (first: int)
    requires
        0 <= g <= cs.gates.len(),
    ensures
        row_findings(cs, t, modulus, row, g).len() == 0 <==> (forall|g2: int|
            0 <= g2 < g ==> (#[trigger] finding_at(cs, t, modulus, row, g2)) is None),
        row_findings(cs, t, modulus, row, g).len() > 0 ==> 0 <= first < g && finding_at(
            cs,
            t,
            modulus,
            row,
            first,
        ) == Some(row_findings(cs, t, modulus, row, g)[0]) && (forall|g2: int|
            0 <= g2 < first ==> (#[trigger] finding_at(cs, t, modulus, row, g2)) is None),
    decreases g,
{
    if g <= 0 {
        0
    } else {
        let first = lemma_row_findings(cs, t, modulus, row, g - 1);
        if row_findings(cs, t, modulus, row, g - 1).len() > 0 {
            first
        } else {
            g - 1
        }
    }
}

/// In the rows above `rows`: nothing is found where no pair of a row and an identity
/// fails, and otherwise the first finding is the first one in the order of verification.
proof fn lemma_findings_above(cs: ConstraintSystemView, t: TableView, modulus: nat, rows: int)
    requires
        0 <= rows <= t.rows,
    ensures
        findings_above(cs, t, modulus, rows).len() == 0 <==> (forall|r2: int, g2: int|
            0 <= r2 < rows && 0 <= g2 < cs.gates.len() ==> (#[trigger] finding_at(
                cs,
                t,
                modulus,
                r2,
                g2,
            )) is None),
        findings_above(cs, t, modulus, rows).len() > 0 ==> exists|row: int, g: int|
            row < rows && is_first_finding(cs, t, modulus, row, g, findings_above(cs, t, modulus, rows)[0]),
    decreases rows,
{
    if rows > 0 {
        lemma_findings_above(cs, t, modulus, rows - 1);
        let above = findings_above(cs, t, modulus, rows - 1);
        let first = lemma_row_findings(cs, t, modulus, rows - 1, cs.gates.len() as int);
        let here = row_findings(cs, t, modulus, rows - 1, cs.gates.len() as int);
        if above.len() > 0 {
            let (row, g) = choose|row: int, g: int|
                row < rows - 1 && is_first_finding(cs, t, modulus, row, g, above[0]);
            assert(is_first_finding(cs, t, modulus, row, g, (above + here)[0]));
            assert(finding_at(cs, t, modulus, row, g) is Some);
        } else if here.len() > 0 {
            assert(is_first_finding(cs, t, modulus, rows - 1, first, (above + here)[0]));
            assert(finding_at(cs, t, modulus, rows - 1, first) is Some);
        } else {
            assert forall|r2: int, g2: int|
                0 <= r2 < rows && 0 <= g2 < cs.gates.len() implies (#[trigger] finding_at(
                cs,
                t,
                modulus,
                r2,
                g2,
            )) is None by {
                if r2 < rows - 1 {
                } else {
                }
            }
        }
    }
}

/// The verdict is the first of all findings: a table passes where nothing is found, and
/// what is reported otherwise is what is found first.
pub proof fn lemma_verdict_is_first_finding(cs: ConstraintSystemView, t: TableView, modulus: nat)
    ensures
        all_findings(cs, t, modulus).len() == 0 ==> verdict_is(cs, t, modulus, Ok(())),
        all_findings(cs, t, modulus).len() > 0 ==> verdict_is(
            cs,
            t,
            modulus,
            Err(all_findings(cs, t, modulus)[0]),
        ),
{
    lemma_findings_above(cs, t, modulus, t.rows as int);
}

/// A table in which no selector is enabled passes verification, whatever its cells hold and
/// whatever identities are declared.
pub proof fn lemma_idle_table_passes(cs: ConstraintSystemView, t: TableView, modulus: nat)
    requires
        forall|s: int, r: int| !#[trigger] t.enabled(s, r),
    ensures
        verdict_is(cs, t, modulus, Ok(())),
{
    assert forall|row: int, g: int| 0 <= row < t.rows && 0 <= g < cs.gates.len() implies (
    #[trigger] finding_at(cs, t, modulus, row, g)) is None by {
        assert(!t.enabled(cs.gates[g].selector.index as int, row));
    }
}

/// The table that the circuit of this crate synthesizes passes verification, whatever the
/// size of the table: the circuit enables no selector.
pub proof fn lemma_test_circuit_passes<F: Field>(
    k: u32,
    circuit: TestCircuit<F>,
    instance: Seq<Seq<nat>>,
    prover: ProverView,
)
    requires
        run_outcome::<F, TestCircuit<F>>(k, circuit, instance, Ok(prover)),
    ensures
        verdict_is(prover.cs, prover.table, F::modulus(), Ok(())),
{
    let t = prover.table;
    assert forall|s: int, r: int| !#[trigger] t.enabled(s, r) by {}
    lemma_idle_table_passes(prover.cs, t, F::modulus());
}

/// Synthesizing the circuit of this crate fails only where the machine cannot address the
/// table. Otherwise it gives an empty table of `2^k` rows with one advice column and two
/// selectors, the multiplication identity under the first selector and the addition
/// identity under the second, and no region.
pub proof fn lemma_test_circuit_runs<F: Field>(
    k: u32,
    circuit: TestCircuit<F>,
    instance: Seq<Seq<nat>>,
    r: Result<ProverView, Error>,
)
    requires
        run_outcome::<F, TestCircuit<F>>(k, circuit, instance, r),
    ensures
        r is Ok <==> pow2(k as nat) <= usize::MAX,
        r matches Err(e) ==> e == Error::Configuration(ConfigurationError::TooManyRows),
        r matches Ok(prover) ==> {
            &&& prover.table == TableView::empty(pow2(k as nat), 1, 2)
            &&& prover.cs.num_advice == 1
            &&& prover.cs.num_selectors == 2
            &&& prover.cs.gates.len() == 2
            &&& prover.cs.gates[0] == Gate {
                kind: GateKind::Mul,
                selector: Selector { index: 0 },
                advice: Column { kind: ColumnKind::Advice, index: 0 },
            }
            &&& prover.cs.gates[1] == Gate {
                kind: GateKind::Add,
                selector: Selector { index: 1 },
                advice: Column { kind: ColumnKind::Advice, index: 0 },
            }
            &&& prover.regions.len() == 0
            &&& prover.instance == instance
        },
{
}

/// Laying out a region changes no row above it: the rows that earlier regions used stay
/// theirs.
pub proof fn lemma_commit_keeps_rows_above(l: LayouterView, region: RegionView, label: Seq<char>)
    requires
        l.wf(),
        region.wf(),
        region.same_window(l.fresh_region()),
    ensures
        l.commit(region, label).wf(),
        l.commit(region, label).cursor >= l.cursor,
        forall|c: int, r: int|
            r < l.cursor ==> #[trigger] l.commit(region, label).table.cell(c, r) == l.table.cell(c, r),
        forall|s: int, r: int|
            r < l.cursor ==> #[trigger] l.commit(region, label).table.enabled(s, r) == l.table.enabled(
                s,
                r,
            ),
        forall|c: int, r: int|
            l.cursor <= r ==> #[trigger] l.commit(region, label).table.cell(c, r) == region.window.cell(
                c,
                r - l.cursor,
            ),
        forall|s: int, r: int|
            l.cursor <= r ==> #[trigger] l.commit(region, label).table.enabled(s, r)
                == region.window.enabled(s, r - l.cursor),
{
    let after = l.commit(region, label);
    let start = l.cursor as int;
    assert forall|c: int| 0 <= c < after.table.advice.len() implies (#[trigger] after.table.advice[c]).len()
        == after.table.rows by {
        assert(region.window.advice[c].len() == region.window.rows);
        assert(l.table.advice[c].len() == l.table.rows);
    }
    assert forall|s: int| 0 <= s < after.table.selectors.len() implies (
    #[trigger] after.table.selectors[s]).len() == after.table.rows by {
        assert(region.window.selectors[s].len() == region.window.rows);
        assert(l.table.selectors[s].len() == l.table.rows);
    }
    assert forall|c: int, r: int| l.cursor <= r implies #[trigger] after.table.cell(c, r)
        == region.window.cell(c, r - l.cursor) by {
        if 0 <= c < after.table.advice.len() {
            assert(region.window.advice[c].len() == region.window.rows);
            assert(l.table.advice[c].len() == l.table.rows);
        }
    }
    assert forall|s: int, r: int| l.cursor <= r implies #[trigger] after.table.enabled(s, r)
        == region.window.enabled(s, r - l.cursor) by {
        if 0 <= s < after.table.selectors.len() {
            assert(region.window.selectors[s].len() == region.window.rows);
            assert(l.table.selectors[s].len() == l.table.rows);
        }
    }
    assert forall|c: int, r: int| r < l.cursor implies #[trigger] after.table.cell(c, r)
        == l.table.cell(c, r) by {
        if 0 <= c < after.table.advice.len() {
            assert(l.table.advice[c].len() == l.table.rows);
        }
    }
    assert forall|s: int, r: int| r < l.cursor implies #[trigger] after.table.enabled(s, r)
        == l.table.enabled(s, r) by {
        if 0 <= s < after.table.selectors.len() {
            assert(l.table.selectors[s].len() == l.table.rows);
        }
    }
    assert forall|c: int, r: int| after.cursor <= r implies #[trigger] after.table.cell(c, r)
        is Unassigned by {
        assert(region.window.cell(c, r - l.cursor) is Unassigned);
    }
    assert forall|s: int, r: int| after.cursor <= r implies !#[trigger] after.table.enabled(s, r) by {
        assert(!region.window.enabled(s, r - l.cursor));
    }
}

/// A gate laid out on known inputs keeps a passing table passing: the identity of the
/// new region holds, and no identity of an earlier region reads the new rows.
pub proof fn lemma_gate_keeps_passing(
    cs: ConstraintSystemView,
    l: LayouterView,
    gi: int,
    lhs: nat,
    rhs: nat,
    modulus: nat,
)
    requires
        cs.wf(),
        l.wf(),
        0 < modulus,
        0 <= gi < cs.gates.len(),
        gate_verdict(l, cs.gates[gi].advice, cs.gates[gi].selector) is Ok,
        passes(cs, l.table, modulus),
    ensures
        passes(
            cs,
            gate_placed(
                l,
                cs.gates[gi].kind,
                cs.gates[gi].advice,
                cs.gates[gi].selector,
                Some(lhs),
                Some(rhs),
                modulus,
            ).table,
            modulus,
        ),
{
    let ours = cs.gates[gi];
    let t = l.table;
    let placed = gate_placed(l, ours.kind, ours.advice, ours.selector, Some(lhs), Some(rhs), modulus);
    let t2 = placed.table;
    let cursor = l.cursor as int;
    lemma_gate_placed(l, ours.kind, ours.advice, ours.selector, Some(lhs), Some(rhs), modulus);
    assert forall|row: int, g: int| 0 <= row < t2.rows && 0 <= g < cs.gates.len() implies (
    #[trigger] finding_at(cs, t2, modulus, row, g)) is None by {
        let gate = cs.gates[g];
        let s = gate.selector.index as int;
        let c = gate.advice.index as int;
        assert(t2.enabled(s, row) == (t.enabled(s, row) || (s == ours.selector.index && row == cursor)));
        if row < cursor {
            if gate.active(t2, row) {
                assert(finding_at(cs, t, modulus, row, g) is None);
                assert(!gate.lacks_witness(t, row));
                assert(t.cell(c, row + 1) is Known);
                assert(t.cell(c, row + 2) is Known);
                assert(row + 2 < cursor);
                assert(t2.cell(c, row) == t.cell(c, row));
                assert(t2.cell(c, row + 1) == t.cell(c, row + 1));
                assert(t2.cell(c, row + 2) == t.cell(c, row + 2));
            }
        } else if row == cursor {
            assert(!t.enabled(s, row));
            if gate.active(t2, row) {
                assert(gate.selector == ours.selector);
                if g < gi {
                    assert(cs.gates[g].selector != cs.gates[gi].selector);
                }
                if gi < g {
                    assert(cs.gates[gi].selector != cs.gates[g].selector);
                }
                assert(g == gi);
                assert(gate == Gate { kind: ours.kind, selector: ours.selector, advice: ours.advice });
            }
        } else {
            assert(!t.enabled(s, row));
        }
    }
}

/// A multiplication gate fed by an addition gate: on inputs `a`, `b` and `c` the cell
/// that the multiplication returns holds `(a + b) * c`, reduced, and the table passes
/// verification as it did before the two gates were laid out.
pub proof fn lemma_mul_of_add(
    cs: ConstraintSystemView,
    config: TestConfig,
    l: LayouterView,
    i_mul: int,
    i_add: int,
    a: nat,
    b: nat,
    c: nat,
    modulus: nat,
)
    requires
        cs.wf(),
        l.wf(),
        0 < modulus,
        0 <= i_mul < cs.gates.len(),
        0 <= i_add < cs.gates.len(),
        cs.gates[i_mul] == config.mul_gate(),
        cs.gates[i_add] == config.add_gate(),
        config.advice.index < l.table.advice.len(),
        config.q_mul.index < l.table.selectors.len(),
        config.q_add.index < l.table.selectors.len(),
        l.cursor + 6 <= l.table.rows,
        passes(cs, l.table, modulus),
    ensures
        ({
            let sum = gate_value(GateKind::Add, Some(a), Some(b), modulus);
            let l1 = gate_placed(l, GateKind::Add, config.advice, config.q_add, Some(a), Some(b), modulus);
            let product = gate_value(GateKind::Mul, sum, Some(c), modulus);
            let l2 = gate_placed(l1, GateKind::Mul, config.advice, config.q_mul, sum, Some(c), modulus);
            &&& product == Some(((a + b) * c) % modulus)
            &&& l2.table.cell(config.advice.index as int, (l.cursor + 5) as int) == Witness::Known(
                ((a + b) * c) % modulus,
            )
            &&& verdict_is(cs, l2.table, modulus, Ok(()))
        }),
{
    let sum = (a + b) % modulus;
    let l1 = gate_placed(l, GateKind::Add, config.advice, config.q_add, Some(a), Some(b), modulus);
    assert(cs.has_advice(cs.gates[i_add].advice));
    lemma_gate_placed(l, GateKind::Add, config.advice, config.q_add, Some(a), Some(b), modulus);
    lemma_gate_keeps_passing(cs, l, i_add, a, b, modulus);
    lemma_gate_placed(l1, GateKind::Mul, config.advice, config.q_mul, Some(sum), Some(c), modulus);
    lemma_gate_keeps_passing(cs, l1, i_mul, sum, c, modulus);
    lemma_mul_mod_noop_general((a + b) as int, c as int, modulus as int);
}

/// The first identity that fails in row `row`, where identity `g` fails there.
proof fn lemma_first_in_row(cs: ConstraintSystemView, t: TableView, modulus: nat, row: int, g: int) -> (first: int)
    requires
        0 <= g < cs.gates.len(),
        finding_at(cs, t, modulus, row, g) is Some,
    ensures
        0 <= first <= g,
        finding_at(cs, t, modulus, row, first) is Some,
        forall|g2: int| 0 <= g2 < first ==> (#[trigger] finding_at(cs, t, modulus, row, g2)) is None,
    decreases g,
{
    if exists|g2: int| 0 <= g2 < g && (#[trigger] finding_at(cs, t, modulus, row, g2)) is Some {
        let g2 = choose|g2: int| 0 <= g2 < g && (#[trigger] finding_at(cs, t, modulus, row, g2)) is Some;
        lemma_first_in_row(cs, t, modulus, row, g2)
    } else {
        g
    }
}

/// An output that is overwritten is caught where it was computed. In a table that
/// passes verification, replace the third cell of an enabled identity, the one that holds
/// its output, by another known value. Verification then reports a violation in the row of
/// that identity: every row above it still passes, and no witness is missing.
pub proof fn lemma_overwritten_output_is_caught(
    cs: ConstraintSystemView,
    t: TableView,
    modulus: nat,
    row: int,
    g: int,
    value: nat,
) -> (f: VerifyFailure)
    requires
        t.wf(),
        t.rows <= usize::MAX,
        t.reduced(modulus),
        cs.gates.len() <= usize::MAX,
        0 < modulus,
        value < modulus,
        0 <= row < t.rows,
        0 <= g < cs.gates.len(),
        cs.gates[g].active(t, row),
        passes(cs, t, modulus),
        cs.gates[g].witness(t, row, 2) != Witness::Known(value),
    ensures
        verdict_is(
            cs,
            t.set_cell(cs.gates[g].advice.index as int, row + 2, Witness::Known(value)),
            modulus,
            Err(f),
        ),
        f is ConstraintViolation,
        f->ConstraintViolation_row == row,
        f->ConstraintViolation_gate_index <= g,
{
    let gate = cs.gates[g];
    let c = gate.advice.index as int;
    let t2 = t.set_cell(c, row + 2, Witness::Known(value));
    assert(finding_at(cs, t, modulus, row, g) is None);
    assert(!gate.lacks_witness(t, row));
    assert(0 <= c < t.advice.len() && row + 2 < t.rows);
    assert forall|c2: int, r2: int| #[trigger] t2.cell(c2, r2) == (if c2 == c && r2 == row + 2 {
        Witness::Known(value)
    } else {
        t.cell(c2, r2)
    }) by {}
    assert forall|s2: int, r2: int| #[trigger] t2.enabled(s2, r2) == t.enabled(s2, r2) by {}
    // the overwritten identity fails
    let w0 = gate.witness(t, row, 0)->Known_0;
    let w1 = gate.witness(t, row, 1)->Known_0;
    let w2 = gate.witness(t, row, 2)->Known_0;
    assert(gate.holds_at(t, row, modulus));
    assert(t.cell(c, row + 2) == t.advice[c][row + 2]);
    gate.kind.lemma_holds_iff_output(w0, w1, value, modulus);
    gate.kind.lemma_holds_iff_output(w0, w1, w2, modulus);
    assert(gate.witness(t2, row, 0) == gate.witness(t, row, 0));
    assert(gate.witness(t2, row, 1) == gate.witness(t, row, 1));
    assert(gate.witness(t2, row, 2) == Witness::Known(value));
    assert(!gate.holds_at(t2, row, modulus));
    assert(finding_at(cs, t2, modulus, row, g) is Some);
    let first = lemma_first_in_row(cs, t2, modulus, row, g);
    let f = finding_at(cs, t2, modulus, row, first)->Some_0;
    // no witness is missing in that row
    let early = cs.gates[first];
    assert(early.active(t, row));
    assert(finding_at(cs, t, modulus, row, first) is None);
    assert(!early.lacks_witness(t, row));
    assert(!early.lacks_witness(t2, row));
    // the rows above still pass
    assert forall|r2: int, g2: int|
        0 <= r2 < t2.rows && 0 <= g2 < cs.gates.len() && precedes(r2, g2, row, first) implies (
    #[trigger] finding_at(cs, t2, modulus, r2, g2)) is None by {
        if r2 < row {
            let above = cs.gates[g2];
            assert(finding_at(cs, t, modulus, r2, g2) is None);
            assert(above.witness(t2, r2, 0) == above.witness(t, r2, 0));
            assert(above.witness(t2, r2, 1) == above.witness(t, r2, 1));
            assert(above.witness(t2, r2, 2) == above.witness(t, r2, 2));
        }
    }
    assert(is_first_finding(cs, t2, modulus, row, first, f));
    f
}

/// Whatever cell is overwritten, only the identities that read it can fail. In a table
/// that passes verification, replace a known value by another known value. If verification
/// then reports anything, it is a violation, never a missing witness, and the row it
/// names is the row of the overwritten cell or one of the two rows above it.
pub proof fn lemma_overwrite_reports_a_violation_nearby(
    cs: ConstraintSystemView,
    t: TableView,
    modulus: nat,
    column: int,
    row: int,
    value: nat,
    f: VerifyFailure,
)
    requires
        t.wf(),
        t.rows <= usize::MAX,
        cs.gates.len() <= usize::MAX,
        0 <= column < t.advice.len(),
        0 <= row < t.rows,
        t.cell(column, row) is Known,
        passes(cs, t, modulus),
        verdict_is(cs, t.set_cell(column, row, Witness::Known(value)), modulus, Err(f)),
    ensures
        f is ConstraintViolation,
        row - 2 <= f->ConstraintViolation_row <= row,
{
    let t2 = t.set_cell(column, row, Witness::Known(value));
    let (r, g) = choose|r: int, g: int| is_first_finding(cs, t2, modulus, r, g, f);
    assert(is_first_finding(cs, t2, modulus, r, g, f));
    let gate = cs.gates[g];
    assert forall|c2: int, r2: int| #[trigger] t2.cell(c2, r2) == (if c2 == column && r2 == row {
        Witness::Known(value)
    } else {
        t.cell(c2, r2)
    }) by {}
    assert forall|s2: int, r2: int| #[trigger] t2.enabled(s2, r2) == t.enabled(s2, r2) by {}
    assert(gate.active(t, r));
    assert(finding_at(cs, t, modulus, r, g) is None);
    assert(!gate.lacks_witness(t, r));
    assert(!gate.lacks_witness(t2, r));
    if !(r <= row <= r + 2) {
        assert(gate.witness(t2, r, 0) == gate.witness(t, r, 0));
        assert(gate.witness(t2, r, 1) == gate.witness(t, r, 1));
        assert(gate.witness(t2, r, 2) == gate.witness(t, r, 2));
    }
}

/// A missing witness is reported as such. Where the selector of an identity is enabled
/// in a row and one of the three cells that the identity reads holds no known value,
/// the table does not pass, and what verification finds for that identity and that row is
/// a missing witness, not a violation; it is the verdict where nothing fails before it.
pub proof fn lemma_missing_witness_is_reported(
    cs: ConstraintSystemView,
    t: TableView,
    modulus: nat,
    row: int,
    g: int,
)
    requires
        0 <= row < t.rows,
        row <= usize::MAX,
        0 <= g < cs.gates.len(),
        g <= usize::MAX,
        cs.gates[g].active(t, row),
        cs.gates[g].lacks_witness(t, row),
    ensures
        finding_at(cs, t, modulus, row, g) == Some(
            VerifyFailure::MissingWitness {
                row: row as usize,
                gate_index: g as usize,
                gate: cs.gates[g].kind,
            },
        ),
        !verdict_is(cs, t, modulus, Ok(())),
        clean_before(cs, t, modulus, row, g) ==> verdict_is(
            cs,
            t,
            modulus,
            Err(
                VerifyFailure::MissingWitness {
                    row: row as usize,
                    gate_index: g as usize,
                    gate: cs.gates[g].kind,
                },
            ),
        ),
{
    let f = VerifyFailure::MissingWitness {
        row: row as usize,
        gate_index: g as usize,
        gate: cs.gates[g].kind,
    };
    assert(finding_at(cs, t, modulus, row, g) == Some(f));
    if clean_before(cs, t, modulus, row, g) {
        assert(is_first_finding(cs, t, modulus, row, g, f));
    }
}

} // verus!
