//! The table that a circuit fills: advice columns of witness values and selector columns
//! of flags, all of one height.

use vstd::prelude::*;
use crate::field::Field;

verus! {

/// A witness value: a field element, or the placeholder that stands for one while only
/// the shape of a circuit is laid out.
#[derive(Clone, Copy, Debug)]
pub enum Value<F> {
    Known(F),
    Unknown,
}

impl<F: Field> View for Value<F> {
    type V = Option<nat>;

    open spec fn view(&self) -> Option<nat> {
        match self {
            Value::Known(f) => Some(f.value()),
            Value::Unknown => None,
        }
    }
}

impl<F: Field> Value<F> {
    /// A value that is known.
    pub fn known(value: F) -> (r: Self)
        ensures
            r == Value::Known(value),
    {
        Value::Known(value)
    }

    /// A value that is not known.
    pub fn unknown() -> (r: Self)
        ensures
            r == Value::<F>::Unknown,
    {
        Value::Unknown
    }

    /// Whether two values agree: both unknown, or both known and the same residue.
    pub fn agrees(&self, other: &Self) -> (r: bool)
        ensures
            r == (self@ == other@),
    {
        match (self, other) {
            (Value::Known(a), Value::Known(b)) => a.equals(b),
            (Value::Unknown, Value::Unknown) => true,
            _ => false,
        }
    }
}

/// What a cell of an advice column holds, as a number.
pub enum Witness {
    /// Nothing was assigned to the cell.
    Unassigned,
    /// The cell was assigned a value that is not known.
    Unknown,
    /// The cell was assigned this residue.
    Known(nat),
}

/// What a cell of an advice column holds.
#[derive(Clone, Copy, Debug)]
pub enum CellValue<F> {
    Unassigned,
    Assigned(Value<F>),
}

impl<F: Field> View for CellValue<F> {
    type V = Witness;

    open spec fn view(&self) -> Witness {
        match self {
            CellValue::Unassigned => Witness::Unassigned,
            CellValue::Assigned(Value::Unknown) => Witness::Unknown,
            CellValue::Assigned(Value::Known(f)) => Witness::Known(f.value()),
        }
    }
}

/// The witness that an assigned value leaves in a cell.
pub open spec fn assigned(value: Option<nat>) -> Witness {
    match value {
        Some(v) => Witness::Known(v),
        None => Witness::Unknown,
    }
}

/// What a column holds.
#[derive(Clone, Copy, Debug, PartialEq, Eq, Structural)]
pub enum ColumnKind {
    /// Witness values.
    Advice,
    /// One flag per row.
    Selector,
}

/// A column of the table: its kind, and its number among the columns of that kind.
#[derive(Clone, Copy, Debug, PartialEq, Eq, Structural)]
pub struct Column {
    pub kind: ColumnKind,
    pub index: usize,
}

/// A selector column, whose flag decides row by row whether an identity is checked.
#[derive(Clone, Copy, Debug, PartialEq, Eq, Structural)]
pub struct Selector {
    pub index: usize,
}

/// A table as mathematics: `advice[c][r]` is the cell of advice column `c` in row `r`,
/// `selectors[s][r]` the flag of selector `s` in row `r`.
#[verifier::ext_equal]
pub struct TableView {
    pub rows: nat,
    pub advice: Seq<Seq<Witness>>,
    pub selectors: Seq<Seq<bool>>,
}

impl TableView {
    /// Every column has `rows` entries.
    pub open spec fn wf(self) -> bool {
        &&& forall|c: int| 0 <= c < self.advice.len() ==> (#[trigger] self.advice[c]).len() == self.rows
        &&& forall|s: int| 0 <= s < self.selectors.len() ==> (#[trigger] self.selectors[s]).len() == self.rows
    }

    /// The table of the given size in which nothing is assigned and nothing enabled.
    pub open spec fn empty(rows: nat, num_advice: nat, num_selectors: nat) -> TableView {
        TableView {
            rows,
            advice: Seq::new(num_advice, |c: int| Seq::new(rows, |r: int| Witness::Unassigned)),
            selectors: Seq::new(num_selectors, |s: int| Seq::new(rows, |r: int| false)),
        }
    }

    /// The cell of advice column `column` in row `row`; outside the table no cell is
    /// assigned.
    pub open spec fn cell(self, column: int, row: int) -> Witness {
        if 0 <= column < self.advice.len() && 0 <= row < self.advice[column].len() {
            self.advice[column][row]
        } else {
            Witness::Unassigned
        }
    }

    /// Whether selector `selector` is enabled in row `row`; outside the table none is.
    pub open spec fn enabled(self, selector: int, row: int) -> bool {
        0 <= selector < self.selectors.len() && 0 <= row < self.selectors[selector].len()
            && self.selectors[selector][row]
    }

    /// Every known value is a residue below `modulus`.
    pub open spec fn reduced(self, modulus: nat) -> bool {
        forall|c: int, r: int| (#[trigger] self.cell(c, r)) matches Witness::Known(v) ==> v < modulus
    }

    /// Whether this table is the shape of `full`: the same size, the same cells assigned
    /// and the same selectors enabled, and no value known.
    pub open spec fn is_shape_of(self, full: TableView) -> bool {
        &&& self.rows == full.rows
        &&& self.advice.len() == full.advice.len()
        &&& self.selectors.len() == full.selectors.len()
        &&& forall|c: int, r: int|
            #![trigger self.cell(c, r)]
            #![trigger full.cell(c, r)]
            (self.cell(c, r) is Unassigned <==> full.cell(c, r) is Unassigned) && !(self.cell(
                c,
                r,
            ) is Known)
        &&& forall|s: int, r: int|
            #![trigger self.enabled(s, r)]
            #![trigger full.enabled(s, r)]
            self.enabled(s, r) == full.enabled(s, r)
    }

    /// This table with one advice cell replaced.
    pub open spec fn set_cell(self, column: int, row: int, w: Witness) -> TableView {
        TableView { advice: self.advice.update(column, self.advice[column].update(row, w)), ..self }
    }

    /// This table with one selector flag set.
    pub open spec fn enable(self, selector: int, row: int) -> TableView {
        TableView {
            selectors: self.selectors.update(selector, self.selectors[selector].update(row, true)),
            ..self
        }
    }

    /// From row `start` on, nothing is assigned and nothing enabled.
    pub open spec fn untouched_from(self, start: int) -> bool {
        &&& forall|c: int, r: int| start <= r ==> #[trigger] self.cell(c, r) is Unassigned
        &&& forall|s: int, r: int| start <= r ==> !#[trigger] self.enabled(s, r)
    }

    /// This table with the rows from `start` on replaced by the rows of `window`.
    pub open spec fn splice(self, start: int, window: TableView) -> TableView {
        TableView {
            rows: self.rows,
            advice: Seq::new(
                self.advice.len(),
                |c: int| self.advice[c].take(start) + window.advice[c],
            ),
            selectors: Seq::new(
                self.selectors.len(),
                |s: int| self.selectors[s].take(start) + window.selectors[s],
            ),
        }
    }
}

/// A table of a fixed number of rows.
pub struct Table<F: Field> {
    rows: usize,
    advice: Vec<Vec<CellValue<F>>>,
    selectors: Vec<Vec<bool>>,
}

impl<F: Field> View for Table<F> {
    type V = TableView;

    closed spec fn view(&self) -> TableView {
        TableView {
            rows: self.rows as nat,
            advice: Seq::new(
                self.advice@.len(),
                |c: int| Seq::new(self.rows as nat, |r: int| self.advice@[c]@[r]@),
            ),
            selectors: Seq::new(
                self.selectors@.len(),
                |s: int| Seq::new(self.rows as nat, |r: int| self.selectors@[s]@[r]),
            ),
        }
    }
}

fn unassigned_column<F: Field>(rows: usize) -> (col: Vec<CellValue<F>>)
    ensures
        col@.len() == rows,
        forall|r: int| 0 <= r < rows ==> col@[r] is Unassigned,
{
    let mut col: Vec<CellValue<F>> = Vec::new();
    let mut r: usize = 0;
    while r < rows
        invariant
            r <= rows,
            col@.len() == r,
            forall|j: int| 0 <= j < r ==> col@[j] is Unassigned,
        decreases rows - r,
    {
        col.push(CellValue::Unassigned);
        r = r + 1;
    }
    col
}

fn disabled_column(rows: usize) -> (col: Vec<bool>)
    ensures
        col@.len() == rows,
        forall|r: int| 0 <= r < rows ==> !col@[r],
{
    let mut col: Vec<bool> = Vec::new();
    let mut r: usize = 0;
    while r < rows
        invariant
            r <= rows,
            col@.len() == r,
            forall|j: int| 0 <= j < r ==> !col@[j],
        decreases rows - r,
    {
        col.push(false);
        r = r + 1;
    }
    col
}

impl<F: Field> Table<F> {
    /// Every column has as many entries as the table has rows.
    pub closed spec fn wf(&self) -> bool {
        &&& forall|c: int| 0 <= c < self.advice@.len() ==> (#[trigger] self.advice@[c])@.len() == self.rows
        &&& forall|s: int| 0 <= s < self.selectors@.len() ==> (#[trigger] self.selectors@[s])@.len() == self.rows
    }

    /// The view of a table is well formed, and the values in it are residues.
    pub proof fn lemma_view_wf(self)
        ensures
            self@.wf(),
            self@.rows <= usize::MAX,
            self@.reduced(F::modulus()),
    {
        assert forall|c: int, r: int| (#[trigger] self@.cell(c, r)) is Known implies (self@.cell(
            c,
            r,
        )->Known_0) < F::modulus() by {
            match self.advice@[c]@[r] {
                CellValue::Assigned(Value::Known(f)) => {
                    f.lemma_value_reduced();
                },
                _ => {},
            }
        }
    }

    /// A table of the given size in which nothing is assigned and nothing enabled.
    pub fn new(rows: usize, num_advice: usize, num_selectors: usize) -> (t: Self)
        ensures
            t.wf(),
            t@ == TableView::empty(rows as nat, num_advice as nat, num_selectors as nat),
    {
        let mut advice: Vec<Vec<CellValue<F>>> = Vec::new();
        let mut c: usize = 0;
        while c < num_advice
            invariant
                c <= num_advice,
                advice@.len() == c,
                forall|i: int| 0 <= i < c ==> (#[trigger] advice@[i])@.len() == rows,
                forall|i: int, r: int| 0 <= i < c && 0 <= r < rows ==> advice@[i]@[r] is Unassigned,
            decreases num_advice - c,
        {
            advice.push(unassigned_column(rows));
            c = c + 1;
        }
        let mut selectors: Vec<Vec<bool>> = Vec::new();
        let mut s: usize = 0;
        while s < num_selectors
            invariant
                s <= num_selectors,
                selectors@.len() == s,
                forall|i: int| 0 <= i < s ==> (#[trigger] selectors@[i])@.len() == rows,
                forall|i: int, r: int| 0 <= i < s && 0 <= r < rows ==> !selectors@[i]@[r],
            decreases num_selectors - s,
        {
            selectors.push(disabled_column(rows));
            s = s + 1;
        }
        let t = Table { rows, advice, selectors };
        assert(t@ =~~= TableView::empty(rows as nat, num_advice as nat, num_selectors as nat));
        t
    }

    /// The number of rows.
    pub fn rows(&self) -> (n: usize)
        ensures
            n == self@.rows,
    {
        self.rows
    }

    /// The number of advice columns.
    pub fn num_advice(&self) -> (n: usize)
        ensures
            n == self@.advice.len(),
    {
        self.advice.len()
    }

    /// The number of selector columns.
    pub fn num_selectors(&self) -> (n: usize)
        ensures
            n == self@.selectors.len(),
    {
        self.selectors.len()
    }

    /// What the cell of advice column `column` in row `row` holds; a cell outside the
    /// table holds nothing.
    pub fn cell(&self, column: usize, row: usize) -> (v: CellValue<F>)
        requires
            self.wf(),
        ensures
            v@ == self@.cell(column as int, row as int),
    {
        if column < self.advice.len() && row < self.rows {
            self.advice[column][row]
        } else {
            CellValue::Unassigned
        }
    }

    /// Whether selector `selector` is enabled in row `row`.
    pub fn enabled(&self, selector: usize, row: usize) -> (b: bool)
        requires
            self.wf(),
        ensures
            b == self@.enabled(selector as int, row as int),
    {
        selector < self.selectors.len() && row < self.rows && self.selectors[selector][row]
    }

    /// Puts a value into one cell, whatever the cell held.
    pub(crate) fn set_cell(&mut self, column: usize, row: usize, value: Value<F>)
        requires
            old(self).wf(),
            column < old(self)@.advice.len(),
            row < old(self)@.rows,
        ensures
            final(self).wf(),
            final(self)@ == old(self)@.set_cell(column as int, row as int, assigned(value@)),
    {
        self.advice[column][row] = CellValue::Assigned(value);
        assert(self@ =~~= old(self)@.set_cell(column as int, row as int, assigned(value@)));
    }

    /// Enables one selector in one row.
    pub(crate) fn enable(&mut self, selector: usize, row: usize)
        requires
            old(self).wf(),
            selector < old(self)@.selectors.len(),
            row < old(self)@.rows,
        ensures
            final(self).wf(),
            final(self)@ == old(self)@.enable(selector as int, row as int),
    {
        self.selectors[selector][row] = true;
        assert(self@ =~~= old(self)@.enable(selector as int, row as int));
    }
}

} // verus!
