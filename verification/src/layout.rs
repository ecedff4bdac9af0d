//! Regions and the layouter that places them: each region is a window of consecutive
//! rows below everything laid out before it.

use vstd::prelude::*;
use crate::constraint::AssignmentError;
use crate::constraint::ConstraintSystem;
use crate::constraint::Error;
use crate::field::Field;
use crate::table::assigned;
use crate::table::CellValue;
use crate::table::Column;
use crate::table::ColumnKind;
use crate::table::Selector;
use crate::table::Table;
use crate::table::TableView;
use crate::table::Value;
use crate::table::Witness;

verus! {

/// A cell of an advice column, by its row in the table.
#[derive(Clone, Copy, Debug, PartialEq, Eq, Structural)]
pub struct Cell {
    pub column: Column,
    pub row: usize,
}

/// A cell that a region assigned, with the value that it was given.
#[derive(Clone, Copy, Debug)]
pub struct AssignedCell<F> {
    value: Value<F>,
    cell: Cell,
}

/// An assigned cell as mathematics.
pub struct AssignedCellView {
    pub value: Option<nat>,
    pub cell: Cell,
}

impl<F: Field> View for AssignedCell<F> {
    type V = AssignedCellView;

    closed spec fn view(&self) -> AssignedCellView {
        AssignedCellView { value: self.value@, cell: self.cell }
    }
}

impl<F: Field> AssignedCell<F> {
    /// The value that the cell was given.
    pub fn value(&self) -> (v: Value<F>)
        ensures
            v@ == self@.value,
    {
        self.value
    }

    /// Where the cell lies.
    pub fn cell(&self) -> (c: Cell)
        ensures
            c == self@.cell,
    {
        self.cell
    }
}

/// A region as mathematics: the table row of its first row, the number of rows it has
/// used, and its window, a table whose row 0 is the region's first row.
#[verifier::ext_equal]
pub struct RegionView {
    pub start: nat,
    pub height: nat,
    pub window: TableView,
}

impl RegionView {
    /// The window is well formed, and nothing lies below the rows used.
    pub open spec fn wf(self) -> bool {
        &&& self.window.wf()
        &&& self.height <= self.window.rows
        &&& self.window.untouched_from(self.height as int)
    }

    /// A region of the same window as `other`: same first row, same size, same columns.
    pub open spec fn same_window(self, other: RegionView) -> bool {
        &&& self.start == other.start
        &&& self.window.rows == other.window.rows
        &&& self.window.advice.len() == other.window.advice.len()
        &&& self.window.selectors.len() == other.window.selectors.len()
    }

    /// Whether `column` is an advice column of the window.
    pub open spec fn has_advice(self, column: Column) -> bool {
        column.kind == ColumnKind::Advice && column.index < self.window.advice.len()
    }

    /// The number of rows used once row `offset` is used too.
    pub open spec fn height_with(self, offset: nat) -> nat {
        if self.height <= offset {
            offset + 1
        } else {
            self.height
        }
    }

    /// What assigning `value` to the cell of `column` in row `offset` answers: the cell's
    /// row in the table, or why the assignment is refused.
    pub open spec fn advice_verdict(self, column: Column, offset: nat, value: Option<nat>) -> Result<
        Cell,
        Error,
    > {
        if !self.has_advice(column) {
            Err(Error::Assignment(AssignmentError::UnknownColumn))
        } else if offset >= self.window.rows {
            Err(Error::Assignment(AssignmentError::RowOutOfBounds))
        } else if !(self.window.cell(column.index as int, offset as int) is Unassigned)
            && self.window.cell(column.index as int, offset as int) != assigned(value) {
            Err(Error::Assignment(AssignmentError::Conflict))
        } else {
            Ok(Cell { column, row: (self.start + offset) as usize })
        }
    }

    /// The region after `value` was assigned to the cell of `column` in row `offset`.
    pub open spec fn with_advice(self, column: Column, offset: nat, value: Option<nat>) -> RegionView {
        RegionView {
            start: self.start,
            height: self.height_with(offset),
            window: self.window.set_cell(column.index as int, offset as int, assigned(value)),
        }
    }

    /// What enabling `selector` in row `offset` answers.
    pub open spec fn selector_verdict(self, selector: Selector, offset: nat) -> Result<(), Error> {
        if selector.index >= self.window.selectors.len() {
            Err(Error::Assignment(AssignmentError::UnknownColumn))
        } else if offset >= self.window.rows {
            Err(Error::Assignment(AssignmentError::RowOutOfBounds))
        } else {
            Ok(())
        }
    }

    /// The region after `selector` was enabled in row `offset`.
    pub open spec fn with_selector(self, selector: Selector, offset: nat) -> RegionView {
        RegionView {
            start: self.start,
            height: self.height_with(offset),
            window: self.window.enable(selector.index as int, offset as int),
        }
    }
}

/// A window of consecutive rows in which one operation assigns its cells. Rows are
/// counted from the region's first row.
pub struct Region<F: Field> {
    start: usize,
    limit: usize,
    height: usize,
    advice: Vec<Vec<CellValue<F>>>,
    selectors: Vec<Vec<bool>>,
}

impl<F: Field> View for Region<F> {
    type V = RegionView;

    closed spec fn view(&self) -> RegionView {
        RegionView {
            start: self.start as nat,
            height: self.height as nat,
            window: TableView {
                rows: self.limit as nat,
                advice: Seq::new(
                    self.advice@.len(),
                    |c: int|
                        Seq::new(
                            self.limit as nat,
                            |r: int|
                                if r < self.advice@[c]@.len() {
                                    self.advice@[c]@[r]@
                                } else {
                                    Witness::Unassigned
                                },
                        ),
                ),
                selectors: Seq::new(
                    self.selectors@.len(),
                    |s: int|
                        Seq::new(
                            self.limit as nat,
                            |r: int| r < self.selectors@[s]@.len() && self.selectors@[s]@[r],
                        ),
                ),
            },
        }
    }
}

impl<F: Field> Region<F> {
    /// The region keeps within its window, and the window within the table.
    pub closed spec fn wf(&self) -> bool {
        &&& self.start + self.limit <= usize::MAX
        &&& self.height <= self.limit
        &&& forall|c: int| 0 <= c < self.advice@.len() ==> (#[trigger] self.advice@[c])@.len() <= self.height
        &&& forall|s: int|
            0 <= s < self.selectors@.len() ==> (#[trigger] self.selectors@[s])@.len() <= self.height
    }

    /// The view of a well-formed region is well formed.
    pub proof fn lemma_view_wf(self)
        requires
            self.wf(),
        ensures
            self@.wf(),
            self@.start + self@.window.rows <= usize::MAX,
    {
    }

    /// A region in which nothing is assigned, over the `limit` rows from `start` on.
    pub(crate) fn open(start: usize, limit: usize, num_advice: usize, num_selectors: usize) -> (r: Self)
        requires
            start + limit <= usize::MAX,
        ensures
            r.wf(),
            r@ == (RegionView {
                start: start as nat,
                height: 0,
                window: TableView::empty(limit as nat, num_advice as nat, num_selectors as nat),
            }),
    {
        let mut advice: Vec<Vec<CellValue<F>>> = Vec::new();
        let mut c: usize = 0;
        while c < num_advice
            invariant
                c <= num_advice,
                advice@.len() == c,
                forall|i: int| 0 <= i < c ==> (#[trigger] advice@[i])@.len() == 0,
            decreases num_advice - c,
        {
            advice.push(Vec::new());
            c = c + 1;
        }
        let mut selectors: Vec<Vec<bool>> = Vec::new();
        let mut s: usize = 0;
        while s < num_selectors
            invariant
                s <= num_selectors,
                selectors@.len() == s,
                forall|i: int| 0 <= i < s ==> (#[trigger] selectors@[i])@.len() == 0,
            decreases num_selectors - s,
        {
            selectors.push(Vec::new());
            s = s + 1;
        }
        let r = Region { start, limit, height: 0, advice, selectors };
        assert(r@ =~~= (RegionView {
            start: start as nat,
            height: 0,
            window: TableView::empty(limit as nat, num_advice as nat, num_selectors as nat),
        }));
        r
    }

    /// The table row of the region's first row.
    pub fn start(&self) -> (n: usize)
        ensures
            n == self@.start,
    {
        self.start
    }

    /// The number of rows that the region has used.
    pub fn height(&self) -> (n: usize)
        ensures
            n == self@.height,
    {
        self.height
    }

    /// Assigns the value that `to` provides to the cell of `column` in row `offset` of
    /// the region, and returns the cell.
    ///
    /// Fails with `UnknownColumn` where `column` is not an advice column of the table
    /// and with `RowOutOfBounds` where the row lies outside the window; `to` is not
    /// called then. Fails with `Conflict` where the cell already holds another value.
    /// A refused assignment leaves the region as it was. `label` names the cell for
    /// readers of the circuit.
    pub fn assign_advice<V: FnOnce() -> Value<F>>(
        &mut self,
        label: &str,
        column: Column,
        offset: usize,
        to: V,
    ) -> (r: Result<AssignedCell<F>, Error>)
        requires
            old(self).wf(),
            to.requires(()),
        ensures
            final(self).wf(),
            !old(self)@.has_advice(column) || offset >= old(self)@.window.rows ==> final(self)@ == old(
                self,
            )@ && r is Err && r->Err_0 == old(self)@.advice_verdict(column, offset as nat, None)->Err_0,
            old(self)@.has_advice(column) && offset < old(self)@.window.rows ==> exists|v: Value<F>|
                #![trigger to.ensures((), v)]
                {
                    &&& to.ensures((), v)
                    &&& match old(self)@.advice_verdict(column, offset as nat, v@) {
                        Ok(cell) => r is Ok && r->Ok_0@ == (AssignedCellView { value: v@, cell })
                            && final(self)@ == old(self)@.with_advice(column, offset as nat, v@),
                        Err(e) => r == Err::<AssignedCell<F>, Error>(e) && final(self)@ == old(self)@,
                    }
                },
    {
        if column.kind != ColumnKind::Advice || column.index >= self.advice.len() {
            return Err(Error::Assignment(AssignmentError::UnknownColumn));
        }
        if offset >= self.limit {
            return Err(Error::Assignment(AssignmentError::RowOutOfBounds));
        }
        let value = to();
        let c = column.index;
        if offset < self.advice[c].len() {
            match self.advice[c][offset] {
                CellValue::Assigned(held) => {
                    if !held.agrees(&value) {
                        return Err(Error::Assignment(AssignmentError::Conflict));
                    }
                },
                CellValue::Unassigned => {},
            }
        }
        if self.height <= offset {
            self.height = offset + 1;
        }
        while self.advice[c].len() <= offset
            invariant
                c < self.advice@.len(),
                offset < self.height <= self.limit,
                self.wf(),
                self@.window == old(self)@.window,
                self@.start == old(self)@.start,
                self@.height == old(self)@.height_with(offset as nat),
            decreases offset + 1 - self.advice@[c as int]@.len(),
        {
            let ghost before = *self;
            self.advice[c].push(CellValue::Unassigned);
            assert(self@.window =~~= before@.window);
        }
        self.advice[c][offset] = CellValue::Assigned(value);
        assert(self@.window =~~= old(self)@.window.set_cell(c as int, offset as int, assigned(value@)));
        Ok(AssignedCell { value, cell: Cell { column, row: self.start + offset } })
    }

    /// Enables `selector` in row `offset` of the region.
    ///
    /// Fails with `UnknownColumn` where the table has no such selector and with
    /// `RowOutOfBounds` where the row lies outside the window; the region is then left
    /// as it was.
    pub fn enable_selector(&mut self, selector: Selector, offset: usize) -> (r: Result<(), Error>)
        requires
            old(self).wf(),
        ensures
            final(self).wf(),
            r == old(self)@.selector_verdict(selector, offset as nat),
            r is Ok ==> final(self)@ == old(self)@.with_selector(selector, offset as nat),
            r is Err ==> final(self)@ == old(self)@,
    {
        if selector.index >= self.selectors.len() {
            return Err(Error::Assignment(AssignmentError::UnknownColumn));
        }
        if offset >= self.limit {
            return Err(Error::Assignment(AssignmentError::RowOutOfBounds));
        }
        let s = selector.index;
        if self.height <= offset {
            self.height = offset + 1;
        }
        while self.selectors[s].len() <= offset
            invariant
                s < self.selectors@.len(),
                offset < self.height <= self.limit,
                self.wf(),
                self@.window == old(self)@.window,
                self@.start == old(self)@.start,
                self@.height == old(self)@.height_with(offset as nat),
            decreases offset + 1 - self.selectors@[s as int]@.len(),
        {
            let ghost before = *self;
            self.selectors[s].push(false);
            assert(self@.window =~~= before@.window);
        }
        self.selectors[s][offset] = true;
        assert(self@.window =~~= old(self)@.window.enable(s as int, offset as int));
        Ok(())
    }
}

/// A region that was laid out: its name, its first row and the number of its rows.
#[derive(Debug)]
pub struct RegionRecord {
    pub name: String,
    pub start: usize,
    pub rows: usize,
}

/// A laid-out region as mathematics.
pub struct RegionRecordView {
    pub name: Seq<char>,
    pub start: nat,
    pub rows: nat,
}

impl View for RegionRecord {
    type V = RegionRecordView;

    open spec fn view(&self) -> RegionRecordView {
        RegionRecordView { name: self.name@, start: self.start as nat, rows: self.rows as nat }
    }
}

/// A layouter as mathematics: the table so far, the first row that no region has used,
/// and the regions laid out, in order.
#[verifier::ext_equal]
pub struct LayouterView {
    pub table: TableView,
    pub cursor: nat,
    pub regions: Seq<RegionRecordView>,
}

impl LayouterView {
    /// The table is well formed, and nothing lies at or below the cursor.
    pub open spec fn wf(self) -> bool {
        &&& self.table.wf()
        &&& self.cursor <= self.table.rows
        &&& self.table.untouched_from(self.cursor as int)
    }

    /// The layouter that has laid out nothing in an empty table.
    pub open spec fn empty(rows: nat, num_advice: nat, num_selectors: nat) -> LayouterView {
        LayouterView {
            table: TableView::empty(rows, num_advice, num_selectors),
            cursor: 0,
            regions: Seq::empty(),
        }
    }

    /// The region that the next operation is given: nothing assigned, over all rows from
    /// the cursor on.
    pub open spec fn fresh_region(self) -> RegionView {
        RegionView {
            start: self.cursor,
            height: 0,
            window: TableView::empty(
                (self.table.rows - self.cursor) as nat,
                self.table.advice.len(),
                self.table.selectors.len(),
            ),
        }
    }

    /// The layouter after `region` was laid out under the name `label`: the region's
    /// rows stand in the table from the cursor on, and the cursor has moved below them.
    pub open spec fn commit(self, region: RegionView, label: Seq<char>) -> LayouterView {
        LayouterView {
            table: self.table.splice(self.cursor as int, region.window),
            cursor: self.cursor + region.height,
            regions: self.regions.push(
                RegionRecordView { name: label, start: self.cursor, rows: region.height },
            ),
        }
    }
}

/// Places regions into a table, one below the other.
pub struct Layouter<F: Field> {
    table: Table<F>,
    cursor: usize,
    regions: Vec<RegionRecord>,
}

impl<F: Field> View for Layouter<F> {
    type V = LayouterView;

    closed spec fn view(&self) -> LayouterView {
        LayouterView {
            table: self.table@,
            cursor: self.cursor as nat,
            regions: self.regions@.map_values(|r: RegionRecord| r@),
        }
    }
}

impl<F: Field> Layouter<F> {
    /// The table is sound, and no row at or below the cursor is used.
    pub closed spec fn wf(&self) -> bool {
        &&& self.table.wf()
        &&& self@.wf()
    }

    /// The view of a well-formed layouter is well formed, and its table is one that the
    /// machine can hold.
    pub proof fn lemma_view_wf(self)
        requires
            self.wf(),
        ensures
            self@.wf(),
            self@.table.rows <= usize::MAX,
            self@.table.reduced(F::modulus()),
    {
        self.table.lemma_view_wf();
    }

    /// A layouter over an empty table of `rows` rows with the columns and selectors that
    /// `cs` declares.
    pub fn new(cs: &ConstraintSystem, rows: usize) -> (l: Self)
        ensures
            l.wf(),
            l@ == LayouterView::empty(rows as nat, cs@.num_advice, cs@.num_selectors),
    {
        let table = Table::new(rows, cs.num_advice_columns(), cs.num_selectors());
        let l = Layouter { table, cursor: 0, regions: Vec::new() };
        assert(l@.regions =~= Seq::empty());
        l
    }

    /// The first row that no region has used.
    pub fn cursor(&self) -> (n: usize)
        ensures
            n == self@.cursor,
    {
        self.cursor
    }

    /// The table as laid out so far.
    pub fn table(&self) -> (t: &Table<F>)
        requires
            self.wf(),
        ensures
            t.wf(),
            t@ == self@.table,
    {
        &self.table
    }

    /// Gives up the layouter for its table and the regions laid out.
    pub fn finish(self) -> (r: (Table<F>, Vec<RegionRecord>))
        requires
            self.wf(),
        ensures
            r.0.wf(),
            r.0@ == self@.table,
            r.1@.map_values(|x: RegionRecord| x@) == self@.regions,
    {
        (self.table, self.regions)
    }

    /// Copies the rows of a region into the table, from the cursor on.
    fn write_back(&mut self, region: &Region<F>)
        requires
            old(self).wf(),
            region.wf(),
            region@.same_window(old(self)@.fresh_region()),
        ensures
            final(self).table.wf(),
            final(self).cursor == old(self).cursor,
            final(self).regions == old(self).regions,
            final(self)@.table == old(self)@.table.splice(old(self)@.cursor as int, region@.window),
    {
        let start = self.cursor;
        let ghost t0 = self.table@;
        let ghost w = region@.window;
        let mut c: usize = 0;
        while c < region.advice.len()
            invariant
                c <= region.advice@.len(),
                region.wf(),
                w == region@.window,
                t0 == old(self)@.table,
                old(self).wf(),
                region@.same_window(old(self)@.fresh_region()),
                start == old(self).cursor,
                self.cursor == old(self).cursor,
                self.regions == old(self).regions,
                self.table.wf(),
                self.table@.rows == t0.rows,
                self.table@.selectors == t0.selectors,
                self.table@.advice.len() == t0.advice.len(),
                forall|j: int| 0 <= j < c ==> #[trigger] self.table@.advice[j] == t0.advice[j].take(start as int) + w.advice[j],
                forall|j: int| c <= j < t0.advice.len() ==> #[trigger] self.table@.advice[j] == t0.advice[j],
            decreases region.advice@.len() - c,
        {
            let mut i: usize = 0;
            while i < region.advice[c].len()
                invariant
                    c < region.advice@.len(),
                    i <= region.advice@[c as int]@.len(),
                    region.wf(),
                    w == region@.window,
                    t0 == old(self)@.table,
                    old(self).wf(),
                    region@.same_window(old(self)@.fresh_region()),
                    start == old(self).cursor,
                    self.cursor == old(self).cursor,
                    self.regions == old(self).regions,
                    self.table.wf(),
                    self.table@.rows == t0.rows,
                    self.table@.selectors == t0.selectors,
                    self.table@.advice.len() == t0.advice.len(),
                    forall|j: int| 0 <= j < c ==> #[trigger] self.table@.advice[j] == t0.advice[j].take(start as int) + w.advice[j],
                    forall|j: int| c < j < t0.advice.len() ==> #[trigger] self.table@.advice[j] == t0.advice[j],
                    self.table@.advice[c as int] == Seq::new(
                        t0.rows,
                        |r: int|
                            if start <= r < start + i {
                                w.advice[c as int][r - start]
                            } else {
                                t0.advice[c as int][r]
                            },
                    ),
                decreases region.advice@[c as int]@.len() - i,
            {
                proof {
                    self.table.lemma_view_wf();
                    assert(t0.cell(c as int, start + i) is Unassigned);
                }
                match region.advice[c][i] {
                    CellValue::Assigned(value) => {
                        self.table.set_cell(c, start + i, value);
                    },
                    CellValue::Unassigned => {},
                }
                i = i + 1;
                assert(self.table@.advice[c as int] =~= Seq::new(
                    t0.rows,
                    |r: int|
                        if start <= r < start + i {
                            w.advice[c as int][r - start]
                        } else {
                            t0.advice[c as int][r]
                        },
                ));
            }
            proof {
                assert forall|r: int| start + i <= r < t0.rows implies w.advice[c as int][r - start]
                    == t0.advice[c as int][r] by {
                    assert(t0.cell(c as int, r) is Unassigned);
                }
                assert(self.table@.advice[c as int] =~= t0.advice[c as int].take(start as int)
                    + w.advice[c as int]);
            }
            c = c + 1;
        }
        let mut s: usize = 0;
        while s < region.selectors.len()
            invariant
                s <= region.selectors@.len(),
                region.wf(),
                w == region@.window,
                t0 == old(self)@.table,
                old(self).wf(),
                region@.same_window(old(self)@.fresh_region()),
                start == old(self).cursor,
                self.cursor == old(self).cursor,
                self.regions == old(self).regions,
                self.table.wf(),
                self.table@.rows == t0.rows,
                self.table@.advice.len() == t0.advice.len(),
                self.table@.selectors.len() == t0.selectors.len(),
                forall|j: int| 0 <= j < t0.advice.len() ==> #[trigger] self.table@.advice[j] == t0.advice[j].take(start as int) + w.advice[j],
                forall|j: int| 0 <= j < s ==> #[trigger] self.table@.selectors[j] == t0.selectors[j].take(start as int) + w.selectors[j],
                forall|j: int| s <= j < t0.selectors.len() ==> #[trigger] self.table@.selectors[j] == t0.selectors[j],
            decreases region.selectors@.len() - s,
        {
            let mut i: usize = 0;
            while i < region.selectors[s].len()
                invariant
                    s < region.selectors@.len(),
                    i <= region.selectors@[s as int]@.len(),
                    region.wf(),
                    w == region@.window,
                    t0 == old(self)@.table,
                    old(self).wf(),
                    region@.same_window(old(self)@.fresh_region()),
                    start == old(self).cursor,
                    self.cursor == old(self).cursor,
                    self.regions == old(self).regions,
                    self.table.wf(),
                    self.table@.rows == t0.rows,
                    self.table@.advice.len() == t0.advice.len(),
                    self.table@.selectors.len() == t0.selectors.len(),
                    forall|j: int| 0 <= j < t0.advice.len() ==> #[trigger] self.table@.advice[j] == t0.advice[j].take(start as int) + w.advice[j],
                    forall|j: int| 0 <= j < s ==> #[trigger] self.table@.selectors[j] == t0.selectors[j].take(start as int) + w.selectors[j],
                    forall|j: int| s < j < t0.selectors.len() ==> #[trigger] self.table@.selectors[j] == t0.selectors[j],
                    self.table@.selectors[s as int] == Seq::new(
                        t0.rows,
                        |r: int|
                            if start <= r < start + i {
                                w.selectors[s as int][r - start]
                            } else {
                                t0.selectors[s as int][r]
                            },
                    ),
                decreases region.selectors@[s as int]@.len() - i,
            {
                proof {
                    self.table.lemma_view_wf();
                    assert(!t0.enabled(s as int, start + i));
                }
                if region.selectors[s][i] {
                    self.table.enable(s, start + i);
                }
                i = i + 1;
                assert(self.table@.selectors[s as int] =~= Seq::new(
                    t0.rows,
                    |r: int|
                        if start <= r < start + i {
                            w.selectors[s as int][r - start]
                        } else {
                            t0.selectors[s as int][r]
                        },
                ));
            }
            proof {
                assert forall|r: int| start + i <= r < t0.rows implies w.selectors[s as int][r - start]
                    == t0.selectors[s as int][r] by {
                    assert(!t0.enabled(s as int, r));
                }
                assert(self.table@.selectors[s as int] =~= t0.selectors[s as int].take(start as int)
                    + w.selectors[s as int]);
            }
            s = s + 1;
        }
        assert(self.table@ =~~= t0.splice(start as int, w));
    }

    /// Lays out one region: gives `assignment` a region over all rows from the cursor
    /// on, in which nothing is assigned, and returns what `assignment` returns.
    ///
    /// Where `assignment` succeeds, the rows of the region that it hands back are copied
    /// into the table and the cursor moves below the rows it has used, so that no later
    /// region shares a row with this one. Where it fails, the layouter is left as it
    /// was. `label` names the region for readers of the table.
    pub fn assign_region<AR, A: FnOnce(Region<F>) -> Result<(Region<F>, AR), Error>>(
        &mut self,
        label: &str,
        assignment: A,
    ) -> (r: Result<AR, Error>)
        requires
            old(self).wf(),
            forall|region: Region<F>|
                region.wf() && region@ == old(self)@.fresh_region() ==> #[trigger] assignment.requires(
                    (region,),
                ),
            forall|region: Region<F>, done: Region<F>, ar: AR|
                region.wf() && region@ == old(self)@.fresh_region() && #[trigger] assignment.ensures(
                    (region,),
                    Ok((done, ar)),
                ) ==> done.wf() && done@.same_window(region@),
        ensures
            final(self).wf(),
            exists|region: Region<F>, out: Result<(Region<F>, AR), Error>|
                #![trigger assignment.ensures((region,), out)]
                {
                    &&& region.wf()
                    &&& region@ == old(self)@.fresh_region()
                    &&& assignment.ensures((region,), out)
                    &&& match out {
                        Ok((done, ar)) => r == Ok::<AR, Error>(ar) && final(self)@ == old(self)@.commit(
                            done@,
                            label@,
                        ),
                        Err(e) => r == Err::<AR, Error>(e) && final(self)@ == old(self)@,
                    }
                },
    {
        proof {
            self.table.lemma_view_wf();
        }
        let start = self.cursor;
        let region = Region::open(
            start,
            self.table.rows() - start,
            self.table.num_advice(),
            self.table.num_selectors(),
        );
        let ghost given = region;
        let out = assignment(region);
        match out {
            Ok((done, ar)) => {
                proof {
                    done.lemma_view_wf();
                }
                self.write_back(&done);
                self.cursor = start + done.height;
                self.regions.push(
                    RegionRecord { name: label.to_string(), start, rows: done.height },
                );
                proof {
                    assert(self@.regions =~= old(self)@.regions.push(
                        RegionRecordView { name: label@, start: start as nat, rows: done.height as nat },
                    ));
                    assert(self@ == old(self)@.commit(done@, label@));
                    assert(assignment.ensures((given,), Ok((done, ar))));
                }
                Ok(ar)
            },
            Err(e) => {
                assert(assignment.ensures((given,), Err(e)));
                Err(e)
            },
        }
    }
}

} // verus!
