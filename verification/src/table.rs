//! Lookup tables: one pass that writes the cells of a table and keeps, for
//! each of its columns, the value at row 0 and which rows were written.

use vstd::prelude::*;
use crate::cell::Value;
use crate::column::{Column, Fixed, TableColumn};
use crate::error::Error;
use crate::region::TableLayouter;
use crate::sink::{Assignment, ran_until_failure, SinkCall, SinkEvent, Traced};

verus! {

/// What is known of one column of a table that is being written.
#[derive(Debug)]
pub struct TableEntry<V> {
    /// The column.
    pub column: TableColumn,
    /// The value written at row 0, once there is one. The rows after the
    /// table's last are filled with it.
    pub default: Option<Value<V>>,
    /// For each row up to the last one written, whether it was written.
    pub assigned: Vec<bool>,
}

/// A `TableEntry` as mathematics.
pub struct Coverage<V> {
    pub column: TableColumn,
    pub default: Option<Value<V>>,
    pub assigned: Seq<bool>,
}

impl<V> View for TableEntry<V> {
    type V = Coverage<V>;

    open spec fn view(&self) -> Coverage<V> {
        Coverage { column: self.column, default: self.default, assigned: self.assigned@ }
    }
}

/// The entries of a table as mathematics, in the order in which the
/// columns were first touched.
pub open spec fn coverage<V>(entries: Seq<TableEntry<V>>) -> Seq<Coverage<V>> {
    entries.map_values(|e: TableEntry<V>| e@)
}

/// The place of the first entry for `column`, or the number of entries if
/// there is none.
pub open spec fn find<V>(table: Seq<Coverage<V>>, column: TableColumn) -> int
    decreases table.len(),
{
    if table.len() == 0 {
        0
    } else if find(table.drop_last(), column) < table.len() - 1 {
        find(table.drop_last(), column)
    } else if table.last().column == column {
        table.len() - 1
    } else {
        table.len() as int
    }
}

/// The table once `column` has an entry: unchanged if it had one, with a
/// blank entry at the end if not.
pub open spec fn touched<V>(table: Seq<Coverage<V>>, column: TableColumn) -> Seq<Coverage<V>> {
    if find(table, column) < table.len() {
        table
    } else {
        table.push(Coverage { column, default: None, assigned: Seq::empty() })
    }
}

/// The written rows once `offset` is written too: the list reaches at
/// least to `offset`, rows that it did not reach before are unwritten, and
/// `offset` is written.
pub open spec fn marked(assigned: Seq<bool>, offset: int) -> Seq<bool> {
    Seq::new(
        if assigned.len() > offset {
            assigned.len()
        } else {
            (offset + 1) as nat
        },
        |j: int| j == offset || (j < assigned.len() && assigned[j]),
    )
}

/// Whether a write at `offset` would give `column` a second value for row
/// 0.
pub open spec fn second_default<V>(table: Seq<Coverage<V>>, column: TableColumn, offset: int) -> bool {
    offset == 0 && find(table, column) < table.len() && table[find(table, column)].default is Some
}

/// The table after `value` is written to `column` at `offset`: the
/// column's rows are marked, and a write to row 0 sets its default.
pub open spec fn written<V>(
    table: Seq<Coverage<V>>,
    column: TableColumn,
    offset: int,
    value: Value<V>,
) -> Seq<Coverage<V>> {
    let with_entry = touched(table, column);
    let at = find(with_entry, column);
    with_entry.update(
        at,
        Coverage {
            column: with_entry[at].column,
            default: if offset == 0 {
                Some(value)
            } else {
                with_entry[at].default
            },
            assigned: marked(with_entry[at].assigned, offset),
        },
    )
}

/// `find` gives the first entry for the column, if it gives one.
pub proof fn find_is_first<V>(table: Seq<Coverage<V>>, column: TableColumn)
    ensures
        0 <= find(table, column) <= table.len(),
        find(table, column) < table.len() ==> table[find(table, column)].column == column,
        forall|j: int| 0 <= j < find(table, column) ==> table[j].column != column,
    decreases table.len(),
{
    if table.len() > 0 {
        let shorter = table.drop_last();
        find_is_first(shorter, column);
        assert forall|j: int| 0 <= j < find(table, column) implies table[j].column != column by {
            if j < shorter.len() {
                assert(shorter[j] == table[j]);
            }
        }
        if find(table, column) < table.len() - 1 {
            assert(shorter[find(table, column)] == table[find(table, column)]);
        }
    }
}

/// An entry for the column with none before it is the one that `find`
/// gives.
pub proof fn first_is_found<V>(table: Seq<Coverage<V>>, column: TableColumn, at: int)
    requires
        0 <= at <= table.len(),
        at < table.len() ==> table[at].column == column,
        forall|j: int| 0 <= j < at ==> table[j].column != column,
    ensures
        find(table, column) == at,
{
    find_is_first(table, column);
    let found = find(table, column);
    if found < at {
        assert(table[found].column == column);
    }
}

/// The handle on a lookup table that is being written.
pub struct SimpleTableLayouter<'r, V, CS: Assignment<V>> {
    /// The sink that the writes go to, with what this handle has handed to
    /// it.
    pub cs: Traced<'r, V, CS>,
    /// The columns of the tables that are finished.
    pub used_columns: &'r Vec<TableColumn>,
    /// For each column touched so far, its default and its written rows.
    pub default_and_assigned: Vec<TableEntry<V>>,
}

/// Whether `column` is in the list.
pub fn table_column_in(columns: &Vec<TableColumn>, column: TableColumn) -> (found: bool)
    ensures
        found == columns@.contains(column),
{
    let mut i: usize = 0;
    while i < columns.len()
        invariant
            i <= columns.len(),
            forall|j: int| 0 <= j < i ==> columns@[j] != column,
        decreases columns.len() - i,
    {
        if columns[i] == column {
            return true;
        }
        i += 1;
    }
    false
}

impl<'r, V: Copy, CS: Assignment<V>> SimpleTableLayouter<'r, V, CS> {
    /// A handle on a table of which nothing is written yet.
    pub fn new(cs: Traced<'r, V, CS>, used_columns: &'r Vec<TableColumn>) -> (table: Self)
        ensures
            table.cs.events() == cs.events(),
            table.cs.held() == cs.held(),
            table.used_columns@ == used_columns@,
            table.default_and_assigned@ == Seq::<TableEntry<V>>::empty(),
    {
        SimpleTableLayouter { cs, used_columns, default_and_assigned: Vec::new() }
    }

    /// The place of the entry for `column`, after making a blank one at the
    /// end if there was none.
    fn entry(&mut self, column: TableColumn) -> (at: usize)
        ensures
            final(self).cs.events() == old(self).cs.events(),
            final(self).used_columns@ == old(self).used_columns@,
            coverage(final(self).default_and_assigned@) == touched(
                coverage(old(self).default_and_assigned@),
                column,
            ),
            at == find(coverage(final(self).default_and_assigned@), column),
            at < final(self).default_and_assigned@.len(),
    {
        let ghost table = coverage(self.default_and_assigned@);
        let mut i: usize = 0;
        while i < self.default_and_assigned.len()
            invariant
                i <= self.default_and_assigned.len(),
                self.default_and_assigned@ == old(self).default_and_assigned@,
                table == coverage(self.default_and_assigned@),
                forall|j: int| 0 <= j < i ==> table[j].column != column,
                self.cs.events() == old(self).cs.events(),
                self.used_columns@ == old(self).used_columns@,
            decreases self.default_and_assigned.len() - i,
        {
            if self.default_and_assigned[i].column == column {
                proof {
                    first_is_found(table, column, i as int);
                }
                return i;
            }
            i += 1;
        }
        proof {
            first_is_found(table, column, i as int);
        }
        self.default_and_assigned.push(TableEntry { column, default: None, assigned: Vec::new() });
        proof {
            let after = coverage(self.default_and_assigned@);
            assert(after =~= table.push(
                Coverage { column, default: None, assigned: Seq::empty() },
            ));
            first_is_found(after, column, i as int);
        }
        i
    }
}


/// Marks `offset` as written, lengthening the list with unwritten rows as
/// far as needed.
pub fn mark(assigned: &mut Vec<bool>, offset: usize)
    requires
        offset < usize::MAX,
    ensures
        final(assigned)@ == marked(old(assigned)@, offset as int),
{
    while assigned.len() <= offset
        invariant
            offset < usize::MAX,
            old(assigned)@.len() <= assigned@.len(),
            assigned@.len() <= offset + 1 || assigned@.len() == old(assigned)@.len(),
            forall|j: int| 0 <= j < old(assigned)@.len() ==> assigned@[j] == old(assigned)@[j],
            forall|j: int| old(assigned)@.len() <= j < assigned@.len() ==> !assigned@[j],
        decreases offset + 1 - assigned@.len(),
    {
        assigned.push(false);
    }
    assigned.set(offset, true);
    assert(assigned@ =~= marked(old(assigned)@, offset as int));
}

impl<'r, V: Copy, CS: Assignment<V>> TableLayouter<V> for SimpleTableLayouter<'r, V, CS> {
    /// Writes one cell of the table.
    ///
    /// A column of a finished table is refused, and so is a row that has no
    /// successor; neither reaches the sink. Otherwise the column gets an
    /// entry if it had none and the write goes to the sink, at the row
    /// `offset`. If the sink accepts it, a write to row 0 sets the column's
    /// default, unless it has one already, which is an error; and the row is
    /// marked as written.
    fn assign_cell(
        &mut self,
        annotation: &str,
        column: TableColumn,
        offset: usize,
        to: Value<V>,
    ) -> (r: Result<(), Error>)
        ensures
            final(self).used_columns@ == old(self).used_columns@,
            old(self).used_columns@.contains(column) ==> {
                &&& r == Err::<(), Error>(Error::Synthesis)
                &&& final(self).cs.events() == old(self).cs.events()
                &&& final(self).default_and_assigned@ == old(self).default_and_assigned@
            },
            !old(self).used_columns@.contains(column) && offset == usize::MAX ==> {
                &&& r == Err::<(), Error>(Error::BoundsFailure)
                &&& final(self).cs.events() == old(self).cs.events()
                &&& final(self).default_and_assigned@ == old(self).default_and_assigned@
            },
            !old(self).used_columns@.contains(column) && offset < usize::MAX ==> {
                let table = coverage(old(self).default_and_assigned@);
                let after = coverage(final(self).default_and_assigned@);
                let answer = final(self).cs.events().last().failure;
                &&& final(self).cs.events() == old(self).cs.events().push(
                    SinkEvent {
                        call: SinkCall::AssignFixed {
                            annotation: annotation@,
                            column: column.inner,
                            row: offset,
                            value: to,
                        },
                        failure: answer,
                    },
                )
                &&& match answer {
                    Some(error) => r == Err::<(), Error>(error) && after == touched(table, column),
                    None => if second_default(table, column, offset as int) {
                        r == Err::<(), Error>(Error::Synthesis) && after == touched(table, column)
                    } else {
                        r == Ok::<(), Error>(()) && after == written(
                            table,
                            column,
                            offset as int,
                            to,
                        )
                    },
                }
            },
    {
        if table_column_in(self.used_columns, column) {
            return Err(Error::Synthesis);
        }
        if offset == usize::MAX {
            return Err(Error::BoundsFailure);
        }
        let ghost table = coverage(self.default_and_assigned@);
        let at = self.entry(column);
        let ghost with_entry = coverage(self.default_and_assigned@);
        proof {
            find_is_first(table, column);
            find_is_first(with_entry, column);
        }
        match self.cs.assign_fixed(annotation, column.inner(), offset, to) {
            Ok(()) => {},
            Err(e) => {
                return Err(e);
            },
        }
        let mut entry = TableEntry { column, default: None, assigned: Vec::new() };
        self.default_and_assigned.set_and_swap(at, &mut entry);
        if offset == 0 {
            if entry.default.is_some() {
                self.default_and_assigned.set(at, entry);
                assert(coverage(self.default_and_assigned@) =~= with_entry);
                return Err(Error::Synthesis);
            }
            entry.default = Some(to);
        }
        mark(&mut entry.assigned, offset);
        self.default_and_assigned.set(at, entry);
        assert(coverage(self.default_and_assigned@) =~= written(table, column, offset as int, to));
        Ok(())
    }
}


/// Whether every row of the list is written.
pub open spec fn fully_written(assigned: Seq<bool>) -> bool {
    forall|j: int| 0 <= j < assigned.len() ==> assigned[j]
}

/// Whether a column is ready for a table of `length` rows: exactly the
/// rows 0 to `length - 1` are written, and it has a default.
pub open spec fn ready<V>(entry: Coverage<V>, length: int) -> bool {
    &&& entry.assigned.len() == length
    &&& fully_written(entry.assigned)
    &&& entry.default is Some
}

/// The number of rows of a table, which is the number of rows written in
/// each of its columns. A table has no length if it has no column, if two
/// of its columns differ in length, if a row was left out, or if a column
/// has no default.
pub open spec fn table_length<V>(table: Seq<Coverage<V>>) -> Option<int> {
    if table.len() > 0 && forall|i: int|
        0 <= i < table.len() ==> ready(#[trigger] table[i], table[0].assigned.len() as int) {
        Some(table[0].assigned.len() as int)
    } else {
        None
    }
}

/// The columns of a table, in the order in which they were first touched.
pub open spec fn columns_of<V>(table: Seq<Coverage<V>>) -> Seq<TableColumn> {
    table.map_values(|entry: Coverage<V>| entry.column)
}

/// The calls that fill each column of a table with its default from row
/// `length` on.
pub open spec fn fill_calls<V>(table: Seq<Coverage<V>>, length: int) -> Seq<SinkCall<V>> {
    table.map_values(
        |entry: Coverage<V>|
            SinkCall::FillFromRow {
                column: entry.column.inner,
                row: length as usize,
                value: entry.default.unwrap(),
            },
    )
}

/// What finishing a table comes to: the history of the sink goes from
/// `before` to `after`, the call ends with `failure`, and the columns of
/// finished tables go from `used` to `finished`.
///
/// A table without a length is refused before anything is done. Otherwise
/// its columns join the columns of finished tables, in the order in which
/// they were first touched, and then each column in turn is filled with its
/// default from the row after the table's last, until a fill fails.
pub open spec fn finishing<V>(
    table: Seq<Coverage<V>>,
    before: Seq<SinkEvent<V>>,
    after: Seq<SinkEvent<V>>,
    failure: Option<Error>,
    used: Seq<TableColumn>,
    finished: Seq<TableColumn>,
) -> bool {
    match table_length(table) {
        None => failure == Some(Error::Synthesis) && after == before && finished == used,
        Some(length) => finished == used + columns_of(table) && ran_until_failure(
            before,
            after,
            fill_calls(table, length),
            failure,
        ),
    }
}

/// Finishing a table takes no column out of the columns of finished
/// tables: a column that was refused before is refused ever after.
pub proof fn finished_columns_stay<V>(
    table: Seq<Coverage<V>>,
    before: Seq<SinkEvent<V>>,
    after: Seq<SinkEvent<V>>,
    failure: Option<Error>,
    used: Seq<TableColumn>,
    finished: Seq<TableColumn>,
    column: TableColumn,
)
    requires
        finishing(table, before, after, failure, used, finished),
        used.contains(column),
    ensures
        finished.contains(column),
{
    let i = choose|i: int| 0 <= i < used.len() && used[i] == column;
    if table_length(table) is Some {
        assert(finished[i] == column);
    }
}

/// Whether every row of the list is written.
pub fn all_written(assigned: &Vec<bool>) -> (all: bool)
    ensures
        all == fully_written(assigned@),
{
    let mut j: usize = 0;
    while j < assigned.len()
        invariant
            j <= assigned.len(),
            forall|k: int| 0 <= k < j ==> assigned@[k],
        decreases assigned.len() - j,
    {
        if !assigned[j] {
            return false;
        }
        j += 1;
    }
    true
}

/// Computes `table_length`.
pub fn length_of<V>(entries: &Vec<TableEntry<V>>) -> (length: Option<usize>)
    ensures
        match length {
            Some(rows) => table_length(coverage(entries@)) == Some(rows as int),
            None => table_length(coverage(entries@)) is None,
        },
{
    if entries.len() == 0 {
        return None;
    }
    let rows = entries[0].assigned.len();
    let ghost table = coverage(entries@);
    let mut i: usize = 0;
    while i < entries.len()
        invariant
            i <= entries.len(),
            entries@.len() > 0,
            table == coverage(entries@),
            rows == table[0].assigned.len(),
            forall|k: int| 0 <= k < i ==> ready(#[trigger] table[k], rows as int),
        decreases entries.len() - i,
    {
        let entry = &entries[i];
        if entry.assigned.len() != rows || !all_written(&entry.assigned) || entry.default.is_none() {
            assert(!ready(table[i as int], rows as int));
            return None;
        }
        i += 1;
    }
    Some(rows)
}

} // verus!
