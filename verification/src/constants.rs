//! Constants: each requested constant is written to the next free row of
//! the first constants column and tied to the cell that asked for it.

use vstd::prelude::*;
use crate::cell::{Cell, global_row, RegionStart, Value};
use crate::column::{Column, Fixed};
use crate::error::Error;
use crate::sink::{all_accepted, refused, SinkCall, SinkEvent};

verus! {

/// The name under which a constant is written.
pub open spec fn constant_annotation() -> Seq<char> {
    "Constant"@
}

/// The write of one constant at `row` of the constants column.
pub open spec fn constant_write<V>(column: Column<Fixed>, row: int, entry: (V, Cell)) -> SinkCall<V> {
    SinkCall::AssignFixed {
        annotation: constant_annotation(),
        column,
        row: row as usize,
        value: Value { inner: Some(entry.0) },
    }
}

/// The equality between the constant at `row` and the cell it is meant
/// for, at the cell's global row.
pub open spec fn constant_copy<V>(
    column: Column<Fixed>,
    row: int,
    entry: (V, Cell),
    starts: Seq<RegionStart>,
) -> SinkCall<V> {
    SinkCall::Copy {
        left_column: column.any(),
        left_row: row as usize,
        right_column: entry.1.column,
        right_row: global_row(starts, entry.1).unwrap(),
    }
}

/// The calls that resolve the pending constants, in order: for the entry
/// at place `i`, a write at row `first_row + i` and then the equality.
pub open spec fn constant_calls<V>(
    column: Column<Fixed>,
    first_row: int,
    pending: Seq<(V, Cell)>,
    starts: Seq<RegionStart>,
) -> Seq<SinkCall<V>>
    decreases pending.len(),
{
    if pending.len() == 0 {
        Seq::empty()
    } else {
        constant_calls(column, first_row, pending.drop_last(), starts).push(
            constant_write(column, first_row + pending.len() - 1, pending.last()),
        ).push(constant_copy(column, first_row + pending.len() - 1, pending.last(), starts))
    }
}

/// Whether every pending cell lies in a placed region, at a row that can
/// be counted.
pub open spec fn all_resolve<V>(pending: Seq<(V, Cell)>, starts: Seq<RegionStart>) -> bool {
    forall|i: int| 0 <= i < pending.len() ==> global_row(starts, (#[trigger] pending[i]).1) is Some
}

/// What a history and the row counter look like after the calls that
/// resolve constants were made in order and the first failure stopped the
/// run. With no failure all calls were accepted and every constant took a
/// row. With a failure at some call, the calls before it were accepted and
/// the constants before the one it belongs to took a row each.
pub open spec fn resolved<V>(
    before: Seq<SinkEvent<V>>,
    after: Seq<SinkEvent<V>>,
    calls: Seq<SinkCall<V>>,
    failure: Option<Error>,
    rows_used: int,
) -> bool {
    match failure {
        None => after == before + all_accepted(calls) && 2 * rows_used == calls.len(),
        Some(error) => exists|k: int|
            0 <= k < calls.len() && after == before + #[trigger] all_accepted(calls.take(k)).push(
                refused(calls[k], error),
            ) && rows_used == k / 2,
    }
}

/// Whether `pending` can be resolved: there is a constants column, every
/// cell lies in a placed region at a row that can be counted, and the
/// constants column has rows left for all of them.
pub open spec fn can_resolve<V>(
    columns: Seq<Column<Fixed>>,
    first_row: int,
    starts: Seq<RegionStart>,
    pending: Seq<(V, Cell)>,
) -> bool {
    &&& columns.len() > 0
    &&& all_resolve(pending, starts)
    &&& first_row + pending.len() <= usize::MAX
}

/// What resolving `pending` comes to, with `columns` as the constants
/// columns, `first_row` as the row for the next constant, and regions that
/// start at `starts`: the history of the sink goes from `before` to `after`,
/// the call ends with `failure`, and the next constant will go to
/// `next_row`.
///
/// With nothing pending nothing is done. With no constants column the call
/// fails before anything is written, and so it does where a cell has no row
/// or the constants column has too few rows left. Otherwise the calls of
/// `constant_calls` are made, on the first of the columns, until one fails.
pub open spec fn resolution<V>(
    columns: Seq<Column<Fixed>>,
    first_row: int,
    starts: Seq<RegionStart>,
    pending: Seq<(V, Cell)>,
    before: Seq<SinkEvent<V>>,
    after: Seq<SinkEvent<V>>,
    failure: Option<Error>,
    next_row: int,
) -> bool {
    if pending.len() == 0 {
        failure is None && after == before && next_row == first_row
    } else if columns.len() == 0 {
        failure == Some(Error::NotEnoughColumnsForConstants) && after == before && next_row
            == first_row
    } else if !can_resolve(columns, first_row, starts, pending) {
        failure == Some(Error::BoundsFailure) && after == before && next_row == first_row
    } else {
        resolved(
            before,
            after,
            constant_calls(columns[0], first_row, pending, starts),
            failure,
            next_row - first_row,
        )
    }
}

/// The pending constants of several regions, one list after the other.
pub open spec fn concatenated<V>(lists: Seq<Seq<(V, Cell)>>) -> Seq<(V, Cell)>
    decreases lists.len(),
{
    if lists.len() == 0 {
        Seq::empty()
    } else {
        concatenated(lists.drop_last()) + lists.last()
    }
}

/// Two calls are made for each constant, and the calls for the first
/// constants of a list are the first calls for the list.
pub proof fn constant_calls_prefix<V>(
    column: Column<Fixed>,
    first_row: int,
    pending: Seq<(V, Cell)>,
    starts: Seq<RegionStart>,
    i: int,
)
    requires
        0 <= i <= pending.len(),
    ensures
        constant_calls(column, first_row, pending, starts).len() == 2 * pending.len(),
        constant_calls(column, first_row, pending, starts).take(2 * i) == constant_calls(
            column,
            first_row,
            pending.take(i),
            starts,
        ),
        i < pending.len() ==> constant_calls(column, first_row, pending, starts)[2 * i]
            == constant_write(column, first_row + i, pending[i]),
        i < pending.len() ==> constant_calls(column, first_row, pending, starts)[2 * i + 1]
            == constant_copy(column, first_row + i, pending[i], starts),
    decreases pending.len(),
{
    let all = constant_calls(column, first_row, pending, starts);
    if pending.len() == 0 {
        assert(pending.take(0) =~= pending);
        assert(all.take(0) =~= all);
    } else {
        let shorter = pending.drop_last();
        let fewer = constant_calls(column, first_row, shorter, starts);
        if i == pending.len() {
            constant_calls_prefix(column, first_row, shorter, starts, i - 1);
            assert(pending.take(i) =~= pending);
            assert(all.take(2 * i) =~= all);
        } else {
            constant_calls_prefix(column, first_row, shorter, starts, i);
            assert(shorter.take(i) =~= pending.take(i));
            assert(all.take(2 * i) =~= fewer.take(2 * i));
            if i < shorter.len() {
                assert(shorter[i] == pending[i]);
            }
        }
    }
}

/// The calls for a list and one more constant are the calls for the list,
/// then the write and the equality of that constant.
pub proof fn constant_calls_step<V>(
    column: Column<Fixed>,
    first_row: int,
    pending: Seq<(V, Cell)>,
    starts: Seq<RegionStart>,
    i: int,
)
    requires
        0 <= i < pending.len(),
    ensures
        constant_calls(column, first_row, pending.take(i + 1), starts) == constant_calls(
            column,
            first_row,
            pending.take(i),
            starts,
        ).push(constant_write(column, first_row + i, pending[i])).push(
            constant_copy(column, first_row + i, pending[i], starts),
        ),
{
    assert(pending.take(i + 1).drop_last() =~= pending.take(i));
}

/// Resolving one list after another makes the calls of resolving the two
/// lists as one: the rows go on where the first list ended.
pub proof fn constant_calls_concat<V>(
    column: Column<Fixed>,
    first_row: int,
    first: Seq<(V, Cell)>,
    second: Seq<(V, Cell)>,
    starts: Seq<RegionStart>,
)
    ensures
        constant_calls(column, first_row, first + second, starts) == constant_calls(
            column,
            first_row,
            first,
            starts,
        ) + constant_calls(column, first_row + first.len(), second, starts),
    decreases second.len(),
{
    let whole = first + second;
    if second.len() == 0 {
        assert(whole =~= first);
        assert(constant_calls(column, first_row, first, starts) + Seq::<SinkCall<V>>::empty()
            =~= constant_calls(column, first_row, first, starts));
    } else {
        constant_calls_concat(column, first_row, first, second.drop_last(), starts);
        assert(whole.drop_last() =~= first + second.drop_last());
        assert(whole.last() == second.last());
        let head = constant_calls(column, first_row, first, starts);
        let tail = constant_calls(column, first_row + first.len(), second.drop_last(), starts);
        let write = constant_write(column, first_row + whole.len() - 1, whole.last());
        let copy = constant_copy(column, first_row + whole.len() - 1, whole.last(), starts);
        assert((head + tail).push(write).push(copy) =~= head + tail.push(write).push(copy));
    }
}


/// `starts` is how `longer` begins: the regions placed so far are still
/// where they were when more regions have been placed.
pub open spec fn begins_with(longer: Seq<RegionStart>, starts: Seq<RegionStart>) -> bool {
    starts.len() <= longer.len() && longer.take(starts.len() as int) == starts
}

/// A cell that has a row keeps it when more regions are placed.
pub proof fn row_stays(starts: Seq<RegionStart>, longer: Seq<RegionStart>, cell: Cell)
    requires
        begins_with(longer, starts),
        global_row(starts, cell) is Some,
    ensures
        global_row(longer, cell) == global_row(starts, cell),
{
    assert(longer.take(starts.len() as int)[cell.region_index.0 as int]
        == longer[cell.region_index.0 as int]);
}

/// Constants whose cells have rows are resolved by the same calls when
/// more regions have been placed.
pub proof fn constant_calls_stay<V>(
    column: Column<Fixed>,
    first_row: int,
    pending: Seq<(V, Cell)>,
    starts: Seq<RegionStart>,
    longer: Seq<RegionStart>,
)
    requires
        begins_with(longer, starts),
        all_resolve(pending, starts),
    ensures
        all_resolve(pending, longer),
        constant_calls(column, first_row, pending, longer) == constant_calls(
            column,
            first_row,
            pending,
            starts,
        ),
    decreases pending.len(),
{
    assert forall|i: int| 0 <= i < pending.len() implies global_row(
        longer,
        (#[trigger] pending[i]).1,
    ) is Some by {
        row_stays(starts, longer, pending[i].1);
    }
    if pending.len() > 0 {
        let fewer = pending.drop_last();
        assert forall|i: int| 0 <= i < fewer.len() implies global_row(
            starts,
            (#[trigger] fewer[i]).1,
        ) is Some by {
            assert(fewer[i] == pending[i]);
        }
        constant_calls_stay(column, first_row, fewer, starts, longer);
        row_stays(starts, longer, pending.last().1);
    }
}

/// If the cells of two lists have rows, so have those of the two lists as
/// one.
pub proof fn all_resolve_concat<V>(
    first: Seq<(V, Cell)>,
    second: Seq<(V, Cell)>,
    starts: Seq<RegionStart>,
)
    requires
        all_resolve(first, starts),
        all_resolve(second, starts),
    ensures
        all_resolve(first + second, starts),
{
    let whole = first + second;
    assert forall|i: int| 0 <= i < whole.len() implies global_row(
        starts,
        (#[trigger] whole[i]).1,
    ) is Some by {
        if i < first.len() {
            assert(whole[i] == first[i]);
        } else {
            assert(whole[i] == second[i - first.len()]);
        }
    }
}

} // verus!
