//! The single-pass layouter: regions are placed in program order, each at
//! the earliest row where the columns it touches are free.

use vstd::prelude::*;
use crate::cell::{Cell, global_row, RegionIndex, RegionStart, resolve, Value};
use crate::column::{
    Advice,
    Any,
    Challenge,
    Column,
    Fixed,
    Instance,
    RegionColumn,
    Selector,
    TableColumn,
};
use crate::constants::{
    all_resolve,
    begins_with,
    constant_calls,
    constant_calls_prefix,
    constant_calls_step,
    constant_copy,
    constant_write,
    resolution,
};
use crate::error::Error;
use crate::placement::{LayoutModel, occupied_until, Placement};
use crate::region::{
    Circuit,
    FloorPlanner,
    Layouter,
    RegionAssignment,
    RegionLayouter,
    TableAssignment,
    TableLayouter,
};
use crate::shape::{RegionShape, ShapeModel};
use crate::sink::{
    accepted,
    all_accepted,
    Assignment,
    failure_of,
    name_of,
    ran_until_failure,
    refused,
    SinkCall,
    SinkEvent,
    Traced,
};
use crate::table::{
    columns_of,
    Coverage,
    coverage,
    fill_calls,
    finishing,
    length_of,
    ready,
    SimpleTableLayouter,
    table_length,
    TableEntry,
};

verus! {

/// The second pass over a region: a handle bound to the place of the
/// region. It turns offsets into global rows, forwards the writes to the
/// sink, and keeps the requests for constants until the region is done.
pub struct SingleChipLayouterRegion<'r, V, CS: Assignment<V>> {
    /// The sink that the writes go to, with what this handle has handed to
    /// it.
    pub cs: Traced<'r, V, CS>,
    /// The starts of the regions placed so far.
    pub regions: &'r Vec<RegionStart>,
    /// The number of the region.
    pub region_index: RegionIndex,
    /// The constants to be assigned, and the cells to which they are copied.
    pub constants: Vec<(V, Cell)>,
}

impl<'r, V: Copy, CS: Assignment<V>> SingleChipLayouterRegion<'r, V, CS> {
    /// The cell of this region at `offset` in `column`.
    pub open spec fn cell_at(&self, column: Column<Any>, offset: usize) -> Cell {
        Cell { region_index: self.region_index, row_offset: offset, column }
    }

    /// The global row of `offset`: the start of the region plus the offset.
    /// `None` where the region is not placed or the row cannot be counted.
    pub open spec fn row_at(&self, offset: usize) -> Option<usize> {
        global_row(
            self.regions@,
            self.cell_at(Column { index: 0, column_type: Any::Advice }, offset),
        )
    }

    /// A handle on the region `region_index`, with no constant requested.
    pub fn new(
        cs: Traced<'r, V, CS>,
        regions: &'r Vec<RegionStart>,
        region_index: RegionIndex,
    ) -> (region: Self)
        ensures
            region.cs.events() == cs.events(),
            region.cs.held() == cs.held(),
            region.regions@ == regions@,
            region.region_index == region_index,
            region.constants@ == Seq::<(V, Cell)>::empty(),
    {
        SingleChipLayouterRegion { cs, regions, region_index, constants: Vec::new() }
    }

    /// Computes `row_at`.
    pub fn global_row(&self, offset: usize) -> (row: Option<usize>)
        ensures
            row == self.row_at(offset),
    {
        resolve(
            self.regions,
            Cell {
                region_index: self.region_index,
                row_offset: offset,
                column: Column::<Any>::new(0, Any::Advice),
            },
        )
    }
}

impl<'r, V: Copy, CS: Assignment<V>> RegionLayouter<V> for SingleChipLayouterRegion<'r, V, CS> {
    open spec fn region_index(&self) -> RegionIndex {
        self.region_index
    }

    /// Switches the selector on at the global row of the offset. Where that
    /// row cannot be had, the sink is not called.
    fn enable_selector(&mut self, annotation: &str, selector: &Selector, offset: usize) -> (r:
        Result<(), Error>)
        ensures
            final(self).regions@ == old(self).regions@,
            final(self).constants@ == old(self).constants@,
            match old(self).row_at(offset) {
                Some(row) => final(self).cs.events() == old(self).cs.events().push(
                    SinkEvent {
                        call: SinkCall::EnableSelector {
                            annotation: annotation@,
                            selector: *selector,
                            row,
                        },
                        failure: failure_of(r),
                    },
                ),
                None => r == Err::<(), Error>(Error::BoundsFailure) && final(self).cs.events()
                    == old(self).cs.events(),
            },
    {
        match self.global_row(offset) {
            Some(row) => self.cs.enable_selector(annotation, selector, row),
            None => Err(Error::BoundsFailure),
        }
    }

    /// Hands the name to the sink.
    fn name_column(&mut self, annotation: &str, column: Column<Any>)
        ensures
            final(self).regions@ == old(self).regions@,
            final(self).constants@ == old(self).constants@,
            final(self).cs.events() == old(self).cs.events().push(
                SinkEvent {
                    call: SinkCall::AnnotateColumn { annotation: annotation@, column },
                    failure: None,
                },
            ),
    {
        self.cs.annotate_column(annotation, column);
    }

    /// Writes to the advice column at the global row of the offset.
    fn assign_advice(
        &mut self,
        annotation: &str,
        column: Column<Advice>,
        offset: usize,
        to: Value<V>,
    ) -> (r: Result<Cell, Error>)
        ensures
            final(self).regions@ == old(self).regions@,
            final(self).constants@ == old(self).constants@,
            match old(self).row_at(offset) {
                Some(row) => {
                    &&& final(self).cs.events() == old(self).cs.events().push(
                        SinkEvent {
                            call: SinkCall::AssignAdvice {
                                annotation: annotation@,
                                column,
                                row,
                                value: to,
                            },
                            failure: failure_of(r),
                        },
                    )
                    &&& r is Ok ==> r == Ok::<Cell, Error>(
                        old(self).cell_at(column.any(), offset),
                    )
                },
                None => r == Err::<Cell, Error>(Error::BoundsFailure) && final(self).cs.events()
                    == old(self).cs.events(),
            },
    {
        match self.global_row(offset) {
            Some(row) => match self.cs.assign_advice(annotation, column, row, to) {
                Ok(()) => Ok(
                    Cell {
                        region_index: self.region_index,
                        row_offset: offset,
                        column: Column::<Any>::from(column),
                    },
                ),
                Err(e) => Err(e),
            },
            None => Err(Error::BoundsFailure),
        }
    }

    /// Writes the constant to the advice column, as a known value, and
    /// keeps the request to tie the cell to the constant.
    fn assign_advice_from_constant(
        &mut self,
        annotation: &str,
        column: Column<Advice>,
        offset: usize,
        constant: V,
    ) -> (r: Result<Cell, Error>)
        ensures
            final(self).regions@ == old(self).regions@,
            match old(self).row_at(offset) {
                Some(row) => {
                    &&& final(self).cs.events() == old(self).cs.events().push(
                        SinkEvent {
                            call: SinkCall::AssignAdvice {
                                annotation: annotation@,
                                column,
                                row,
                                value: Value { inner: Some(constant) },
                            },
                            failure: failure_of(r),
                        },
                    )
                    &&& r is Ok ==> r == Ok::<Cell, Error>(old(self).cell_at(column.any(), offset))
                        && final(self).constants@ == old(self).constants@.push(
                        (constant, old(self).cell_at(column.any(), offset)),
                    )
                    &&& r is Err ==> final(self).constants@ == old(self).constants@
                },
                None => r == Err::<Cell, Error>(Error::BoundsFailure) && final(self).cs.events()
                    == old(self).cs.events() && final(self).constants@ == old(self).constants@,
            },
    {
        match self.assign_advice(annotation, column, offset, Value::known(constant)) {
            Ok(advice) => {
                self.constants.push((constant, advice));
                Ok(advice)
            },
            Err(e) => Err(e),
        }
    }

    /// Reads the instance cell, writes what it holds to the advice column,
    /// and ties the two cells together. The first of the three that fails
    /// ends the call; and where the advice cell has no global row, the call
    /// ends after the query.
    fn assign_advice_from_instance(
        &mut self,
        annotation: &str,
        instance: Column<Instance>,
        row: usize,
        advice: Column<Advice>,
        offset: usize,
    ) -> (r: Result<(Cell, Value<V>), Error>)
        ensures
            final(self).regions@ == old(self).regions@,
            final(self).constants@ == old(self).constants@,
            final(self).cs.events().len() > old(self).cs.events().len(),
            ({
                let query = final(self).cs.events()[old(self).cs.events().len() as int];
                let queried = old(self).cs.events().push(query);
                &&& query.call is QueryInstance
                &&& query.call == (SinkCall::QueryInstance {
                    column: instance,
                    row,
                    value: query.call->QueryInstance_value,
                })
                &&& match (query.failure, query.call->QueryInstance_value, old(self).row_at(offset)) {
                    (None, Some(value), Some(global)) => {
                        &&& ran_until_failure(
                            queried,
                            final(self).cs.events(),
                            seq![
                                SinkCall::AssignAdvice {
                                    annotation: annotation@,
                                    column: advice,
                                    row: global,
                                    value,
                                },
                                SinkCall::Copy {
                                    left_column: advice.any(),
                                    left_row: global,
                                    right_column: instance.any(),
                                    right_row: row,
                                },
                            ],
                            failure_of(r),
                        )
                        &&& r is Ok ==> r == Ok::<(Cell, Value<V>), Error>(
                            (old(self).cell_at(advice.any(), offset), value),
                        )
                    },
                    (None, Some(_), None) => {
                        &&& r == Err::<(Cell, Value<V>), Error>(Error::BoundsFailure)
                        &&& final(self).cs.events() == queried
                    },
                    (Some(error), _, _) => {
                        &&& r == Err::<(Cell, Value<V>), Error>(error)
                        &&& final(self).cs.events() == queried
                    },
                    (None, None, _) => false,
                }
            }),
    {
        let ghost before = self.cs.events();
        let value = match self.cs.query_instance(instance, row) {
            Ok(value) => value,
            Err(e) => {
                return Err(e);
            },
        };
        let ghost queried = self.cs.events();
        let cell = match self.assign_advice(annotation, advice, offset, value) {
            Ok(cell) => cell,
            Err(e) => {
                proof {
                    if old(self).row_at(offset) is Some {
                        let calls = seq![
                            SinkCall::AssignAdvice {
                                annotation: annotation@,
                                column: advice,
                                row: old(self).row_at(offset).unwrap(),
                                value,
                            },
                            SinkCall::Copy {
                                left_column: advice.any(),
                                left_row: old(self).row_at(offset).unwrap(),
                                right_column: instance.any(),
                                right_row: row,
                            },
                        ];
                        assert(calls.take(0) =~= Seq::<SinkCall<V>>::empty());
                        assert(all_accepted(calls.take(0)) =~= Seq::<
                            SinkEvent<V>,
                        >::empty());
                        assert(self.cs.events() =~= queried + all_accepted(
                            calls.take(0),
                        ).push(refused(calls[0], e)));
                    }
                }
                return Err(e);
            },
        };
        let global = match self.global_row(offset) {
            Some(global) => global,
            None => {
                return Err(Error::BoundsFailure);
            },
        };
        let copied = self.cs.copy(cell.column, global, Column::<Any>::from(instance), row);
        proof {
            let calls = seq![
                SinkCall::AssignAdvice { annotation: annotation@, column: advice, row: global, value },
                SinkCall::Copy {
                    left_column: advice.any(),
                    left_row: global,
                    right_column: instance.any(),
                    right_row: row,
                },
            ];
            match copied {
                Ok(()) => {
                    assert(self.cs.events() =~= queried + all_accepted(calls));
                },
                Err(e) => {
                    assert(calls.take(1) =~= seq![calls[0]]);
                    assert(self.cs.events() =~= queried + all_accepted(
                        calls.take(1),
                    ).push(refused(calls[1], e)));
                },
            }
        }
        match copied {
            Ok(()) => Ok((cell, value)),
            Err(e) => Err(e),
        }
    }

    /// Writes to the fixed column at the global row of the offset.
    fn assign_fixed(
        &mut self,
        annotation: &str,
        column: Column<Fixed>,
        offset: usize,
        to: Value<V>,
    ) -> (r: Result<Cell, Error>)
        ensures
            final(self).regions@ == old(self).regions@,
            final(self).constants@ == old(self).constants@,
            match old(self).row_at(offset) {
                Some(row) => {
                    &&& final(self).cs.events() == old(self).cs.events().push(
                        SinkEvent {
                            call: SinkCall::AssignFixed {
                                annotation: annotation@,
                                column,
                                row,
                                value: to,
                            },
                            failure: failure_of(r),
                        },
                    )
                    &&& r is Ok ==> r == Ok::<Cell, Error>(
                        old(self).cell_at(column.any(), offset),
                    )
                },
                None => r == Err::<Cell, Error>(Error::BoundsFailure) && final(self).cs.events()
                    == old(self).cs.events(),
            },
    {
        match self.global_row(offset) {
            Some(row) => match self.cs.assign_fixed(annotation, column, row, to) {
                Ok(()) => Ok(
                    Cell {
                        region_index: self.region_index,
                        row_offset: offset,
                        column: Column::<Any>::from(column),
                    },
                ),
                Err(e) => Err(e),
            },
            None => Err(Error::BoundsFailure),
        }
    }

    /// Keeps the request. The sink is not called.
    fn constrain_constant(&mut self, cell: Cell, constant: V) -> (r: Result<(), Error>)
        ensures
            final(self).regions@ == old(self).regions@,
            final(self).cs.events() == old(self).cs.events(),
            final(self).constants@ == old(self).constants@.push((constant, cell)),
            r is Ok,
    {
        self.constants.push((constant, cell));
        Ok(())
    }

    /// Asserts on the sink that the two cells are equal, each at its global
    /// row. The cells may lie in any region placed so far. Where a row
    /// cannot be had, the sink is not called.
    fn constrain_equal(&mut self, left: Cell, right: Cell) -> (r: Result<(), Error>)
        ensures
            final(self).regions@ == old(self).regions@,
            final(self).constants@ == old(self).constants@,
            match (
                global_row(old(self).regions@, left),
                global_row(old(self).regions@, right),
            ) {
                (Some(left_row), Some(right_row)) => {
                    final(self).cs.events() == old(self).cs.events().push(
                        SinkEvent {
                            call: SinkCall::Copy {
                                left_column: left.column,
                                left_row,
                                right_column: right.column,
                                right_row,
                            },
                            failure: failure_of(r),
                        },
                    )
                },
                _ => {
                    &&& r == Err::<(), Error>(Error::BoundsFailure)
                    &&& final(self).cs.events() == old(self).cs.events()
                },
            },
    {
        let left_row = resolve(self.regions, left);
        let right_row = resolve(self.regions, right);
        match (left_row, right_row) {
            (Some(left_row), Some(right_row)) => self.cs.copy(
                left.column,
                left_row,
                right.column,
                right_row,
            ),
            _ => Err(Error::BoundsFailure),
        }
    }
}


/// A layouter for a single-chip circuit.
pub struct SingleChipLayouter<'a, V, CS: Assignment<V>> {
    /// The sink that the circuit is written to, with what has been handed
    /// to it.
    pub cs: Traced<'a, V, CS>,
    /// The fixed columns that may hold constants. Only the first is used.
    pub constants: Vec<Column<Fixed>>,
    /// The start of each region and the first free row of each column.
    pub placement: Placement,
    /// The columns of the tables that are finished.
    pub table_columns: Vec<TableColumn>,
    /// The row of the constants column that the next constant goes to.
    pub next_constant_row: usize,
}

impl<'a, V: Copy, CS: Assignment<V>> SingleChipLayouter<'a, V, CS> {
    /// Creates a new single-chip layouter: no region is placed, no table
    /// is finished, and the first constant will go to row 0.
    pub fn new(cs: &'a mut CS, constants: Vec<Column<Fixed>>) -> (r: Result<Self, Error>)
        ensures
            r matches Ok(layouter) && {
                &&& layouter.cs.events() == Seq::<SinkEvent<V>>::empty()
                &&& layouter.cs.held() == *old(cs)
                &&& layouter.constants@ == constants@
                &&& layouter.placement@ == LayoutModel::empty()
                &&& layouter.table_columns@ == Seq::<TableColumn>::empty()
                &&& layouter.next_constant_row == 0
            },
    {
        Ok(
            SingleChipLayouter {
                cs: Traced::new(cs),
                constants,
                placement: Placement::new(),
                table_columns: Vec::new(),
                next_constant_row: 0,
            },
        )
    }

    /// Resolves the pending constants, in order.
    ///
    /// With nothing pending nothing is done. With no constants column the
    /// call fails before anything is written, and so it does where a cell
    /// has no row or the constants column has too few rows left. Otherwise
    /// each constant in turn is written to the next free row of the first
    /// constants column and made equal to its cell, and then the row is
    /// taken; the first call that the sink refuses ends the run, and its
    /// error is returned.
    pub fn resolve_constants(&mut self, constants_to_assign: Vec<(V, Cell)>) -> (r: Result<
        (),
        Error,
    >)
        ensures
            final(self).constants@ == old(self).constants@,
            final(self).placement@ == old(self).placement@,
            final(self).table_columns@ == old(self).table_columns@,
            resolution(
                old(self).constants@,
                old(self).next_constant_row as int,
                old(self).placement@.regions,
                constants_to_assign@,
                old(self).cs.events(),
                final(self).cs.events(),
                failure_of(r),
                final(self).next_constant_row as int,
            ),
    {
        let count = constants_to_assign.len();
        if count == 0 {
            return Ok(());
        }
        if self.constants.len() == 0 {
            return Err(Error::NotEnoughColumnsForConstants);
        }
        let constants_column = self.constants[0];
        if self.next_constant_row.checked_add(count).is_none() {
            return Err(Error::BoundsFailure);
        }
        let mut i: usize = 0;
        while i < count
            invariant
                i <= count,
                count == constants_to_assign@.len(),
                count > 0,
                old(self).constants@.len() > 0,
                self.cs.events() == old(self).cs.events(),
                self.next_constant_row == old(self).next_constant_row,
                self.next_constant_row + count <= usize::MAX,
                self.placement@ == old(self).placement@,
                self.constants@ == old(self).constants@,
                self.table_columns@ == old(self).table_columns@,
                forall|j: int|
                    0 <= j < i ==> global_row(
                        self.placement@.regions,
                        (#[trigger] constants_to_assign@[j]).1,
                    ) is Some,
            decreases count - i,
        {
            if resolve(self.placement.regions(), constants_to_assign[i].1).is_none() {
                return Err(Error::BoundsFailure);
            }
            i += 1;
        }
        let ghost before = self.cs.events();
        let ghost first_row = self.next_constant_row as int;
        let ghost starts = self.placement@.regions;
        let ghost pending = constants_to_assign@;
        let ghost calls = constant_calls(
            constants_column,
            first_row,
            pending,
            starts,
        );
        let mut i: usize = 0;
        assert(pending.take(0) =~= Seq::<(V, Cell)>::empty());
        assert(before + all_accepted(Seq::<SinkCall<V>>::empty()) =~= before);
        while i < count
            invariant
                i <= count,
                count == pending.len(),
                count > 0,
                old(self).constants@.len() > 0,
                pending == constants_to_assign@,
                first_row + count <= usize::MAX,
                self.next_constant_row == first_row + i,
                all_resolve(pending, starts),
                starts == self.placement@.regions,
                self.placement@ == old(self).placement@,
                self.constants@ == old(self).constants@,
                self.table_columns@ == old(self).table_columns@,
                first_row == old(self).next_constant_row,
                before == old(self).cs.events(),
                constants_column == old(self).constants@[0],
                calls == constant_calls(
                    constants_column,
                    first_row,
                    pending,
                    starts,
                ),
                self.cs.events() == before + all_accepted(
                    constant_calls(
                        constants_column,
                        first_row,
                        pending.take(i as int),
                        starts,
                    ),
                ),
            decreases count - i,
        {
            let entry = constants_to_assign[i];
            let constant = entry.0;
            let advice = entry.1;
            let row = self.next_constant_row;
            let ghost done = constant_calls(
                constants_column,
                first_row,
                pending.take(i as int),
                starts,
            );
            proof {
                constant_calls_prefix(
                    constants_column,
                    first_row,
                    pending,
                    starts,
                    i as int,
                );
                constant_calls_step(
                    constants_column,
                    first_row,
                    pending,
                    starts,
                    i as int,
                );
            }
            let written = self.cs.assign_fixed(
                "Constant",
                constants_column,
                row,
                Value::known(constant),
            );
            match written {
                Ok(()) => {},
                Err(e) => {
                    proof {
                        assert(self.cs.events() =~= before + all_accepted(
                            calls.take(2 * i as int),
                        ).push(refused(calls[2 * i as int], e)));
                    }
                    return Err(e);
                },
            }
            let advice_row = match resolve(self.placement.regions(), advice) {
                Some(advice_row) => advice_row,
                None => {
                    assert(false);
                    return Err(Error::BoundsFailure);
                },
            };
            let copied = self.cs.copy(
                Column::<Any>::from(constants_column),
                row,
                advice.column,
                advice_row,
            );
            match copied {
                Ok(()) => {},
                Err(e) => {
                    proof {
                        let write = constant_write(
                            constants_column,
                            first_row + i,
                            pending[i as int],
                        );
                        assert(calls.take(2 * i as int + 1) =~= done.push(write));
                        assert(all_accepted(done.push(write))
                            =~= all_accepted(done).push(accepted(write)));
                        assert(self.cs.events() =~= before + all_accepted(
                            calls.take(2 * i as int + 1),
                        ).push(refused(calls[2 * i as int + 1], e)));
                    }
                    return Err(e);
                },
            }
            proof {
                let write = constant_write(
                    constants_column,
                    first_row + i,
                    pending[i as int],
                );
                let copy = constant_copy(
                    constants_column,
                    first_row + i,
                    pending[i as int],
                    starts,
                );
                assert(all_accepted(done.push(write).push(copy))
                    =~= all_accepted(done).push(accepted(write)).push(
                    accepted(copy),
                ));
                assert(self.cs.events() =~= before + all_accepted(
                    done.push(write).push(copy),
                ));
            }
            self.next_constant_row = row + 1;
            i += 1;
        }
        proof {
            assert(pending.take(count as int) =~= pending);
            constant_calls_prefix(
                constants_column,
                first_row,
                pending,
                starts,
                count as int,
            );
        }
        Ok(())
    }
}


impl<'a, V: Copy, CS: Assignment<V>> SingleChipLayouter<'a, V, CS> {
    /// Finishes a table from the entries of its columns.
    ///
    /// A table without a length is refused before anything is done.
    /// Otherwise its columns join the columns of finished tables, in the
    /// order in which they were first touched, and then each column in turn
    /// is filled with its default from the row after the table's last; the
    /// first fill that the sink refuses ends the run, and its error is
    /// returned.
    pub fn finish_table(&mut self, default_and_assigned: Vec<TableEntry<V>>) -> (r:
        Result<(), Error>)
        ensures
            final(self).constants@ == old(self).constants@,
            final(self).placement@ == old(self).placement@,
            final(self).next_constant_row == old(self).next_constant_row,
            finishing(
                coverage(default_and_assigned@),
                old(self).cs.events(),
                final(self).cs.events(),
                failure_of(r),
                old(self).table_columns@,
                final(self).table_columns@,
            ),
    {
        let first_unused = match length_of(&default_and_assigned) {
            Some(length) => length,
            None => {
                return Err(Error::Synthesis);
            },
        };
        let ghost table = coverage(default_and_assigned@);
        let ghost columns = columns_of(table);
        let ghost calls = fill_calls(table, first_unused as int);
        let ghost before = self.cs.events();
        let count = default_and_assigned.len();
        let mut i: usize = 0;
        while i < count
            invariant
                i <= count,
                count == default_and_assigned@.len(),
                table == coverage(default_and_assigned@),
                columns == columns_of(table),
                self.table_columns@ == old(self).table_columns@ + columns.take(i as int),
                self.cs.events() == old(self).cs.events(),
                self.constants@ == old(self).constants@,
                self.placement@ == old(self).placement@,
                self.next_constant_row == old(self).next_constant_row,
            decreases count - i,
        {
            self.table_columns.push(default_and_assigned[i].column);
            assert(self.table_columns@ =~= old(self).table_columns@ + columns.take(i as int + 1));
            i += 1;
        }
        assert(columns.take(count as int) =~= columns);
        let mut i: usize = 0;
        assert(before + all_accepted(calls.take(0)) =~= before);
        while i < count
            invariant
                i <= count,
                count == default_and_assigned@.len(),
                table == coverage(default_and_assigned@),
                table_length(table) == Some(first_unused as int),
                calls == fill_calls(table, first_unused as int),
                before == old(self).cs.events(),
                self.cs.events() == before + all_accepted(calls.take(i as int)),
                self.table_columns@ == old(self).table_columns@ + columns_of(table),
                self.constants@ == old(self).constants@,
                self.placement@ == old(self).placement@,
                self.next_constant_row == old(self).next_constant_row,
            decreases count - i,
        {
            let entry = &default_and_assigned[i];
            assert(ready(table[i as int], first_unused as int));
            let default_val = match entry.default {
                Some(value) => value,
                None => {
                    assert(false);
                    return Err(Error::Synthesis);
                },
            };
            let filled = self.cs.fill_from_row(entry.column.inner(), first_unused, default_val);
            match filled {
                Ok(()) => {},
                Err(e) => {
                    assert(self.cs.events() =~= before + all_accepted(
                        calls.take(i as int),
                    ).push(refused(calls[i as int], e)));
                    return Err(e);
                },
            }
            assert(all_accepted(calls.take(i as int + 1))
                =~= all_accepted(calls.take(i as int)).push(
                accepted(calls[i as int]),
            ));
            i += 1;
        }
        assert(calls.take(count as int) =~= calls);
        Ok(())
    }
}


impl<'a, V: Copy, CS: Assignment<V>> SingleChipLayouter<'a, V, CS> {
    /// What laying out a region comes to, from this layouter to `after`,
    /// where the region's logic made a region of the shape `shape`, handed
    /// `during` to the sink in its second run, and asked for the constants
    /// `pending`.
    ///
    /// Either the logic fails in its first run or the region does not fit:
    /// then the call fails and nothing has changed. Or the region is placed,
    /// the sink is told that it begins, and the logic fails in its second
    /// run: then the call fails, and the sink has received no more. Or the
    /// sink is told that the region ends as well, and the constants are
    /// resolved. A region that is placed touches finitely many columns.
    pub open spec fn lays_out(
        &self,
        after: &Self,
        name: Seq<char>,
        failure: Option<Error>,
        shape: ShapeModel,
        during: Seq<SinkEvent<V>>,
        pending: Seq<(V, Cell)>,
    ) -> bool {
        let entered = self.cs.events().push(
            accepted(SinkCall::EnterRegion { name }),
        );
        let left = (entered + during).push(accepted(SinkCall::ExitRegion));
        ||| {
            &&& failure is Some
            &&& after.placement@ == self.placement@
            &&& after.cs.events() == self.cs.events()
            &&& after.next_constant_row == self.next_constant_row
        }
        ||| {
            &&& failure is Some
            &&& shape.columns.finite()
            &&& self.placement@.fits(shape)
            &&& after.placement@ == self.placement@.place(shape)
            &&& after.cs.events() == entered + during
            &&& after.next_constant_row == self.next_constant_row
        }
        ||| {
            &&& shape.columns.finite()
            &&& self.placement@.fits(shape)
            &&& after.placement@ == self.placement@.place(shape)
            &&& resolution(
                self.constants@,
                self.next_constant_row as int,
                after.placement@.regions,
                pending,
                left,
                after.cs.events(),
                failure,
                after.next_constant_row as int,
            )
        }
    }

    /// What laying out a table comes to, from this layouter to `after`,
    /// where the table's logic handed `during` to the sink and left the
    /// entries `table`.
    ///
    /// The sink is told that a region begins. Either the logic fails: then
    /// the call fails, and the sink has received no more. Or the sink is
    /// told that the region ends, and the table is finished.
    pub open spec fn lays_out_table(
        &self,
        after: &Self,
        name: Seq<char>,
        failure: Option<Error>,
        during: Seq<SinkEvent<V>>,
        table: Seq<Coverage<V>>,
    ) -> bool {
        let entered = self.cs.events().push(
            accepted(SinkCall::EnterRegion { name }),
        );
        let left = (entered + during).push(accepted(SinkCall::ExitRegion));
        ||| {
            &&& failure is Some
            &&& after.table_columns@ == self.table_columns@
            &&& after.cs.events() == entered + during
        }
        ||| finishing(
            table,
            left,
            after.cs.events(),
            failure,
            self.table_columns@,
            after.table_columns@,
        )
    }

    /// Laying out a region changes no start that was assigned before and
    /// frees no row of any column, however the call ends.
    pub proof fn laying_out_keeps_what_is_placed(
        &self,
        after: &Self,
        name: Seq<char>,
        failure: Option<Error>,
        shape: ShapeModel,
        during: Seq<SinkEvent<V>>,
        pending: Seq<(V, Cell)>,
        column: RegionColumn,
    )
        requires
            self.lays_out(after, name, failure, shape, during, pending),
        ensures
            begins_with(after.placement@.regions, self.placement@.regions),
            after.placement@.regions.len() <= self.placement@.regions.len() + 1,
            failure is None ==> after.placement@.regions.len() == self.placement@.regions.len()
                + 1,
            occupied_until(after.placement@.occupancy, column) >= occupied_until(
                self.placement@.occupancy,
                column,
            ),
    {
        let before = self.placement@;
        assert(before.regions.take(before.regions.len() as int) =~= before.regions);
        if after.placement@ != before {
            before.place_keeps_earlier_starts(shape);
            before.place_never_frees_a_row(shape, column);
        }
    }
}

impl<'a, V: Copy, CS: Assignment<V>> Layouter<V> for SingleChipLayouter<'a, V, CS> {
    /// Lays out one region.
    ///
    /// The logic is first run against a fresh shape. If it fails there, or
    /// the region does not fit, the error is returned and nothing has
    /// changed. Otherwise the region is placed as `Placement::place` says,
    /// the sink is told that the region begins, and the logic is run again,
    /// against a handle bound to the region's place. If it fails now, its
    /// error is returned at once. Otherwise the sink is told that the region
    /// ends, and the constants that the logic asked for are resolved as
    /// `resolve_constants` says.
    ///
    /// The logic decides what shape the region has, what reaches the sink
    /// while it runs, and which constants are pending, so the contract
    /// speaks of some shape, some calls and some list of constants.
    fn assign_region<A: RegionAssignment<V>>(&mut self, name: &str, assignment: A) -> (r: Result<
        A::Output,
        Error,
    >)
        ensures
            final(self).constants@ == old(self).constants@,
            final(self).table_columns@ == old(self).table_columns@,
            exists|
                shape: ShapeModel,
                during: Seq<SinkEvent<V>>,
                pending: Seq<(V, Cell)>,
            |
                old(self).lays_out(
                    final(self),
                    name@,
                    failure_of(r),
                    shape,
                    during,
                    pending,
                ),
    {
        let mut assignment = assignment;
        let region_index = self.placement.regions().len();

        // Get shape of the region.
        let mut shape: RegionShape<V> = RegionShape::new(RegionIndex(region_index));
        match assignment.assign(&mut shape) {
            Ok(_) => {},
            Err(e) => {
                proof {
                    assert(old(self).lays_out(
                        self,
                        name@,
                        Some(e),
                        shape@,
                        Seq::empty(),
                        Seq::empty(),
                    ));
                }
                return Err(e);
            },
        }

        // Lay out this region: position it at the earliest row for which
        // none of its columns are in use, and update the column usage.
        proof {
            shape.touches_finitely_many();
        }
        match self.placement.place(&shape) {
            Ok(_) => {},
            Err(e) => {
                proof {
                    assert(old(self).lays_out(
                        self,
                        name@,
                        Some(e),
                        shape@,
                        Seq::empty(),
                        Seq::empty(),
                    ));
                }
                return Err(e);
            },
        }

        // Assign region cells.
        self.cs.enter_region(name);
        let mut region = SingleChipLayouterRegion::new(
            self.cs.lend(),
            self.placement.regions(),
            RegionIndex(region_index),
        );
        let outcome = assignment.assign(&mut region);
        let ghost during = region.cs.events();
        let constants_to_assign = region.constants;
        self.cs.resume(Ghost(during));
        let result = match outcome {
            Ok(result) => result,
            Err(e) => {
                proof {
                    assert(old(self).lays_out(self, name@, Some(e), shape@, during, Seq::empty()));
                }
                return Err(e);
            },
        };
        self.cs.exit_region();

        // Assign constants, in order, in the first constants column.
        let ghost pending = constants_to_assign@;
        match self.resolve_constants(constants_to_assign) {
            Ok(()) => {
                proof {
                    assert(old(self).lays_out(self, name@, None, shape@, during, pending));
                }
                Ok(result)
            },
            Err(e) => {
                proof {
                    assert(old(self).lays_out(self, name@, Some(e), shape@, during, pending));
                }
                Err(e)
            },
        }
    }

    /// Lays out one lookup table.
    ///
    /// The sink is told that a region begins, and the logic is run against
    /// a handle that knows the columns of the finished tables. If it fails,
    /// its error is returned at once. Otherwise the sink is told that the
    /// region ends, and the table is finished as `finish_table` says, from
    /// the entries that the logic left.
    ///
    /// The logic decides what reaches the sink while it runs and which
    /// entries it leaves, so the contract speaks of some calls and some
    /// entries.
    fn assign_table<A: TableAssignment<V>>(&mut self, name: &str, assignment: A) -> (r: Result<
        (),
        Error,
    >)
        ensures
            final(self).constants@ == old(self).constants@,
            final(self).placement@ == old(self).placement@,
            final(self).next_constant_row == old(self).next_constant_row,
            exists|during: Seq<SinkEvent<V>>, table: Seq<Coverage<V>>|
                old(self).lays_out_table(
                    final(self),
                    name@,
                    failure_of(r),
                    during,
                    table,
                ),
    {
        let mut assignment = assignment;

        // Assign table cells.
        self.cs.enter_region(name);
        let mut table = SimpleTableLayouter::new(self.cs.lend(), &self.table_columns);
        let outcome = assignment.assign(&mut table);
        let ghost during = table.cs.events();
        let default_and_assigned = table.default_and_assigned;
        self.cs.resume(Ghost(during));
        match outcome {
            Ok(()) => {},
            Err(e) => {
                proof {
                    assert(old(self).lays_out_table(self, name@, Some(e), during, Seq::empty()));
                }
                return Err(e);
            },
        }
        self.cs.exit_region();

        // Check that all table columns have the same length, and that all
        // cells up to that length are assigned; record the columns so that
        // they cannot be used again; fill the rest of each with its default.
        let ghost entries = coverage(default_and_assigned@);
        let r = self.finish_table(default_and_assigned);
        proof {
            assert(old(self).lays_out_table(
                self,
                name@,
                failure_of(r),
                during,
                entries,
            ));
        }
        r
    }

    /// Asserts on the sink that the cell, at its global row, equals the
    /// instance cell. Where the cell has no row, the sink is not called.
    fn constrain_instance(&mut self, cell: Cell, column: Column<Instance>, row: usize) -> (r:
        Result<(), Error>)
        ensures
            final(self).constants@ == old(self).constants@,
            final(self).placement@ == old(self).placement@,
            final(self).table_columns@ == old(self).table_columns@,
            final(self).next_constant_row == old(self).next_constant_row,
            match global_row(old(self).placement@.regions, cell) {
                Some(cell_row) => final(self).cs.events() == old(self).cs.events().push(
                    SinkEvent {
                        call: SinkCall::Copy {
                            left_column: cell.column,
                            left_row: cell_row,
                            right_column: column.any(),
                            right_row: row,
                        },
                        failure: failure_of(r),
                    },
                ),
                None => r == Err::<(), Error>(Error::BoundsFailure) && final(self).cs.events()
                    == old(self).cs.events(),
            },
    {
        match resolve(self.placement.regions(), cell) {
            Some(cell_row) => self.cs.copy(cell.column, cell_row, Column::<Any>::from(column), row),
            None => Err(Error::BoundsFailure),
        }
    }

    /// Asks the sink for the value of the challenge and hands the answer
    /// on. Nothing is placed and nothing is written.
    fn get_challenge(&mut self, challenge: Challenge) -> (v: Value<V>)
        ensures
            final(self).constants@ == old(self).constants@,
            final(self).placement@ == old(self).placement@,
            final(self).table_columns@ == old(self).table_columns@,
            final(self).next_constant_row == old(self).next_constant_row,
            final(self).cs.events() == old(self).cs.events().push(
                SinkEvent { call: SinkCall::GetChallenge { challenge, value: v }, failure: None },
            ),
    {
        self.cs.get_challenge(challenge)
    }

    /// Hands the name to the sink.
    fn push_namespace(&mut self, name: &str)
        ensures
            final(self).constants@ == old(self).constants@,
            final(self).placement@ == old(self).placement@,
            final(self).table_columns@ == old(self).table_columns@,
            final(self).next_constant_row == old(self).next_constant_row,
            final(self).cs.events() == old(self).cs.events().push(
                SinkEvent { call: SinkCall::PushNamespace { name: name@ }, failure: None },
            ),
    {
        self.cs.push_namespace(name)
    }

    /// Hands the name to the sink.
    fn pop_namespace(&mut self, gadget_name: Option<String>)
        ensures
            final(self).constants@ == old(self).constants@,
            final(self).placement@ == old(self).placement@,
            final(self).table_columns@ == old(self).table_columns@,
            final(self).next_constant_row == old(self).next_constant_row,
            final(self).cs.events() == old(self).cs.events().push(
                SinkEvent {
                    call: SinkCall::PopNamespace {
                        gadget_name: name_of(gadget_name),
                    },
                    failure: None,
                },
            ),
    {
        self.cs.pop_namespace(gadget_name)
    }
}


/// A simple floor planner that performs no optimizations: it reflects the
/// circuit's own order in the layout, and does not reorder regions to pack
/// them better.
#[derive(Debug)]
pub struct SimpleFloorPlanner;

impl FloorPlanner for SimpleFloorPlanner {
    /// Makes a single-chip layouter on the sink and lets the circuit lay
    /// itself out on it. The circuit decides what comes back.
    fn synthesize<V: Copy, CS: Assignment<V>, C: Circuit<V>>(
        cs: &mut CS,
        circuit: &C,
        config: C::Config,
        constants: Vec<Column<Fixed>>,
    ) -> (r: Result<(), Error>) {
        let layouter = match SingleChipLayouter::new(cs, constants) {
            Ok(layouter) => layouter,
            Err(e) => {
                return Err(e);
            },
        };
        circuit.synthesize(config, layouter)
    }
}

} // verus!
