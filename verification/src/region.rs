//! The surface that region and table definitions are written against.
//!
//! A region is defined by logic that receives a handle and calls its
//! methods. The planner runs that logic twice: first against a handle that
//! only records which columns are touched and how many rows are used, then
//! against a handle that writes to the sink at the rows where the region was
//! placed. Both handles implement `RegionLayouter`.

use vstd::prelude::*;
use crate::cell::{Cell, RegionIndex, Value};
use crate::column::{Advice, Any, Challenge, Column, Fixed, Instance, Selector, TableColumn};
use crate::error::Error;
use crate::sink::Assignment;

verus! {

/// A handle on one region. Offsets count rows from the start of the region.
pub trait RegionLayouter<V: Copy>: Sized {
    /// The number of the region that this handle stands for.
    spec fn region_index(&self) -> RegionIndex;

    /// Switches a selector on at an offset.
    fn enable_selector(&mut self, annotation: &str, selector: &Selector, offset: usize) -> (r:
        Result<(), Error>)
        ensures
            final(self).region_index() == old(self).region_index(),
    ;

    /// Names a column, for diagnostics. This places nothing.
    fn name_column(&mut self, annotation: &str, column: Column<Any>)
        ensures
            final(self).region_index() == old(self).region_index(),
    ;

    /// Writes to an advice column. The cell that comes back carries the
    /// offset within the region, not a global row.
    fn assign_advice(
        &mut self,
        annotation: &str,
        column: Column<Advice>,
        offset: usize,
        to: Value<V>,
    ) -> (r: Result<Cell, Error>)
        ensures
            final(self).region_index() == old(self).region_index(),
            r matches Ok(cell) ==> cell == (Cell {
                region_index: old(self).region_index(),
                row_offset: offset,
                column: column.any(),
            }),
    ;

    /// Writes a constant to an advice column and asks that the cell be tied
    /// to that constant.
    fn assign_advice_from_constant(
        &mut self,
        annotation: &str,
        column: Column<Advice>,
        offset: usize,
        constant: V,
    ) -> (r: Result<Cell, Error>)
        ensures
            final(self).region_index() == old(self).region_index(),
            r matches Ok(cell) ==> cell == (Cell {
                region_index: old(self).region_index(),
                row_offset: offset,
                column: column.any(),
            }),
    ;

    /// Writes the value of an instance cell to an advice column and ties
    /// the two cells together. Gives the cell and the value.
    fn assign_advice_from_instance(
        &mut self,
        annotation: &str,
        instance: Column<Instance>,
        row: usize,
        advice: Column<Advice>,
        offset: usize,
    ) -> (r: Result<(Cell, Value<V>), Error>)
        ensures
            final(self).region_index() == old(self).region_index(),
            r matches Ok(pair) ==> pair.0 == (Cell {
                region_index: old(self).region_index(),
                row_offset: offset,
                column: advice.any(),
            }),
    ;

    /// Writes to a fixed column.
    fn assign_fixed(
        &mut self,
        annotation: &str,
        column: Column<Fixed>,
        offset: usize,
        to: Value<V>,
    ) -> (r: Result<Cell, Error>)
        ensures
            final(self).region_index() == old(self).region_index(),
            r matches Ok(cell) ==> cell == (Cell {
                region_index: old(self).region_index(),
                row_offset: offset,
                column: column.any(),
            }),
    ;

    /// Asks that a cell be tied to a constant. Nothing is written now.
    fn constrain_constant(&mut self, cell: Cell, constant: V) -> (r: Result<(), Error>)
        ensures
            final(self).region_index() == old(self).region_index(),
    ;

    /// Asserts that two cells hold the same value.
    fn constrain_equal(&mut self, left: Cell, right: Cell) -> (r: Result<(), Error>)
        ensures
            final(self).region_index() == old(self).region_index(),
    ;
}

/// A handle on one lookup table. Offsets are rows: a table starts at row 0.
pub trait TableLayouter<V: Copy>: Sized {
    /// Writes one cell of the table.
    fn assign_cell(
        &mut self,
        annotation: &str,
        column: TableColumn,
        offset: usize,
        to: Value<V>,
    ) -> Result<(), Error>;
}

/// The logic that defines a region. It must act on the handle alone and do
/// the same on every run, because it is run once to measure the region and
/// once to write it.
pub trait RegionAssignment<V: Copy> {
    /// What the logic hands back when it succeeds.
    type Output;

    /// Defines the region on the handle.
    fn assign<R: RegionLayouter<V>>(&mut self, region: &mut R) -> Result<Self::Output, Error>;
}

/// The logic that fills a lookup table. It is run once.
pub trait TableAssignment<V: Copy> {
    /// Fills the table through the handle.
    fn assign<T: TableLayouter<V>>(&mut self, table: &mut T) -> Result<(), Error>;
}

/// What a circuit is written against: regions and lookup tables are handed
/// over one at a time, in program order.
pub trait Layouter<V: Copy>: Sized {
    /// Lays out one region and hands back what its logic returned.
    fn assign_region<A: RegionAssignment<V>>(&mut self, name: &str, assignment: A) -> Result<
        A::Output,
        Error,
    >;

    /// Lays out one lookup table.
    fn assign_table<A: TableAssignment<V>>(&mut self, name: &str, assignment: A) -> Result<
        (),
        Error,
    >;

    /// Ties a cell to a cell of an instance column.
    fn constrain_instance(&mut self, cell: Cell, column: Column<Instance>, row: usize) -> Result<
        (),
        Error,
    >;

    /// The value of a challenge.
    fn get_challenge(&mut self, challenge: Challenge) -> Value<V>;

    /// Opens a namespace, for diagnostics.
    fn push_namespace(&mut self, name: &str);

    /// Closes the namespace that is open.
    fn pop_namespace(&mut self, gadget_name: Option<String>);
}

/// A circuit: logic that lays itself out on whatever layouter it is given.
pub trait Circuit<V: Copy> {
    /// What the circuit needs to know of its columns.
    type Config;

    /// Lays the circuit out.
    fn synthesize<L: Layouter<V>>(&self, config: Self::Config, layouter: L) -> Result<(), Error>;
}

/// A way of turning a circuit into writes on a sink.
pub trait FloorPlanner {
    /// Lays the circuit out on the sink. `constants` are the fixed columns
    /// that may hold constants.
    fn synthesize<V: Copy, CS: Assignment<V>, C: Circuit<V>>(
        cs: &mut CS,
        circuit: &C,
        config: C::Config,
        constants: Vec<Column<Fixed>>,
    ) -> Result<(), Error>;
}

} // verus!
