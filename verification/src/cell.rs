//! Cells, the regions they live in, and the values written to them.

use vstd::prelude::*;
use crate::column::{Any, Column};

verus! {

/// The number of a region, counted in the order in which regions are made.
#[derive(Clone, Copy, Debug, PartialEq, Eq, Hash, Structural)]
pub struct RegionIndex(pub usize);

/// The global row at which a region begins.
#[derive(Clone, Copy, Debug, PartialEq, Eq, Hash, Structural)]
pub struct RegionStart(pub usize);

/// A slot of the circuit: a column, and a row counted from the start of a
/// region. A cell holds no value and no global row; the row is found
/// through the start of its region when it is needed.
#[derive(Clone, Copy, Debug, PartialEq, Eq, Hash, Structural)]
pub struct Cell {
    pub region_index: RegionIndex,
    pub row_offset: usize,
    pub column: Column<Any>,
}

/// A value that may not be known, as when a circuit is laid out without its
/// witness.
#[derive(Clone, Copy, Debug, PartialEq, Eq)]
pub struct Value<V> {
    pub inner: Option<V>,
}

impl<V> Value<V> {
    /// A value that is not known.
    pub fn unknown() -> (v: Self)
        ensures
            v.inner is None,
    {
        Value { inner: None }
    }

    /// A known value.
    pub fn known(value: V) -> (v: Self)
        ensures
            v.inner == Some(value),
    {
        Value { inner: Some(value) }
    }

    /// Gives the value up as an `Option`.
    pub fn into_option(self) -> (o: Option<V>)
        ensures
            o == self.inner,
    {
        self.inner
    }
}

/// The global row of `cell`, given the starts of the regions placed so
/// far: the start of the cell's region plus the cell's offset. `None` where
/// the region has not been placed or the row does not fit the machine.
pub open spec fn global_row(starts: Seq<RegionStart>, cell: Cell) -> Option<usize> {
    if cell.region_index.0 < starts.len() && starts[cell.region_index.0 as int].0
        + cell.row_offset <= usize::MAX {
        Some((starts[cell.region_index.0 as int].0 + cell.row_offset) as usize)
    } else {
        None
    }
}

/// Computes `global_row`.
pub fn resolve(starts: &Vec<RegionStart>, cell: Cell) -> (row: Option<usize>)
    ensures
        row == global_row(starts@, cell),
{
    if cell.region_index.0 < starts.len() {
        starts[cell.region_index.0].0.checked_add(cell.row_offset)
    } else {
        None
    }
}

} // verus!
