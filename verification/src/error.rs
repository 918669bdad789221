//! What can go wrong while a circuit is laid out.

use vstd::prelude::*;
use crate::column::{Any, Column};

verus! {

/// An error of the floor planner or of the sink it writes to.
#[derive(Clone, Copy, Debug, PartialEq, Eq, Structural)]
pub enum Error {
    /// The circuit is inconsistent: a table column is used again, gets a
    /// second default, or the columns of a table are not evenly covered.
    Synthesis,
    /// Constants were requested and no column was configured to hold them.
    NotEnoughColumnsForConstants,
    /// A row lies beyond what the machine can address.
    BoundsFailure,
    /// The sink has fewer rows than the circuit needs.
    NotEnoughRowsAvailable { current_k: u32 },
    /// The sink was asked to constrain a column that takes no part in
    /// equality constraints.
    ColumnNotInPermutation(Column<Any>),
}

} // verus!
