//! Columns of the circuit and the keys under which the planner tracks them.

use vstd::prelude::*;
use vstd::std_specs::convert::FromSpecImpl;

verus! {

/// Marker of an advice column.
#[derive(Clone, Copy, Debug, PartialEq, Eq, Hash, Structural)]
pub struct Advice;

/// Marker of a fixed column.
#[derive(Clone, Copy, Debug, PartialEq, Eq, Hash, Structural)]
pub struct Fixed;

/// Marker of an instance column.
#[derive(Clone, Copy, Debug, PartialEq, Eq, Hash, Structural)]
pub struct Instance;

/// The kind of a column whose kind is only known at run time.
#[derive(Clone, Copy, Debug, PartialEq, Eq, Hash, Structural)]
pub enum Any {
    Advice,
    Fixed,
    Instance,
}

/// A lane of the circuit: a kind and an index within that kind.
#[derive(Clone, Copy, Debug, PartialEq, Eq, Hash, Structural)]
pub struct Column<C> {
    pub index: usize,
    pub column_type: C,
}

/// A selector. Selectors are numbered apart from the columns.
#[derive(Clone, Copy, Debug, PartialEq, Eq, Hash, Structural)]
pub struct Selector {
    pub index: usize,
    pub simple: bool,
}

/// A fixed column that a lookup table has reserved.
#[derive(Clone, Copy, Debug, PartialEq, Eq, Hash, Structural)]
pub struct TableColumn {
    pub inner: Column<Fixed>,
}

/// A challenge that the sink can squeeze out for the circuit.
#[derive(Clone, Copy, Debug, PartialEq, Eq, Hash, Structural)]
pub struct Challenge {
    pub index: usize,
    pub phase: u8,
}

/// The key under which occupancy is tracked. A selector and a column with
/// the same index are different keys.
#[derive(Clone, Copy, Debug, PartialEq, Eq, Hash, Structural)]
pub enum RegionColumn {
    Column(Column<Any>),
    Selector(Selector),
}

impl Column<Advice> {
    pub fn new(index: usize) -> (c: Self)
        ensures
            c == (Column { index, column_type: Advice }),
    {
        Column { index, column_type: Advice }
    }

    /// The same column with its kind held as a value.
    pub open spec fn any(self) -> Column<Any> {
        Column { index: self.index, column_type: Any::Advice }
    }

    /// The occupancy key of this column.
    pub open spec fn key(self) -> RegionColumn {
        RegionColumn::Column(self.any())
    }
}

impl Column<Fixed> {
    pub fn new(index: usize) -> (c: Self)
        ensures
            c == (Column { index, column_type: Fixed }),
    {
        Column { index, column_type: Fixed }
    }

    /// The same column with its kind held as a value.
    pub open spec fn any(self) -> Column<Any> {
        Column { index: self.index, column_type: Any::Fixed }
    }

    /// The occupancy key of this column.
    pub open spec fn key(self) -> RegionColumn {
        RegionColumn::Column(self.any())
    }
}

impl Column<Instance> {
    pub fn new(index: usize) -> (c: Self)
        ensures
            c == (Column { index, column_type: Instance }),
    {
        Column { index, column_type: Instance }
    }

    /// The same column with its kind held as a value.
    pub open spec fn any(self) -> Column<Any> {
        Column { index: self.index, column_type: Any::Instance }
    }
}

impl Column<Any> {
    pub fn new(index: usize, column_type: Any) -> (c: Self)
        ensures
            c == (Column { index, column_type }),
    {
        Column { index, column_type }
    }
}

impl Selector {
    pub fn new(index: usize, simple: bool) -> (s: Self)
        ensures
            s == (Selector { index, simple }),
    {
        Selector { index, simple }
    }
}

impl TableColumn {
    pub fn new(inner: Column<Fixed>) -> (t: Self)
        ensures
            t == (TableColumn { inner }),
    {
        TableColumn { inner }
    }

    /// The fixed column that the table writes to.
    pub fn inner(&self) -> (c: Column<Fixed>)
        ensures
            c == self.inner,
    {
        self.inner
    }
}

impl From<Column<Advice>> for Column<Any> {
    fn from(column: Column<Advice>) -> (c: Column<Any>) {
        Column { index: column.index, column_type: Any::Advice }
    }
}

impl FromSpecImpl<Column<Advice>> for Column<Any> {
    open spec fn obeys_from_spec() -> bool {
        true
    }

    open spec fn from_spec(column: Column<Advice>) -> Column<Any> {
        column.any()
    }
}

impl From<Column<Fixed>> for Column<Any> {
    fn from(column: Column<Fixed>) -> (c: Column<Any>) {
        Column { index: column.index, column_type: Any::Fixed }
    }
}

impl FromSpecImpl<Column<Fixed>> for Column<Any> {
    open spec fn obeys_from_spec() -> bool {
        true
    }

    open spec fn from_spec(column: Column<Fixed>) -> Column<Any> {
        column.any()
    }
}

impl From<Column<Instance>> for Column<Any> {
    fn from(column: Column<Instance>) -> (c: Column<Any>) {
        Column { index: column.index, column_type: Any::Instance }
    }
}

impl FromSpecImpl<Column<Instance>> for Column<Any> {
    open spec fn obeys_from_spec() -> bool {
        true
    }

    open spec fn from_spec(column: Column<Instance>) -> Column<Any> {
        column.any()
    }
}

impl From<Column<Any>> for RegionColumn {
    fn from(column: Column<Any>) -> (c: RegionColumn) {
        RegionColumn::Column(column)
    }
}

impl FromSpecImpl<Column<Any>> for RegionColumn {
    open spec fn obeys_from_spec() -> bool {
        true
    }

    open spec fn from_spec(column: Column<Any>) -> RegionColumn {
        RegionColumn::Column(column)
    }
}

impl From<Selector> for RegionColumn {
    fn from(selector: Selector) -> (c: RegionColumn) {
        RegionColumn::Selector(selector)
    }
}

impl FromSpecImpl<Selector> for RegionColumn {
    open spec fn obeys_from_spec() -> bool {
        true
    }

    open spec fn from_spec(selector: Selector) -> RegionColumn {
        RegionColumn::Selector(selector)
    }
}

} // verus!
