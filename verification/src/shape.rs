//! The first pass over a region: a handle that writes nothing and records
//! which columns the region touches and how many rows it spans.

use vstd::prelude::*;
use crate::cell::{Cell, RegionIndex, Value};
use crate::column::{Advice, Any, Column, Fixed, Instance, RegionColumn, Selector};
use crate::error::Error;
use crate::region::RegionLayouter;

verus! {

/// What a shape has recorded: the set of touched columns and the number of
/// rows, which is one more than the largest offset written to.
pub struct ShapeModel {
    pub region_index: RegionIndex,
    pub columns: Set<RegionColumn>,
    pub row_count: nat,
}

impl ShapeModel {
    /// The shape of a region in which nothing has been written.
    pub open spec fn empty(region_index: RegionIndex) -> ShapeModel {
        ShapeModel { region_index, columns: Set::empty(), row_count: 0 }
    }

    /// The shape after one more write, to `column` at `offset`.
    pub open spec fn record(self, column: RegionColumn, offset: nat) -> ShapeModel {
        ShapeModel {
            region_index: self.region_index,
            columns: self.columns.insert(column),
            row_count: if self.row_count > offset {
                self.row_count
            } else {
                offset + 1
            },
        }
    }

    /// The shape after a list of writes, made in order on an empty shape.
    pub open spec fn replay(region_index: RegionIndex, writes: Seq<(RegionColumn, nat)>) -> ShapeModel
        decreases writes.len(),
    {
        if writes.len() == 0 {
            ShapeModel::empty(region_index)
        } else {
            ShapeModel::replay(region_index, writes.drop_last()).record(
                writes.last().0,
                writes.last().1,
            )
        }
    }
}

/// Whether `column` is in the list.
pub fn holds(columns: &Vec<RegionColumn>, column: RegionColumn) -> (found: bool)
    ensures
        found == columns@.contains(column),
{
    let mut i: usize = 0;
    while i < columns.len()
        invariant
            i <= columns.len(),
            forall|j: int| 0 <= j < i ==> columns@[j] != column,
        decreases columns.len() - i,
    {
        if columns[i] == column {
            return true;
        }
        i += 1;
    }
    false
}

/// The recorder of the first pass.
#[derive(Debug)]
pub struct RegionShape<V> {
    region_index: RegionIndex,
    columns: Vec<RegionColumn>,
    row_count: usize,
    marker: core::marker::PhantomData<V>,
}

impl<V> View for RegionShape<V> {
    type V = ShapeModel;

    closed spec fn view(&self) -> ShapeModel {
        ShapeModel {
            region_index: self.region_index,
            columns: self.columns@.to_set(),
            row_count: self.row_count as nat,
        }
    }
}

impl<V> RegionShape<V> {
    /// No column is listed twice.
    #[verifier::type_invariant]
    spec fn distinct(&self) -> bool {
        self.columns@.no_duplicates()
    }

    /// A shape with nothing recorded.
    pub fn new(region_index: RegionIndex) -> (shape: Self)
        ensures
            shape@ == ShapeModel::empty(region_index),
    {
        let shape = RegionShape {
            region_index,
            columns: Vec::new(),
            row_count: 0,
            marker: core::marker::PhantomData,
        };
        assert(shape.columns@.to_set() =~= Set::<RegionColumn>::empty());
        shape
    }

    /// The number of the region.
    pub fn region_index(&self) -> (index: RegionIndex)
        ensures
            index == self@.region_index,
    {
        self.region_index
    }

    /// The touched columns, each once.
    pub fn columns(&self) -> (columns: &Vec<RegionColumn>)
        ensures
            columns@.no_duplicates(),
            columns@.to_set() == self@.columns,
    {
        proof {
            use_type_invariant(self);
        }
        &self.columns
    }

    /// A shape touches finitely many columns.
    pub proof fn touches_finitely_many(&self)
        ensures
            self@.columns.finite(),
    {
        vstd::seq_lib::seq_to_set_is_finite(self.columns@);
    }

    /// The number of rows that the region spans.
    pub fn row_count(&self) -> (rows: usize)
        ensures
            rows == self@.row_count,
    {
        self.row_count
    }

    /// Records one write. An offset that has no successor is refused, and
    /// then nothing is recorded.
    pub fn record(&mut self, column: RegionColumn, offset: usize) -> (r: Result<(), Error>)
        ensures
            offset < usize::MAX ==> r is Ok && final(self)@ == old(self)@.record(
                column,
                offset as nat,
            ),
            offset == usize::MAX ==> r == Err::<(), Error>(Error::BoundsFailure) && final(self)@
                == old(self)@,
    {
        proof {
            use_type_invariant(&*self);
        }
        if offset == usize::MAX {
            return Err(Error::BoundsFailure);
        }
        let mut columns: Vec<RegionColumn> = Vec::new();
        core::mem::swap(&mut columns, &mut self.columns);
        let found = holds(&columns, column);
        let ghost before = columns@;
        if !found {
            columns.push(column);
            proof {
                assert(columns@.to_set() =~= before.to_set().insert(column)) by {
                    assert forall|c: RegionColumn|
                        columns@.to_set().contains(c) == before.to_set().insert(column).contains(
                            c,
                        ) by {
                        if columns@.contains(c) {
                            let k = choose|k: int| 0 <= k < columns@.len() && columns@[k] == c;
                            if k < before.len() {
                                assert(before[k] == c);
                            }
                        }
                        if before.contains(c) {
                            let k = choose|k: int| 0 <= k < before.len() && before[k] == c;
                            assert(columns@[k] == c);
                        }
                        if c == column {
                            assert(columns@[before.len() as int] == c);
                        }
                    }
                }
            }
        } else {
            assert(before.to_set() =~= before.to_set().insert(column));
        }
        self.columns = columns;
        if self.row_count <= offset {
            self.row_count = offset + 1;
        }
        Ok(())
    }
}

impl<V: Copy> RegionLayouter<V> for RegionShape<V> {
    open spec fn region_index(&self) -> RegionIndex {
        self@.region_index
    }

    /// Records the selector at the offset.
    fn enable_selector(&mut self, annotation: &str, selector: &Selector, offset: usize) -> (r:
        Result<(), Error>)
        ensures
            offset < usize::MAX ==> r is Ok && final(self)@ == old(self)@.record(
                RegionColumn::Selector(*selector),
                offset as nat,
            ),
            offset == usize::MAX ==> r == Err::<(), Error>(Error::BoundsFailure) && final(self)@
                == old(self)@,
    {
        self.record(RegionColumn::Selector(*selector), offset)
    }

    /// Records nothing: a name takes no room.
    fn name_column(&mut self, annotation: &str, column: Column<Any>)
        ensures
            final(self)@ == old(self)@,
    {
    }

    /// Records the column at the offset.
    fn assign_advice(
        &mut self,
        annotation: &str,
        column: Column<Advice>,
        offset: usize,
        to: Value<V>,
    ) -> (r: Result<Cell, Error>)
        ensures
            offset < usize::MAX ==> final(self)@ == old(self)@.record(column.key(), offset as nat)
                && r == Ok::<Cell, Error>(
                Cell {
                    region_index: old(self)@.region_index,
                    row_offset: offset,
                    column: column.any(),
                },
            ),
            offset == usize::MAX ==> r == Err::<Cell, Error>(Error::BoundsFailure) && final(self)@
                == old(self)@,
    {
        let any: Column<Any> = Column::<Any>::from(column);
        match self.record(RegionColumn::Column(any), offset) {
            Ok(()) => Ok(Cell { region_index: self.region_index, row_offset: offset, column: any }),
            Err(e) => Err(e),
        }
    }

    /// Records the column at the offset. The constant takes no room here.
    fn assign_advice_from_constant(
        &mut self,
        annotation: &str,
        column: Column<Advice>,
        offset: usize,
        constant: V,
    ) -> (r: Result<Cell, Error>)
        ensures
            offset < usize::MAX ==> final(self)@ == old(self)@.record(column.key(), offset as nat)
                && r == Ok::<Cell, Error>(
                Cell {
                    region_index: old(self)@.region_index,
                    row_offset: offset,
                    column: column.any(),
                },
            ),
            offset == usize::MAX ==> r == Err::<Cell, Error>(Error::BoundsFailure) && final(self)@
                == old(self)@,
    {
        let any: Column<Any> = Column::<Any>::from(column);
        match self.record(RegionColumn::Column(any), offset) {
            Ok(()) => Ok(Cell { region_index: self.region_index, row_offset: offset, column: any }),
            Err(e) => Err(e),
        }
    }

    /// Records the advice column at the offset. The instance column takes
    /// no room in the region, and the value is not known in this pass.
    fn assign_advice_from_instance(
        &mut self,
        annotation: &str,
        instance: Column<Instance>,
        row: usize,
        advice: Column<Advice>,
        offset: usize,
    ) -> (r: Result<(Cell, Value<V>), Error>)
        ensures
            offset < usize::MAX ==> final(self)@ == old(self)@.record(advice.key(), offset as nat)
                && r == Ok::<(Cell, Value<V>), Error>(
                (
                    Cell {
                        region_index: old(self)@.region_index,
                        row_offset: offset,
                        column: advice.any(),
                    },
                    Value { inner: None },
                ),
            ),
            offset == usize::MAX ==> r == Err::<(Cell, Value<V>), Error>(Error::BoundsFailure)
                && final(self)@ == old(self)@,
    {
        let any: Column<Any> = Column::<Any>::from(advice);
        match self.record(RegionColumn::Column(any), offset) {
            Ok(()) => Ok(
                (
                    Cell { region_index: self.region_index, row_offset: offset, column: any },
                    Value::unknown(),
                ),
            ),
            Err(e) => Err(e),
        }
    }

    /// Records the column at the offset.
    fn assign_fixed(
        &mut self,
        annotation: &str,
        column: Column<Fixed>,
        offset: usize,
        to: Value<V>,
    ) -> (r: Result<Cell, Error>)
        ensures
            offset < usize::MAX ==> final(self)@ == old(self)@.record(column.key(), offset as nat)
                && r == Ok::<Cell, Error>(
                Cell {
                    region_index: old(self)@.region_index,
                    row_offset: offset,
                    column: column.any(),
                },
            ),
            offset == usize::MAX ==> r == Err::<Cell, Error>(Error::BoundsFailure) && final(self)@
                == old(self)@,
    {
        let any: Column<Any> = Column::<Any>::from(column);
        match self.record(RegionColumn::Column(any), offset) {
            Ok(()) => Ok(Cell { region_index: self.region_index, row_offset: offset, column: any }),
            Err(e) => Err(e),
        }
    }

    /// Records nothing: a constant takes no room in the region.
    fn constrain_constant(&mut self, cell: Cell, constant: V) -> (r: Result<(), Error>)
        ensures
            r is Ok,
            final(self)@ == old(self)@,
    {
        Ok(())
    }

    /// Records nothing: an equality takes no room in the region.
    fn constrain_equal(&mut self, left: Cell, right: Cell) -> (r: Result<(), Error>)
        ensures
            r is Ok,
            final(self)@ == old(self)@,
    {
        Ok(())
    }
}


impl ShapeModel {
    /// What a replay comes to, without the order of the writes: the
    /// columns are those written to, and the row count is 0 if nothing was
    /// written and one more than the largest offset if something was.
    pub proof fn replay_is_columns_and_largest_offset(
        region_index: RegionIndex,
        writes: Seq<(RegionColumn, nat)>,
    )
        ensures
            ShapeModel::replay(region_index, writes).region_index == region_index,
            forall|c: RegionColumn|
                ShapeModel::replay(region_index, writes).columns.contains(c) <==> exists|i: int|
                    0 <= i < writes.len() && (#[trigger] writes[i]).0 == c,
            forall|i: int|
                0 <= i < writes.len() ==> (#[trigger] writes[i]).1 < ShapeModel::replay(
                    region_index,
                    writes,
                ).row_count,
            writes.len() == 0 ==> ShapeModel::replay(region_index, writes).row_count == 0,
            writes.len() > 0 ==> exists|i: int|
                0 <= i < writes.len() && (#[trigger] writes[i]).1 + 1 == ShapeModel::replay(
                    region_index,
                    writes,
                ).row_count,
        decreases writes.len(),
    {
        if writes.len() > 0 {
            let fewer = writes.drop_last();
            let before = ShapeModel::replay(region_index, fewer);
            let after = ShapeModel::replay(region_index, writes);
            let last = writes.len() - 1;
            ShapeModel::replay_is_columns_and_largest_offset(region_index, fewer);
            assert forall|c: RegionColumn| after.columns.contains(c) <==> exists|i: int|
                0 <= i < writes.len() && (#[trigger] writes[i]).0 == c by {
                if before.columns.contains(c) {
                    let i = choose|i: int| 0 <= i < fewer.len() && (#[trigger] fewer[i]).0 == c;
                    assert(writes[i].0 == c);
                }
                if c == writes[last].0 {
                    assert(writes[last].0 == c);
                }
                if exists|i: int| 0 <= i < writes.len() && (#[trigger] writes[i]).0 == c {
                    let i = choose|i: int| 0 <= i < writes.len() && (#[trigger] writes[i]).0 == c;
                    if i < last {
                        assert(fewer[i].0 == c);
                    }
                }
            }
            assert forall|i: int| 0 <= i < writes.len() implies (#[trigger] writes[i]).1
                < after.row_count by {
                if i < last {
                    assert(fewer[i].1 < before.row_count);
                }
            }
            if before.row_count > writes[last].1 {
                let i = choose|i: int|
                    0 <= i < fewer.len() && (#[trigger] fewer[i]).1 + 1 == before.row_count;
                assert(writes[i].1 + 1 == after.row_count);
            } else {
                assert(writes[last].1 + 1 == after.row_count);
            }
        }
    }

    /// The shape of a region depends on nothing but which writes were
    /// made: two runs that make the same writes, in whatever order and
    /// however often, yield the same columns and the same row count.
    pub proof fn replay_depends_on_writes_only(
        region_index: RegionIndex,
        first: Seq<(RegionColumn, nat)>,
        second: Seq<(RegionColumn, nat)>,
    )
        requires
            first.to_set() == second.to_set(),
        ensures
            ShapeModel::replay(region_index, first) == ShapeModel::replay(region_index, second),
    {
        let a = ShapeModel::replay(region_index, first);
        let b = ShapeModel::replay(region_index, second);
        ShapeModel::replay_is_columns_and_largest_offset(region_index, first);
        ShapeModel::replay_is_columns_and_largest_offset(region_index, second);
        assert forall|i: int| 0 <= i < first.len() implies second.contains(#[trigger] first[i]) by {
            assert(first.to_set().contains(first[i]));
            assert(second.to_set().contains(first[i]));
        }
        assert forall|i: int| 0 <= i < second.len() implies first.contains(#[trigger] second[i]) by {
            assert(second.to_set().contains(second[i]));
            assert(first.to_set().contains(second[i]));
        }
        assert forall|c: RegionColumn| a.columns.contains(c) == b.columns.contains(c) by {
            if a.columns.contains(c) {
                let i = choose|i: int| 0 <= i < first.len() && (#[trigger] first[i]).0 == c;
                assert(second.contains(first[i]));
                let j = choose|j: int| 0 <= j < second.len() && second[j] == first[i];
                assert(second[j].0 == c);
            }
            if b.columns.contains(c) {
                let i = choose|i: int| 0 <= i < second.len() && (#[trigger] second[i]).0 == c;
                assert(first.contains(second[i]));
                let j = choose|j: int| 0 <= j < first.len() && first[j] == second[i];
                assert(first[j].0 == c);
            }
        }
        assert(a.columns =~= b.columns);
        if first.len() > 0 {
            let i = choose|i: int| 0 <= i < first.len() && (#[trigger] first[i]).1 + 1 == a.row_count;
            assert(second.contains(first[i]));
            let j = choose|j: int| 0 <= j < second.len() && second[j] == first[i];
            assert(second[j].1 < b.row_count);
        }
        if second.len() > 0 {
            let i = choose|i: int|
                0 <= i < second.len() && (#[trigger] second[i]).1 + 1 == b.row_count;
            assert(first.contains(second[i]));
            let j = choose|j: int| 0 <= j < first.len() && first[j] == second[i];
            assert(first[j].1 < a.row_count);
        }
        if first.len() == 0 && second.len() > 0 {
            assert(first.contains(second[0]));
        }
        if second.len() == 0 && first.len() > 0 {
            assert(second.contains(first[0]));
        }
    }
}

} // verus!
