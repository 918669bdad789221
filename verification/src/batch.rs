//! A batch of regions that is committed by several workers at once.
//!
//! The regions of a batch are measured and placed one after the other, in
//! the order in which they were handed in, before any worker starts. So
//! every region has its own rows, and the placement is that of handing the
//! regions in one by one. Each worker then commits one region to a sink of
//! its own. When all are done the sinks are merged, and the constants of the
//! whole batch are resolved in the order in which the regions were handed
//! in.

use vstd::prelude::*;
use crate::cell::{Cell, RegionIndex};
use crate::column::{Column, Fixed, TableColumn};
use crate::constants::{
    all_resolve,
    all_resolve_concat,
    concatenated,
    constant_calls,
    constant_calls_concat,
    constant_calls_stay,
    resolution,
};
use crate::error::Error;
use crate::placement::{all_finite, LayoutModel};
use crate::region::RegionAssignment;
use crate::shape::{RegionShape, ShapeModel};
use crate::single_pass::{SingleChipLayouter, SingleChipLayouterRegion};
use crate::sink::{accepted, Assignment, failure_of, SinkCall, SinkEvent, Traced};

verus! {

/// The rows of the shape at place `i` when the shapes are placed in order
/// on `layout`: from its start up to its end.
pub open spec fn rows_of(layout: LayoutModel, shapes: Seq<ShapeModel>, i: int) -> core::ops::Range<
    usize,
> {
    let start = layout.place_all(shapes.take(i)).region_start(shapes[i].columns);
    core::ops::Range { start: start as usize, end: (start + shapes[i].row_count) as usize }
}

/// The error of the first worker that failed, in the order in which the
/// regions were handed in.
pub open spec fn first_failure<T>(results: Seq<Result<T, Error>>) -> Option<Error>
    decreases results.len(),
{
    if results.len() == 0 {
        None
    } else if first_failure(results.drop_last()) is Some {
        first_failure(results.drop_last())
    } else {
        failure_of(results.last())
    }
}

/// What the workers of a batch handed back when none of them failed.
pub open spec fn outputs<T>(results: Seq<Result<T, Error>>) -> Seq<T> {
    results.map_values(|r: Result<T, Error>| r.unwrap())
}

/// The results that the workers handed back.
pub open spec fn results_of<T, V>(outcomes: Seq<(Result<T, Error>, Vec<(V, Cell)>)>) -> Seq<
    Result<T, Error>,
> {
    outcomes.map_values(|o: (Result<T, Error>, Vec<(V, Cell)>)| o.0)
}

/// The constants that the workers handed back, one list for each.
pub open spec fn pending_of<T, V>(outcomes: Seq<(Result<T, Error>, Vec<(V, Cell)>)>) -> Seq<
    Seq<(V, Cell)>,
> {
    outcomes.map_values(|o: (Result<T, Error>, Vec<(V, Cell)>)| o.1@)
}

/// A copy of the list.
pub fn copy_of<T: Copy>(list: &Vec<T>) -> (copy: Vec<T>)
    ensures
        copy@ == list@,
{
    let mut copy: Vec<T> = Vec::new();
    let mut i: usize = 0;
    while i < list.len()
        invariant
            i <= list.len(),
            copy@ == list@.take(i as int),
        decreases list.len() - i,
    {
        copy.push(list[i]);
        assert(copy@ =~= list@.take(i + 1));
        i += 1;
    }
    assert(copy@ =~= list@);
    copy
}

impl<'a, V: Copy, CS: Assignment<V>> SingleChipLayouter<'a, V, CS> {
    /// Measures and places the regions of a batch, in order, and gives the
    /// rows of each.
    ///
    /// Each region's logic is run against a fresh shape and the region is
    /// placed as `Placement::place` says before the next is measured. The
    /// first logic that fails, or the first region that does not fit, ends
    /// the call with its error; the regions before it stay placed. The sink
    /// is not touched.
    pub fn place_regions<A: RegionAssignment<V>>(&mut self, assignments: &mut Vec<A>) -> (r:
        Result<Vec<core::ops::Range<usize>>, Error>)
        ensures
            final(self).cs.events() == old(self).cs.events(),
            final(self).constants@ == old(self).constants@,
            final(self).table_columns@ == old(self).table_columns@,
            final(self).next_constant_row == old(self).next_constant_row,
            final(assignments)@.len() == old(assignments)@.len(),
            exists|shapes: Seq<ShapeModel>|
                {
                    &&& shapes.len() <= old(assignments)@.len()
                    &&& all_finite(shapes)
                    &&& old(self).placement@.fit_all(shapes)
                    &&& final(self).placement@ == old(self).placement@.place_all(shapes)
                    &&& r is Err ==> shapes.len() < old(assignments)@.len()
                    &&& r matches Ok(ranges) ==> shapes.len() == old(assignments)@.len()
                        && ranges@.len() == shapes.len() && forall|i: int|
                        0 <= i < shapes.len() ==> #[trigger] ranges@[i] == rows_of(
                            old(self).placement@,
                            shapes,
                            i,
                        )
                },
    {
        let count = assignments.len();
        let mut ranges: Vec<core::ops::Range<usize>> = Vec::new();
        let ghost mut shapes: Seq<ShapeModel> = Seq::empty();
        let mut i: usize = 0;
        while i < count
            invariant
                i <= count,
                count == assignments@.len(),
                count == old(assignments)@.len(),
                self.cs.events() == old(self).cs.events(),
                self.constants@ == old(self).constants@,
                self.table_columns@ == old(self).table_columns@,
                self.next_constant_row == old(self).next_constant_row,
                shapes.len() == i,
                ranges@.len() == i,
                all_finite(shapes),
                old(self).placement@.fit_all(shapes),
                self.placement@ == old(self).placement@.place_all(shapes),
                forall|j: int|
                    0 <= j < i ==> #[trigger] ranges@[j] == rows_of(old(self).placement@, shapes, j),
            decreases count - i,
        {
            // Get shape of the ith sub-region.
            let mut shape: RegionShape<V> = RegionShape::new(
                RegionIndex(self.placement.regions().len()),
            );
            match assignments[i].assign(&mut shape) {
                Ok(_) => {},
                Err(e) => {
                    return Err(e);
                },
            }
            let rows = shape.row_count();
            let start = match self.placement.place(&shape) {
                Ok(start) => start,
                Err(e) => {
                    return Err(e);
                },
            };
            proof {
                let longer = shapes.push(shape@);
                shape.touches_finitely_many();
                assert(longer.drop_last() =~= shapes);
                assert forall|j: int| 0 <= j < i implies #[trigger] ranges@[j] == rows_of(
                    old(self).placement@,
                    longer,
                    j,
                ) by {
                    assert(longer.take(j) =~= shapes.take(j));
                }
                assert(longer.take(i as int) =~= shapes);
                shapes = longer;
            }
            ranges.push(core::ops::Range { start: start.0, end: start.0 + rows });
            i += 1;
        }
        Ok(ranges)
    }

    /// Commits one region of a batch: the work of one worker, on a
    /// layouter that has a sink of its own.
    ///
    /// The sink is told that the region begins, the logic is run against a
    /// handle bound to the region's place, and the sink is told that the
    /// region ends, whether the logic failed or not. What the logic returned
    /// and the constants it asked for are handed back; the constants are not
    /// resolved here.
    ///
    /// The logic decides what reaches the sink while it runs, so the
    /// contract speaks of some calls.
    pub fn commit_region<A: RegionAssignment<V>>(
        &mut self,
        name: &str,
        region_index: RegionIndex,
        assignment: &mut A,
    ) -> (r: (Result<A::Output, Error>, Vec<(V, Cell)>))
        ensures
            final(self).constants@ == old(self).constants@,
            final(self).placement@ == old(self).placement@,
            final(self).table_columns@ == old(self).table_columns@,
            final(self).next_constant_row == old(self).next_constant_row,
            exists|during: Seq<SinkEvent<V>>|
                final(self).cs.events() == (old(self).cs.events().push(
                    accepted(SinkCall::EnterRegion { name: name@ }),
                ) + during).push(accepted(SinkCall::ExitRegion)),
    {
        self.cs.enter_region(name);
        let mut region = SingleChipLayouterRegion::new(
            self.cs.lend(),
            self.placement.regions(),
            region_index,
        );
        let result = assignment.assign(&mut region);
        let ghost during = region.cs.events();
        let constant = region.constants;
        self.cs.resume(Ghost(during));
        self.cs.exit_region();
        (result, constant)
    }

    /// Makes one layouter for each of the sinks that were split off, in the
    /// order of the sinks: the layouter at place `i` writes to the sink at
    /// place `i`. Each has this layouter's constants columns, placement,
    /// finished tables and constants row, and a history of its own that is
    /// empty; none of them shares anything with another.
    pub fn fork<'b>(&self, sub_cs: Vec<&'b mut CS>) -> (r: Result<
        Vec<SingleChipLayouter<'b, V, CS>>,
        Error,
    >)
        ensures
            r matches Ok(subs) && subs@.len() == sub_cs@.len() && forall|i: int|
                0 <= i < subs@.len() ==> {
                    &&& (#[trigger] subs@[i]).cs.events() == Seq::<SinkEvent<V>>::empty()
                    &&& subs@[i].cs.held() == *sub_cs@[i]
                    &&& subs@[i].constants@ == self.constants@
                    &&& subs@[i].placement@ == self.placement@
                    &&& subs@[i].table_columns@ == self.table_columns@
                    &&& subs@[i].next_constant_row == self.next_constant_row
                },
    {
        let mut subs: Vec<SingleChipLayouter<'b, V, CS>> = Vec::new();
        let ghost all = sub_cs@;
        for cs in it: sub_cs.into_iter()
            invariant
                it.seq() == all,
                subs@.len() == it.index(),
                forall|i: int|
                    0 <= i < subs@.len() ==> {
                        &&& (#[trigger] subs@[i]).cs.events() == Seq::<SinkEvent<V>>::empty()
                        &&& subs@[i].cs.held() == *all[i]
                        &&& subs@[i].constants@ == self.constants@
                        &&& subs@[i].placement@ == self.placement@
                        &&& subs@[i].table_columns@ == self.table_columns@
                        &&& subs@[i].next_constant_row == self.next_constant_row
                    },
        {
            subs.push(
                SingleChipLayouter {
                    cs: Traced::new(cs),
                    constants: copy_of(&self.constants),
                    placement: self.placement.duplicate(),
                    table_columns: copy_of(&self.table_columns),
                    next_constant_row: self.next_constant_row,
                },
            );
        }
        Ok(subs)
    }

    /// Ends a batch: merges the workers' sinks, and resolves the constants
    /// of the whole batch.
    ///
    /// The sinks are handed to the sink's `merge`; if that fails, its error
    /// is returned. If a worker failed, the error of the first that did, in
    /// the order in which the regions were handed in, is returned. Otherwise
    /// the constants of all the regions, one list after the other in that
    /// same order, are resolved as `resolve_constants` says, and the workers'
    /// outputs are handed back.
    pub fn finish_regions<T>(
        &mut self,
        sub_cs: Vec<CS>,
        outcomes: Vec<(Result<T, Error>, Vec<(V, Cell)>)>,
    ) -> (r: Result<Vec<T>, Error>)
        ensures
            final(self).constants@ == old(self).constants@,
            final(self).placement@ == old(self).placement@,
            final(self).table_columns@ == old(self).table_columns@,
            final(self).cs.events().len() > old(self).cs.events().len(),
            ({
                let merge = final(self).cs.events()[old(self).cs.events().len() as int];
                let merged = old(self).cs.events().push(merge);
                &&& merge.call == SinkCall::<V>::Merge { parts: sub_cs@.len() }
                &&& match merge.failure {
                    Some(error) => {
                        &&& r == Err::<Vec<T>, Error>(error)
                        &&& final(self).cs.events() == merged
                        &&& final(self).next_constant_row == old(self).next_constant_row
                    },
                    None => match first_failure(results_of(outcomes@)) {
                        Some(error) => {
                            &&& r == Err::<Vec<T>, Error>(error)
                            &&& final(self).cs.events() == merged
                            &&& final(self).next_constant_row == old(self).next_constant_row
                        },
                        None => {
                            &&& resolution(
                                old(self).constants@,
                                old(self).next_constant_row as int,
                                old(self).placement@.regions,
                                concatenated(pending_of(outcomes@)),
                                merged,
                                final(self).cs.events(),
                                failure_of(r),
                                final(self).next_constant_row as int,
                            )
                            &&& r matches Ok(values) ==> values@ == outputs(results_of(outcomes@))
                        },
                    },
                }
            }),
    {
        let ghost before = self.cs.events();
        match self.cs.merge(sub_cs) {
            Ok(()) => {},
            Err(e) => {
                return Err(e);
            },
        }
        let ghost merged = self.cs.events();

        // Check if there are errors in sub-region synthesis, and merge all
        // constants from sub-regions together.
        let mut results: Vec<T> = Vec::new();
        let mut constants_to_assign: Vec<(V, Cell)> = Vec::new();
        let mut failure: Option<Error> = None;
        let ghost all = outcomes@;
        assert(all.take(0) =~= Seq::empty());
        for outcome in it: outcomes.into_iter()
            invariant
                it.seq() == all,
                failure == first_failure(results_of(all.take(it.index() as int))),
                failure is None ==> results@ == outputs(results_of(all.take(it.index() as int))),
                constants_to_assign@ == concatenated(
                    pending_of(all.take(it.index() as int)),
                ),
        {
            let ghost seen = all.take(it.index() as int);
            let ghost more = all.take(it.index() as int + 1);
            proof {
                assert(more.drop_last() =~= seen);
                assert(results_of(more).drop_last() =~= results_of(seen));
                assert(pending_of(more).drop_last() =~= pending_of(seen));
                assert(outputs(results_of(more)) =~= outputs(results_of(seen)).push(
                    results_of(more).last().unwrap(),
                ));
            }
            let (result, constant) = outcome;
            let mut constant = constant;
            match result {
                Ok(value) => {
                    if failure.is_none() {
                        results.push(value);
                    }
                },
                Err(e) => {
                    if failure.is_none() {
                        failure = Some(e);
                    }
                },
            }
            constants_to_assign.append(&mut constant);
        }
        assert(all.take(all.len() as int) =~= all);
        match failure {
            Some(e) => {
                return Err(e);
            },
            None => {},
        }
        match self.resolve_constants(constants_to_assign) {
            Ok(()) => Ok(results),
            Err(e) => Err(e),
        }
    }
}


/// What a run of regions comes to, as far as placement and constants go:
/// where the regions are, which row the next constant goes to, and the calls
/// that have written constants and tied them to their cells.
pub struct Plan<V> {
    pub layout: LayoutModel,
    pub next_constant_row: int,
    pub constant_calls: Seq<SinkCall<V>>,
}

impl<V> Plan<V> {
    /// The plan after one more region is handed in by itself: the region
    /// is placed, and then its constants are resolved.
    pub open spec fn region(
        self,
        column: Column<Fixed>,
        shape: ShapeModel,
        pending: Seq<(V, Cell)>,
    ) -> Plan<V> {
        let layout = self.layout.place(shape);
        Plan {
            layout,
            next_constant_row: self.next_constant_row + pending.len(),
            constant_calls: self.constant_calls + constant_calls(
                column,
                self.next_constant_row,
                pending,
                layout.regions,
            ),
        }
    }

    /// The plan after the regions are handed in one by one, in order.
    pub open spec fn one_by_one(
        self,
        column: Column<Fixed>,
        shapes: Seq<ShapeModel>,
        pending: Seq<Seq<(V, Cell)>>,
    ) -> Plan<V>
        decreases shapes.len(),
    {
        if shapes.len() == 0 {
            self
        } else {
            self.one_by_one(column, shapes.drop_last(), pending.drop_last()).region(
                column,
                shapes.last(),
                pending.last(),
            )
        }
    }

    /// The plan after the regions are handed in as a batch: all of them
    /// are placed, in order, and then the constants of all of them are
    /// resolved as one list, in the same order.
    pub open spec fn batch(
        self,
        column: Column<Fixed>,
        shapes: Seq<ShapeModel>,
        pending: Seq<Seq<(V, Cell)>>,
    ) -> Plan<V> {
        let layout = self.layout.place_all(shapes);
        let all = concatenated(pending);
        Plan {
            layout,
            next_constant_row: self.next_constant_row + all.len(),
            constant_calls: self.constant_calls + constant_calls(
                column,
                self.next_constant_row,
                all,
                layout.regions,
            ),
        }
    }

    /// A batch comes to the same as its regions handed in one by one: the
    /// same starts of regions, the same first free row of every column, the
    /// same constants in the same rows tied to the same cells, and the same
    /// row for the next constant.
    ///
    /// This holds where each region's constants can be resolved when the
    /// region is handed in by itself, which is to say where none of them is
    /// meant for a cell of a region that comes later in the batch.
    pub proof fn batch_matches_one_by_one(
        self,
        column: Column<Fixed>,
        shapes: Seq<ShapeModel>,
        pending: Seq<Seq<(V, Cell)>>,
    )
        requires
            shapes.len() == pending.len(),
            forall|i: int|
                0 <= i < shapes.len() ==> all_resolve(
                    #[trigger] pending[i],
                    self.layout.place_all(shapes.take(i + 1)).regions,
                ),
        ensures
            self.batch(column, shapes, pending) == self.one_by_one(column, shapes, pending),
            all_resolve(
                concatenated(pending),
                self.layout.place_all(shapes).regions,
            ),
        decreases shapes.len(),
    {
        let starts = self.layout.place_all(shapes).regions;
        if shapes.len() == 0 {
            assert(self.constant_calls + Seq::<SinkCall<V>>::empty() =~= self.constant_calls);
        } else {
            let fewer_shapes = shapes.drop_last();
            let fewer = pending.drop_last();
            let earlier = self.layout.place_all(fewer_shapes).regions;
            let last = shapes.len() - 1;
            let first_row = self.next_constant_row;
            assert forall|i: int|
                0 <= i < fewer_shapes.len() implies all_resolve(
                #[trigger] fewer[i],
                self.layout.place_all(fewer_shapes.take(i + 1)).regions,
            ) by {
                assert(fewer[i] == pending[i]);
                assert(fewer_shapes.take(i + 1) =~= shapes.take(i + 1));
            }
            self.batch_matches_one_by_one(column, fewer_shapes, fewer);
            self.layout.place_all_begins_with_part(shapes, last);
            assert(shapes.take(last) =~= fewer_shapes);
            constant_calls_stay(
                column,
                first_row,
                concatenated(fewer),
                earlier,
                starts,
            );
            assert(shapes.take(last + 1) =~= shapes);
            assert(all_resolve(pending[last], starts));
            all_resolve_concat(
                concatenated(fewer),
                pending.last(),
                starts,
            );
            constant_calls_concat(
                column,
                first_row,
                concatenated(fewer),
                pending.last(),
                starts,
            );
            let head = constant_calls(
                column,
                first_row,
                concatenated(fewer),
                starts,
            );
            let tail = constant_calls(
                column,
                first_row + concatenated(fewer).len(),
                pending.last(),
                starts,
            );
            assert(self.constant_calls + (head + tail) =~= (self.constant_calls + head) + tail);
        }
    }
}

} // verus!
