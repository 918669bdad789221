use floor_planner::cell::{Cell, RegionIndex, RegionStart, Value};
use floor_planner::column::{Advice, Any, Challenge, Column, Fixed, Instance, RegionColumn, Selector};
use floor_planner::error::Error;
use floor_planner::recorder::{Recorded, RecordedCall, Recorder};
use floor_planner::region::{Layouter, RegionAssignment, RegionLayouter};
use floor_planner::single_pass::SingleChipLayouter;
use floor_planner::sink::Assignment;

fn calls(recorder: &Recorder<u64>) -> Vec<Recorded<u64>> {
    (0..recorder.len()).map(|i| recorder.call(i).unwrap().clone()).collect()
}

fn advice(index: usize) -> Column<Advice> {
    Column::<Advice>::new(index)
}

fn key(index: usize) -> RegionColumn {
    RegionColumn::Column(Column::<Any>::new(index, Any::Advice))
}

/// Writes known constants to one advice column, from offset 0 on, and
/// fails after the writes if told to.
#[derive(Clone)]
struct Constants {
    column: Column<Advice>,
    values: Vec<u64>,
    fail: Option<Error>,
}

impl RegionAssignment<u64> for Constants {
    type Output = usize;

    fn assign<R: RegionLayouter<u64>>(&mut self, region: &mut R) -> Result<usize, Error> {
        for (offset, value) in self.values.iter().enumerate() {
            region.assign_advice_from_constant("constant", self.column, offset, *value)?;
        }
        match self.fail {
            Some(e) => Err(e),
            None => Ok(self.values.len()),
        }
    }
}

fn batch() -> Vec<Constants> {
    vec![
        Constants { column: advice(0), values: vec![1, 2], fail: None },
        Constants { column: advice(1), values: vec![3], fail: None },
        Constants { column: advice(2), values: vec![4, 5, 6], fail: None },
    ]
}

/// The writes to the constants column and the equalities, as rows and values.
fn constants_of(seen: &[Recorded<u64>], column: Column<Fixed>) -> Vec<(usize, Value<u64>)> {
    seen.iter()
        .filter_map(|c| match &c.call {
            RecordedCall::AssignFixed { column: to, row, value, .. } if *to == column => {
                Some((*row, *value))
            }
            _ => None,
        })
        .collect()
}

fn copies_of(seen: &[Recorded<u64>]) -> Vec<(usize, Column<Any>, usize)> {
    seen.iter()
        .filter_map(|c| match &c.call {
            RecordedCall::Copy { left_row, right_column, right_row, .. } => {
                Some((*left_row, *right_column, *right_row))
            }
            _ => None,
        })
        .collect()
}

struct Outcome {
    regions: Vec<RegionStart>,
    occupancy: Vec<usize>,
    next_constant_row: usize,
    constants: Vec<(usize, Value<u64>)>,
    copies: Vec<(usize, Column<Any>, usize)>,
}

fn one_by_one(mut assignments: Vec<Constants>) -> Outcome {
    let mut cs: Recorder<u64> = Recorder::new(5);
    let (regions, occupancy, next_constant_row) = {
        let mut layouter = SingleChipLayouter::new(&mut cs, vec![Column::<Fixed>::new(7)]).unwrap();
        // A region placed before the batch, so that the batch does not start from nothing.
        layouter
            .assign_region("before", Constants { column: advice(1), values: vec![9, 9], fail: None })
            .unwrap();
        for assignment in assignments.drain(..) {
            layouter.assign_region("region", assignment).unwrap();
        }
        (
            layouter.placement.regions().clone(),
            (0..3).map(|i| layouter.placement.occupied_until(key(i))).collect(),
            layouter.next_constant_row,
        )
    };
    let seen = calls(&cs);
    Outcome {
        regions,
        occupancy,
        next_constant_row,
        constants: constants_of(&seen, Column::<Fixed>::new(7)),
        copies: copies_of(&seen),
    }
}

fn as_a_batch(mut assignments: Vec<Constants>) -> Outcome {
    let mut cs: Recorder<u64> = Recorder::new(5);
    let (regions, occupancy, next_constant_row) = {
        let mut layouter = SingleChipLayouter::new(&mut cs, vec![Column::<Fixed>::new(7)]).unwrap();
        layouter
            .assign_region("before", Constants { column: advice(1), values: vec![9, 9], fail: None })
            .unwrap();
        let first = layouter.placement.regions().len();
        let ranges = layouter.place_regions(&mut assignments).unwrap();
        assert_eq!(ranges, vec![0..2, 2..3, 0..3]);
        let mut sub_cs = layouter.cs.fork(&ranges).unwrap();
        let outcomes = {
            let mut subs = layouter.fork(sub_cs.iter_mut().collect()).unwrap();
            assert_eq!(subs.len(), 3);
            // The workers finish in some other order than they were handed in.
            let mut outcomes: Vec<Option<(Result<usize, Error>, Vec<(u64, Cell)>)>> =
                vec![None, None, None];
            for i in [2usize, 0, 1] {
                assert_eq!(subs[i].placement.regions(), layouter.placement.regions());
                assert_eq!(subs[i].next_constant_row, layouter.next_constant_row);
                outcomes[i] =
                    Some(subs[i].commit_region("worker", RegionIndex(first + i), &mut assignments[i]));
            }
            outcomes.into_iter().map(|o| o.unwrap()).collect::<Vec<_>>()
        };
        // Each worker wrote to its own sink, at the rows of its own region.
        let second = calls(&sub_cs[1]);
        assert_eq!(second.len(), 3);
        assert!(matches!(second[1].call, RecordedCall::AssignAdvice { row: 2, .. }));
        let outputs = layouter.finish_regions(sub_cs, outcomes).unwrap();
        assert_eq!(outputs, vec![2, 1, 3]);
        (
            layouter.placement.regions().clone(),
            (0..3).map(|i| layouter.placement.occupied_until(key(i))).collect(),
            layouter.next_constant_row,
        )
    };
    let seen = calls(&cs);
    assert!(seen.iter().any(|c| c.call == RecordedCall::Fork { ranges: vec![(0, 2), (2, 3), (0, 3)] }));
    assert!(seen.iter().any(|c| c.call == RecordedCall::Merge { parts: 3 }));
    Outcome {
        regions,
        occupancy,
        next_constant_row,
        constants: constants_of(&seen, Column::<Fixed>::new(7)),
        copies: copies_of(&seen),
    }
}

#[test]
fn a_batch_is_placed_and_resolved_as_its_regions_one_by_one() {
    let single = one_by_one(batch());
    let batched = as_a_batch(batch());
    assert_eq!(
        single.regions,
        vec![RegionStart(0), RegionStart(0), RegionStart(2), RegionStart(0)]
    );
    assert_eq!(batched.regions, single.regions);
    assert_eq!(single.occupancy, vec![2, 3, 3]);
    assert_eq!(batched.occupancy, single.occupancy);
    assert_eq!(single.next_constant_row, 8);
    assert_eq!(batched.next_constant_row, 8);
    let expected: Vec<(usize, Value<u64>)> = [9u64, 9, 1, 2, 3, 4, 5, 6]
        .iter()
        .enumerate()
        .map(|(row, value)| (row, Value::known(*value)))
        .collect();
    assert_eq!(single.constants, expected);
    assert_eq!(batched.constants, expected);
    let any = |i: usize| Column::<Any>::new(i, Any::Advice);
    assert_eq!(
        single.copies,
        vec![
            (0, any(1), 0),
            (1, any(1), 1),
            (2, any(0), 0),
            (3, any(0), 1),
            (4, any(1), 2),
            (5, any(2), 0),
            (6, any(2), 1),
            (7, any(2), 2),
        ]
    );
    assert_eq!(batched.copies, single.copies);
}

#[test]
fn the_first_failed_worker_in_the_order_of_the_batch_is_reported() {
    let mut cs: Recorder<u64> = Recorder::new(5);
    let mut layouter = SingleChipLayouter::new(&mut cs, vec![Column::<Fixed>::new(7)]).unwrap();
    let cell = Cell { region_index: RegionIndex(0), row_offset: 0, column: Column::<Any>::new(0, Any::Advice) };
    let outcomes: Vec<(Result<u8, Error>, Vec<(u64, Cell)>)> = vec![
        (Ok(1), vec![(5, cell)]),
        (Err(Error::Synthesis), vec![]),
        (Err(Error::BoundsFailure), vec![]),
    ];
    assert_eq!(layouter.finish_regions(vec![], outcomes), Err(Error::Synthesis));
    assert_eq!(layouter.next_constant_row, 0);
    assert_eq!(layouter.cs.sink().len(), 1);
}

#[test]
fn a_region_of_a_batch_that_fails_in_the_first_pass_ends_the_placing() {
    let mut cs: Recorder<u64> = Recorder::new(5);
    let mut layouter = SingleChipLayouter::new(&mut cs, vec![]).unwrap();
    let mut assignments = batch();
    assignments[1].fail = Some(Error::Synthesis);
    assert_eq!(layouter.place_regions(&mut assignments), Err(Error::Synthesis));
    // The region before the one that failed stays placed.
    assert_eq!(layouter.placement.regions(), &vec![RegionStart(0)]);
    assert_eq!(layouter.cs.sink().len(), 0);
}

#[test]
fn nothing_pending_needs_no_constants_column() {
    let mut cs: Recorder<u64> = Recorder::new(5);
    let mut layouter = SingleChipLayouter::new(&mut cs, vec![]).unwrap();
    assert_eq!(layouter.resolve_constants(vec![]), Ok(()));
    let outcomes: Vec<(Result<u8, Error>, Vec<(u64, Cell)>)> = vec![(Ok(4), vec![])];
    assert_eq!(layouter.finish_regions(vec![], outcomes), Ok(vec![4]));
}

#[test]
fn a_constant_for_a_cell_of_no_region_is_refused_before_anything_is_written() {
    let mut cs: Recorder<u64> = Recorder::new(5);
    let mut layouter = SingleChipLayouter::new(&mut cs, vec![Column::<Fixed>::new(7)]).unwrap();
    layouter
        .assign_region("a", Constants { column: advice(0), values: vec![], fail: None })
        .unwrap();
    let before = layouter.cs.sink().len();
    let here = Cell { region_index: RegionIndex(0), row_offset: 1, column: Column::<Any>::new(0, Any::Advice) };
    let nowhere = Cell { region_index: RegionIndex(1), row_offset: 0, column: Column::<Any>::new(0, Any::Advice) };
    assert_eq!(
        layouter.resolve_constants(vec![(1, here), (2, nowhere)]),
        Err(Error::BoundsFailure)
    );
    assert_eq!(layouter.cs.sink().len(), before);
    assert_eq!(layouter.next_constant_row, 0);
}

/// A sink that takes every write and refuses every equality.
struct NoEqualities {
    writes: usize,
}

impl Assignment<u64> for NoEqualities {
    fn enter_region(&mut self, _name: &str) {}

    fn exit_region(&mut self) {}

    fn enable_selector(&mut self, _annotation: &str, _selector: &Selector, _row: usize) -> Result<(), Error> {
        Ok(())
    }

    fn query_instance(&self, _column: Column<Instance>, _row: usize) -> Result<Value<u64>, Error> {
        Ok(Value::known(42))
    }

    fn assign_advice(
        &mut self,
        _annotation: &str,
        _column: Column<Advice>,
        _row: usize,
        _value: Value<u64>,
    ) -> Result<(), Error> {
        self.writes += 1;
        Ok(())
    }

    fn assign_fixed(
        &mut self,
        _annotation: &str,
        _column: Column<Fixed>,
        _row: usize,
        _value: Value<u64>,
    ) -> Result<(), Error> {
        self.writes += 1;
        Ok(())
    }

    fn copy(
        &mut self,
        left_column: Column<Any>,
        _left_row: usize,
        _right_column: Column<Any>,
        _right_row: usize,
    ) -> Result<(), Error> {
        Err(Error::ColumnNotInPermutation(left_column))
    }

    fn fill_from_row(&mut self, _column: Column<Fixed>, _row: usize, _value: Value<u64>) -> Result<(), Error> {
        Ok(())
    }

    fn get_challenge(&self, _challenge: Challenge) -> Value<u64> {
        Value::known(1)
    }

    fn annotate_column(&mut self, _annotation: &str, _column: Column<Any>) {}

    fn push_namespace(&mut self, _name: &str) {}

    fn pop_namespace(&mut self, _gadget_name: Option<String>) {}

    fn fork(&mut self, ranges: &Vec<core::ops::Range<usize>>) -> Result<Vec<Self>, Error> {
        Ok(ranges.iter().map(|_| NoEqualities { writes: 0 }).collect())
    }

    fn merge(&mut self, subs: Vec<Self>) -> Result<(), Error> {
        self.writes += subs.iter().map(|s| s.writes).sum::<usize>();
        Ok(())
    }
}

#[test]
fn the_error_of_the_first_refused_call_comes_back_and_no_row_is_taken_for_it() {
    let mut cs = NoEqualities { writes: 0 };
    {
        let mut layouter = SingleChipLayouter::new(&mut cs, vec![Column::<Fixed>::new(7)]).unwrap();
        let r = layouter
            .assign_region("a", Constants { column: advice(0), values: vec![1, 2], fail: None });
        assert_eq!(
            r,
            Err(Error::ColumnNotInPermutation(Column::<Any>::new(7, Any::Fixed)))
        );
        // The region is placed, and the constant whose equality failed took no row.
        assert_eq!(layouter.placement.regions(), &vec![RegionStart(0)]);
        assert_eq!(layouter.next_constant_row, 0);
        assert_eq!(layouter.get_challenge(Challenge { index: 0, phase: 0 }), Value::known(1));
    }
    // Two writes of the region and the write of the first constant.
    assert_eq!(cs.writes, 3);
}

#[test]
fn workers_on_threads_of_their_own_come_to_the_same_as_one_by_one() {
    let single = one_by_one(batch());
    let mut assignments = batch();
    let mut cs: Recorder<u64> = Recorder::new(5);
    let (regions, occupancy, next_constant_row) = {
        let mut layouter = SingleChipLayouter::new(&mut cs, vec![Column::<Fixed>::new(7)]).unwrap();
        layouter
            .assign_region("before", Constants { column: advice(1), values: vec![9, 9], fail: None })
            .unwrap();
        let first = layouter.placement.regions().len();
        let ranges = layouter.place_regions(&mut assignments).unwrap();
        let mut sub_cs = layouter.cs.fork(&ranges).unwrap();
        let subs = layouter.fork(sub_cs.iter_mut().collect()).unwrap();
        let outcomes = crossbeam::scope(|scope| {
            let mut handles = vec![];
            for (i, (mut assignment, mut sub)) in
                assignments.into_iter().zip(subs.into_iter()).enumerate()
            {
                handles.push(scope.spawn(move |_| {
                    sub.commit_region("worker", RegionIndex(first + i), &mut assignment)
                }));
            }
            handles.into_iter().map(|h| h.join().unwrap()).collect::<Vec<_>>()
        })
        .unwrap();
        assert_eq!(layouter.finish_regions(sub_cs, outcomes), Ok(vec![2, 1, 3]));
        (
            layouter.placement.regions().clone(),
            (0..3).map(|i| layouter.placement.occupied_until(key(i))).collect::<Vec<_>>(),
            layouter.next_constant_row,
        )
    };
    let seen = calls(&cs);
    assert_eq!(regions, single.regions);
    assert_eq!(occupancy, single.occupancy);
    assert_eq!(next_constant_row, single.next_constant_row);
    assert_eq!(constants_of(&seen, Column::<Fixed>::new(7)), single.constants);
    assert_eq!(copies_of(&seen), single.copies);
}
