use floor_planner::cell::{Cell, RegionIndex, RegionStart, Value};
use floor_planner::column::{Advice, Any, Column, Fixed, Instance, RegionColumn, Selector};
use floor_planner::error::Error;
use floor_planner::placement::Placement;
use floor_planner::recorder::{Recorded, RecordedCall, Recorder};
use floor_planner::region::{
    Circuit, FloorPlanner, Layouter, RegionAssignment, RegionLayouter,
};
use floor_planner::shape::RegionShape;
use floor_planner::single_pass::{SimpleFloorPlanner, SingleChipLayouter, SingleChipLayouterRegion};
use floor_planner::sink::Traced;

fn calls(recorder: &Recorder<u64>) -> Vec<Recorded<u64>> {
    (0..recorder.len()).map(|i| recorder.call(i).unwrap().clone()).collect()
}

fn ok(call: RecordedCall<u64>) -> Recorded<u64> {
    Recorded { call, failure: None }
}

fn advice(index: usize) -> Column<Advice> {
    Column::<Advice>::new(index)
}

fn fixed(index: usize) -> Column<Fixed> {
    Column::<Fixed>::new(index)
}

fn any(index: usize, kind: Any) -> Column<Any> {
    Column::<Any>::new(index, kind)
}

/// Writes to one advice column at the given offsets.
struct Writes {
    column: Column<Advice>,
    offsets: Vec<usize>,
}

impl RegionAssignment<u64> for Writes {
    type Output = Vec<Cell>;

    fn assign<R: RegionLayouter<u64>>(&mut self, region: &mut R) -> Result<Vec<Cell>, Error> {
        let mut cells = Vec::new();
        for offset in self.offsets.iter() {
            cells.push(region.assign_advice("write", self.column, *offset, Value::known(7))?);
        }
        Ok(cells)
    }
}

/// Writes known constants to one advice column, from offset 0 on.
struct Constants {
    column: Column<Advice>,
    values: Vec<u64>,
}

impl RegionAssignment<u64> for Constants {
    type Output = ();

    fn assign<R: RegionLayouter<u64>>(&mut self, region: &mut R) -> Result<(), Error> {
        for (offset, value) in self.values.iter().enumerate() {
            region.assign_advice_from_constant("constant", self.column, offset, *value)?;
        }
        Ok(())
    }
}

struct MyCircuit {}

struct AssignOne {
    config: Column<Advice>,
}

impl RegionAssignment<u64> for AssignOne {
    type Output = Cell;

    fn assign<R: RegionLayouter<u64>>(&mut self, region: &mut R) -> Result<Cell, Error> {
        region.assign_advice_from_constant("one", self.config, 0, 1)
    }
}

impl Circuit<u64> for MyCircuit {
    type Config = Column<Advice>;

    fn synthesize<L: Layouter<u64>>(&self, config: Column<Advice>, layouter: L) -> Result<(), Error> {
        let mut layouter = layouter;
        layouter.assign_region("assign constant", AssignOne { config })?;
        Ok(())
    }
}

#[test]
fn not_enough_columns_for_constants() {
    let circuit = MyCircuit {};
    let mut cs: Recorder<u64> = Recorder::new(3);
    assert!(matches!(
        SimpleFloorPlanner::synthesize(&mut cs, &circuit, advice(0), vec![]).unwrap_err(),
        Error::NotEnoughColumnsForConstants,
    ));
}

#[test]
fn constants_without_a_column_write_no_constant_row() {
    let mut cs: Recorder<u64> = Recorder::new(4);
    {
        let mut layouter = SingleChipLayouter::new(&mut cs, vec![]).unwrap();
        let r = layouter.assign_region("first", Constants { column: advice(0), values: vec![5, 6] });
        assert_eq!(r, Err(Error::NotEnoughColumnsForConstants));
        assert_eq!(layouter.next_constant_row, 0);
    }
    let seen = calls(&cs);
    assert!(seen.iter().all(|c| !matches!(c.call, RecordedCall::AssignFixed { .. })));
    assert!(seen.iter().all(|c| !matches!(c.call, RecordedCall::Copy { .. })));
}

#[test]
fn second_region_on_the_same_column_starts_after_the_first() {
    let mut cs: Recorder<u64> = Recorder::new(4);
    let mut layouter = SingleChipLayouter::new(&mut cs, vec![]).unwrap();
    let x = advice(0);
    layouter.assign_region("a", Writes { column: x, offsets: vec![0, 1] }).unwrap();
    layouter.assign_region("b", Writes { column: x, offsets: vec![0] }).unwrap();
    assert_eq!(layouter.placement.regions(), &vec![RegionStart(0), RegionStart(2)]);
    assert_eq!(layouter.placement.occupied_until(RegionColumn::Column(any(0, Any::Advice))), 3);
}

#[test]
fn second_region_on_another_column_starts_at_row_zero() {
    let mut cs: Recorder<u64> = Recorder::new(4);
    let mut layouter = SingleChipLayouter::new(&mut cs, vec![]).unwrap();
    layouter.assign_region("a", Writes { column: advice(0), offsets: vec![0, 1] }).unwrap();
    layouter.assign_region("b", Writes { column: advice(1), offsets: vec![0] }).unwrap();
    assert_eq!(layouter.placement.regions(), &vec![RegionStart(0), RegionStart(0)]);
    assert_eq!(layouter.placement.occupied_until(RegionColumn::Column(any(0, Any::Advice))), 2);
    assert_eq!(layouter.placement.occupied_until(RegionColumn::Column(any(1, Any::Advice))), 1);
}

#[test]
fn writes_reach_the_sink_at_global_rows() {
    let mut cs: Recorder<u64> = Recorder::new(4);
    {
        let mut layouter = SingleChipLayouter::new(&mut cs, vec![]).unwrap();
        let x = advice(0);
        layouter.assign_region("a", Writes { column: x, offsets: vec![0, 1] }).unwrap();
        let cells = layouter.assign_region("b", Writes { column: x, offsets: vec![1] }).unwrap();
        assert_eq!(
            cells,
            vec![Cell { region_index: RegionIndex(1), row_offset: 1, column: any(0, Any::Advice) }]
        );
    }
    let write = |row: usize| {
        ok(RecordedCall::AssignAdvice {
            annotation: "write".to_string(),
            column: advice(0),
            row,
            value: Value::known(7),
        })
    };
    assert_eq!(
        calls(&cs),
        vec![
            ok(RecordedCall::EnterRegion { name: "a".to_string() }),
            write(0),
            write(1),
            ok(RecordedCall::ExitRegion),
            ok(RecordedCall::EnterRegion { name: "b".to_string() }),
            write(3),
            ok(RecordedCall::ExitRegion),
        ]
    );
}

#[test]
fn three_constants_in_two_regions_take_three_rows_in_order() {
    let mut cs: Recorder<u64> = Recorder::new(4);
    {
        let mut layouter = SingleChipLayouter::new(&mut cs, vec![fixed(9)]).unwrap();
        layouter
            .assign_region("first", Constants { column: advice(0), values: vec![10, 11] })
            .unwrap();
        assert_eq!(layouter.next_constant_row, 2);
        layouter.assign_region("second", Constants { column: advice(0), values: vec![12] }).unwrap();
        assert_eq!(layouter.next_constant_row, 3);
    }
    let seen = calls(&cs);
    let written: Vec<(usize, Value<u64>)> = seen
        .iter()
        .filter_map(|c| match &c.call {
            RecordedCall::AssignFixed { column, row, value, .. } if *column == fixed(9) => {
                Some((*row, *value))
            }
            _ => None,
        })
        .collect();
    assert_eq!(
        written,
        vec![(0, Value::known(10)), (1, Value::known(11)), (2, Value::known(12))]
    );
    let copies: Vec<(usize, usize)> = seen
        .iter()
        .filter_map(|c| match &c.call {
            RecordedCall::Copy { left_column, left_row, right_column, right_row } => {
                assert_eq!(*left_column, any(9, Any::Fixed));
                assert_eq!(*right_column, any(0, Any::Advice));
                Some((*left_row, *right_row))
            }
            _ => None,
        })
        .collect();
    // The second region starts at row 2 of the advice column.
    assert_eq!(copies, vec![(0, 0), (1, 1), (2, 2)]);
    // A constant is written and tied before the next one is written.
    let tail: Vec<&RecordedCall<u64>> = seen[4..8].iter().map(|c| &c.call).collect();
    assert!(matches!(tail[0], RecordedCall::AssignFixed { row: 0, .. }));
    assert!(matches!(tail[1], RecordedCall::Copy { left_row: 0, .. }));
    assert!(matches!(tail[2], RecordedCall::AssignFixed { row: 1, .. }));
    assert!(matches!(tail[3], RecordedCall::Copy { left_row: 1, .. }));
}

#[test]
fn start_is_the_largest_first_free_row_of_the_touched_columns() {
    let mut placement = Placement::new();
    let x = RegionColumn::Column(any(0, Any::Advice));
    let y = RegionColumn::Column(any(1, Any::Advice));
    let z = RegionColumn::Column(any(2, Any::Advice));

    let mut first: RegionShape<u64> = RegionShape::new(RegionIndex(0));
    first.record(x, 4).unwrap();
    assert_eq!(placement.place(&first), Ok(RegionStart(0)));

    let mut second: RegionShape<u64> = RegionShape::new(RegionIndex(1));
    second.record(y, 2).unwrap();
    assert_eq!(placement.place(&second), Ok(RegionStart(0)));
    assert_eq!(placement.occupied_until(x), 5);
    assert_eq!(placement.occupied_until(y), 3);
    assert_eq!(placement.occupied_until(z), 0);

    let mut third: RegionShape<u64> = RegionShape::new(RegionIndex(2));
    third.record(y, 0).unwrap();
    third.record(z, 1).unwrap();
    third.record(x, 0).unwrap();
    assert_eq!(placement.region_start(&third), 5);
    assert_eq!(placement.place(&third), Ok(RegionStart(5)));
    assert_eq!(placement.occupied_until(x), 7);
    assert_eq!(placement.occupied_until(y), 7);
    assert_eq!(placement.occupied_until(z), 7);
    assert_eq!(placement.regions(), &vec![RegionStart(0), RegionStart(0), RegionStart(5)]);
}

#[test]
fn an_empty_region_starts_at_row_zero_and_takes_no_row() {
    let mut cs: Recorder<u64> = Recorder::new(4);
    let mut layouter = SingleChipLayouter::new(&mut cs, vec![]).unwrap();
    layouter.assign_region("a", Writes { column: advice(0), offsets: vec![3] }).unwrap();
    layouter.assign_region("b", Writes { column: advice(0), offsets: vec![] }).unwrap();
    assert_eq!(layouter.placement.regions(), &vec![RegionStart(0), RegionStart(0)]);
    assert_eq!(layouter.placement.occupied_until(RegionColumn::Column(any(0, Any::Advice))), 4);
}

#[test]
fn a_selector_and_a_column_of_the_same_index_do_not_share_rows() {
    let mut placement = Placement::new();
    let mut first: RegionShape<u64> = RegionShape::new(RegionIndex(0));
    RegionLayouter::<u64>::enable_selector(&mut first, "s", &Selector::new(0, true), 2).unwrap();
    assert_eq!(first.row_count(), 3);
    assert_eq!(placement.place(&first), Ok(RegionStart(0)));
    let mut second: RegionShape<u64> = RegionShape::new(RegionIndex(1));
    second.record(RegionColumn::Column(any(0, Any::Advice)), 0).unwrap();
    assert_eq!(placement.place(&second), Ok(RegionStart(0)));
    assert_eq!(placement.occupied_until(RegionColumn::Selector(Selector::new(0, true))), 3);
}

#[test]
fn the_probe_gives_the_same_shape_on_every_run() {
    let mut logic = Writes { column: advice(2), offsets: vec![4, 0, 4, 1] };
    let mut first: RegionShape<u64> = RegionShape::new(RegionIndex(0));
    let mut second: RegionShape<u64> = RegionShape::new(RegionIndex(0));
    logic.assign(&mut first).unwrap();
    logic.assign(&mut second).unwrap();
    assert_eq!(first.columns(), second.columns());
    assert_eq!(first.columns(), &vec![RegionColumn::Column(any(2, Any::Advice))]);
    assert_eq!(first.row_count(), 5);
    assert_eq!(second.row_count(), 5);
}

#[test]
fn the_probe_ignores_equalities_and_constants() {
    let mut shape: RegionShape<u64> = RegionShape::new(RegionIndex(3));
    let cell = shape.assign_advice("a", advice(1), 2, Value::unknown()).unwrap();
    assert_eq!(
        cell,
        Cell { region_index: RegionIndex(3), row_offset: 2, column: any(1, Any::Advice) }
    );
    let far = Cell { region_index: RegionIndex(0), row_offset: 90, column: any(8, Any::Fixed) };
    shape.constrain_equal(cell, far).unwrap();
    shape.constrain_constant(far, 1).unwrap();
    RegionLayouter::<u64>::name_column(&mut shape, "n", any(5, Any::Instance));
    assert_eq!(shape.row_count(), 3);
    assert_eq!(shape.columns(), &vec![RegionColumn::Column(any(1, Any::Advice))]);
    let (from_instance, value) = shape
        .assign_advice_from_instance("i", Column::<Instance>::new(0), 50, advice(2), 0)
        .unwrap();
    assert_eq!(from_instance.column, any(2, Any::Advice));
    assert_eq!(value, Value::unknown());
    assert_eq!(shape.row_count(), 3);
    assert_eq!(shape.columns().len(), 2);
}

#[test]
fn an_offset_without_a_successor_is_refused() {
    let mut shape: RegionShape<u64> = RegionShape::new(RegionIndex(0));
    assert_eq!(
        shape.assign_fixed("f", fixed(0), usize::MAX, Value::known(1)),
        Err(Error::BoundsFailure)
    );
    assert_eq!(shape.row_count(), 0);
    assert!(shape.columns().is_empty());
}

#[test]
fn a_region_that_ends_beyond_the_last_row_is_refused() {
    let mut placement = Placement::new();
    let x = RegionColumn::Column(any(0, Any::Advice));
    let mut first: RegionShape<u64> = RegionShape::new(RegionIndex(0));
    first.record(x, usize::MAX - 1).unwrap();
    assert_eq!(placement.place(&first), Ok(RegionStart(0)));
    let mut second: RegionShape<u64> = RegionShape::new(RegionIndex(1));
    second.record(x, 0).unwrap();
    assert_eq!(placement.place(&second), Err(Error::BoundsFailure));
    assert_eq!(placement.regions(), &vec![RegionStart(0)]);
    assert_eq!(placement.occupied_until(x), usize::MAX);
}

#[test]
fn the_sink_s_error_ends_the_region_at_once() {
    // Two rows only: the write at row 2 is refused.
    let mut cs: Recorder<u64> = Recorder::new(1);
    {
        let mut layouter = SingleChipLayouter::new(&mut cs, vec![]).unwrap();
        let r = layouter.assign_region("a", Writes { column: advice(0), offsets: vec![0, 2, 1] });
        assert_eq!(r, Err(Error::NotEnoughRowsAvailable { current_k: 1 }));
        // The region stays placed.
        assert_eq!(layouter.placement.regions(), &vec![RegionStart(0)]);
    }
    let seen = calls(&cs);
    assert_eq!(seen.len(), 3);
    assert_eq!(seen[2].failure, Some(Error::NotEnoughRowsAvailable { current_k: 1 }));
    assert!(matches!(seen[2].call, RecordedCall::AssignAdvice { row: 2, .. }));
}

#[test]
fn equality_reaches_back_to_an_earlier_region() {
    let mut cs: Recorder<u64> = Recorder::new(4);
    {
        let regions = vec![RegionStart(0), RegionStart(6)];
        let mut region =
            SingleChipLayouterRegion::new(Traced::new(&mut cs), &regions, RegionIndex(1));
        let here = region.assign_fixed("f", fixed(1), 2, Value::known(3)).unwrap();
        let there = Cell { region_index: RegionIndex(0), row_offset: 4, column: any(0, Any::Advice) };
        region.constrain_equal(here, there).unwrap();
        region.enable_selector("s", &Selector::new(2, false), 1).unwrap();
        region.name_column("named", any(0, Any::Advice));
        let nowhere = Cell { region_index: RegionIndex(2), row_offset: 0, column: any(0, Any::Advice) };
        assert_eq!(region.constrain_equal(here, nowhere), Err(Error::BoundsFailure));
        region.constrain_constant(there, 8).unwrap();
        assert_eq!(region.constants, vec![(8, there)]);
    }
    assert_eq!(
        calls(&cs),
        vec![
            ok(RecordedCall::AssignFixed {
                annotation: "f".to_string(),
                column: fixed(1),
                row: 8,
                value: Value::known(3),
            }),
            ok(RecordedCall::Copy {
                left_column: any(1, Any::Fixed),
                left_row: 8,
                right_column: any(0, Any::Advice),
                right_row: 4,
            }),
            ok(RecordedCall::EnableSelector {
                annotation: "s".to_string(),
                selector: Selector::new(2, false),
                row: 7,
            }),
            ok(RecordedCall::AnnotateColumn {
                annotation: "named".to_string(),
                column: any(0, Any::Advice),
            }),
        ]
    );
}

#[test]
fn a_value_from_an_instance_is_written_and_tied() {
    let mut cs: Recorder<u64> = Recorder::new(4);
    {
        let regions = vec![RegionStart(3)];
        let mut region =
            SingleChipLayouterRegion::new(Traced::new(&mut cs), &regions, RegionIndex(0));
        let (cell, value) = region
            .assign_advice_from_instance("i", Column::<Instance>::new(1), 5, advice(0), 2)
            .unwrap();
        assert_eq!(
            cell,
            Cell { region_index: RegionIndex(0), row_offset: 2, column: any(0, Any::Advice) }
        );
        assert_eq!(value, Value::unknown());
        // The instance row is beyond the sink's rows.
        assert_eq!(
            region.assign_advice_from_instance("i", Column::<Instance>::new(1), 16, advice(0), 2),
            Err(Error::NotEnoughRowsAvailable { current_k: 4 })
        );
    }
    assert_eq!(
        calls(&cs),
        vec![
            ok(RecordedCall::AssignAdvice {
                annotation: "i".to_string(),
                column: advice(0),
                row: 5,
                value: Value::unknown(),
            }),
            ok(RecordedCall::Copy {
                left_column: any(0, Any::Advice),
                left_row: 5,
                right_column: any(1, Any::Instance),
                right_row: 5,
            }),
        ]
    );
}

#[test]
fn a_cell_is_tied_to_an_instance_at_its_global_row() {
    let mut cs: Recorder<u64> = Recorder::new(4);
    {
        let mut layouter = SingleChipLayouter::new(&mut cs, vec![]).unwrap();
        layouter.assign_region("a", Writes { column: advice(0), offsets: vec![0, 1] }).unwrap();
        let cells = layouter.assign_region("b", Writes { column: advice(0), offsets: vec![1] }).unwrap();
        layouter.constrain_instance(cells[0], Column::<Instance>::new(0), 9).unwrap();
        let nowhere = Cell { region_index: RegionIndex(7), row_offset: 0, column: any(0, Any::Advice) };
        assert_eq!(
            layouter.constrain_instance(nowhere, Column::<Instance>::new(0), 9),
            Err(Error::BoundsFailure)
        );
        layouter.push_namespace("gadget");
        layouter.pop_namespace(Some("gadget".to_string()));
        assert_eq!(layouter.get_challenge(floor_planner::column::Challenge { index: 0, phase: 0 }), Value::unknown());
    }
    let seen = calls(&cs);
    assert_eq!(
        seen[seen.len() - 3..].to_vec(),
        vec![
            ok(RecordedCall::Copy {
                left_column: any(0, Any::Advice),
                left_row: 3,
                right_column: any(0, Any::Instance),
                right_row: 9,
            }),
            ok(RecordedCall::PushNamespace { name: "gadget".to_string() }),
            ok(RecordedCall::PopNamespace { gadget_name: Some("gadget".to_string()) }),
        ]
    );
}
