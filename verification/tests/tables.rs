use floor_planner::cell::Value;
use floor_planner::column::{Column, Fixed, TableColumn};
use floor_planner::error::Error;
use floor_planner::recorder::{Recorded, RecordedCall, Recorder};
use floor_planner::region::{Layouter, TableAssignment, TableLayouter};
use floor_planner::single_pass::SingleChipLayouter;
use floor_planner::sink::Traced;
use floor_planner::table::{SimpleTableLayouter, TableEntry};

fn calls(recorder: &Recorder<u64>) -> Vec<Recorded<u64>> {
    (0..recorder.len()).map(|i| recorder.call(i).unwrap().clone()).collect()
}

fn ok(call: RecordedCall<u64>) -> Recorded<u64> {
    Recorded { call, failure: None }
}

fn column(index: usize) -> TableColumn {
    TableColumn::new(Column::<Fixed>::new(index))
}

/// Writes the listed cells, each as column, row and value.
struct Cells {
    cells: Vec<(TableColumn, usize, u64)>,
}

impl TableAssignment<u64> for Cells {
    fn assign<T: TableLayouter<u64>>(&mut self, table: &mut T) -> Result<(), Error> {
        for (column, row, value) in self.cells.iter() {
            table.assign_cell("cell", *column, *row, Value::known(*value))?;
        }
        Ok(())
    }
}

fn rows(column: TableColumn, count: usize, first_value: u64) -> Vec<(TableColumn, usize, u64)> {
    (0..count).map(|row| (column, row, first_value + row as u64)).collect()
}

#[test]
fn columns_of_different_lengths_are_refused() {
    let mut cs: Recorder<u64> = Recorder::new(4);
    let mut layouter = SingleChipLayouter::new(&mut cs, vec![]).unwrap();
    let mut cells = rows(column(0), 3, 10);
    cells.extend(rows(column(1), 2, 20));
    assert_eq!(layouter.assign_table("t", Cells { cells }), Err(Error::Synthesis));
    assert!(layouter.table_columns.is_empty());
}

#[test]
fn a_full_table_is_filled_with_the_values_of_row_zero() {
    let mut cs: Recorder<u64> = Recorder::new(4);
    {
        let mut layouter = SingleChipLayouter::new(&mut cs, vec![]).unwrap();
        let mut cells = rows(column(0), 5, 10);
        cells.extend(rows(column(1), 5, 20));
        assert_eq!(layouter.assign_table("t", Cells { cells }), Ok(()));
        assert_eq!(layouter.table_columns, vec![column(0), column(1)]);
    }
    let seen = calls(&cs);
    assert_eq!(seen.len(), 1 + 10 + 1 + 2);
    assert_eq!(seen[0], ok(RecordedCall::EnterRegion { name: "t".to_string() }));
    assert_eq!(
        seen[4],
        ok(RecordedCall::AssignFixed {
            annotation: "cell".to_string(),
            column: Column::<Fixed>::new(0),
            row: 3,
            value: Value::known(13),
        })
    );
    assert_eq!(
        seen[11..].to_vec(),
        vec![
            ok(RecordedCall::ExitRegion),
            ok(RecordedCall::FillFromRow {
                column: Column::<Fixed>::new(0),
                row: 5,
                value: Value::known(10),
            }),
            ok(RecordedCall::FillFromRow {
                column: Column::<Fixed>::new(1),
                row: 5,
                value: Value::known(20),
            }),
        ]
    );
}

#[test]
fn a_column_of_a_finished_table_is_refused() {
    let mut cs: Recorder<u64> = Recorder::new(4);
    {
        let mut layouter = SingleChipLayouter::new(&mut cs, vec![]).unwrap();
        layouter.assign_table("first", Cells { cells: rows(column(0), 2, 10) }).unwrap();
        assert_eq!(layouter.table_columns, vec![column(0)]);
        let again = layouter.assign_table("second", Cells { cells: rows(column(0), 2, 30) });
        assert_eq!(again, Err(Error::Synthesis));
        assert_eq!(layouter.table_columns, vec![column(0)]);
    }
    let seen = calls(&cs);
    // The refused write did not reach the sink.
    assert_eq!(seen.last(), Some(&ok(RecordedCall::EnterRegion { name: "second".to_string() })));
}

#[test]
fn the_handle_refuses_a_finished_column_and_keeps_nothing_of_it() {
    let mut cs: Recorder<u64> = Recorder::new(4);
    let used = vec![column(3)];
    let mut table = SimpleTableLayouter::new(Traced::new(&mut cs), &used);
    assert_eq!(table.assign_cell("c", column(3), 0, Value::known(1)), Err(Error::Synthesis));
    assert!(table.default_and_assigned.is_empty());
    assert_eq!(table.used_columns, &vec![column(3)]);
    assert_eq!(table.cs.sink().len(), 0);
}

#[test]
fn a_second_value_for_row_zero_is_refused() {
    let mut cs: Recorder<u64> = Recorder::new(4);
    let used = vec![];
    let mut table = SimpleTableLayouter::new(Traced::new(&mut cs), &used);
    table.assign_cell("c", column(0), 0, Value::known(1)).unwrap();
    table.assign_cell("c", column(0), 1, Value::known(2)).unwrap();
    assert_eq!(table.assign_cell("c", column(0), 0, Value::known(3)), Err(Error::Synthesis));
    assert_eq!(table.default_and_assigned.len(), 1);
    assert_eq!(table.default_and_assigned[0].default, Some(Value::known(1)));
    assert_eq!(table.default_and_assigned[0].assigned, vec![true, true]);
    // A row other than 0 may be written again.
    table.assign_cell("c", column(0), 1, Value::known(4)).unwrap();
    assert_eq!(table.default_and_assigned[0].assigned, vec![true, true]);
    // The refused write had reached the sink before it was refused.
    assert_eq!(table.cs.sink().len(), 4);
}

#[test]
fn rows_are_marked_as_they_are_written() {
    let mut cs: Recorder<u64> = Recorder::new(4);
    let used = vec![];
    let mut table = SimpleTableLayouter::new(Traced::new(&mut cs), &used);
    table.assign_cell("c", column(1), 2, Value::known(5)).unwrap();
    table.assign_cell("c", column(0), 0, Value::known(6)).unwrap();
    assert_eq!(table.default_and_assigned.len(), 2);
    assert_eq!(table.default_and_assigned[0].column, column(1));
    assert_eq!(table.default_and_assigned[0].default, None);
    assert_eq!(table.default_and_assigned[0].assigned, vec![false, false, true]);
    assert_eq!(table.default_and_assigned[1].column, column(0));
    assert_eq!(table.default_and_assigned[1].default, Some(Value::known(6)));
    assert_eq!(table.default_and_assigned[1].assigned, vec![true]);
    assert_eq!(
        table.assign_cell("c", column(0), usize::MAX, Value::known(1)),
        Err(Error::BoundsFailure)
    );
    assert_eq!(table.cs.sink().len(), 2);
}

#[test]
fn a_write_that_the_sink_refuses_leaves_a_blank_entry() {
    let mut cs: Recorder<u64> = Recorder::new(1);
    let used = vec![];
    let mut table = SimpleTableLayouter::new(Traced::new(&mut cs), &used);
    assert_eq!(
        table.assign_cell("c", column(0), 2, Value::known(5)),
        Err(Error::NotEnoughRowsAvailable { current_k: 1 })
    );
    assert_eq!(table.default_and_assigned.len(), 1);
    assert_eq!(table.default_and_assigned[0].default, None);
    assert!(table.default_and_assigned[0].assigned.is_empty());
}

#[test]
fn a_table_with_a_gap_is_refused() {
    let mut cs: Recorder<u64> = Recorder::new(4);
    let mut layouter = SingleChipLayouter::new(&mut cs, vec![]).unwrap();
    let cells = vec![(column(0), 0, 1), (column(0), 2, 3)];
    assert_eq!(layouter.assign_table("t", Cells { cells }), Err(Error::Synthesis));
    assert!(layouter.table_columns.is_empty());
}

#[test]
fn a_table_without_columns_is_refused() {
    let mut cs: Recorder<u64> = Recorder::new(4);
    let mut layouter = SingleChipLayouter::new(&mut cs, vec![]).unwrap();
    assert_eq!(layouter.assign_table("t", Cells { cells: vec![] }), Err(Error::Synthesis));
    assert_eq!(layouter.finish_table(vec![]), Err(Error::Synthesis));
}

#[test]
fn a_column_without_a_default_is_refused() {
    let mut cs: Recorder<u64> = Recorder::new(4);
    let mut layouter = SingleChipLayouter::new(&mut cs, vec![]).unwrap();
    let blank = TableEntry { column: column(0), default: None, assigned: vec![] };
    assert_eq!(layouter.finish_table(vec![blank]), Err(Error::Synthesis));
    assert!(layouter.table_columns.is_empty());
    assert_eq!(layouter.cs.sink().len(), 0);
}

#[test]
fn a_fill_that_the_sink_refuses_ends_the_table() {
    // Two rows: the table takes both, and the fill from row 2 is refused.
    let mut cs: Recorder<u64> = Recorder::new(1);
    {
        let mut layouter = SingleChipLayouter::new(&mut cs, vec![]).unwrap();
        let mut cells = rows(column(0), 2, 10);
        cells.extend(rows(column(1), 2, 20));
        assert_eq!(
            layouter.assign_table("t", Cells { cells }),
            Err(Error::NotEnoughRowsAvailable { current_k: 1 })
        );
        // The columns were set aside before the fill.
        assert_eq!(layouter.table_columns, vec![column(0), column(1)]);
    }
    let seen = calls(&cs);
    let fills = seen.iter().filter(|c| matches!(c.call, RecordedCall::FillFromRow { .. })).count();
    assert_eq!(fills, 1);
    assert_eq!(
        seen.last().unwrap().failure,
        Some(Error::NotEnoughRowsAvailable { current_k: 1 })
    );
}

#[test]
fn a_table_takes_no_row_from_the_regions() {
    let mut cs: Recorder<u64> = Recorder::new(4);
    let mut layouter = SingleChipLayouter::new(&mut cs, vec![]).unwrap();
    layouter.assign_table("t", Cells { cells: rows(column(0), 3, 1) }).unwrap();
    assert!(layouter.placement.regions().is_empty());
    assert_eq!(layouter.next_constant_row, 0);
}
