//! Where regions go: the start of every region placed so far, and for every
//! column the first row that no region has taken yet.

use vstd::prelude::*;
use crate::cell::RegionStart;
use crate::column::RegionColumn;
use crate::constants::begins_with;
use crate::error::Error;
use crate::shape::{RegionShape, ShapeModel};

verus! {

/// The first free row of `column` under `occupancy`: 0 for a column that
/// no region has touched.
pub open spec fn occupied_until(occupancy: Map<RegionColumn, usize>, column: RegionColumn) -> nat {
    if occupancy.dom().contains(column) {
        occupancy[column] as nat
    } else {
        0
    }
}

/// The placement state as mathematics.
pub struct LayoutModel {
    /// The start of each region, by region index.
    pub regions: Seq<RegionStart>,
    /// For each column that a region has touched, its first free row.
    pub occupancy: Map<RegionColumn, usize>,
}

impl LayoutModel {
    /// The state before any region is placed.
    pub open spec fn empty() -> LayoutModel {
        LayoutModel { regions: Seq::empty(), occupancy: Map::empty() }
    }

    /// `start` is the earliest row at which a region that touches `columns`
    /// can begin: no touched column is taken at or after it, and it is 0 or
    /// the first free row of a touched column.
    pub open spec fn is_region_start(self, columns: Set<RegionColumn>, start: nat) -> bool {
        &&& forall|c: RegionColumn|
            columns.contains(c) ==> occupied_until(self.occupancy, c) <= start
        &&& (start == 0 || exists|c: RegionColumn|
            columns.contains(c) && occupied_until(self.occupancy, c) == start)
    }

    /// The row at which a region that touches `columns` begins: the largest
    /// first free row among them, and 0 if there is none.
    pub open spec fn region_start(self, columns: Set<RegionColumn>) -> nat {
        choose|start: nat| self.is_region_start(columns, start)
    }

    /// Whether the region ends within the rows that the machine can count.
    pub open spec fn fits(self, shape: ShapeModel) -> bool {
        self.region_start(shape.columns) + shape.row_count <= usize::MAX
    }

    /// The occupancy after a region that touches `columns` has taken the
    /// rows up to `end`.
    pub open spec fn occupy(self, columns: Set<RegionColumn>, end: usize) -> Map<
        RegionColumn,
        usize,
    > {
        Map::new(
            |c: RegionColumn| self.occupancy.dom().contains(c) || columns.contains(c),
            |c: RegionColumn|
                if columns.contains(c) {
                    end
                } else {
                    self.occupancy[c]
                },
        )
    }

    /// The state after a region of the given shape is placed: its start is
    /// appended, and every column it touches is taken up to its last row.
    pub open spec fn place(self, shape: ShapeModel) -> LayoutModel {
        let start = self.region_start(shape.columns);
        LayoutModel {
            regions: self.regions.push(RegionStart(start as usize)),
            occupancy: self.occupy(shape.columns, (start + shape.row_count) as usize),
        }
    }

    /// The state after the shapes are placed one after the other.
    pub open spec fn place_all(self, shapes: Seq<ShapeModel>) -> LayoutModel
        decreases shapes.len(),
    {
        if shapes.len() == 0 {
            self
        } else {
            self.place_all(shapes.drop_last()).place(shapes.last())
        }
    }

    /// Whether each of the shapes fits when its turn comes.
    pub open spec fn fit_all(self, shapes: Seq<ShapeModel>) -> bool
        decreases shapes.len(),
    {
        if shapes.len() == 0 {
            true
        } else {
            self.fit_all(shapes.drop_last()) && self.place_all(shapes.drop_last()).fits(
                shapes.last(),
            )
        }
    }

    /// At most one row is the start of a region.
    pub proof fn region_start_is_unique(self, columns: Set<RegionColumn>, a: nat, b: nat)
        requires
            self.is_region_start(columns, a),
            self.is_region_start(columns, b),
        ensures
            a == b,
    {
    }

    /// A row that meets `is_region_start` is the region's start.
    pub proof fn region_start_is(self, columns: Set<RegionColumn>, start: nat)
        requires
            self.is_region_start(columns, start),
        ensures
            self.region_start(columns) == start,
    {
        self.region_start_is_unique(columns, start, self.region_start(columns));
    }
}

/// For each touched column, its first free row.
#[derive(Debug)]
pub struct Occupancy {
    entries: Vec<(RegionColumn, usize)>,
}

/// The place of `column` among the entries, if it has one.
spec fn entry_of(entries: Seq<(RegionColumn, usize)>, column: RegionColumn) -> int {
    choose|i: int| 0 <= i < entries.len() && entries[i].0 == column
}

/// Whether `column` has an entry.
spec fn has_entry(entries: Seq<(RegionColumn, usize)>, column: RegionColumn) -> bool {
    exists|i: int| 0 <= i < entries.len() && entries[i].0 == column
}

/// The map that a list of entries with distinct columns stands for.
spec fn entries_map(entries: Seq<(RegionColumn, usize)>) -> Map<RegionColumn, usize> {
    Map::new(
        |c: RegionColumn| has_entry(entries, c),
        |c: RegionColumn| entries[entry_of(entries, c)].1,
    )
}

/// No column has two entries.
spec fn distinct_entries(entries: Seq<(RegionColumn, usize)>) -> bool {
    forall|i: int, j: int|
        0 <= i < entries.len() && 0 <= j < entries.len() && i != j ==> entries[i].0
            != entries[j].0
}

impl View for Occupancy {
    type V = Map<RegionColumn, usize>;

    closed spec fn view(&self) -> Map<RegionColumn, usize> {
        entries_map(self.entries@)
    }
}

impl Occupancy {
    #[verifier::type_invariant]
    spec fn distinct(&self) -> bool {
        distinct_entries(self.entries@)
    }

    /// No column is touched yet.
    pub fn new() -> (o: Self)
        ensures
            o@ == Map::<RegionColumn, usize>::empty(),
    {
        let o = Occupancy { entries: Vec::new() };
        assert(o@ =~= Map::<RegionColumn, usize>::empty());
        o
    }

    /// The first free row of `column`.
    pub fn get(&self, column: RegionColumn) -> (row: usize)
        ensures
            row == occupied_until(self@, column),
    {
        proof {
            use_type_invariant(self);
        }
        let mut i: usize = 0;
        while i < self.entries.len()
            invariant
                i <= self.entries.len(),
                distinct_entries(self.entries@),
                forall|j: int| 0 <= j < i ==> self.entries@[j].0 != column,
            decreases self.entries.len() - i,
        {
            if self.entries[i].0 == column {
                assert(has_entry(self.entries@, column));
                assert(entry_of(self.entries@, column) == i);
                return self.entries[i].1;
            }
            i += 1;
        }
        assert(!has_entry(self.entries@, column));
        0
    }

    /// Sets the first free row of `column`.
    pub fn set(&mut self, column: RegionColumn, row: usize)
        ensures
            final(self)@ == old(self)@.insert(column, row),
    {
        proof {
            use_type_invariant(&*self);
        }
        let mut entries: Vec<(RegionColumn, usize)> = Vec::new();
        core::mem::swap(&mut entries, &mut self.entries);
        let ghost before = entries@;
        let mut i: usize = 0;
        while i < entries.len()
            invariant
                i <= entries.len(),
                entries@ == before,
                old(self).entries@ == before,
                distinct_entries(before),
                forall|j: int| 0 <= j < i ==> entries@[j].0 != column,
            decreases entries.len() - i,
        {
            if entries[i].0 == column {
                entries.set(i, (column, row));
                proof {
                    let after = entries@;
                    assert(distinct_entries(after));
                    assert forall|c: RegionColumn| has_entry(after, c) == (has_entry(before, c)
                        || c == column) by {
                        if has_entry(after, c) {
                            let k = choose|k: int| 0 <= k < after.len() && after[k].0 == c;
                            assert(before[k].0 == c);
                        }
                        if has_entry(before, c) {
                            let k = choose|k: int| 0 <= k < before.len() && before[k].0 == c;
                            assert(after[k].0 == c);
                        }
                        if c == column {
                            assert(after[i as int].0 == c);
                        }
                    }
                    assert forall|c: RegionColumn| has_entry(after, c) implies entries_map(
                        after,
                    )[c] == entries_map(before).insert(column, row)[c] by {
                        let k = entry_of(after, c);
                        if c == column {
                            assert(k == i);
                        } else {
                            assert(before[k].0 == c);
                            assert(has_entry(before, c));
                            assert(entry_of(before, c) == k);
                        }
                    }
                    assert(entries_map(after) =~= entries_map(before).insert(column, row));
                }
                self.entries = entries;
                return ;
            }
            i += 1;
        }
        entries.push((column, row));
        proof {
            let after = entries@;
            assert(!has_entry(before, column));
            assert(distinct_entries(after));
            assert forall|c: RegionColumn| has_entry(after, c) == (has_entry(before, c) || c
                == column) by {
                if has_entry(after, c) {
                    let k = choose|k: int| 0 <= k < after.len() && after[k].0 == c;
                    if k < before.len() {
                        assert(before[k].0 == c);
                    }
                }
                if has_entry(before, c) {
                    let k = choose|k: int| 0 <= k < before.len() && before[k].0 == c;
                    assert(after[k].0 == c);
                }
                if c == column {
                    assert(after[before.len() as int].0 == c);
                }
            }
            assert forall|c: RegionColumn| has_entry(after, c) implies entries_map(after)[c]
                == entries_map(before).insert(column, row)[c] by {
                let k = entry_of(after, c);
                if c == column {
                    assert(k == before.len());
                } else {
                    assert(before[k].0 == c);
                    assert(has_entry(before, c));
                    assert(entry_of(before, c) == k);
                }
            }
            assert(entries_map(after) =~= entries_map(before).insert(column, row));
        }
        self.entries = entries;
    }

    /// A copy with the same rows.
    pub fn duplicate(&self) -> (o: Self)
        ensures
            o@ == self@,
    {
        proof {
            use_type_invariant(self);
        }
        let mut entries: Vec<(RegionColumn, usize)> = Vec::new();
        let mut i: usize = 0;
        while i < self.entries.len()
            invariant
                i <= self.entries.len(),
                entries@ == self.entries@.take(i as int),
            decreases self.entries.len() - i,
        {
            entries.push(self.entries[i]);
            assert(entries@ =~= self.entries@.take(i + 1));
            i += 1;
        }
        assert(entries@ =~= self.entries@);
        Occupancy { entries }
    }
}


/// The columns among the first `i + 1` of a list are those among the first
/// `i` and the one at `i`.
proof fn take_one_more(columns: Seq<RegionColumn>, i: int)
    requires
        0 <= i < columns.len(),
    ensures
        columns.take(i + 1).to_set() == columns.take(i).to_set().insert(columns[i]),
{
    let more = columns.take(i + 1);
    let fewer = columns.take(i);
    assert forall|c: RegionColumn| more.to_set().contains(c) == fewer.to_set().insert(
        columns[i],
    ).contains(c) by {
        if more.contains(c) {
            let k = choose|k: int| 0 <= k < more.len() && more[k] == c;
            if k < i {
                assert(fewer[k] == c);
            }
        }
        if fewer.contains(c) {
            let k = choose|k: int| 0 <= k < fewer.len() && fewer[k] == c;
            assert(more[k] == c);
        }
        if c == columns[i] {
            assert(more[i] == c);
        }
    }
    assert(more.to_set() =~= fewer.to_set().insert(columns[i]));
}

/// The placement state: where each region starts and how far each column
/// is taken.
#[derive(Debug)]
pub struct Placement {
    regions: Vec<RegionStart>,
    columns: Occupancy,
}

impl View for Placement {
    type V = LayoutModel;

    closed spec fn view(&self) -> LayoutModel {
        LayoutModel { regions: self.regions@, occupancy: self.columns@ }
    }
}

impl Placement {
    /// The state before any region is placed.
    pub fn new() -> (p: Self)
        ensures
            p@ == LayoutModel::empty(),
    {
        Placement { regions: Vec::new(), columns: Occupancy::new() }
    }

    /// The starts of the regions placed so far, by region index.
    pub fn regions(&self) -> (regions: &Vec<RegionStart>)
        ensures
            regions@ == self@.regions,
    {
        &self.regions
    }

    /// The first free row of `column`.
    pub fn occupied_until(&self, column: RegionColumn) -> (row: usize)
        ensures
            row == occupied_until(self@.occupancy, column),
    {
        self.columns.get(column)
    }

    /// The row at which a region of this shape would begin now.
    pub fn region_start<V>(&self, shape: &RegionShape<V>) -> (start: usize)
        ensures
            self@.is_region_start(shape@.columns, start as nat),
            start == self@.region_start(shape@.columns),
    {
        let columns = shape.columns();
        let mut start: usize = 0;
        let mut i: usize = 0;
        assert(columns@.take(0).to_set() =~= Set::<RegionColumn>::empty());
        while i < columns.len()
            invariant
                i <= columns.len(),
                self@.is_region_start(columns@.take(i as int).to_set(), start as nat),
            decreases columns.len() - i,
        {
            let until = self.columns.get(columns[i]);
            let ghost fewer = columns@.take(i as int).to_set();
            let ghost more = columns@.take(i as int + 1).to_set();
            let ghost before = start;
            if until > start {
                start = until;
            }
            proof {
                take_one_more(columns@, i as int);
                if until > before {
                    assert(more.contains(columns@[i as int]));
                } else if before != 0 {
                    let w = choose|c: RegionColumn|
                        fewer.contains(c) && occupied_until(self@.occupancy, c) == before;
                    assert(more.contains(w));
                }
                assert forall|c: RegionColumn| more.contains(c) implies occupied_until(
                    self@.occupancy,
                    c,
                ) <= start by {
                    if c != columns@[i as int] {
                        assert(fewer.contains(c));
                    }
                }
            }
            i += 1;
        }
        proof {
            assert(columns@.take(columns@.len() as int) =~= columns@);
            self@.region_start_is(shape@.columns, start as nat);
        }
        start
    }

    /// Places a region of this shape at the earliest row where every
    /// column it touches is free: its index is the number of regions placed
    /// before it, its start is appended, and the columns it touches are
    /// taken up to its end. A region whose end cannot be counted is refused,
    /// and then nothing changes.
    pub fn place<V>(&mut self, shape: &RegionShape<V>) -> (r: Result<RegionStart, Error>)
        ensures
            old(self)@.fits(shape@) ==> final(self)@ == old(self)@.place(shape@) && r == Ok::<
                RegionStart,
                Error,
            >(RegionStart(old(self)@.region_start(shape@.columns) as usize)),
            !old(self)@.fits(shape@) ==> final(self)@ == old(self)@ && r == Err::<
                RegionStart,
                Error,
            >(Error::BoundsFailure),
    {
        let start = self.region_start(shape);
        let end = match start.checked_add(shape.row_count()) {
            Some(end) => end,
            None => {
                return Err(Error::BoundsFailure);
            },
        };
        self.regions.push(RegionStart(start));
        let columns = shape.columns();
        let mut i: usize = 0;
        assert(columns@.take(0).to_set() =~= Set::<RegionColumn>::empty());
        assert(self.columns@ =~= old(self)@.occupy(Set::<RegionColumn>::empty(), end));
        while i < columns.len()
            invariant
                i <= columns.len(),
                self.regions@ == old(self).regions@.push(RegionStart(start)),
                self.columns@ == old(self)@.occupy(columns@.take(i as int).to_set(), end),
            decreases columns.len() - i,
        {
            proof {
                take_one_more(columns@, i as int);
            }
            self.columns.set(columns[i], end);
            assert(self.columns@ =~= old(self)@.occupy(
                columns@.take(i as int + 1).to_set(),
                end,
            ));
            i += 1;
        }
        assert(columns@.take(columns@.len() as int) =~= columns@);
        Ok(RegionStart(start))
    }

    /// A copy of the state.
    pub fn duplicate(&self) -> (p: Self)
        ensures
            p@ == self@,
    {
        let mut regions: Vec<RegionStart> = Vec::new();
        let mut i: usize = 0;
        while i < self.regions.len()
            invariant
                i <= self.regions.len(),
                regions@ == self.regions@.take(i as int),
            decreases self.regions.len() - i,
        {
            regions.push(self.regions[i]);
            assert(regions@ =~= self.regions@.take(i + 1));
            i += 1;
        }
        assert(regions@ =~= self.regions@);
        Placement { regions, columns: self.columns.duplicate() }
    }
}


impl LayoutModel {
    /// Every finite set of columns has a region start: the largest first
    /// free row among the columns, and 0 if there is no column or none of
    /// them is taken. So `region_start` is that row.
    pub proof fn region_start_is_largest_free_row(self, columns: Set<RegionColumn>)
        requires
            columns.finite(),
        ensures
            self.is_region_start(columns, self.region_start(columns)),
            forall|c: RegionColumn|
                columns.contains(c) ==> occupied_until(self.occupancy, c) <= self.region_start(
                    columns,
                ),
            self.region_start(columns) == 0 || exists|c: RegionColumn|
                columns.contains(c) && occupied_until(self.occupancy, c) == self.region_start(
                    columns,
                ),
        decreases columns.len(),
    {
        if columns.len() == 0 {
            assert(self.is_region_start(columns, 0));
        } else {
            let one = columns.choose();
            let rest = columns.remove(one);
            self.region_start_is_largest_free_row(rest);
            let among_rest = self.region_start(rest);
            let here = occupied_until(self.occupancy, one);
            let start = if here > among_rest {
                here
            } else {
                among_rest
            };
            assert forall|c: RegionColumn| columns.contains(c) implies occupied_until(
                self.occupancy,
                c,
            ) <= start by {
                if c != one {
                    assert(rest.contains(c));
                }
            }
            if here > among_rest {
                assert(columns.contains(one));
            } else if among_rest != 0 {
                let w = choose|c: RegionColumn|
                    rest.contains(c) && occupied_until(self.occupancy, c) == among_rest;
                assert(columns.contains(w));
            }
            assert(self.is_region_start(columns, start));
        }
    }

    /// Placing a region changes no start that was assigned before: the
    /// list of starts only grows, by the start of the new region.
    pub proof fn place_keeps_earlier_starts(self, shape: ShapeModel)
        ensures
            self.place(shape).regions.len() == self.regions.len() + 1,
            self.place(shape).regions.take(self.regions.len() as int) == self.regions,
            self.place(shape).regions.last().0 == self.region_start(shape.columns) as usize,
    {
        assert(self.place(shape).regions.take(self.regions.len() as int) =~= self.regions);
    }

    /// Placing a region that fits frees no row: the first free row of a
    /// column that the region touches becomes the region's end, which is not
    /// before it, and that of any other column stays.
    pub proof fn place_never_frees_a_row(self, shape: ShapeModel, column: RegionColumn)
        requires
            shape.columns.finite(),
            self.fits(shape),
        ensures
            occupied_until(self.place(shape).occupancy, column) >= occupied_until(
                self.occupancy,
                column,
            ),
            shape.columns.contains(column) ==> occupied_until(self.place(shape).occupancy, column)
                == self.region_start(shape.columns) + shape.row_count,
            !shape.columns.contains(column) ==> occupied_until(self.place(shape).occupancy, column)
                == occupied_until(self.occupancy, column),
    {
        self.region_start_is_largest_free_row(shape.columns);
    }

    /// Placing a list of shapes and then one more is placing the longer
    /// list.
    pub proof fn place_all_then_one(self, shapes: Seq<ShapeModel>, shape: ShapeModel)
        ensures
            self.place_all(shapes.push(shape)) == self.place_all(shapes).place(shape),
            self.fit_all(shapes.push(shape)) == (self.fit_all(shapes) && self.place_all(
                shapes,
            ).fits(shape)),
    {
        assert(shapes.push(shape).drop_last() =~= shapes);
    }

    /// Placing a list of shapes changes no start that was assigned before,
    /// and adds one start for each shape.
    pub proof fn place_all_keeps_earlier_starts(self, shapes: Seq<ShapeModel>)
        ensures
            self.place_all(shapes).regions.len() == self.regions.len() + shapes.len(),
            self.place_all(shapes).regions.take(self.regions.len() as int) == self.regions,
        decreases shapes.len(),
    {
        if shapes.len() == 0 {
            assert(self.regions.take(self.regions.len() as int) =~= self.regions);
        } else {
            let before = self.place_all(shapes.drop_last());
            self.place_all_keeps_earlier_starts(shapes.drop_last());
            before.place_keeps_earlier_starts(shapes.last());
            assert(self.place_all(shapes).regions.take(self.regions.len() as int)
                =~= before.regions.take(self.regions.len() as int));
        }
    }
}


impl LayoutModel {
    /// Placing one list of shapes and then another is placing the two
    /// lists as one.
    pub proof fn place_all_concat(self, first: Seq<ShapeModel>, second: Seq<ShapeModel>)
        ensures
            self.place_all(first + second) == self.place_all(first).place_all(second),
        decreases second.len(),
    {
        if second.len() == 0 {
            assert(first + second =~= first);
        } else {
            self.place_all_concat(first, second.drop_last());
            assert((first + second).drop_last() =~= first + second.drop_last());
            assert((first + second).last() == second.last());
        }
    }

    /// The starts after the first `i` shapes of a list are placed are how
    /// the starts begin after the whole list is placed.
    pub proof fn place_all_begins_with_part(self, shapes: Seq<ShapeModel>, i: int)
        requires
            0 <= i <= shapes.len(),
        ensures
            begins_with(
                self.place_all(shapes).regions,
                self.place_all(shapes.take(i)).regions,
            ),
    {
        let part = shapes.take(i);
        let rest = shapes.skip(i);
        assert(part + rest =~= shapes);
        self.place_all_concat(part, rest);
        self.place_all(part).place_all_keeps_earlier_starts(rest);
    }
}

/// Whether every shape of the list touches finitely many columns.
pub open spec fn all_finite(shapes: Seq<ShapeModel>) -> bool {
    forall|i: int| 0 <= i < shapes.len() ==> (#[trigger] shapes[i]).columns.finite()
}

impl LayoutModel {
    /// Placing a list of regions that fit frees no row of any column.
    pub proof fn place_all_never_frees_a_row(self, shapes: Seq<ShapeModel>, column: RegionColumn)
        requires
            all_finite(shapes),
            self.fit_all(shapes),
        ensures
            occupied_until(self.place_all(shapes).occupancy, column) >= occupied_until(
                self.occupancy,
                column,
            ),
        decreases shapes.len(),
    {
        if shapes.len() > 0 {
            let fewer = shapes.drop_last();
            assert(all_finite(fewer)) by {
                assert forall|i: int| 0 <= i < fewer.len() implies (#[trigger] fewer[i]).columns.finite() by {
                    assert(fewer[i] == shapes[i]);
                }
            }
            self.place_all_never_frees_a_row(fewer, column);
            assert(shapes.last() == shapes[shapes.len() - 1]);
            self.place_all(fewer).place_never_frees_a_row(shapes.last(), column);
        }
    }

    /// Two regions that touch the same column do not share a row of it:
    /// the later of them starts at or after the end of the earlier.
    pub proof fn regions_on_a_column_do_not_overlap(
        self,
        shapes: Seq<ShapeModel>,
        earlier: int,
        later: int,
        column: RegionColumn,
    )
        requires
            all_finite(shapes),
            self.fit_all(shapes),
            0 <= earlier < later < shapes.len(),
            shapes[earlier].columns.contains(column),
            shapes[later].columns.contains(column),
        ensures
            self.place_all(shapes.take(later)).region_start(shapes[later].columns)
                >= self.place_all(shapes.take(earlier)).region_start(shapes[earlier].columns)
                + shapes[earlier].row_count,
    {
        let before = self.place_all(shapes.take(earlier));
        let placed = self.place_all(shapes.take(earlier + 1));
        let between = shapes.subrange(earlier + 1, later);
        let at_later = self.place_all(shapes.take(later));
        self.fit_all_of_part(shapes, earlier + 1);
        self.fit_all_of_part(shapes, later);
        // The earlier region takes the column up to its end.
        assert(shapes.take(earlier + 1).drop_last() =~= shapes.take(earlier));
        assert(shapes.take(earlier + 1).last() == shapes[earlier]);
        before.place_never_frees_a_row(shapes[earlier], column);
        // The regions between the two free no row of it.
        assert(shapes.take(earlier + 1) + between =~= shapes.take(later));
        self.place_all_concat(shapes.take(earlier + 1), between);
        placed.fit_all_of_rest(shapes.take(earlier + 1), between, self);
        assert(all_finite(between)) by {
            assert forall|i: int| 0 <= i < between.len() implies (#[trigger] between[i]).columns.finite() by {
                assert(between[i] == shapes[earlier + 1 + i]);
            }
        }
        placed.place_all_never_frees_a_row(between, column);
        // The later region starts where the column is free.
        at_later.region_start_is_largest_free_row(shapes[later].columns);
    }

    /// If the shapes of a list fit when their turn comes, so do the first
    /// `i` of them.
    pub proof fn fit_all_of_part(self, shapes: Seq<ShapeModel>, i: int)
        requires
            0 <= i <= shapes.len(),
            self.fit_all(shapes),
        ensures
            self.fit_all(shapes.take(i)),
            i < shapes.len() ==> self.place_all(shapes.take(i)).fits(shapes[i]),
        decreases shapes.len(),
    {
        if i == shapes.len() {
            assert(shapes.take(i) =~= shapes);
        } else {
            let fewer = shapes.drop_last();
            self.fit_all_of_part(fewer, i);
            assert(fewer.take(i) =~= shapes.take(i));
            if i < fewer.len() {
                assert(fewer[i] == shapes[i]);
            } else {
                assert(shapes.take(i) =~= fewer);
                assert(shapes.last() == shapes[i]);
            }
        }
    }

    /// If the shapes of two lists as one fit when their turn comes, the
    /// shapes of the second list fit when placed after the first list:
    /// `self` is `origin` with the first list placed.
    pub proof fn fit_all_of_rest(
        self,
        first: Seq<ShapeModel>,
        second: Seq<ShapeModel>,
        origin: LayoutModel,
    )
        requires
            self == origin.place_all(first),
            origin.fit_all(first + second),
        ensures
            self.fit_all(second),
        decreases second.len(),
    {
        if second.len() > 0 {
            let whole = first + second;
            assert(whole.drop_last() =~= first + second.drop_last());
            assert(whole.last() == second.last());
            self.fit_all_of_rest(first, second.drop_last(), origin);
            origin.place_all_concat(first, second.drop_last());
        }
    }
}

} // verus!
