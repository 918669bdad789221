//! The constraint system that the planner writes to, and the history of
//! what the planner hands to it.

use vstd::prelude::*;
use crate::cell::Value;
use crate::column::{Advice, Any, Challenge, Column, Fixed, Instance, Selector};
use crate::error::Error;

verus! {

/// One call on a sink, with what was handed to it.
#[allow(inconsistent_fields)]
pub enum SinkCall<V> {
    EnterRegion { name: Seq<char> },
    ExitRegion,
    EnableSelector { annotation: Seq<char>, selector: Selector, row: usize },
    /// A query of an instance cell, with the value that the sink answered,
    /// if it answered one.
    QueryInstance { column: Column<Instance>, row: usize, value: Option<Value<V>> },
    /// A query of a challenge, with the value that the sink answered.
    GetChallenge { challenge: Challenge, value: Value<V> },
    AssignAdvice { annotation: Seq<char>, column: Column<Advice>, row: usize, value: Value<V> },
    AssignFixed { annotation: Seq<char>, column: Column<Fixed>, row: usize, value: Value<V> },
    Copy { left_column: Column<Any>, left_row: usize, right_column: Column<Any>, right_row: usize },
    FillFromRow { column: Column<Fixed>, row: usize, value: Value<V> },
    AnnotateColumn { annotation: Seq<char>, column: Column<Any> },
    PushNamespace { name: Seq<char> },
    PopNamespace { gadget_name: Option<Seq<char>> },
    Fork { ranges: Seq<(usize, usize)> },
    Merge { parts: nat },
}

/// A call on a sink and how it ended: `failure` is the error that the sink
/// answered with, if it did.
pub struct SinkEvent<V> {
    pub call: SinkCall<V>,
    pub failure: Option<Error>,
}

/// The error in a sink's answer, if it is one.
pub open spec fn failure_of<T>(answer: Result<T, Error>) -> Option<Error> {
    match answer {
        Ok(_) => None,
        Err(e) => Some(e),
    }
}

/// The value in a sink's answer, if it is one.
pub open spec fn answer_of<T>(answer: Result<T, Error>) -> Option<T> {
    match answer {
        Ok(value) => Some(value),
        Err(_) => None,
    }
}

/// The characters of a name that may be missing.
pub open spec fn name_of(name: Option<String>) -> Option<Seq<char>> {
    match name {
        Some(name) => Some(name@),
        None => None,
    }
}

/// The half-open ranges of rows as pairs of first row and end.
pub open spec fn range_pairs(ranges: Seq<core::ops::Range<usize>>) -> Seq<(usize, usize)> {
    ranges.map_values(|r: core::ops::Range<usize>| (r.start, r.end))
}

/// A constraint system that takes the planner's writes.
///
/// Whether a call fails, and what a query answers, is the sink's own
/// business: nothing is promised of an implementation.
pub trait Assignment<V>: Sized {
    /// Opens a region, for diagnostics.
    fn enter_region(&mut self, name: &str);

    /// Closes the region that is open.
    fn exit_region(&mut self);

    /// Switches a selector on at a row.
    fn enable_selector(&mut self, annotation: &str, selector: &Selector, row: usize) -> Result<
        (),
        Error,
    >;

    /// Reads the instance column at a row. The value may be unknown.
    fn query_instance(&self, column: Column<Instance>, row: usize) -> Result<Value<V>, Error>;

    /// Writes a value to an advice column at a row.
    fn assign_advice(
        &mut self,
        annotation: &str,
        column: Column<Advice>,
        row: usize,
        value: Value<V>,
    ) -> Result<(), Error>;

    /// Writes a value to a fixed column at a row.
    fn assign_fixed(
        &mut self,
        annotation: &str,
        column: Column<Fixed>,
        row: usize,
        value: Value<V>,
    ) -> Result<(), Error>;

    /// Asserts that two cells hold the same value.
    fn copy(
        &mut self,
        left_column: Column<Any>,
        left_row: usize,
        right_column: Column<Any>,
        right_row: usize,
    ) -> Result<(), Error>;

    /// Fills a fixed column with one value from a row on.
    fn fill_from_row(&mut self, column: Column<Fixed>, row: usize, value: Value<V>) -> Result<
        (),
        Error,
    >;

    /// The value of a challenge. It may be unknown.
    fn get_challenge(&self, challenge: Challenge) -> Value<V>;

    /// Names a column, for diagnostics.
    fn annotate_column(&mut self, annotation: &str, column: Column<Any>);

    /// Opens a namespace, for diagnostics.
    fn push_namespace(&mut self, name: &str);

    /// Closes the namespace that is open.
    fn pop_namespace(&mut self, gadget_name: Option<String>);

    /// Splits off one sink for each range of rows.
    fn fork(&mut self, ranges: &Vec<core::ops::Range<usize>>) -> Result<Vec<Self>, Error>;

    /// Takes back the sinks that were split off, with all they received.
    fn merge(&mut self, subs: Vec<Self>) -> Result<(), Error>;
}

/// A sink together with the history of the calls made on it through this
/// value. Each method makes one call on the sink and adds that call, with
/// the error it was answered with, to the history. The planner reaches its
/// sink through a `Traced` only, so the history is the list of what the
/// planner has handed to the sink, in order. The history is there for the
/// contracts to speak of and takes no room when the program runs.
pub struct Traced<'a, V, CS: Assignment<V>> {
    sink: &'a mut CS,
    history: Ghost<Seq<SinkEvent<V>>>,
}

impl<'a, V, CS: Assignment<V>> Traced<'a, V, CS> {
    /// The calls made so far.
    pub closed spec fn events(&self) -> Seq<SinkEvent<V>> {
        self.history@
    }

    /// The sink as it now is.
    pub closed spec fn held(&self) -> CS {
        *self.sink
    }

    /// Takes a sink, on which nothing has been called through this value.
    pub fn new(sink: &'a mut CS) -> (traced: Self)
        ensures
            traced.events() == Seq::<SinkEvent<V>>::empty(),
            traced.held() == *old(sink),
    {
        Traced { sink, history: Ghost(Seq::empty()) }
    }

    /// The sink, as it now is, to look at.
    pub fn sink(&self) -> (sink: &CS)
        ensures
            *sink == self.held(),
    {
        &*self.sink
    }

    /// Lends the sink out, with a history of its own that starts empty.
    /// What is called on the sink through the value that comes back joins
    /// that history, not this one, until `resume` is told of it.
    pub(crate) fn lend(&mut self) -> (lent: Traced<'_, V, CS>)
        ensures
            lent.events() == Seq::<SinkEvent<V>>::empty(),
            lent.held() == old(self).held(),
            final(self).events() == old(self).events(),
    {
        Traced { sink: &mut *self.sink, history: Ghost(Seq::empty()) }
    }

    /// Takes up the history again after the sink was lent out: `during` is
    /// what was called on the sink in the meantime.
    pub(crate) fn resume(&mut self, Ghost(during): Ghost<Seq<SinkEvent<V>>>)
        ensures
            final(self).events() == old(self).events() + during,
    {
        self.history = Ghost(self.history@ + during);
    }

    /// Opens a region, for diagnostics.
    pub fn enter_region(&mut self, name: &str)
        ensures
            final(self).events() == old(self).events().push(
                SinkEvent { call: SinkCall::EnterRegion { name: name@ }, failure: None },
            ),
    {
        self.sink.enter_region(name);
        self.history = Ghost(
            self.history@.push(
                SinkEvent { call: SinkCall::EnterRegion { name: name@ }, failure: None },
            ),
        );
    }

    /// Closes the region that is open.
    pub fn exit_region(&mut self)
        ensures
            final(self).events() == old(self).events().push(
                SinkEvent { call: SinkCall::ExitRegion, failure: None },
            ),
    {
        self.sink.exit_region();
        self.history = Ghost(
            self.history@.push(SinkEvent { call: SinkCall::ExitRegion, failure: None }),
        );
    }

    /// Switches a selector on at a row.
    pub fn enable_selector(&mut self, annotation: &str, selector: &Selector, row: usize) -> (r:
        Result<(), Error>)
        ensures
            final(self).events() == old(self).events().push(
                SinkEvent {
                    call: SinkCall::EnableSelector { annotation: annotation@, selector: *selector, row },
                    failure: failure_of(r),
                },
            ),
    {
        let r = self.sink.enable_selector(annotation, selector, row);
        self.history = Ghost(
            self.history@.push(
                SinkEvent {
                    call: SinkCall::EnableSelector { annotation: annotation@, selector: *selector, row },
                    failure: failure_of(r),
                },
            ),
        );
        r
    }

    /// Reads the instance column at a row. The value that the sink
    /// answers joins the history with the query.
    pub fn query_instance(&mut self, column: Column<Instance>, row: usize) -> (r: Result<
        Value<V>,
        Error,
    >)
        ensures
            final(self).events() == old(self).events().push(
                SinkEvent {
                    call: SinkCall::QueryInstance { column, row, value: answer_of(r) },
                    failure: failure_of(r),
                },
            ),
    {
        let r = self.sink.query_instance(column, row);
        self.history = Ghost(
            self.history@.push(
                SinkEvent {
                    call: SinkCall::QueryInstance { column, row, value: answer_of(r) },
                    failure: failure_of(r),
                },
            ),
        );
        r
    }

    /// Writes a value to an advice column at a row.
    pub fn assign_advice(
        &mut self,
        annotation: &str,
        column: Column<Advice>,
        row: usize,
        value: Value<V>,
    ) -> (r: Result<(), Error>)
        ensures
            final(self).events() == old(self).events().push(
                SinkEvent {
                    call: SinkCall::AssignAdvice { annotation: annotation@, column, row, value },
                    failure: failure_of(r),
                },
            ),
    {
        let r = self.sink.assign_advice(annotation, column, row, value);
        self.history = Ghost(
            self.history@.push(
                SinkEvent {
                    call: SinkCall::AssignAdvice { annotation: annotation@, column, row, value },
                    failure: failure_of(r),
                },
            ),
        );
        r
    }

    /// Writes a value to a fixed column at a row.
    pub fn assign_fixed(
        &mut self,
        annotation: &str,
        column: Column<Fixed>,
        row: usize,
        value: Value<V>,
    ) -> (r: Result<(), Error>)
        ensures
            final(self).events() == old(self).events().push(
                SinkEvent {
                    call: SinkCall::AssignFixed { annotation: annotation@, column, row, value },
                    failure: failure_of(r),
                },
            ),
    {
        let r = self.sink.assign_fixed(annotation, column, row, value);
        self.history = Ghost(
            self.history@.push(
                SinkEvent {
                    call: SinkCall::AssignFixed { annotation: annotation@, column, row, value },
                    failure: failure_of(r),
                },
            ),
        );
        r
    }

    /// Asserts that two cells hold the same value.
    pub fn copy(
        &mut self,
        left_column: Column<Any>,
        left_row: usize,
        right_column: Column<Any>,
        right_row: usize,
    ) -> (r: Result<(), Error>)
        ensures
            final(self).events() == old(self).events().push(
                SinkEvent {
                    call: SinkCall::Copy { left_column, left_row, right_column, right_row },
                    failure: failure_of(r),
                },
            ),
    {
        let r = self.sink.copy(left_column, left_row, right_column, right_row);
        self.history = Ghost(
            self.history@.push(
                SinkEvent {
                    call: SinkCall::Copy { left_column, left_row, right_column, right_row },
                    failure: failure_of(r),
                },
            ),
        );
        r
    }

    /// Fills a fixed column with one value from a row on.
    pub fn fill_from_row(&mut self, column: Column<Fixed>, row: usize, value: Value<V>) -> (r:
        Result<(), Error>)
        ensures
            final(self).events() == old(self).events().push(
                SinkEvent {
                    call: SinkCall::FillFromRow { column, row, value },
                    failure: failure_of(r),
                },
            ),
    {
        let r = self.sink.fill_from_row(column, row, value);
        self.history = Ghost(
            self.history@.push(
                SinkEvent {
                    call: SinkCall::FillFromRow { column, row, value },
                    failure: failure_of(r),
                },
            ),
        );
        r
    }

    /// Asks the sink for the value of a challenge and hands the answer
    /// on. The value that the sink answers joins the history with the query.
    pub fn get_challenge(&mut self, challenge: Challenge) -> (v: Value<V>)
        ensures
            final(self).events() == old(self).events().push(
                SinkEvent { call: SinkCall::GetChallenge { challenge, value: v }, failure: None },
            ),
    {
        let v = self.sink.get_challenge(challenge);
        self.history = Ghost(
            self.history@.push(
                SinkEvent { call: SinkCall::GetChallenge { challenge, value: v }, failure: None },
            ),
        );
        v
    }

    /// Names a column, for diagnostics.
    pub fn annotate_column(&mut self, annotation: &str, column: Column<Any>)
        ensures
            final(self).events() == old(self).events().push(
                SinkEvent {
                    call: SinkCall::AnnotateColumn { annotation: annotation@, column },
                    failure: None,
                },
            ),
    {
        self.sink.annotate_column(annotation, column);
        self.history = Ghost(
            self.history@.push(
                SinkEvent {
                    call: SinkCall::AnnotateColumn { annotation: annotation@, column },
                    failure: None,
                },
            ),
        );
    }

    /// Opens a namespace, for diagnostics.
    pub fn push_namespace(&mut self, name: &str)
        ensures
            final(self).events() == old(self).events().push(
                SinkEvent { call: SinkCall::PushNamespace { name: name@ }, failure: None },
            ),
    {
        self.sink.push_namespace(name);
        self.history = Ghost(
            self.history@.push(
                SinkEvent { call: SinkCall::PushNamespace { name: name@ }, failure: None },
            ),
        );
    }

    /// Closes the namespace that is open.
    pub fn pop_namespace(&mut self, gadget_name: Option<String>)
        ensures
            final(self).events() == old(self).events().push(
                SinkEvent {
                    call: SinkCall::PopNamespace { gadget_name: name_of(gadget_name) },
                    failure: None,
                },
            ),
    {
        let ghost name = name_of(gadget_name);
        self.sink.pop_namespace(gadget_name);
        self.history = Ghost(
            self.history@.push(
                SinkEvent { call: SinkCall::PopNamespace { gadget_name: name }, failure: None },
            ),
        );
    }

    /// Splits off one sink for each range of rows. How many sinks come
    /// back is the sink's own business.
    pub fn fork(&mut self, ranges: &Vec<core::ops::Range<usize>>) -> (r: Result<Vec<CS>, Error>)
        ensures
            final(self).events() == old(self).events().push(
                SinkEvent {
                    call: SinkCall::Fork { ranges: range_pairs(ranges@) },
                    failure: failure_of(r),
                },
            ),
    {
        let r = self.sink.fork(ranges);
        self.history = Ghost(
            self.history@.push(
                SinkEvent {
                    call: SinkCall::Fork { ranges: range_pairs(ranges@) },
                    failure: failure_of(r),
                },
            ),
        );
        r
    }

    /// Hands back the sinks that were split off.
    pub fn merge(&mut self, subs: Vec<CS>) -> (r: Result<(), Error>)
        ensures
            final(self).events() == old(self).events().push(
                SinkEvent {
                    call: SinkCall::Merge { parts: subs@.len() },
                    failure: failure_of(r),
                },
            ),
    {
        let ghost parts = subs@.len();
        let r = self.sink.merge(subs);
        self.history = Ghost(
            self.history@.push(
                SinkEvent { call: SinkCall::Merge { parts }, failure: failure_of(r) },
            ),
        );
        r
    }
}


/// The event of a call that the sink accepted.
pub open spec fn accepted<V>(call: SinkCall<V>) -> SinkEvent<V> {
    SinkEvent { call, failure: None }
}

/// The event of a call that the sink answered with an error.
pub open spec fn refused<V>(call: SinkCall<V>, error: Error) -> SinkEvent<V> {
    SinkEvent { call, failure: Some(error) }
}

/// The events of a list of calls that the sink accepted one and all.
pub open spec fn all_accepted<V>(calls: Seq<SinkCall<V>>) -> Seq<SinkEvent<V>> {
    calls.map_values(|call: SinkCall<V>| accepted(call))
}

/// What a history looks like after `calls` were made in order and the
/// first failure stopped the run: with no failure, all of them were made and
/// accepted; with a failure, those before some call were accepted, that call
/// was refused with the error, and none after it was made.
pub open spec fn ran_until_failure<V>(
    before: Seq<SinkEvent<V>>,
    after: Seq<SinkEvent<V>>,
    calls: Seq<SinkCall<V>>,
    failure: Option<Error>,
) -> bool {
    match failure {
        None => after == before + all_accepted(calls),
        Some(error) => exists|k: int|
            0 <= k < calls.len() && after == before + #[trigger] all_accepted(calls.take(k)).push(
                refused(calls[k], error),
            ),
    }
}

} // verus!
