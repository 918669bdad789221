//! A sink that keeps what it receives. It has a fixed number of rows and
//! refuses a call on a row beyond them, so that a circuit can be laid out
//! and looked at without a proving system behind it.

use vstd::prelude::*;
use crate::cell::Value;
use crate::column::{Advice, Any, Challenge, Column, Fixed, Instance, Selector};
use crate::error::Error;
use crate::sink::{Assignment, failure_of, name_of, range_pairs, SinkCall, SinkEvent};

verus! {

/// A call as a recorder keeps it.
#[allow(inconsistent_fields)]
#[derive(Clone, Debug, PartialEq, Eq)]
pub enum RecordedCall<V> {
    EnterRegion { name: String },
    ExitRegion,
    EnableSelector { annotation: String, selector: Selector, row: usize },
    AssignAdvice { annotation: String, column: Column<Advice>, row: usize, value: Value<V> },
    AssignFixed { annotation: String, column: Column<Fixed>, row: usize, value: Value<V> },
    Copy { left_column: Column<Any>, left_row: usize, right_column: Column<Any>, right_row: usize },
    FillFromRow { column: Column<Fixed>, row: usize, value: Value<V> },
    AnnotateColumn { annotation: String, column: Column<Any> },
    PushNamespace { name: String },
    PopNamespace { gadget_name: Option<String> },
    /// The ranges of rows that were split off, each as first row and end.
    Fork { ranges: Vec<(usize, usize)> },
    /// The number of sinks that were taken back.
    Merge { parts: usize },
}

/// A call as a recorder keeps it, with the error it was answered with.
#[derive(Clone, Debug, PartialEq, Eq)]
pub struct Recorded<V> {
    pub call: RecordedCall<V>,
    pub failure: Option<Error>,
}

/// Whether `kept` is the record of `call`: the same call with the same
/// arguments.
pub open spec fn records<V>(kept: RecordedCall<V>, call: SinkCall<V>) -> bool {
    match kept {
        RecordedCall::EnterRegion { name } => call == SinkCall::<V>::EnterRegion { name: name@ },
        RecordedCall::ExitRegion => call == SinkCall::<V>::ExitRegion,
        RecordedCall::EnableSelector { annotation, selector, row } => call
            == SinkCall::<V>::EnableSelector { annotation: annotation@, selector, row },
        RecordedCall::AssignAdvice { annotation, column, row, value } => call
            == (SinkCall::AssignAdvice { annotation: annotation@, column, row, value }),
        RecordedCall::AssignFixed { annotation, column, row, value } => call
            == (SinkCall::AssignFixed { annotation: annotation@, column, row, value }),
        RecordedCall::Copy { left_column, left_row, right_column, right_row } => call
            == SinkCall::<V>::Copy { left_column, left_row, right_column, right_row },
        RecordedCall::FillFromRow { column, row, value } => call == (SinkCall::FillFromRow {
            column,
            row,
            value,
        }),
        RecordedCall::AnnotateColumn { annotation, column } => call
            == SinkCall::<V>::AnnotateColumn { annotation: annotation@, column },
        RecordedCall::PushNamespace { name } => call == SinkCall::<V>::PushNamespace {
            name: name@,
        },
        RecordedCall::PopNamespace { gadget_name } => call == SinkCall::<V>::PopNamespace {
            gadget_name: name_of(gadget_name),
        },
        RecordedCall::Fork { ranges } => call == SinkCall::<V>::Fork { ranges: ranges@ },
        RecordedCall::Merge { parts } => call == SinkCall::<V>::Merge { parts: parts as nat },
    }
}

/// The number of rows of a sink of size `k`: two to the power `k`, or as
/// many as the machine can count if that is fewer.
pub open spec fn rows_for(k: u32) -> nat
    decreases k,
{
    if k == 0 {
        1
    } else if 2 * rows_for((k - 1) as u32) > usize::MAX {
        usize::MAX as nat
    } else {
        2 * rows_for((k - 1) as u32)
    }
}

/// A sink that keeps what it receives.
#[derive(Debug)]
pub struct Recorder<V> {
    k: u32,
    rows: usize,
    log: Vec<Recorded<V>>,
}

impl<V> Recorder<V> {
    #[verifier::type_invariant]
    spec fn sized(&self) -> bool {
        self.rows == rows_for(self.k)
    }
}

impl<V: Copy> Recorder<V> {
    /// The size of the sink.
    pub closed spec fn size(&self) -> u32 {
        self.k
    }

    /// What is kept of the calls received so far, in order.
    pub closed spec fn kept(&self) -> Seq<Recorded<V>> {
        self.log@
    }

    /// What this sink answers to a call on `row`: nothing if it has the
    /// row, and an error that names its size if not.
    pub open spec fn answer(&self, row: usize) -> Option<Error> {
        if row < rows_for(self.size()) {
            None
        } else {
            Some(Error::NotEnoughRowsAvailable { current_k: self.size() })
        }
    }

    /// This recorder after it has received `call` and answered it with
    /// `failure`: one more call is kept, and it is the record of `call`.
    pub open spec fn received(&self, before: &Self, call: SinkCall<V>, failure: Option<Error>) -> bool {
        &&& self.size() == before.size()
        &&& self.kept().len() == before.kept().len() + 1
        &&& self.kept().drop_last() == before.kept()
        &&& records(self.kept().last().call, call)
        &&& self.kept().last().failure == failure
    }

    /// A sink of size `k` that has received nothing.
    pub fn new(k: u32) -> (recorder: Self)
        ensures
            recorder.size() == k,
            recorder.kept() == Seq::<Recorded<V>>::empty(),
    {
        let mut rows: usize = 1;
        let mut i: u32 = 0;
        while i < k
            invariant
                i <= k,
                rows == rows_for(i),
            decreases k - i,
        {
            rows = match rows.checked_mul(2) {
                Some(doubled) => doubled,
                None => usize::MAX,
            };
            i += 1;
        }
        Recorder { k, rows, log: Vec::new() }
    }

    /// The number of rows.
    pub fn rows(&self) -> (rows: usize)
        ensures
            rows == rows_for(self.size()),
    {
        proof {
            use_type_invariant(self);
        }
        self.rows
    }

    /// The number of calls received.
    pub fn len(&self) -> (n: usize)
        ensures
            n == self.kept().len(),
    {
        self.log.len()
    }

    /// What is kept of the call at place `i`, if that many calls were
    /// received.
    pub fn call(&self, i: usize) -> (kept: Option<&Recorded<V>>)
        ensures
            i < self.kept().len() ==> kept == Some(&self.kept()[i as int]),
            i >= self.kept().len() ==> kept is None,
    {
        if i < self.log.len() {
            Some(&self.log[i])
        } else {
            None
        }
    }

    /// Keeps a call and its answer.
    fn keep(&mut self, kept: RecordedCall<V>, failure: Option<Error>)
        ensures
            final(self).size() == old(self).size(),
            final(self).kept() == old(self).kept().push(Recorded { call: kept, failure }),
    {
        proof {
            use_type_invariant(&*self);
        }
        let mut log: Vec<Recorded<V>> = Vec::new();
        core::mem::swap(&mut log, &mut self.log);
        log.push(Recorded { call: kept, failure });
        self.log = log;
    }

    /// Computes `answer`.
    fn check(&self, row: usize) -> (r: Result<(), Error>)
        ensures
            failure_of(r) == self.answer(row),
    {
        proof {
            use_type_invariant(self);
        }
        if row < self.rows {
            Ok(())
        } else {
            Err(Error::NotEnoughRowsAvailable { current_k: self.k })
        }
    }
}

impl<V: Copy> Assignment<V> for Recorder<V> {
    /// Keeps the call.
    fn enter_region(&mut self, name: &str)
        ensures
            final(self).received(old(self), SinkCall::EnterRegion { name: name@ }, None),
    {
        self.keep(RecordedCall::EnterRegion { name: name.to_owned() }, None);
        assert(self.kept().drop_last() =~= old(self).kept());
    }

    /// Keeps the call.
    fn exit_region(&mut self)
        ensures
            final(self).received(old(self), SinkCall::ExitRegion, None),
    {
        self.keep(RecordedCall::ExitRegion, None);
        assert(self.kept().drop_last() =~= old(self).kept());
    }

    /// Keeps the call, and accepts it if the sink has the row.
    fn enable_selector(&mut self, annotation: &str, selector: &Selector, row: usize) -> (r: Result<
        (),
        Error,
    >)
        ensures
            failure_of(r) == old(self).answer(row),
            final(self).received(
                old(self),
                SinkCall::EnableSelector { annotation: annotation@, selector: *selector, row },
                old(self).answer(row),
            ),
    {
        let r = self.check(row);
        let failure = match r {
            Ok(()) => None,
            Err(e) => Some(e),
        };
        self.keep(
            RecordedCall::EnableSelector {
                annotation: annotation.to_owned(),
                selector: *selector,
                row,
            },
            failure,
        );
        assert(self.kept().drop_last() =~= old(self).kept());
        r
    }

    /// Answers that the value is not known, if the sink has the row.
    fn query_instance(&self, column: Column<Instance>, row: usize) -> (r: Result<Value<V>, Error>)
        ensures
            match self.answer(row) {
                None => r == Ok::<Value<V>, Error>(Value { inner: None }),
                Some(error) => r == Err::<Value<V>, Error>(error),
            },
    {
        match self.check(row) {
            Ok(()) => Ok(Value::unknown()),
            Err(e) => Err(e),
        }
    }

    /// Keeps the call, and accepts it if the sink has the row.
    fn assign_advice(
        &mut self,
        annotation: &str,
        column: Column<Advice>,
        row: usize,
        value: Value<V>,
    ) -> (r: Result<(), Error>)
        ensures
            failure_of(r) == old(self).answer(row),
            final(self).received(
                old(self),
                SinkCall::AssignAdvice { annotation: annotation@, column, row, value },
                old(self).answer(row),
            ),
    {
        let r = self.check(row);
        let failure = match r {
            Ok(()) => None,
            Err(e) => Some(e),
        };
        self.keep(
            RecordedCall::AssignAdvice { annotation: annotation.to_owned(), column, row, value },
            failure,
        );
        assert(self.kept().drop_last() =~= old(self).kept());
        r
    }

    /// Keeps the call, and accepts it if the sink has the row.
    fn assign_fixed(
        &mut self,
        annotation: &str,
        column: Column<Fixed>,
        row: usize,
        value: Value<V>,
    ) -> (r: Result<(), Error>)
        ensures
            failure_of(r) == old(self).answer(row),
            final(self).received(
                old(self),
                SinkCall::AssignFixed { annotation: annotation@, column, row, value },
                old(self).answer(row),
            ),
    {
        let r = self.check(row);
        let failure = match r {
            Ok(()) => None,
            Err(e) => Some(e),
        };
        self.keep(
            RecordedCall::AssignFixed { annotation: annotation.to_owned(), column, row, value },
            failure,
        );
        assert(self.kept().drop_last() =~= old(self).kept());
        r
    }

    /// Keeps the call, and accepts it if the sink has both rows.
    fn copy(
        &mut self,
        left_column: Column<Any>,
        left_row: usize,
        right_column: Column<Any>,
        right_row: usize,
    ) -> (r: Result<(), Error>)
        ensures
            failure_of(r) == (if old(self).answer(left_row) is Some {
                old(self).answer(left_row)
            } else {
                old(self).answer(right_row)
            }),
            final(self).received(
                old(self),
                SinkCall::Copy { left_column, left_row, right_column, right_row },
                failure_of(r),
            ),
    {
        let r = match self.check(left_row) {
            Ok(()) => self.check(right_row),
            Err(e) => Err(e),
        };
        let failure = match r {
            Ok(()) => None,
            Err(e) => Some(e),
        };
        self.keep(RecordedCall::Copy { left_column, left_row, right_column, right_row }, failure);
        assert(self.kept().drop_last() =~= old(self).kept());
        r
    }

    /// Keeps the call, and accepts it if the sink has the row.
    fn fill_from_row(&mut self, column: Column<Fixed>, row: usize, value: Value<V>) -> (r: Result<
        (),
        Error,
    >)
        ensures
            failure_of(r) == old(self).answer(row),
            final(self).received(
                old(self),
                SinkCall::FillFromRow { column, row, value },
                old(self).answer(row),
            ),
    {
        let r = self.check(row);
        let failure = match r {
            Ok(()) => None,
            Err(e) => Some(e),
        };
        self.keep(RecordedCall::FillFromRow { column, row, value }, failure);
        assert(self.kept().drop_last() =~= old(self).kept());
        r
    }

    /// Answers that the value is not known.
    fn get_challenge(&self, challenge: Challenge) -> (v: Value<V>)
        ensures
            v.inner is None,
    {
        Value::unknown()
    }

    /// Keeps the call.
    fn annotate_column(&mut self, annotation: &str, column: Column<Any>)
        ensures
            final(self).received(
                old(self),
                SinkCall::AnnotateColumn { annotation: annotation@, column },
                None,
            ),
    {
        self.keep(RecordedCall::AnnotateColumn { annotation: annotation.to_owned(), column }, None);
        assert(self.kept().drop_last() =~= old(self).kept());
    }

    /// Keeps the call.
    fn push_namespace(&mut self, name: &str)
        ensures
            final(self).received(old(self), SinkCall::PushNamespace { name: name@ }, None),
    {
        self.keep(RecordedCall::PushNamespace { name: name.to_owned() }, None);
        assert(self.kept().drop_last() =~= old(self).kept());
    }

    /// Keeps the call.
    fn pop_namespace(&mut self, gadget_name: Option<String>)
        ensures
            final(self).received(
                old(self),
                SinkCall::PopNamespace { gadget_name: name_of(gadget_name) },
                None,
            ),
    {
        self.keep(RecordedCall::PopNamespace { gadget_name }, None);
        assert(self.kept().drop_last() =~= old(self).kept());
    }

    /// Keeps the call, and makes one sink of this size, which has received
    /// nothing, for each range. This never fails.
    fn fork(&mut self, ranges: &Vec<core::ops::Range<usize>>) -> (r: Result<Vec<Self>, Error>)
        ensures
            final(self).received(
                old(self),
                SinkCall::Fork { ranges: range_pairs(ranges@) },
                None,
            ),
            r matches Ok(subs) && subs@.len() == ranges@.len() && forall|i: int|
                0 <= i < subs@.len() ==> (#[trigger] subs@[i]).size() == old(self).size()
                    && subs@[i].kept() == Seq::<Recorded<V>>::empty(),
    {
        proof {
            use_type_invariant(&*self);
        }
        let mut subs: Vec<Self> = Vec::new();
        let mut pairs: Vec<(usize, usize)> = Vec::new();
        let k = self.k;
        let mut i: usize = 0;
        while i < ranges.len()
            invariant
                i <= ranges.len(),
                subs@.len() == i,
                pairs@ == range_pairs(ranges@.take(i as int)),
                forall|j: int|
                    0 <= j < i ==> (#[trigger] subs@[j]).kept() == Seq::<Recorded<V>>::empty()
                        && subs@[j].size() == k,
            decreases ranges.len() - i,
        {
            subs.push(Recorder::new(k));
            pairs.push((ranges[i].start, ranges[i].end));
            assert(pairs@ =~= range_pairs(ranges@.take(i + 1)));
            i += 1;
        }
        assert(ranges@.take(ranges@.len() as int) =~= ranges@);
        self.keep(RecordedCall::Fork { ranges: pairs }, None);
        assert(self.kept().drop_last() =~= old(self).kept());
        Ok(subs)
    }

    /// Keeps how many sinks came back. This never fails.
    fn merge(&mut self, subs: Vec<Self>) -> (r: Result<(), Error>)
        ensures
            r is Ok,
            final(self).received(old(self), SinkCall::Merge { parts: subs@.len() }, None),
    {
        self.keep(RecordedCall::Merge { parts: subs.len() }, None);
        assert(self.kept().drop_last() =~= old(self).kept());
        Ok(())
    }
}

} // verus!
