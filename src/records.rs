//! The two passes over the reads: collecting start times, then choosing which
//! records to write.
use crate::error::OntimeError;
use crate::timestamp::{key_le, stamp_le, StampKey, Timestamp};
use crate::window::{count_true, lemma_count_true_le_len, lemma_count_true_push};
use itertools::Itertools;
use vstd::prelude::*;

verus! {

/// `lo` and `hi` are the earliest and the latest of `ts`.
pub open spec fn is_extrema(ts: Seq<Timestamp>, lo: Timestamp, hi: Timestamp) -> bool {
    &&& ts.contains(lo)
    &&& ts.contains(hi)
    &&& forall|i: int| 0 <= i < ts.len() ==> stamp_le(lo, #[trigger] ts[i]) && stamp_le(ts[i], hi)
}

/// Relies on `itertools::Itertools::minmax`: the least and the greatest key
/// under the lexicographic order of tuples, or none for no keys.
#[verifier::external_body]
fn minmax_keys(keys: &Vec<StampKey>) -> (r: Option<(StampKey, StampKey)>)
    ensures
        r is None <==> keys@.len() == 0,
        r matches Some(p) ==> keys@.contains(p.0) && keys@.contains(p.1),
        r matches Some(p) ==> forall|i: int|
            0 <= i < keys@.len() ==> key_le(p.0, #[trigger] keys@[i]) && key_le(keys@[i], p.1),
{
    match keys.iter().minmax() {
        itertools::MinMaxResult::NoElements => None,
        itertools::MinMaxResult::OneElement(k) => Some((*k, *k)),
        itertools::MinMaxResult::MinMax(lo, hi) => Some((*lo, *hi)),
    }
}

/// The start times of the reads, in the order of the source: one per record.
pub struct StartTimes {
    times: Vec<Timestamp>,
}

impl View for StartTimes {
    type V = Seq<Timestamp>;

    closed spec fn view(&self) -> Seq<Timestamp> {
        self.times@
    }
}

impl StartTimes {
    /// Every start time held is a valid timestamp. The methods keep this, so
    /// that it holds of every value that callers can build.
    pub closed spec fn wf(&self) -> bool {
        forall|i: int| 0 <= i < self.times@.len() ==> (#[trigger] self.times@[i]).wf()
    }

    pub fn new() -> (r: StartTimes)
        ensures
            r@ == Seq::<Timestamp>::empty(),
            r.wf(),
    {
        StartTimes { times: Vec::new() }
    }

    /// Adds the start time of the next record. A record without one, at
    /// `position` in the source, stops the collection.
    pub fn record(&mut self, stamp: Option<Timestamp>, position: u64) -> (r: Result<(), OntimeError>)
        requires
            old(self).wf(),
        ensures
            final(self).wf(),
            (stamp is Some && stamp->0.wf()) ==> r is Ok && final(self)@ == old(self)@.push(
                stamp->0,
            ),
            !(stamp is Some && stamp->0.wf()) ==> r == Err::<(), OntimeError>(
                OntimeError::MissingTimestamp(position),
            ) && final(self)@ == old(self)@,
    {
        match stamp {
            Some(t) => {
                if t.is_valid() {
                    self.times.push(t);
                    Ok(())
                } else {
                    Err(OntimeError::MissingTimestamp(position))
                }
            },
            None => Err(OntimeError::MissingTimestamp(position)),
        }
    }

    pub fn len(&self) -> (r: usize)
        ensures
            r == self@.len(),
    {
        self.times.len()
    }

    pub fn times(&self) -> (r: &Vec<Timestamp>)
        requires
            self.wf(),
        ensures
            r@ == self@,
            forall|i: int| 0 <= i < r@.len() ==> (#[trigger] r@[i]).wf(),
    {
        &self.times
    }

    /// The earliest and the latest start time; `EmptyInput` where no record
    /// was seen.
    pub fn extrema(&self) -> (r: Result<(Timestamp, Timestamp), OntimeError>)
        requires
            self.wf(),
        ensures
            self@.len() == 0 <==> r == Err::<(Timestamp, Timestamp), OntimeError>(
                OntimeError::EmptyInput,
            ),
            self@.len() > 0 ==> r is Ok,
            r matches Ok(p) ==> is_extrema(self@, p.0, p.1) && p.0.wf() && p.1.wf(),
    {
        let n = self.times.len();
        let mut keys: Vec<StampKey> = Vec::with_capacity(n);
        let mut i: usize = 0;
        while i < n
            invariant
                n == self.times@.len(),
                i <= n,
                keys@.len() == i,
                forall|j: int| 0 <= j < i ==> #[trigger] keys@[j] == self.times@[j].key(),
            decreases n - i,
        {
            keys.push(self.times[i].to_key());
            i = i + 1;
        }
        match minmax_keys(&keys) {
            None => Err(OntimeError::EmptyInput),
            Some(p) => {
                let lo = Timestamp::from_key(p.0);
                let hi = Timestamp::from_key(p.1);
                let ghost ts = self.times@;
                assert(ts.contains(lo)) by {
                    let j = choose|j: int| 0 <= j < keys@.len() && keys@[j] == p.0;
                    assert(ts[j] == lo);
                }
                assert(ts.contains(hi)) by {
                    let j = choose|j: int| 0 <= j < keys@.len() && keys@[j] == p.1;
                    assert(ts[j] == hi);
                }
                assert forall|j: int| 0 <= j < ts.len() implies stamp_le(lo, #[trigger] ts[j])
                    && stamp_le(ts[j], hi) by {
                    assert(keys@[j] == ts[j].key());
                }
                Ok((lo, hi))
            },
        }
    }
}

/// The second pass: for each record of the source, in order, whether to write
/// it, and a check that the number written is the number that the first pass
/// decided to keep. Where `stop_early` is set the pass ends as soon as the
/// last kept record has been written.
pub struct RecordSelection {
    keep: Vec<bool>,
    expected: usize,
    stop_early: bool,
    position: usize,
    written: usize,
}

impl RecordSelection {
    /// The number chosen is the number of kept flags among the records seen.
    /// The methods keep this, so that it holds of every value that callers
    /// can build.
    pub closed spec fn wf(&self) -> bool {
        &&& self.position <= self.keep@.len()
        &&& self.written == count_true(self.keep@.take(self.position as int))
    }

    pub closed spec fn keep(&self) -> Seq<bool> {
        self.keep@
    }

    pub closed spec fn expected(&self) -> nat {
        self.expected as nat
    }

    pub closed spec fn stops_early(&self) -> bool {
        self.stop_early
    }

    /// The number of records seen so far.
    pub closed spec fn position(&self) -> nat {
        self.position as nat
    }

    /// The number of records chosen for writing so far.
    pub closed spec fn written(&self) -> nat {
        self.written as nat
    }

    pub fn new(keep: Vec<bool>, expected: usize, stop_early: bool) -> (r: RecordSelection)
        ensures
            r.keep() == keep@,
            r.expected() == expected,
            r.stops_early() == stop_early,
            r.position() == 0,
            r.written() == 0,
            r.wf(),
    {
        assert(keep@.take(0) =~= Seq::<bool>::empty());
        RecordSelection { keep, expected, stop_early, position: 0, written: 0 }
    }

    /// Whether the pass may end without reading further records: it stops
    /// early and the last kept record has been written.
    pub fn is_complete(&self) -> (r: bool)
        ensures
            r == (self.stops_early() && self.written() > 0 && self.written() == self.expected()),
    {
        self.stop_early && self.written > 0 && self.written == self.expected
    }

    /// Takes the next record of the source: `Ok(true)` where it is to be
    /// written. A record beyond the mask means that the source changed since
    /// the first pass.
    pub fn next_record(&mut self) -> (r: Result<bool, OntimeError>)
        requires
            old(self).wf(),
        ensures
            final(self).wf(),
            final(self).keep() == old(self).keep(),
            final(self).expected() == old(self).expected(),
            final(self).stops_early() == old(self).stops_early(),
            old(self).position() < old(self).keep().len() ==> {
                let b = old(self).keep()[old(self).position() as int];
                &&& r == Ok::<bool, OntimeError>(b)
                &&& final(self).position() == old(self).position() + 1
                &&& final(self).written() == old(self).written() + if b {
                    1nat
                } else {
                    0nat
                }
            },
            old(self).position() >= old(self).keep().len() ==> r == Err::<bool, OntimeError>(
                OntimeError::IndexMismatch,
            ) && final(self).position() == old(self).position() && final(self).written() == old(
                self,
            ).written(),
    {
        if self.position >= self.keep.len() {
            return Err(OntimeError::IndexMismatch);
        }
        let b = self.keep[self.position];
        proof {
            let k = self.keep@;
            let p = self.position as int;
            assert(k.take(p + 1) =~= k.take(p).push(k[p]));
            lemma_count_true_push(k.take(p), k[p]);
            lemma_count_true_le_len(k.take(p));
        }
        if b {
            self.written = self.written + 1;
        }
        self.position = self.position + 1;
        Ok(b)
    }

    pub fn written_count(&self) -> (r: usize)
        ensures
            r == self.written(),
    {
        self.written
    }

    /// Ends the pass: `IndexMismatch` unless exactly the expected number of
    /// records was chosen.
    pub fn finish(&self) -> (r: Result<(), OntimeError>)
        requires
            self.wf(),
        ensures
            r is Ok <==> self.written() == self.expected(),
            r is Err ==> r == Err::<(), OntimeError>(OntimeError::IndexMismatch),
            self.written() == count_true(self.keep().take(self.position() as int)),
            self.position() == self.keep().len() ==> self.written() == count_true(self.keep()),
    {
        proof {
            assert(self.keep@.take(self.keep@.len() as int) =~= self.keep@);
        }
        if self.written == self.expected {
            Ok(())
        } else {
            Err(OntimeError::IndexMismatch)
        }
    }
}

} // verus!
