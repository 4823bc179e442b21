//! The inclusive window of start times, and the mask of reads inside it.
use crate::duration::{signed_duration_nanos, Duration};
use crate::error::OntimeError;
use crate::records::is_extrema;
use crate::timestamp::{
    max_instant, min_instant, rfc3339_fields, stamp_at, stamp_le, stamp_lt, stamp_of_key,
    Timestamp,
};
use vstd::prelude::*;

verus! {

/// The inclusive range `[earliest, latest]` of start times to keep.
#[derive(Clone, Copy, Debug, PartialEq, Eq, Structural)]
pub struct Window {
    pub earliest: Timestamp,
    pub latest: Timestamp,
}

/// `t` lies in `[e, l]`, both ends included.
pub open spec fn in_window(e: Timestamp, l: Timestamp, t: Timestamp) -> bool {
    stamp_le(e, t) && stamp_le(t, l)
}

/// One flag per timestamp, in order: whether it lies in `[e, l]`.
pub open spec fn keep_mask(ts: Seq<Timestamp>, e: Timestamp, l: Timestamp) -> Seq<bool> {
    Seq::new(ts.len(), |i: int| in_window(e, l, ts[i]))
}

/// The number of `true` flags.
pub open spec fn count_true(m: Seq<bool>) -> nat
    decreases m.len(),
{
    if m.len() == 0 {
        0
    } else {
        count_true(m.drop_last()) + if m.last() {
            1nat
        } else {
            0nat
        }
    }
}

pub proof fn lemma_count_true_push(m: Seq<bool>, b: bool)
    ensures
        count_true(m.push(b)) == count_true(m) + if b {
            1nat
        } else {
            0nat
        },
{
    assert(m.push(b).drop_last() =~= m);
}

pub proof fn lemma_count_true_le_len(m: Seq<bool>)
    ensures
        count_true(m) <= m.len(),
    decreases m.len(),
{
    if m.len() > 0 {
        lemma_count_true_le_len(m.drop_last());
    }
}

/// For every timestamp, in order, whether it lies in `[earliest, latest]`,
/// and how many do.
pub fn valid_indices(timestamps: &[Timestamp], earliest: &Timestamp, latest: &Timestamp) -> (r: (
    Vec<bool>,
    usize,
))
    ensures
        r.0@ == keep_mask(timestamps@, *earliest, *latest),
        r.1 == count_true(r.0@),
{
    let n = timestamps.len();
    let mut to_keep: Vec<bool> = Vec::with_capacity(n);
    let mut nb_reads_to_keep: usize = 0;
    let mut i: usize = 0;
    while i < n
        invariant
            n == timestamps@.len(),
            i <= n,
            to_keep@ =~= keep_mask(timestamps@.take(i as int), *earliest, *latest),
            nb_reads_to_keep == count_true(to_keep@),
            nb_reads_to_keep <= i,
        decreases n - i,
    {
        let t = &timestamps[i];
        let keep = earliest.le(t) && t.le(latest);
        proof {
            lemma_count_true_push(to_keep@, keep);
        }
        to_keep.push(keep);
        if keep {
            nb_reads_to_keep = nb_reads_to_keep + 1;
        }
        i = i + 1;
        assert(to_keep@ =~= keep_mask(timestamps@.take(i as int), *earliest, *latest));
    }
    assert(timestamps@.take(n as int) =~= timestamps@);
    (to_keep, nb_reads_to_keep)
}

/// A window keeps its own ends: a timestamp equal to the earliest or to the
/// latest bound is kept.
pub proof fn lemma_window_ends_are_kept(e: Timestamp, l: Timestamp)
    requires
        stamp_le(e, l),
    ensures
        in_window(e, l, e),
        in_window(e, l, l),
{
}

proof fn lemma_count_true_all(m: Seq<bool>)
    requires
        forall|i: int| 0 <= i < m.len() ==> m[i],
    ensures
        count_true(m) == m.len(),
    decreases m.len(),
{
    if m.len() > 0 {
        lemma_count_true_all(m.drop_last());
    }
}

/// The window from the earliest to the latest observed start time, the one
/// used where no bound is given, keeps every read.
pub proof fn lemma_default_window_keeps_all(ts: Seq<Timestamp>, first: Timestamp, last: Timestamp)
    requires
        is_extrema(ts, first, last),
    ensures
        forall|i: int| 0 <= i < ts.len() ==> #[trigger] keep_mask(ts, first, last)[i],
        count_true(keep_mask(ts, first, last)) == ts.len(),
{
    lemma_count_true_all(keep_mask(ts, first, last));
}

/// The optional text of a bound, as characters.
pub open spec fn text_view(text: Option<&str>) -> Option<Seq<char>> {
    match text {
        Some(s) => Some(s@),
        None => None,
    }
}

/// The timestamp from which a duration counts: the latest observed one for a
/// negative duration, the earliest observed one otherwise.
pub open spec fn duration_base(d: int, first: Timestamp, last: Timestamp) -> Timestamp {
    if d < 0 {
        last
    } else {
        first
    }
}

/// What a bound resolves to, where it does: `default` when no text is given;
/// else the text read as a timestamp; else the text read as a duration and
/// counted from `duration_base`, where the result stays within the supported
/// years.
pub open spec fn resolved_bound(
    text: Option<Seq<char>>,
    default: Timestamp,
    first: Timestamp,
    last: Timestamp,
) -> Option<Timestamp> {
    match text {
        None => Some(default),
        Some(s) => match rfc3339_fields(s) {
            Some(k) => Some(stamp_of_key(k)),
            None => match signed_duration_nanos(s) {
                None => None,
                Some(d) => {
                    let target = duration_base(d, first, last).instant() + d;
                    if min_instant() <= target <= max_instant() {
                        Some(stamp_at(target))
                    } else {
                        None
                    }
                },
            },
        },
    }
}

/// The error of a bound that does not resolve: `MalformedDuration` with the
/// text where it is neither a timestamp nor a duration, `TemporalOverflow`
/// where the duration leads outside the supported years.
pub open spec fn bound_failure(text: Option<Seq<char>>, err: OntimeError) -> bool {
    if text is Some && rfc3339_fields(text->0) is None && signed_duration_nanos(text->0) is None {
        err matches OntimeError::MalformedDuration(m) && m@ == text->0
    } else {
        err == OntimeError::TemporalOverflow
    }
}

/// Resolves one bound of the window; `default` stands where no text is given.
pub fn resolve_bound(text: Option<&str>, default: &Timestamp, first: &Timestamp, last: &Timestamp) -> (r:
    Result<Timestamp, OntimeError>)
    requires
        first.wf(),
        last.wf(),
    ensures
        match resolved_bound(text_view(text), *default, *first, *last) {
            Some(t) => r == Ok::<Timestamp, OntimeError>(t),
            None => r matches Err(e) && bound_failure(text_view(text), e),
        },
{
    let s = match text {
        None => return Ok(*default),
        Some(s) => s,
    };
    if let Some(t) = Timestamp::parse_rfc3339(s) {
        return Ok(t);
    }
    let d = match Duration::from_str(s) {
        Ok(d) => d,
        Err(e) => return Err(e),
    };
    let base = if d.is_negative() {
        last
    } else {
        first
    };
    match base.checked_add(d.nanoseconds) {
        Some(t) => Ok(t),
        None => Err(OntimeError::TemporalOverflow),
    }
}

/// Resolves both bounds of the window against the earliest (`first`) and
/// latest (`last`) observed start times. A window whose latest time is before
/// its earliest is refused, never taken as empty.
pub fn resolve_window(earliest: Option<&str>, latest: Option<&str>, first: &Timestamp, last: &Timestamp) -> (r:
    Result<Window, OntimeError>)
    requires
        first.wf(),
        last.wf(),
    ensures
        ({
            let e = resolved_bound(text_view(earliest), *first, *first, *last);
            let l = resolved_bound(text_view(latest), *last, *first, *last);
            &&& e is None ==> (r matches Err(x) && bound_failure(text_view(earliest), x))
            &&& e is Some && l is None ==> (r matches Err(x) && bound_failure(
                text_view(latest),
                x,
            ))
            &&& e is Some && l is Some && stamp_lt(l->0, e->0) ==> r == Err::<Window, OntimeError>(
                OntimeError::InvertedWindow,
            )
            &&& e is Some && l is Some && !stamp_lt(l->0, e->0) ==> r == Ok::<Window, OntimeError>(
                Window { earliest: e->0, latest: l->0 },
            )
        }),
{
    let e = match resolve_bound(earliest, first, first, last) {
        Ok(t) => t,
        Err(x) => return Err(x),
    };
    let l = match resolve_bound(latest, last, first, last) {
        Ok(t) => t,
        Err(x) => return Err(x),
    };
    if !e.le(&l) {
        return Err(OntimeError::InvertedWindow);
    }
    Ok(Window { earliest: e, latest: l })
}

} // verus!
