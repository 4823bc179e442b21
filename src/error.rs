//! The ways in which selecting reads by time can fail.
use vstd::prelude::*;

verus! {

/// A failure of one of the stages: collecting start times, resolving the
/// window, or extracting the kept records.
#[derive(Debug, Clone, PartialEq, Eq)]
pub enum OntimeError {
    /// The record at this position (a line number or a record index) has no
    /// start time that can be read.
    MissingTimestamp(u64),
    /// The text is neither a timestamp nor a duration.
    MalformedDuration(String),
    /// Moving a boundary timestamp by a duration left the supported years.
    TemporalOverflow,
    /// The resolved latest time is before the resolved earliest time.
    InvertedWindow,
    /// No record, and so no start time, was found.
    EmptyInput,
    /// The second pass wrote another number of records than the first pass
    /// decided to keep.
    IndexMismatch,
}

} // verus!
