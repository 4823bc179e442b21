//! Reading a read's start time from its identifier or from its `st` tag.
use crate::timestamp::{rfc3339_fields, StampKey, Timestamp};
use vstd::prelude::*;

verus! {

/// The expression that finds a start time in a read identifier: the text after
/// `start_time=` or `st:Z:` up to the next white space.
pub const START_TIME_PATTERN: &'static str = r"(start_time=|st:Z:)(?P<time>\S+)\s*";

/// The name of the group of `START_TIME_PATTERN` that holds the time.
pub const TIME_GROUP: &'static str = "time";

#[verifier::external_type_specification]
#[verifier::external_body]
pub struct ExBytesRegex(regex::bytes::Regex);

/// The bytes of the group named `group` in the leftmost match of the regular
/// expression `pattern` in `haystack`, as `regex::bytes` finds them.
pub uninterp spec fn regex_capture(pattern: Seq<char>, group: Seq<char>, haystack: Seq<u8>) -> Option<Seq<u8>>;

/// The text that `bstr` decodes from `bytes`, each invalid UTF-8 sequence
/// replaced by U+FFFD.
pub uninterp spec fn lossy_text(bytes: Seq<u8>) -> Seq<char>;

/// The start time written as RFC 3339 text in `bytes`.
pub open spec fn text_start_time(bytes: Seq<u8>) -> Option<StampKey> {
    rfc3339_fields(lossy_text(bytes))
}

/// The start time in a read identifier: the captured time text, read as
/// RFC 3339. A capture that does not parse gives no time.
pub open spec fn id_start_time(pattern: Seq<char>, group: Seq<char>, id: Seq<u8>) -> Option<StampKey> {
    match regex_capture(pattern, group, id) {
        Some(b) => text_start_time(b),
        None => None,
    }
}

/// A start time found, as its key, or none.
pub open spec fn found_key(r: Option<Timestamp>) -> Option<StampKey> {
    match r {
        Some(t) => Some(t.key()),
        None => None,
    }
}

/// The compiled expression that finds start times in read identifiers.
/// It is built once and then only read.
pub struct StartTimeMatcher {
    pattern: String,
    group: String,
    re: regex::bytes::Regex,
}

/// Relies on `regex::bytes::Regex::new`: the compiled form of `pattern`, or
/// `None` where the expression is invalid or too large. `START_TIME_PATTERN`
/// is valid and small, so it compiles.
#[verifier::external_body]
fn compile_regex(pattern: &str) -> (r: Option<regex::bytes::Regex>)
    ensures
        pattern@ == START_TIME_PATTERN@ ==> r is Some,
{
    regex::bytes::Regex::new(pattern).ok()
}

/// Relies on `regex::bytes::Regex::captures` and `Captures::name`, on the
/// expression that `m.re` was compiled from, which is `m.pattern`.
#[verifier::external_body]
fn capture_group(m: &StartTimeMatcher, haystack: &[u8]) -> (r: Option<Vec<u8>>)
    ensures
        match regex_capture(m.pattern@, m.group@, haystack@) {
            Some(b) => r matches Some(v) && v@ == b,
            None => r is None,
        },
{
    let caps = m.re.captures(haystack)?;
    let found = caps.name(m.group.as_str())?;
    Some(found.as_bytes().to_vec())
}

/// Relies on `bstr::ByteSlice::to_str_lossy`.
#[verifier::external_body]
fn decode_lossy(bytes: &[u8]) -> (r: String)
    ensures
        r@ == lossy_text(bytes@),
{
    bstr::ByteSlice::to_str_lossy(bytes).into_owned()
}

impl StartTimeMatcher {
    pub closed spec fn pattern(&self) -> Seq<char> {
        self.pattern@
    }

    pub closed spec fn group(&self) -> Seq<char> {
        self.group@
    }

    /// Compiles `START_TIME_PATTERN`.
    pub fn new() -> (r: Option<StartTimeMatcher>)
        ensures
            r is Some,
            r matches Some(m) ==> m.pattern() == START_TIME_PATTERN@ && m.group() == TIME_GROUP@,
    {
        let pattern = START_TIME_PATTERN.to_owned();
        let group = TIME_GROUP.to_owned();
        let re = compile_regex(pattern.as_str());
        match re {
            Some(re) => Some(StartTimeMatcher { pattern, group, re }),
            None => None,
        }
    }

    /// The start time in a flat-sequence read identifier, if it holds one that
    /// parses.
    pub fn start_time(&self, id: &[u8]) -> (r: Option<Timestamp>)
        ensures
            found_key(r) == id_start_time(self.pattern(), self.group(), id@),
            r matches Some(t) ==> t.wf(),
    {
        match capture_group(self, id) {
            Some(text) => start_time_from_text(text.as_slice()),
            None => None,
        }
    }
}

/// The start time in RFC 3339 text given as bytes.
pub fn start_time_from_text(bytes: &[u8]) -> (r: Option<Timestamp>)
    ensures
        found_key(r) == text_start_time(bytes@),
        r matches Some(t) ==> t.wf(),
{
    let text = decode_lossy(bytes);
    Timestamp::parse_rfc3339(text.as_str())
}

/// The value of an alignment record's auxiliary field.
#[derive(Clone, Debug, PartialEq, Eq)]
pub enum AuxValue {
    /// A string value, as its bytes.
    Text(Vec<u8>),
    /// A value of any other type.
    Other,
}

/// The start time in an alignment record's `st` field: only a string value
/// that parses counts.
pub fn start_time_from_tag(value: Option<&AuxValue>) -> (r: Option<Timestamp>)
    ensures
        found_key(r) == match value {
            Some(AuxValue::Text(b)) => text_start_time(b@),
            _ => None,
        },
        r matches Some(t) ==> t.wf(),
{
    match value {
        Some(AuxValue::Text(bytes)) => start_time_from_text(bytes.as_slice()),
        _ => None,
    }
}

} // verus!
