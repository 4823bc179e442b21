//! The checks and conversions behind the command line: compression choices,
//! time arguments, and the kind of file that a path names.
use crate::duration::{is_digit, signed_duration_nanos, Duration};
use crate::timestamp::{rfc3339_fields, Timestamp};
use vstd::prelude::*;
use vstd::string::StringExecFns;

verus! {

/// A command-line value that cannot be used.
#[derive(Clone, Debug, PartialEq, Eq)]
pub enum CliError {
    /// The text does not name an output compression format.
    InvalidCompression(String),
}

/// The compression of an output stream.
#[derive(Clone, Copy, Debug, PartialEq, Eq, Structural, Hash)]
pub enum Compression {
    No,
    Gzip,
    Bzip,
    Lzma,
}

/// The two families of read files.
#[derive(Clone, Copy, Debug, PartialEq, Eq, Structural, Hash)]
pub enum FileFormat {
    /// SAM or BAM alignments.
    Alignment,
    /// FASTA or FASTQ sequences.
    Fastx,
}

/// The extension of the last component of a path, as `std::path::Path::extension`
/// finds it.
pub uninterp spec fn path_extension(path: Seq<char>) -> Option<Seq<char>>;

/// The path with the extension of its last component removed, as
/// `std::path::Path::with_extension("")` makes it.
pub uninterp spec fn path_without_extension(path: Seq<char>) -> Seq<char>;

/// Relies on `std::path::Path::extension`.
#[verifier::external_body]
fn extension_of(path: &str) -> (r: Option<String>)
    ensures
        match path_extension(path@) {
            Some(e) => r matches Some(x) && x@ == e,
            None => r is None,
        },
{
    std::path::Path::new(path).extension().map(|e| e.to_string_lossy().into_owned())
}

/// Relies on `std::path::Path::with_extension`, with an empty extension.
#[verifier::external_body]
fn without_extension(path: &str) -> (r: String)
    ensures
        r@ == path_without_extension(path@),
{
    std::path::Path::new(path).with_extension("").to_string_lossy().into_owned()
}

/// Whether two texts are equal, character by character.
pub fn text_eq(a: &str, b: &str) -> (r: bool)
    ensures
        r == (a@ == b@),
{
    let n = a.unicode_len();
    if n != b.unicode_len() {
        return false;
    }
    let mut i: usize = 0;
    while i < n
        invariant
            n == a@.len(),
            n == b@.len(),
            i <= n,
            forall|k: int| 0 <= k < i ==> a@[k] == b@[k],
        decreases n - i,
    {
        if a.get_char(i) != b.get_char(i) {
            return false;
        }
        i = i + 1;
    }
    assert(a@ =~= b@);
    true
}

/// The compression that a file extension stands for.
pub open spec fn compression_of_extension(ext: Option<Seq<char>>) -> Compression {
    match ext {
        Some(e) => if e == "gz"@ {
            Compression::Gzip
        } else if e == "bz"@ || e == "bz2"@ {
            Compression::Bzip
        } else if e == "lzma"@ {
            Compression::Lzma
        } else {
            Compression::No
        },
        None => Compression::No,
    }
}

impl Compression {
    /// Infers the compression from the path's extension; an unknown or missing
    /// extension means no compression.
    pub fn from_path(path: &str) -> (r: Compression)
        ensures
            r == compression_of_extension(path_extension(path@)),
    {
        match extension_of(path) {
            Some(e) => {
                let e = e.as_str();
                if text_eq(e, "gz") {
                    Compression::Gzip
                } else if text_eq(e, "bz") || text_eq(e, "bz2") {
                    Compression::Bzip
                } else if text_eq(e, "lzma") {
                    Compression::Lzma
                } else {
                    Compression::No
                }
            },
            None => Compression::No,
        }
    }
}

/// The compression that a one-letter code names: `u`, `b`, `g` or `l`, in
/// either case.
pub open spec fn compression_of_code(s: Seq<char>) -> Option<Compression> {
    if s == "b"@ || s == "B"@ {
        Some(Compression::Bzip)
    } else if s == "g"@ || s == "G"@ {
        Some(Compression::Gzip)
    } else if s == "l"@ || s == "L"@ {
        Some(Compression::Lzma)
    } else if s == "u"@ || s == "U"@ {
        Some(Compression::No)
    } else {
        None
    }
}

pub fn parse_compression_format(s: &str) -> (r: Result<Compression, CliError>)
    ensures
        match compression_of_code(s@) {
            Some(c) => r == Ok::<Compression, CliError>(c),
            None => r matches Err(CliError::InvalidCompression(m)) && m@ == s@,
        },
{
    if text_eq(s, "b") || text_eq(s, "B") {
        Ok(Compression::Bzip)
    } else if text_eq(s, "g") || text_eq(s, "G") {
        Ok(Compression::Gzip)
    } else if text_eq(s, "l") || text_eq(s, "L") {
        Ok(Compression::Lzma)
    } else if text_eq(s, "u") || text_eq(s, "U") {
        Ok(Compression::No)
    } else {
        Err(CliError::InvalidCompression(s.to_owned()))
    }
}

/// The value of a text of decimal digits.
pub open spec fn digits_value(s: Seq<char>) -> int
    decreases s.len(),
{
    if s.len() == 0 {
        0
    } else {
        digits_value(s.drop_last()) * 10 + (s.last() as int - '0' as int)
    }
}

/// Every character is a decimal digit.
pub open spec fn all_digits(s: Seq<char>) -> bool {
    forall|i: int| 0 <= i < s.len() ==> is_digit(#[trigger] s[i])
}

/// The text after an optional leading `+`.
pub open spec fn unsigned_part(s: Seq<char>) -> Seq<char> {
    if s.len() > 0 && s[0] == '+' {
        s.subrange(1, s.len() as int)
    } else {
        s
    }
}

/// The `u8` that `str::parse` reads: an optional `+` and then one or more
/// decimal digits, of a value that fits.
pub open spec fn u8_text_value(s: Seq<char>) -> Option<int> {
    let d = unsigned_part(s);
    if d.len() > 0 && all_digits(d) && digits_value(d) <= 255 {
        Some(digits_value(d))
    } else {
        None
    }
}

proof fn lemma_digits_value_nonneg(s: Seq<char>)
    requires
        forall|k: int| 0 <= k < s.len() ==> is_digit(#[trigger] s[k]),
    ensures
        0 <= digits_value(s),
    decreases s.len(),
{
    if s.len() > 0 {
        let p = s.drop_last();
        assert forall|k: int| 0 <= k < p.len() implies is_digit(#[trigger] p[k]) by {
            assert(p[k] == s[k]);
        }
        lemma_digits_value_nonneg(p);
        assert(is_digit(s[s.len() - 1]));
    }
}

proof fn lemma_digits_value_prefix(s: Seq<char>, i: int)
    requires
        0 <= i <= s.len(),
        forall|k: int| 0 <= k < s.len() ==> is_digit(#[trigger] s[k]),
    ensures
        0 <= digits_value(s.take(i)) <= digits_value(s),
    decreases s.len(),
{
    if i == s.len() {
        assert(s.take(i) =~= s);
        lemma_digits_value_nonneg(s);
    } else {
        let p = s.drop_last();
        assert(p.take(i) =~= s.take(i));
        assert forall|k: int| 0 <= k < p.len() implies is_digit(#[trigger] p[k]) by {
            assert(p[k] == s[k]);
        }
        lemma_digits_value_prefix(p, i);
        assert(is_digit(s[s.len() - 1]));
    }
}

/// Reads a `u8` as `str::parse` does.
pub fn parse_u8(s: &str) -> (r: Option<u8>)
    ensures
        match u8_text_value(s@) {
            Some(v) => r matches Some(x) && x == v,
            None => r is None,
        },
{
    let n = s.unicode_len();
    let start: usize = if n > 0 && s.get_char(0) == '+' {
        1
    } else {
        0
    };
    let ghost d = if n > 0 && s@[0] == '+' {
        s@.subrange(1, n as int)
    } else {
        s@
    };
    assert(d =~= s@.subrange(start as int, n as int));
    if start >= n {
        return None;
    }
    let mut value: u32 = 0;
    let mut i: usize = start;
    while i < n
        invariant
            n == s@.len(),
            start <= i <= n,
            d =~= s@.subrange(start as int, n as int),
            d == unsigned_part(s@),
            forall|k: int| 0 <= k < i - start ==> is_digit(#[trigger] d[k]),
            value == digits_value(d.take(i - start)),
            value <= 255,
        decreases n - i,
    {
        let c = s.get_char(i);
        if !('0' <= c && c <= '9') {
            assert(!is_digit(d[i - start]));
            assert(!(forall|k: int| 0 <= k < d.len() ==> is_digit(#[trigger] d[k])));
            return None;
        }
        assert(d.take(i - start + 1).drop_last() =~= d.take(i - start));
        value = value * 10 + (c as u32 - '0' as u32);
        i = i + 1;
        if value > 255 {
            proof {
                if all_digits(d) {
                    lemma_digits_value_prefix(d, i - start);
                }
            }
            return None;
        }
    }
    assert(d.take(n - start) =~= d);
    Some(value as u8)
}

/// A compression level of 1 to 9, read as `u8`; any other text is refused
/// with a message that names it.
pub fn parse_level(s: &str) -> (r: Result<u8, String>)
    ensures
        match u8_text_value(s@) {
            Some(v) => if 1 <= v <= 9 {
                r == Ok::<u8, String>(v as u8)
            } else {
                r is Err
            },
            None => r is Err,
        },
        r matches Err(m) ==> m@ == "Compression level "@ + s@ + " not in the range 1-9"@,
{
    match parse_u8(s) {
        Some(v) => {
            if 1 <= v && v <= 9 {
                return Ok(v);
            }
        },
        None => {},
    }
    let mut m = String::from_str("Compression level ");
    m.append(s);
    m.append(" not in the range 1-9");
    Err(m)
}

/// Accepts a time argument that is either an RFC 3339 timestamp or a signed
/// duration, and hands it back.
pub fn validate_time(s: &str) -> (r: Result<String, String>)
    ensures
        (rfc3339_fields(s@) is Some || signed_duration_nanos(s@) is Some) ==> (r matches Ok(t)
            && t@ == s@),
        !(rfc3339_fields(s@) is Some || signed_duration_nanos(s@) is Some) ==> (r matches Err(m)
            && m@ == s@ + " is not a recognised time format"@),
{
    if Timestamp::parse_rfc3339(s).is_some() || Duration::from_str(s).is_ok() {
        Ok(s.to_owned())
    } else {
        let mut m = s.to_owned();
        m.append(" is not a recognised time format");
        Err(m)
    }
}

/// The file family that an extension names.
pub open spec fn format_of_extension(ext: Seq<char>) -> Option<FileFormat> {
    if ext == "sam"@ || ext == "bam"@ {
        Some(FileFormat::Alignment)
    } else if ext == "fastq"@ || ext == "fq"@ || ext == "fasta"@ || ext == "fa"@ {
        Some(FileFormat::Fastx)
    } else {
        None
    }
}

/// The file family of a path: by its extension, or by the one before a
/// final `gz`.
pub open spec fn format_of_path(path: Seq<char>) -> Option<FileFormat> {
    match path_extension(path) {
        Some(e) => if e == "gz"@ {
            match path_extension(path_without_extension(path)) {
                Some(inner) => format_of_extension(inner),
                None => None,
            }
        } else {
            format_of_extension(e)
        },
        None => None,
    }
}

fn format_from_extension(ext: &str) -> (r: Option<FileFormat>)
    ensures
        r == format_of_extension(ext@),
{
    if text_eq(ext, "sam") || text_eq(ext, "bam") {
        Some(FileFormat::Alignment)
    } else if text_eq(ext, "fastq") || text_eq(ext, "fq") || text_eq(ext, "fasta") || text_eq(
        ext,
        "fa",
    ) {
        Some(FileFormat::Fastx)
    } else {
        None
    }
}

impl FileFormat {
    /// The file family of a path, or `None` for an extension that names none.
    pub fn from_path(path: &str) -> (r: Option<FileFormat>)
        ensures
            r == format_of_path(path@),
    {
        match extension_of(path) {
            Some(e) => {
                if text_eq(e.as_str(), "gz") {
                    let inner_path = without_extension(path);
                    match extension_of(inner_path.as_str()) {
                        Some(inner) => format_from_extension(inner.as_str()),
                        None => None,
                    }
                } else {
                    format_from_extension(e.as_str())
                }
            },
            None => None,
        }
    }
}

/// A FASTA or FASTQ file, compressed or not, named by its path.
#[derive(Clone, Debug, PartialEq, Eq)]
pub struct Fastx {
    path: String,
}

impl Fastx {
    pub closed spec fn path_view(&self) -> Seq<char> {
        self.path@
    }

    pub fn from_path(path: &str) -> (r: Fastx)
        ensures
            r.path_view() == path@,
    {
        Fastx { path: path.to_owned() }
    }

    pub fn path(&self) -> (r: &str)
        ensures
            r@ == self.path_view(),
    {
        self.path.as_str()
    }
}

} // verus!
