//! Turning documents into pieces of plain text.
use text_splitter::ChunkConfig;
use text_splitter::TextSplitter;
use vstd::prelude::*;

pub mod adf;
pub mod laws;
pub mod storage;

pub use adf::adf_to_text;
pub use storage::compress_whitespace;
pub use storage::parse_confluence_storage;
pub use storage::ConfluencePageContent;

verus! {

/// The largest number of characters in a chunk.
pub const CHUNK_CHARS: usize = 1200;

/// The number of characters that a chunk may share with the one before it.
pub const CHUNK_OVERLAP: usize = 150;

/// The chunks that text-splitter makes of a text, of at most `size`
/// characters each and sharing at most `overlap` of them.
pub uninterp spec fn text_chunks(text: Seq<char>, size: usize, overlap: usize) -> Seq<Seq<char>>;

/// `TextSplitter::chunks` of text-splitter, which counts characters and trims
/// each chunk. Claimed: the chunks depend on the text and the two sizes alone;
/// none is empty and none is longer than `size`. How the text is cut is left
/// to the crate.
#[verifier::external_body]
fn chunks_of(text: &str, size: usize, overlap: usize) -> (r: Vec<String>)
    requires
        overlap < size,
    ensures
        r.deep_view() == text_chunks(text@, size, overlap),
        forall|i: int|
            0 <= i < r@.len() ==> 0 < (#[trigger] r.deep_view()[i]).len() <= size as nat,
{
    let config = ChunkConfig::new(size).with_overlap(overlap).expect("overlap below size");
    TextSplitter::new(config).chunks(text).map(str::to_owned).collect()
}

/// The chunks of a text.
pub open spec fn split_text(text: Seq<char>) -> Seq<Seq<char>> {
    text_chunks(text, CHUNK_CHARS, CHUNK_OVERLAP)
}

/// The chunks of a text: none is empty, and none has more than `CHUNK_CHARS`
/// characters.
pub fn split(text: &str) -> (r: Vec<String>)
    ensures
        r.deep_view() == split_text(text@),
        forall|i: int|
            0 <= i < r@.len() ==> 0 < (#[trigger] r.deep_view()[i]).len() <= CHUNK_CHARS as nat,
{
    chunks_of(text, CHUNK_CHARS, CHUNK_OVERLAP)
}

/// The UNIX time, in seconds, of a date and time in the format of RFC 3339,
/// `None` where the text is not in it.
pub uninterp spec fn rfc3339_seconds(s: Seq<char>) -> Option<i64>;

/// `DateTime::parse_from_rfc3339` and `DateTime::timestamp` of chrono.
/// Claimed: the outcome depends on the text alone.
#[verifier::external_body]
fn seconds_of(s: &str) -> (r: Option<i64>)
    ensures
        r == rfc3339_seconds(s@),
{
    chrono::DateTime::parse_from_rfc3339(s).ok().map(|date| date.timestamp())
}

/// The UNIX time where it could be read, zero otherwise.
pub open spec fn time_or_zero(seconds: Option<i64>) -> i64 {
    match seconds {
        Some(t) => t,
        None => 0,
    }
}

/// `time_or_zero`, executable.
pub fn known_time(seconds: Option<i64>) -> (r: i64)
    ensures
        r == time_or_zero(seconds),
{
    match seconds {
        Some(t) => t,
        None => 0,
    }
}

/// The UNIX time of a date and time; zero where there is none or it cannot be
/// read.
pub open spec fn iso_seconds(s: Option<Seq<char>>) -> i64 {
    match s {
        Some(s) => time_or_zero(rfc3339_seconds(s)),
        None => 0,
    }
}

/// The UNIX time, in seconds, of a date and time; zero where there is none or
/// it cannot be read.
pub fn parse_iso(s: Option<&str>) -> (r: i64)
    ensures
        r == iso_seconds(s.deep_view()),
{
    match s {
        Some(s) => known_time(seconds_of(s)),
        None => 0,
    }
}

/// The UNIX time of a date and time that is held as a string.
pub fn parse_iso_string(s: &Option<String>) -> (r: i64)
    ensures
        r == iso_seconds(s.deep_view()),
{
    match s {
        Some(s) => parse_iso(Some(s.as_str())),
        None => 0,
    }
}

} // verus!
