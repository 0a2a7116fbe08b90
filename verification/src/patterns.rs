//! The regular expressions the library matches names and CRS strings
//! against, and the calls into the `regex` crate that evaluate them.

use vstd::prelude::*;

verus! {

/// Whether `regex::Regex::new` accepts the pattern (its syntax is valid and
/// the compiled program fits the default size limit).
pub uninterp spec fn regex_compiles(pattern: Seq<char>) -> bool;

/// Whether the compiled pattern matches somewhere in `text`
/// (`Regex::is_match`).
pub uninterp spec fn regex_matches(pattern: Seq<char>, text: Seq<char>) -> bool;

/// The text of capture group `group` of the first match of the pattern in
/// `text` (`Regex::captures` then `Captures::get`); `None` when there is no
/// match or the group did not take part in it.
pub uninterp spec fn regex_group(pattern: Seq<char>, text: Seq<char>, group: nat) -> Option<
    Seq<char>,
>;

/// `regex::Regex::new(pattern)` followed by `is_match(text)`: `None` when
/// the pattern does not compile; otherwise whether it matches. Both are
/// functions of the pattern and the text alone.
#[verifier::external_body]
fn regex_is_match(pattern: &str, text: &str) -> (r: Option<bool>)
    ensures
        r is Some <==> regex_compiles(pattern@),
        r matches Some(b) ==> b == regex_matches(pattern@, text@),
{
    match regex::Regex::new(pattern) {
        Ok(re) => Some(re.is_match(text)),
        Err(_) => None,
    }
}

/// `regex::Regex::new(pattern)` followed by `captures(text)` and
/// `get(group)`: `None` when the pattern does not compile; otherwise the
/// captured text, if any.
#[verifier::external_body]
fn regex_capture(pattern: &str, text: &str, group: usize) -> (r: Option<Option<String>>)
    ensures
        r is Some <==> regex_compiles(pattern@),
        r matches Some(g) ==> match g {
            Some(s) => regex_group(pattern@, text@, group as nat) == Some(s@),
            None => regex_group(pattern@, text@, group as nat) is None,
        },
{
    match regex::Regex::new(pattern) {
        Ok(re) => Some(
            match re.captures(text) {
                Some(caps) => match caps.get(group) {
                    Some(m) => Some(m.as_str().to_owned()),
                    None => None,
                },
                None => None,
            },
        ),
        Err(_) => None,
    }
}

/// A standard OSGB tile directory name: `Tile_<x>_<y>` with optionally
/// signed decimal coordinates, case-insensitive.
pub const TILE_DIR_PATTERN: &'static str = r"(?i)^Tile_[+\-]?\d+_[+\-]?\d+$";

/// An ENU CRS string with a latitude and longitude: `ENU:<lat>,<lon>`.
pub const ENU_PATTERN: &'static str = r"(?i)^\s*ENU\s*:\s*([+-]?\d+(?:\.\d+)?)\s*,\s*([+-]?\d+(?:\.\d+)?)\s*$";

/// An EPSG CRS string: `EPSG:<code>`.
pub const EPSG_PATTERN: &'static str = r"(?i)^\s*EPSG\s*:\s*(\d+)\s*$";

/// Whether `text` matches `pattern` (a pattern that does not compile
/// matches nothing).
pub open spec fn pattern_matches(pattern: Seq<char>, text: Seq<char>) -> bool {
    regex_compiles(pattern) && regex_matches(pattern, text)
}

/// Does `text` match `pattern`?
pub fn matches_pattern(pattern: &str, text: &str) -> (r: bool)
    ensures
        r == pattern_matches(pattern@, text@),
{
    match regex_is_match(pattern, text) {
        Some(b) => b,
        None => false,
    }
}

/// The text of capture group `group` when `text` matches `pattern`.
pub open spec fn pattern_group(pattern: Seq<char>, text: Seq<char>, group: nat) -> Option<
    Seq<char>,
> {
    if regex_compiles(pattern) {
        regex_group(pattern, text, group)
    } else {
        None
    }
}

/// Capture group `group` of the first match of `pattern` in `text`.
pub fn capture_group(pattern: &str, text: &str, group: usize) -> (r: Option<String>)
    ensures
        match r {
            Some(s) => pattern_group(pattern@, text@, group as nat) == Some(s@),
            None => pattern_group(pattern@, text@, group as nat) is None,
        },
{
    match regex_capture(pattern, text, group) {
        Some(g) => g,
        None => None,
    }
}

/// Is `name` a standard tile directory name?
pub fn is_tile_dir_name(name: &str) -> (r: bool)
    ensures
        r == pattern_matches(TILE_DIR_PATTERN@, name@),
{
    matches_pattern(TILE_DIR_PATTERN, name)
}

} // verus!
