//! Unicode data dependencies: display width, grapheme segmentation, and
//! UTF-8 decoding.
//!
//! Display width and grapheme segmentation are table-driven pure functions
//! supplied by outside crates; their results are named by uninterpreted spec
//! functions and every contract in the library speaks of those names.  UTF-8
//! encoding and decoding are specified exactly by `vstd::utf8`.

use vstd::prelude::*;
use vstd::utf8::{valid_utf8, decode_utf8};
use vstd::string::StrSliceExecFns;

verus! {

/// Display width in columns of a string, as the East-Asian-Width derived
/// tables define it.  Depends on the characters alone.
pub uninterp spec fn str_width(s: Seq<char>) -> nat;

/// Display width in columns of a single character: `None` for control
/// characters, otherwise 0, 1 or 2.  Depends on the character alone.
pub uninterp spec fn char_width(c: char) -> Option<nat>;

/// The extended grapheme clusters of a string, in order.  Depends on the
/// characters alone.
pub uninterp spec fn grapheme_clusters(s: Seq<char>) -> Seq<Seq<char>>;

/// Relies on `unicode_width::UnicodeWidthStr::width`: the displayed width of
/// a string in columns, a pure function of its characters (the crate derives
/// it from static tables).  An empty string has width zero.
#[verifier::external_body]
pub fn measure_str_width(s: &str) -> (w: usize)
    ensures
        w == str_width(s@),
        s@.len() == 0 ==> w == 0,
{
    unicode_width::UnicodeWidthStr::width(s)
}

/// Relies on `unicode_width::UnicodeWidthChar::width`: the displayed width of
/// one character, or `None` for a control character; a pure function of the
/// character (static tables).
#[verifier::external_body]
pub fn measure_char_width(c: char) -> (w: Option<usize>)
    ensures
        w matches Some(n) ==> char_width(c) == Some(n as nat),
        w is None ==> char_width(c) is None,
{
    unicode_width::UnicodeWidthChar::width(c)
}

/// Relies on `unicode_segmentation::UnicodeSegmentation::graphemes` with
/// extended clusters: splits a string into its grapheme clusters, whose
/// concatenation is the original string; a pure function of the characters.
#[verifier::external_body]
pub fn split_graphemes(s: &str) -> (v: Vec<String>)
    ensures
        v@.map_values(|t: String| t@) == grapheme_clusters(s@),
        v@.map_values(|t: String| t@).flatten() == s@,
        s@.len() == 0 ==> v@.len() == 0,
{
    unicode_segmentation::UnicodeSegmentation::graphemes(s, true)
        .map(|g| g.to_string())
        .collect()
}

/// Relies on `core::str::from_utf8`: succeeds exactly on valid UTF-8 and
/// returns the decoded character sequence.
#[verifier::external_body]
pub fn bytes_to_string(v: &[u8]) -> (r: Option<String>)
    ensures
        r is Some <==> valid_utf8(v@),
        r matches Some(s) ==> s@ == decode_utf8(v@),
{
    match core::str::from_utf8(v) {
        Ok(s) => Some(s.to_string()),
        Err(_) => None,
    }
}

/// Display width of a string clamped to the cell budget of two columns.
pub open spec fn clamped_width(s: Seq<char>) -> nat {
    if str_width(s) >= 2 {
        2
    } else {
        str_width(s)
    }
}

/// Measure a grapheme's display width and clamp it to the two-column cell
/// budget, so the result is always 0, 1 or 2.
pub fn grapheme_cell_width(s: &str) -> (w: u8)
    ensures
        w == clamped_width(s@),
        w <= 2,
{
    let uw = measure_str_width(s);
    if uw >= 2 {
        2
    } else {
        uw as u8
    }
}

/// Display width of one character, with control characters counted as zero
/// columns, clamped to the two-column cell budget.
pub open spec fn char_cell_width(c: char) -> nat {
    match char_width(c) {
        Some(n) => if n >= 2 { 2 } else { n },
        None => 0,
    }
}

/// Measure one character's display width, counting control characters as
/// zero and clamping to the two-column cell budget.
pub fn measure_char_cell_width(c: char) -> (w: u8)
    ensures
        w == char_cell_width(c),
        w <= 2,
{
    match measure_char_width(c) {
        Some(n) => if n >= 2 { 2 } else { n as u8 },
        None => 0,
    }
}

/// Sum of the clamped cell widths of a sequence of characters.
pub open spec fn chars_cell_width(s: Seq<char>) -> nat
    decreases s.len(),
{
    if s.len() == 0 {
        0
    } else {
        char_cell_width(s[0]) + chars_cell_width(s.drop_first())
    }
}

/// The characters of a string as a vector, in order.
pub fn str_chars(s: &str) -> (v: Vec<char>)
    ensures
        v@ == s@,
{
    let n = s.unicode_len();
    let mut v: Vec<char> = Vec::new();
    let mut i: usize = 0;
    while i < n
        invariant
            i <= n,
            n == s@.len(),
            v@ == s@.take(i as int),
        decreases n - i,
    {
        let c = s.get_char(i);
        v.push(c);
        proof {
            assert(v@ =~= s@.take(i as int + 1));
        }
        i = i + 1;
    }
    proof {
        assert(s@.take(n as int) =~= s@);
    }
    v
}

/// Whether a character sequence holds a line feed.
pub open spec fn spec_has_newline(s: Seq<char>) -> bool {
    exists|i: int| 0 <= i < s.len() && s[i] == '\n'
}

/// Whether the string holds a line feed.
pub fn contains_newline(chars: &Vec<char>) -> (r: bool)
    ensures
        r == spec_has_newline(chars@),
{
    let n = chars.len();
    let mut i: usize = 0;
    while i < n
        invariant
            i <= n,
            n == chars@.len(),
            forall|j: int| 0 <= j < i ==> chars@[j] != '\n',
        decreases n - i,
    {
        if chars[i] == '\n' {
            return true;
        }
        i = i + 1;
    }
    false
}

/// Relies on `core::iter::Iterator::collect` for `String`: collecting
/// characters yields the string of exactly those characters, in order.
#[verifier::external_body]
pub fn chars_to_string(v: &Vec<char>) -> (s: String)
    ensures
        s@ == v@,
{
    v.iter().collect()
}

} // verus!
