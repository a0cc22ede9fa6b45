//! What the screen shows, as far as it is decided by rule: how a line of a
//! diff is classed, which lines of the buffer are visible, how long texts
//! are cut, and the small texts that depend on the state. Drawing is the
//! caller's part.

use crate::text::{chars_of, occurs_at_exec, starts_with};
use vstd::prelude::*;
use vstd::string::{StringExecFns, StringSliceAdditionalSpecFns};
use vstd::utf8::{
    decode_utf8, encode_utf8, encode_utf8_decode_utf8, encode_utf8_valid_utf8, is_char_boundary,
    valid_utf8,
};

verus! {

/// The class of a line of a diff, by which it is coloured.
#[derive(Debug, PartialEq, Eq, Clone, Copy)]
pub enum LineKind {
    /// A line that the change adds.
    Added,
    /// A line that the change removes.
    Removed,
    /// The header of a hunk.
    Hunk,
    /// A line of the header of a file.
    Header,
    /// Any other line.
    Context,
}

/// The class of a line. A line that begins with `+` but not with `+++` is
/// added, one that begins with `-` but not with `---` is removed, one that
/// begins with `@@` heads a hunk, and one that begins with `diff `,
/// `index `, `---` or `+++` belongs to a file header.
pub open spec fn kind_of(line: Seq<char>) -> LineKind {
    if starts_with(line, "+"@) && !starts_with(line, "+++"@) {
        LineKind::Added
    } else if starts_with(line, "-"@) && !starts_with(line, "---"@) {
        LineKind::Removed
    } else if starts_with(line, "@@"@) {
        LineKind::Hunk
    } else if starts_with(line, "diff "@) || starts_with(line, "index "@) || starts_with(
        line,
        "---"@,
    ) || starts_with(line, "+++"@) {
        LineKind::Header
    } else {
        LineKind::Context
    }
}

/// The note on the search that the header shows: the query while it is
/// being typed, the filter while one is set, and nothing otherwise.
pub open spec fn indicator_of(searching: bool, query: Seq<char>) -> Seq<char> {
    if searching {
        "  \u{1F50D} /"@ + query
    } else if query.len() > 0 {
        "  filter: /"@ + query
    } else {
        Seq::empty()
    }
}

/// The greatest position up to `limit` at which a text with these bytes can
/// be cut between two characters.
pub open spec fn cut_point(bytes: Seq<u8>, limit: int) -> int
    decreases limit,
{
    if limit <= 0 {
        0
    } else if is_char_boundary(bytes, limit) {
        limit
    } else {
        cut_point(bytes, limit - 1)
    }
}

/// A text cut to `max` bytes. A text whose encoding takes no more stays as
/// it is. A longer one keeps the characters that fit into `max - 1` bytes
/// and ends in an ellipsis.
pub open spec fn truncated(s: Seq<char>, max: int) -> Seq<char> {
    let bytes = encode_utf8(s);
    if bytes.len() <= max {
        s
    } else {
        decode_utf8(bytes.subrange(0, cut_point(bytes, max - 1))) + "\u{2026}"@
    }
}

/// The smaller of two numbers.
pub open spec fn least(a: int, b: int) -> int {
    if a <= b {
        a
    } else {
        b
    }
}

/// Classes a line of a diff.
pub fn line_kind(line: &str) -> (r: LineKind)
    ensures
        r == kind_of(line@),
{
    let l = chars_of(line);
    let plus = occurs_at_exec(&l, &chars_of("+"), 0);
    let plus3 = occurs_at_exec(&l, &chars_of("+++"), 0);
    let minus = occurs_at_exec(&l, &chars_of("-"), 0);
    let minus3 = occurs_at_exec(&l, &chars_of("---"), 0);
    if plus && !plus3 {
        LineKind::Added
    } else if minus && !minus3 {
        LineKind::Removed
    } else if occurs_at_exec(&l, &chars_of("@@"), 0) {
        LineKind::Hunk
    } else if occurs_at_exec(&l, &chars_of("diff "), 0) || occurs_at_exec(
        &l,
        &chars_of("index "),
        0,
    ) || minus3 || plus3 {
        LineKind::Header
    } else {
        LineKind::Context
    }
}

/// Whether a message reports a failure: it begins with `Error`.
pub fn is_error_message(message: &str) -> (r: bool)
    ensures
        r == starts_with(message@, "Error"@),
{
    occurs_at_exec(&chars_of(message), &chars_of("Error"), 0)
}

/// The note on the search that the header shows.
pub fn search_indicator(searching: bool, query: &str) -> (r: String)
    ensures
        r@ == indicator_of(searching, query@),
{
    if searching {
        let mut text = String::from_str("  \u{1F50D} /");
        text.append(query);
        text
    } else if !query.is_empty() {
        let mut text = String::from_str("  filter: /");
        text.append(query);
        text
    } else {
        String::new()
    }
}

/// The text that stands in for an empty list: one for a collection without
/// stashes, another for a search that nothing answers.
pub fn empty_list_message(no_stashes: bool) -> (r: String)
    ensures
        r@ == if no_stashes {
            "No stashes found. Press 'n' to create one."@
        } else {
            "No stashes match your search."@
        },
{
    if no_stashes {
        String::from_str("No stashes found. Press 'n' to create one.")
    } else {
        String::from_str("No stashes match your search.")
    }
}

/// The part of the buffer that fits an area of the given height, of which
/// two rows are the border: the lines from `r.0` up to, not including,
/// `r.1`, starting at the scroll offset.
pub fn visible_range(lines: usize, scroll: usize, area_height: u16) -> (r: (usize, usize))
    ensures
        r.0 == least(scroll as int, lines as int),
        r.1 == least(
            r.0 + if area_height >= 2 {
                area_height - 2
            } else {
                0
            },
            lines as int,
        ),
{
    let height: usize = if area_height >= 2 {
        (area_height - 2) as usize
    } else {
        0
    };
    let start: usize = if scroll <= lines {
        scroll
    } else {
        lines
    };
    let end: usize = if height <= lines - start {
        start + height
    } else {
        lines
    };
    (start, end)
}

/// The share, in percent, that is left on each side of a popup which takes
/// `percent` of the screen.
pub fn popup_margin(percent: u16) -> (r: u16)
    requires
        percent <= 100,
    ensures
        r == (100 - percent) / 2,
{
    (100 - percent) / 2
}

/// Cuts a text whose encoding takes more than `max` bytes: it keeps the
/// first `max - 1` bytes, or as many of them as make whole characters, and
/// ends in an ellipsis. A text that fits stays as it is.
pub fn truncate(s: &str, max: usize) -> (r: String)
    ensures
        r@ == truncated(s@, max as int),
{
    if s.as_bytes().len() <= max {
        return s.to_owned();
    }
    proof {
        encode_utf8_valid_utf8(s@);
    }
    let mut cut: usize = if max == 0 {
        0
    } else {
        max - 1
    };
    while cut > 0 && !s.is_char_boundary(cut)
        invariant
            cut < s.spec_bytes().len(),
            valid_utf8(s.spec_bytes()),
            cut_point(s.spec_bytes(), max - 1) == cut_point(s.spec_bytes(), cut as int),
        decreases cut,
    {
        cut -= 1;
    }
    let (head, _) = s.split_at(cut);
    proof {
        encode_utf8_decode_utf8(head@);
        assert(head.spec_bytes() == s.spec_bytes().subrange(0, cut as int));
    }
    let mut out = String::from_str(head);
    out.append("\u{2026}");
    out
}

} // verus!
