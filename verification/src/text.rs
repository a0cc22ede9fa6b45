//! Character-level text operations and their mathematical meaning.
//!
//! Every string is modelled by its view, a `Seq<char>`. The searching,
//! trimming and line-splitting rules are given as spec functions and the
//! executable versions are proved against them.

use vstd::prelude::*;

verus! {

/// The lowercase form of a text that is not empty, as `str::to_lowercase`
/// computes it: the Unicode lowercase mapping, which is a function of the
/// characters alone.
pub uninterp spec fn lowercase_form(s: Seq<char>) -> Seq<char>;

/// Whether a character beyond ASCII carries the Unicode `White_Space`
/// property, as `char::is_whitespace` reports it.
pub uninterp spec fn wide_whitespace(c: char) -> bool;

/// The lowercase form of a text. The empty text has the empty text as its
/// lowercase form; of any other text only the name of the form is known.
pub open spec fn lowercase_of(s: Seq<char>) -> Seq<char> {
    if s.len() == 0 {
        Seq::empty()
    } else {
        lowercase_form(s)
    }
}

/// Whether a character is whitespace, that is, carries the Unicode
/// `White_Space` property. Among the ASCII characters these are the space
/// and U+0009 to U+000D, and no others.
pub open spec fn is_white_space(c: char) -> bool {
    if (c as u32) < 0x80 {
        c as u32 == 0x20 || 0x09 <= c as u32 <= 0x0d
    } else {
        wide_whitespace(c)
    }
}

/// Assumed of `str::to_lowercase`: its result is the lowercase form of the
/// text. Of the mapping itself nothing is assumed but that the empty text
/// gives the empty text; for every other text the result only has a name.
pub assume_specification[ str::to_lowercase ](s: &str) -> (r: String)
    ensures
        r@ == lowercase_of(s@),
        s@.len() > 0 ==> r@ == lowercase_form(s@),
;

/// Assumed of `char::is_whitespace`: it reports the `White_Space` property.
/// For an ASCII character the contract says which ones have it (the space
/// and U+0009 to U+000D); for any other character the result only has a
/// name.
pub assume_specification[ char::is_whitespace ](c: char) -> (r: bool)
    ensures
        r == is_white_space(c),
        (c as u32) >= 0x80 ==> r == wide_whitespace(c),
;

/// Assumed of `String::push`: it appends the character at the end.
pub assume_specification[ String::push ](s: &mut String, c: char)
    ensures
        final(s)@ == old(s)@.push(c),
;

/// Assumed of `String::pop`: it removes the last character and returns it,
/// or returns `None` and leaves an empty string as it is.
pub assume_specification[ String::pop ](s: &mut String) -> (r: Option<char>)
    ensures
        old(s)@.len() == 0 ==> r is None && final(s)@ == old(s)@,
        old(s)@.len() > 0 ==> r == Some(old(s)@.last()) && final(s)@ == old(s)@.drop_last(),
;

/// `pat` stands in `s` at position `i`.
pub open spec fn occurs_at(s: Seq<char>, pat: Seq<char>, i: int) -> bool {
    &&& 0 <= i
    &&& i + pat.len() <= s.len()
    &&& s.subrange(i, i + pat.len()) == pat
}

/// The first position at or after `from` where `pat` stands in `s`.
pub open spec fn find_from(s: Seq<char>, pat: Seq<char>, from: int) -> Option<int>
    decreases s.len() - from + 1,
{
    if from < 0 || from + pat.len() > s.len() {
        None
    } else if occurs_at(s, pat, from) {
        Some(from)
    } else {
        find_from(s, pat, from + 1)
    }
}

/// The first position where `pat` stands in `s`.
pub open spec fn find(s: Seq<char>, pat: Seq<char>) -> Option<int> {
    find_from(s, pat, 0)
}

/// `pat` is a contiguous part of `s`.
pub open spec fn contains(s: Seq<char>, pat: Seq<char>) -> bool {
    find(s, pat) is Some
}

/// `s` begins with `pat`.
pub open spec fn starts_with(s: Seq<char>, pat: Seq<char>) -> bool {
    occurs_at(s, pat, 0)
}

/// The first position at or after `i` that holds no whitespace (the length
/// of `s` if there is none).
pub open spec fn skip_white(s: Seq<char>, i: int) -> int
    decreases s.len() - i,
{
    if 0 <= i < s.len() && is_white_space(s[i]) {
        skip_white(s, i + 1)
    } else {
        i
    }
}

/// The end of the text that is left of `s[lo..hi]` once the whitespace at its
/// end is taken away.
pub open spec fn drop_white(s: Seq<char>, lo: int, hi: int) -> int
    decreases hi - lo,
{
    if lo < hi <= s.len() && is_white_space(s[hi - 1]) {
        drop_white(s, lo, hi - 1)
    } else {
        hi
    }
}

/// `s` without the whitespace at its two ends.
pub open spec fn trimmed(s: Seq<char>) -> Seq<char> {
    let a = skip_white(s, 0);
    let b = drop_white(s, a, s.len() as int);
    s.subrange(a, b)
}

/// The position of the first line feed at or after `from` (the length of `s`
/// if there is none).
pub open spec fn line_end(s: Seq<char>, from: int) -> int
    decreases s.len() - from,
{
    if from < 0 || from >= s.len() {
        s.len() as int
    } else if s[from] == '\n' {
        from
    } else {
        line_end(s, from + 1)
    }
}

/// A line without the carriage return that may end it.
pub open spec fn strip_cr(line: Seq<char>) -> Seq<char> {
    if line.len() > 0 && line.last() == '\r' {
        line.drop_last()
    } else {
        line
    }
}

/// The lines of `s` from position `from` on. A line ends at a line feed, or
/// at a carriage return directly followed by one; neither belongs to the
/// line. What follows the last line feed is a line of its own unless it is
/// empty, and keeps a carriage return at its end.
pub open spec fn lines_from(s: Seq<char>, from: int) -> Seq<Seq<char>>
    decreases s.len() - from,
{
    if from < 0 || from >= s.len() {
        Seq::empty()
    } else {
        let e = line_end(s, from);
        if from <= e < s.len() {
            seq![strip_cr(s.subrange(from, e))] + lines_from(s, e + 1)
        } else {
            seq![s.subrange(from, s.len() as int)]
        }
    }
}

/// The lines of a text.
pub open spec fn lines_of(s: Seq<char>) -> Seq<Seq<char>> {
    lines_from(s, 0)
}

/// The views of a vector of strings, one per string.
pub open spec fn views_of(v: Seq<String>) -> Seq<Seq<char>> {
    v.map_values(|l: String| l@)
}

/// `find_from` returns the least position at or after `from` where the
/// pattern stands, and `None` exactly when there is none.
pub proof fn lemma_find_from_is_first(s: Seq<char>, pat: Seq<char>, from: int)
    requires
        0 <= from,
    ensures
        match find_from(s, pat, from) {
            Some(i) => from <= i && occurs_at(s, pat, i) && forall|j: int|
                from <= j < i ==> !occurs_at(s, pat, j),
            None => forall|j: int| from <= j ==> !occurs_at(s, pat, j),
        },
    decreases s.len() - from + 1,
{
    if from + pat.len() > s.len() {
    } else if occurs_at(s, pat, from) {
    } else {
        lemma_find_from_is_first(s, pat, from + 1);
    }
}

/// A text contains a pattern exactly when the pattern stands at some
/// position of it.
pub proof fn lemma_contains_iff_occurs(s: Seq<char>, pat: Seq<char>)
    ensures
        contains(s, pat) <==> exists|i: int| occurs_at(s, pat, i),
{
    lemma_find_from_is_first(s, pat, 0);
    if contains(s, pat) {
        assert(occurs_at(s, pat, find(s, pat)->0));
    }
}

proof fn lemma_skip_white(s: Seq<char>, i: int)
    requires
        0 <= i <= s.len(),
    ensures
        i <= skip_white(s, i) <= s.len(),
        forall|j: int| i <= j < skip_white(s, i) ==> is_white_space(s[j]),
        skip_white(s, i) < s.len() ==> !is_white_space(s[skip_white(s, i)]),
    decreases s.len() - i,
{
    if i < s.len() && is_white_space(s[i]) {
        lemma_skip_white(s, i + 1);
    }
}

proof fn lemma_drop_white(s: Seq<char>, lo: int, hi: int)
    requires
        0 <= lo <= hi <= s.len(),
    ensures
        lo <= drop_white(s, lo, hi) <= hi,
        forall|j: int| drop_white(s, lo, hi) <= j < hi ==> is_white_space(s[j]),
        lo < drop_white(s, lo, hi) ==> !is_white_space(s[drop_white(s, lo, hi) - 1]),
    decreases hi - lo,
{
    if lo < hi && is_white_space(s[hi - 1]) {
        lemma_drop_white(s, lo, hi - 1);
    }
}

/// Trimming cuts whitespace, and only whitespace, from the two ends: the
/// trimmed text is the part of the text between two positions, all that
/// lies outside them is whitespace, and a trimmed text that is not empty
/// begins and ends with a character that is none.
pub proof fn lemma_trimmed_is_the_core(s: Seq<char>)
    ensures
        ({
            let a = skip_white(s, 0);
            let b = drop_white(s, a, s.len() as int);
            &&& 0 <= a <= b <= s.len()
            &&& trimmed(s) == s.subrange(a, b)
            &&& forall|j: int| 0 <= j < a || b <= j < s.len() ==> is_white_space(s[j])
            &&& trimmed(s).len() > 0 ==> !is_white_space(trimmed(s).first()) && !is_white_space(
                trimmed(s).last(),
            )
        }),
{
    lemma_skip_white(s, 0);
    lemma_drop_white(s, skip_white(s, 0), s.len() as int);
}

/// The position that `line_end` returns lies between `from` and the end.
pub proof fn lemma_line_end_bounds(s: Seq<char>, from: int)
    requires
        0 <= from <= s.len(),
    ensures
        from <= line_end(s, from) <= s.len(),
        forall|j: int| from <= j < line_end(s, from) ==> s[j] != '\n',
        line_end(s, from) < s.len() ==> s[line_end(s, from)] == '\n',
    decreases s.len() - from,
{
    if from < s.len() && s[from] != '\n' {
        lemma_line_end_bounds(s, from + 1);
    }
}

/// No line of a text holds a line feed, and a text without characters has
/// no lines.
pub proof fn lemma_lines_hold_no_line_feed(s: Seq<char>, from: int)
    requires
        0 <= from <= s.len(),
    ensures
        forall|i: int, j: int|
            0 <= i < lines_from(s, from).len() && 0 <= j < lines_from(s, from)[i].len()
                ==> lines_from(s, from)[i][j] != '\n',
        from == s.len() ==> lines_from(s, from).len() == 0,
        from < s.len() ==> lines_from(s, from).len() > 0,
    decreases s.len() - from,
{
    if from < s.len() {
        lemma_line_end_bounds(s, from);
        let e = line_end(s, from);
        let lines = lines_from(s, from);
        if e < s.len() {
            lemma_lines_hold_no_line_feed(s, e + 1);
            let rest = lines_from(s, e + 1);
            let first = strip_cr(s.subrange(from, e));
            assert(lines == seq![first] + rest);
            assert forall|i: int, j: int|
                0 <= i < lines.len() && 0 <= j < lines[i].len() implies lines[i][j] != '\n' by {
                if i == 0 {
                    assert(lines[0] == first);
                    assert(first[j] == s[from + j]);
                } else {
                    assert(lines[i] == rest[i - 1]);
                }
            }
        } else {
            assert(lines == seq![s.subrange(from, s.len() as int)]);
            assert forall|i: int, j: int|
                0 <= i < lines.len() && 0 <= j < lines[i].len() implies lines[i][j] != '\n' by {
                assert(lines[0][j] == s[from + j]);
            }
        }
    }
}

/// The characters of a string, in order.
pub fn chars_of(s: &str) -> (r: Vec<char>)
    ensures
        r@ == s@,
{
    let mut out: Vec<char> = Vec::new();
    for c in it: s.chars()
        invariant
            out@ == it.seq().take(it.index() as int),
            it.seq() == s@,
    {
        out.push(c);
    }
    out
}

/// The characters `v[from..to]`.
pub fn part_of(v: &Vec<char>, from: usize, to: usize) -> (r: Vec<char>)
    requires
        from <= to <= v.len(),
    ensures
        r@ == v@.subrange(from as int, to as int),
{
    let mut out: Vec<char> = Vec::new();
    let mut i: usize = from;
    while i < to
        invariant
            from <= i <= to <= v.len(),
            out@ == v@.subrange(from as int, i as int),
        decreases to - i,
    {
        out.push(v[i]);
        assert(v@.subrange(from as int, i + 1) =~= v@.subrange(from as int, i as int).push(
            v@[i as int],
        ));
        i += 1;
    }
    out
}

/// The string made of `v[from..to]`.
pub fn string_of(v: &Vec<char>, from: usize, to: usize) -> (r: String)
    requires
        from <= to <= v.len(),
    ensures
        r@ == v@.subrange(from as int, to as int),
{
    let mut out = String::new();
    let mut i: usize = from;
    while i < to
        invariant
            from <= i <= to <= v.len(),
            out@ == v@.subrange(from as int, i as int),
        decreases to - i,
    {
        out.push(v[i]);
        assert(v@.subrange(from as int, i + 1) =~= v@.subrange(from as int, i as int).push(
            v@[i as int],
        ));
        i += 1;
    }
    out
}

/// Whether `pat` stands in `s` at position `i`.
pub fn occurs_at_exec(s: &Vec<char>, pat: &Vec<char>, i: usize) -> (r: bool)
    ensures
        r == occurs_at(s@, pat@, i as int),
{
    if pat.len() > s.len() || i > s.len() - pat.len() {
        return false;
    }
    let mut j: usize = 0;
    while j < pat.len()
        invariant
            j <= pat.len(),
            i + pat.len() <= s.len(),
            s@.subrange(i as int, i + j) == pat@.subrange(0, j as int),
        decreases pat.len() - j,
    {
        if s[i + j] != pat[j] {
            assert(s@.subrange(i as int, i + pat.len())[j as int] != pat@[j as int]);
            return false;
        }
        assert(s@.subrange(i as int, i + j + 1) =~= s@.subrange(i as int, i + j).push(
            s@[i + j],
        ));
        assert(pat@.subrange(0, j + 1) =~= pat@.subrange(0, j as int).push(pat@[j as int]));
        j += 1;
    }
    assert(pat@.subrange(0, pat.len() as int) =~= pat@);
    true
}

/// The first position at or after `from` where `pat` stands in `s`.
pub fn find_from_exec(s: &Vec<char>, pat: &Vec<char>, from: usize) -> (r: Option<usize>)
    ensures
        match r {
            Some(i) => find_from(s@, pat@, from as int) == Some(i as int),
            None => find_from(s@, pat@, from as int) is None,
        },
{
    if pat.len() > s.len() {
        return None;
    }
    let last: usize = s.len() - pat.len();
    if from > last {
        return None;
    }
    let mut i: usize = from;
    while i < last
        invariant
            from <= i <= last,
            last == s.len() - pat.len(),
            find_from(s@, pat@, from as int) == find_from(s@, pat@, i as int),
        decreases last - i,
    {
        if occurs_at_exec(s, pat, i) {
            return Some(i);
        }
        i += 1;
    }
    if occurs_at_exec(s, pat, i) {
        Some(i)
    } else {
        assert(find_from(s@, pat@, i + 1) is None);
        None
    }
}

/// Whether the text `s` contains the pattern `pat`.
pub fn contains_exec(s: &Vec<char>, pat: &Vec<char>) -> (r: bool)
    ensures
        r == contains(s@, pat@),
{
    find_from_exec(s, pat, 0).is_some()
}

/// Whether the string `s` begins with `pat`.
pub fn has_prefix(s: &str, pat: &str) -> (r: bool)
    ensures
        r == starts_with(s@, pat@),
{
    let sv = chars_of(s);
    let pv = chars_of(pat);
    occurs_at_exec(&sv, &pv, 0)
}

/// `s` without the whitespace at its two ends.
pub fn trim_chars(s: &Vec<char>) -> (r: String)
    ensures
        r@ == trimmed(s@),
{
    let n = s.len();
    let mut a: usize = 0;
    while a < n && s[a].is_whitespace()
        invariant
            a <= n == s.len(),
            skip_white(s@, 0) == skip_white(s@, a as int),
        decreases n - a,
    {
        a += 1;
    }
    let mut b: usize = n;
    while b > a && s[b - 1].is_whitespace()
        invariant
            a <= b <= n == s.len(),
            drop_white(s@, a as int, n as int) == drop_white(s@, a as int, b as int),
        decreases b,
    {
        b -= 1;
    }
    string_of(s, a, b)
}

/// A string without the whitespace at its two ends.
pub fn trim(s: &str) -> (r: String)
    ensures
        r@ == trimmed(s@),
{
    let v = chars_of(s);
    trim_chars(&v)
}

/// The lines of a text, each as a string of its own.
pub fn split_lines(text: &str) -> (r: Vec<String>)
    ensures
        views_of(r@) == lines_of(text@),
{
    let cs = chars_of(text);
    let n = cs.len();
    let mut out: Vec<String> = Vec::new();
    let mut start: usize = 0;
    assert(views_of(out@) =~= Seq::<Seq<char>>::empty());
    while start < n
        invariant
            start <= n == cs.len(),
            cs@ == text@,
            lines_of(text@) == views_of(out@) + lines_from(text@, start as int),
        decreases n - start,
    {
        let mut e: usize = start;
        while e < n && cs[e] != '\n'
            invariant
                start <= e <= n == cs.len(),
                line_end(cs@, start as int) == line_end(cs@, e as int),
            decreases n - e,
        {
            e += 1;
        }
        let ghost before = views_of(out@);
        if e < n {
            let end: usize = if e > start && cs[e - 1] == '\r' {
                e - 1
            } else {
                e
            };
            let line = string_of(&cs, start, end);
            proof {
                let raw = cs@.subrange(start as int, e as int);
                if e > start && cs@[e - 1] == '\r' {
                    assert(raw.last() == '\r');
                    assert(raw.drop_last() =~= cs@.subrange(start as int, e - 1));
                }
                assert(line@ == strip_cr(raw));
            }
            out.push(line);
            proof {
                assert(views_of(out@) =~= before.push(line@));
                assert(before + (seq![line@] + lines_from(text@, e + 1)) =~= before.push(line@)
                    + lines_from(text@, e + 1));
            }
            start = e + 1;
        } else {
            let line = string_of(&cs, start, n);
            out.push(line);
            proof {
                assert(views_of(out@) =~= before.push(line@));
                assert(before + seq![line@] =~= before.push(line@));
                assert(lines_from(text@, n as int) =~= Seq::<Seq<char>>::empty());
                assert(before.push(line@) + Seq::<Seq<char>>::empty() =~= before.push(line@));
            }
            start = n;
        }
    }
    proof {
        assert(lines_from(text@, start as int) =~= Seq::<Seq<char>>::empty());
        assert(views_of(out@) + Seq::<Seq<char>>::empty() =~= views_of(out@));
    }
    out
}

} // verus!
