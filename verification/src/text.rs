//! Text primitives on character sequences: comparison, search, trimming,
//! joining.
//!
//! Every string is modelled by its view, a `Seq<char>`. The executable
//! functions walk the characters themselves, so each result is proved
//! against its specification.

use vstd::prelude::*;
use vstd::string::*;

verus! {

/// Whether `c` is white space: a character with the Unicode property
/// `White_Space`. These are the tab, the line feed, the vertical tab, the
/// form feed and the carriage return, the blank, the next-line control,
/// the no-break space, the Ogham space mark, the spaces from the en quad to
/// the hair space, the line and the paragraph separator, the narrow
/// no-break space, the medium mathematical space and the ideographic
/// space.
pub open spec fn white_space(c: char) -> bool {
    ||| ('\u{9}' <= c && c <= '\u{d}')
    ||| c == ' '
    ||| c == '\u{85}'
    ||| c == '\u{a0}'
    ||| c == '\u{1680}'
    ||| ('\u{2000}' <= c && c <= '\u{200a}')
    ||| c == '\u{2028}'
    ||| c == '\u{2029}'
    ||| c == '\u{202f}'
    ||| c == '\u{205f}'
    ||| c == '\u{3000}'
}

/// Whether `c` is white space.
pub fn is_white_space(c: char) -> (b: bool)
    ensures
        b == white_space(c),
{
    ('\u{9}' <= c && c <= '\u{d}') || c == ' ' || c == '\u{85}' || c == '\u{a0}' || c == '\u{1680}'
        || ('\u{2000}' <= c && c <= '\u{200a}') || c == '\u{2028}' || c == '\u{2029}' || c
        == '\u{202f}' || c == '\u{205f}' || c == '\u{3000}'
}

/// The characters of `s`, in order.
pub fn chars_of(s: &str) -> (chars: Vec<char>)
    ensures
        chars@ == s@,
{
    let mut chars: Vec<char> = Vec::new();
    for c in it: s.chars()
        invariant
            chars@ == it.seq().take(it.index() as int),
    {
        chars.push(c);
    }
    chars
}

/// Whether two strings hold the same characters.
pub fn same_text(a: &str, b: &str) -> (same: bool)
    ensures
        same == (a@ == b@),
{
    let x = chars_of(a);
    let y = chars_of(b);
    if x.len() != y.len() {
        return false;
    }
    let mut i: usize = 0;
    while i < x.len()
        invariant
            i <= x.len(),
            x.len() == y.len(),
            x@ == a@,
            y@ == b@,
            forall|k: int| 0 <= k < i ==> x@[k] == y@[k],
        decreases x.len() - i,
    {
        if x[i] != y[i] {
            return false;
        }
        i = i + 1;
    }
    assert(a@ =~= b@);
    true
}

/// An ASCII capital letter becomes its small letter; every other character
/// stays as it is.
pub open spec fn ascii_lowered(c: char) -> char {
    if 'A' <= c && c <= 'Z' {
        ((c as u8 + 32) as u8) as char
    } else {
        c
    }
}

/// `a` and `b` are equal up to the case of their ASCII letters.
pub open spec fn same_ignoring_ascii_case(a: Seq<char>, b: Seq<char>) -> bool {
    &&& a.len() == b.len()
    &&& forall|i: int| 0 <= i < a.len() ==> ascii_lowered(a[i]) == ascii_lowered(b[i])
}

fn ascii_lower(c: char) -> (lowered: char)
    ensures
        lowered == ascii_lowered(c),
{
    if 'A' <= c && c <= 'Z' {
        ((c as u8) + 32) as char
    } else {
        c
    }
}

/// Compares two strings without regard to the case of ASCII letters.
pub fn eq_ignore_ascii_case(a: &str, b: &str) -> (same: bool)
    ensures
        same == same_ignoring_ascii_case(a@, b@),
{
    let x = chars_of(a);
    let y = chars_of(b);
    if x.len() != y.len() {
        return false;
    }
    let mut i: usize = 0;
    while i < x.len()
        invariant
            i <= x.len(),
            x.len() == y.len(),
            x@ == a@,
            y@ == b@,
            forall|k: int| 0 <= k < i ==> ascii_lowered(x@[k]) == ascii_lowered(y@[k]),
        decreases x.len() - i,
    {
        if ascii_lower(x[i]) != ascii_lower(y[i]) {
            return false;
        }
        i = i + 1;
    }
    true
}

/// `pattern` stands in `text` at position `i`.
pub open spec fn occurs_at(text: Seq<char>, pattern: Seq<char>, i: int) -> bool {
    &&& 0 <= i
    &&& i + pattern.len() <= text.len()
    &&& text.subrange(i, i + pattern.len()) == pattern
}

/// `pattern` stands somewhere in `text`.
pub open spec fn has_occurrence(text: Seq<char>, pattern: Seq<char>) -> bool {
    exists|i: int| occurs_at(text, pattern, i)
}

fn matches_at(text: &Vec<char>, pattern: &Vec<char>, at: usize) -> (found: bool)
    requires
        at + pattern.len() <= text.len(),
    ensures
        found == occurs_at(text@, pattern@, at as int),
{
    let ghost window = text@.subrange(at as int, at + pattern.len());
    let mut k: usize = 0;
    while k < pattern.len()
        invariant
            k <= pattern.len(),
            at + pattern.len() <= text.len(),
            window == text@.subrange(at as int, at + pattern.len()),
            forall|j: int| 0 <= j < k ==> window[j] == pattern@[j],
        decreases pattern.len() - k,
    {
        if text[at + k] != pattern[k] {
            return false;
        }
        k = k + 1;
    }
    assert(window =~= pattern@);
    true
}

/// Whether `pattern` stands somewhere in `text`. The empty pattern stands
/// in every text.
pub fn contains(text: &str, pattern: &str) -> (found: bool)
    ensures
        found == has_occurrence(text@, pattern@),
{
    let t = chars_of(text);
    let p = chars_of(pattern);
    if p.len() > t.len() {
        return false;
    }
    let last = t.len() - p.len();
    let mut i: usize = 0;
    loop
        invariant
            i <= last,
            last == t.len() - p.len(),
            p.len() <= t.len(),
            t@ == text@,
            p@ == pattern@,
            forall|k: int| 0 <= k < i ==> !occurs_at(text@, pattern@, k),
        decreases last - i,
    {
        if matches_at(&t, &p, i) {
            return true;
        }
        if i == last {
            return false;
        }
        i = i + 1;
    }
}

/// `pattern` stands in `text` at one position and at no other.
pub open spec fn occurs_once(text: Seq<char>, pattern: Seq<char>) -> bool {
    exists|i: int|
        #[trigger] occurs_at(text, pattern, i) && forall|j: int|
            occurs_at(text, pattern, j) ==> j == i
}

/// What stands in a text still stands there when the text goes on.
pub proof fn lemma_occurrence_extends(text: Seq<char>, more: Seq<char>, pattern: Seq<char>, i: int)
    requires
        occurs_at(text, pattern, i),
    ensures
        occurs_at(text + more, pattern, i),
{
    assert((text + more).subrange(i, i + pattern.len()) =~= text.subrange(i, i + pattern.len()));
}

/// What stands in a text stands further right by the length of what is put
/// before the text.
pub proof fn lemma_occurrence_shifts(
    before: Seq<char>,
    text: Seq<char>,
    pattern: Seq<char>,
    i: int,
)
    requires
        occurs_at(text, pattern, i),
    ensures
        occurs_at(before + text, pattern, before.len() + i),
{
    assert((before + text).subrange(before.len() + i, before.len() + i + pattern.len())
        =~= text.subrange(i, i + pattern.len()));
}

/// A pattern that does not hold the character `c` cannot reach across a
/// `c`: where it stands in `left`, `c`, `right`, it stands in `left` or in
/// `right`.
pub proof fn lemma_occurrence_beside(
    left: Seq<char>,
    c: char,
    right: Seq<char>,
    pattern: Seq<char>,
    i: int,
)
    requires
        occurs_at(left + seq![c] + right, pattern, i),
        forall|k: int| 0 <= k < pattern.len() ==> pattern[k] != c,
    ensures
        occurs_at(left, pattern, i) || (i > left.len() && occurs_at(
            right,
            pattern,
            i - left.len() - 1,
        )),
{
    let whole = left + seq![c] + right;
    let window = whole.subrange(i, i + pattern.len());
    let at = left.len() as int;
    if i <= at && at < i + pattern.len() {
        // The pattern would hold `c`.
        assert(window[at - i] == whole[at]);
    } else if i + pattern.len() <= at {
        assert(left.subrange(i, i + pattern.len()) =~= window);
    } else {
        assert(right.subrange(i - at - 1, i - at - 1 + pattern.len()) =~= window);
    }
}

/// A pattern cannot begin inside a prefix that nowhere holds the
/// pattern's first character: where it stands in `prefix`, `rest`, it
/// stands in `rest`.
pub proof fn lemma_occurrence_past_prefix(
    prefix: Seq<char>,
    rest: Seq<char>,
    pattern: Seq<char>,
    i: int,
)
    requires
        occurs_at(prefix + rest, pattern, i),
        pattern.len() > 0,
        forall|k: int| 0 <= k < prefix.len() ==> prefix[k] != pattern[0],
    ensures
        i >= prefix.len(),
        occurs_at(rest, pattern, i - prefix.len()),
{
    let whole = prefix + rest;
    let window = whole.subrange(i, i + pattern.len());
    if i < prefix.len() {
        // The prefix would hold the pattern's first character.
        assert(window[0] == whole[i]);
    }
    assert(rest.subrange(i - prefix.len(), i - prefix.len() + pattern.len()) =~= window);
}

/// The first position at or after `i` that is not marked, or the number of
/// marks if there is none.
pub open spec fn skip_marked(marks: Seq<bool>, i: int) -> int
    decreases marks.len() - i,
{
    if 0 <= i < marks.len() && marks[i] {
        skip_marked(marks, i + 1)
    } else {
        i
    }
}

/// The least `k <= j` with every position from `k` up to `j` marked.
pub open spec fn skip_marked_back(marks: Seq<bool>, j: int) -> int
    decreases j,
{
    if 0 < j <= marks.len() && marks[j - 1] {
        skip_marked_back(marks, j - 1)
    } else {
        j
    }
}

/// The positions that are left when the marked ones at both ends are cut
/// off: from the first component up to, not including, the second. Where
/// every position is marked nothing is left, and both components are the
/// number of marks.
pub open spec fn unmarked_range(marks: Seq<bool>) -> (int, int) {
    let from = skip_marked(marks, 0);
    let to = skip_marked_back(marks, marks.len() as int);
    if from < to {
        (from, to)
    } else {
        (from, from)
    }
}

/// For each character of `s`, whether it is white space.
pub open spec fn white_marks(s: Seq<char>) -> Seq<bool> {
    Seq::new(s.len(), |i: int| white_space(s[i]))
}

/// `s` without the white space at its two ends.
pub open spec fn trimmed(s: Seq<char>) -> Seq<char> {
    let range = unmarked_range(white_marks(s));
    s.subrange(range.0, range.1)
}

/// Walking on from `i` passes marked positions only, and ends at the end
/// or at a position that is not marked.
pub proof fn lemma_skip_marked(marks: Seq<bool>, i: int)
    requires
        0 <= i <= marks.len(),
    ensures
        i <= skip_marked(marks, i) <= marks.len(),
        forall|k: int| i <= k < skip_marked(marks, i) ==> marks[k],
        skip_marked(marks, i) < marks.len() ==> !marks[skip_marked(marks, i)],
    decreases marks.len() - i,
{
    if i < marks.len() && marks[i] {
        lemma_skip_marked(marks, i + 1);
    }
}

/// Walking back from `j` passes marked positions only, and ends at the
/// beginning or just after a position that is not marked.
pub proof fn lemma_skip_marked_back(marks: Seq<bool>, j: int)
    requires
        0 <= j <= marks.len(),
    ensures
        0 <= skip_marked_back(marks, j) <= j,
        forall|k: int| skip_marked_back(marks, j) <= k < j ==> marks[k],
        skip_marked_back(marks, j) > 0 ==> !marks[skip_marked_back(marks, j) - 1],
    decreases j,
{
    if 0 < j && marks[j - 1] {
        lemma_skip_marked_back(marks, j - 1);
    }
}

/// What `unmarked_range` cuts off is marked, and what it leaves neither
/// begins nor ends with a marked position.
pub proof fn lemma_unmarked_range(marks: Seq<bool>)
    ensures
        ({
            let (from, to) = unmarked_range(marks);
            &&& 0 <= from <= to <= marks.len()
            &&& forall|k: int| 0 <= k < from ==> marks[k]
            &&& forall|k: int| to <= k < marks.len() ==> marks[k]
            &&& from < to ==> !marks[from] && !marks[to - 1]
        }),
{
    lemma_skip_marked(marks, 0);
    lemma_skip_marked_back(marks, marks.len() as int);
}

/// Trimming takes white space from the two ends and nothing else: `s` is
/// white space, then `trimmed(s)`, then white space, and `trimmed(s)`
/// neither begins nor ends with white space.
pub proof fn lemma_trimmed(s: Seq<char>)
    ensures
        ({
            let (from, to) = unmarked_range(white_marks(s));
            &&& 0 <= from <= to <= s.len()
            &&& s == s.subrange(0, from) + trimmed(s) + s.subrange(to, s.len() as int)
            &&& forall|k: int| 0 <= k < from ==> white_space(s[k])
            &&& forall|k: int| to <= k < s.len() ==> white_space(s[k])
            &&& trimmed(s).len() > 0 ==> !white_space(trimmed(s).first()) && !white_space(
                trimmed(s).last(),
            )
        }),
{
    let marks = white_marks(s);
    lemma_unmarked_range(marks);
    let (from, to) = unmarked_range(marks);
    assert(s =~= s.subrange(0, from) + trimmed(s) + s.subrange(to, s.len() as int));
    assert forall|k: int| 0 <= k < from implies white_space(s[k]) by {
        assert(marks[k]);
    }
    assert forall|k: int| to <= k < s.len() implies white_space(s[k]) by {
        assert(marks[k]);
    }
    if from < to {
        assert(!marks[from] && !marks[to - 1]);
    }
}

/// Walking on from `i` ends at `stop` if every position between is marked
/// and `stop` is the end or not marked.
pub proof fn lemma_skip_marked_to(marks: Seq<bool>, i: int, stop: int)
    requires
        0 <= i <= stop <= marks.len(),
        forall|k: int| i <= k < stop ==> marks[k],
        stop == marks.len() || !marks[stop],
    ensures
        skip_marked(marks, i) == stop,
    decreases stop - i,
{
    if i < stop {
        lemma_skip_marked_to(marks, i + 1, stop);
    }
}

/// Walking back from `j` ends at `stop` if every position between is
/// marked and `stop` is the beginning or follows a position that is not
/// marked.
pub proof fn lemma_skip_marked_back_to(marks: Seq<bool>, j: int, stop: int)
    requires
        0 <= stop <= j <= marks.len(),
        forall|k: int| stop <= k < j ==> marks[k],
        stop == 0 || !marks[stop - 1],
    ensures
        skip_marked_back(marks, j) == stop,
    decreases j - stop,
{
    if stop < j {
        lemma_skip_marked_back_to(marks, j - 1, stop);
    }
}

/// What trimming leaves of a given text: where `s` is white space up to
/// `from` and from `to` on, and what stands between neither begins nor
/// ends with white space, that is what is left.
pub proof fn lemma_trimmed_is(s: Seq<char>, from: int, to: int)
    requires
        0 <= from <= to <= s.len(),
        forall|k: int| 0 <= k < from ==> white_space(s[k]),
        forall|k: int| to <= k < s.len() ==> white_space(s[k]),
        from < to ==> !white_space(s[from]) && !white_space(s[to - 1]),
    ensures
        trimmed(s) == s.subrange(from, to),
{
    let marks = white_marks(s);
    if from < to {
        lemma_skip_marked_to(marks, 0, from);
        lemma_skip_marked_back_to(marks, s.len() as int, to);
    } else {
        lemma_skip_marked_to(marks, 0, s.len() as int);
        lemma_skip_marked_back(marks, s.len() as int);
        assert(trimmed(s) =~= s.subrange(from, to));
    }
}

/// Finds what is left of a run of positions when the marked ones at both
/// ends are cut off.
pub fn unmarked_bounds(marks: &Vec<bool>) -> (bounds: (usize, usize))
    ensures
        (bounds.0 as int, bounds.1 as int) == unmarked_range(marks@),
        bounds.0 <= bounds.1 <= marks.len(),
{
    let n = marks.len();
    let mut from: usize = 0;
    while from < n && marks[from]
        invariant
            from <= n,
            n == marks.len(),
            skip_marked(marks@, from as int) == skip_marked(marks@, 0),
        decreases n - from,
    {
        from = from + 1;
    }
    let mut to: usize = n;
    while to > from && marks[to - 1]
        invariant
            from <= to <= n,
            n == marks.len(),
            skip_marked_back(marks@, to as int) == skip_marked_back(marks@, n as int),
        decreases to,
    {
        to = to - 1;
    }
    proof {
        if from == to {
            lemma_skip_marked_back(marks@, to as int);
        }
    }
    (from, to)
}

fn mark_white_space(chars: &Vec<char>) -> (marks: Vec<bool>)
    ensures
        marks@ == white_marks(chars@),
{
    let mut marks: Vec<bool> = Vec::new();
    let mut i: usize = 0;
    while i < chars.len()
        invariant
            i <= chars.len(),
            marks@ == white_marks(chars@).take(i as int),
        decreases chars.len() - i,
    {
        marks.push(is_white_space(chars[i]));
        i = i + 1;
    }
    marks
}

/// Removes the white space at both ends of `s`.
pub fn trim(s: &str) -> (t: &str)
    ensures
        t@ == trimmed(s@),
{
    let chars = chars_of(s);
    let marks = mark_white_space(&chars);
    let (from, to) = unmarked_bounds(&marks);
    s.substring_char(from, to)
}

/// The first position at or after `i` that does not hold `c`, or the
/// length of `s` if there is none.
pub open spec fn skip_char(s: Seq<char>, c: char, i: int) -> int
    decreases s.len() - i,
{
    if 0 <= i < s.len() && s[i] == c {
        skip_char(s, c, i + 1)
    } else {
        i
    }
}

/// `s` without the run of `c` that it starts with.
pub open spec fn without_leading(s: Seq<char>, c: char) -> Seq<char> {
    s.subrange(skip_char(s, c, 0), s.len() as int)
}

/// Removes every `c` that `s` starts with.
pub fn strip_leading(s: &str, c: char) -> (t: &str)
    ensures
        t@ == without_leading(s@, c),
{
    let chars = chars_of(s);
    let n = chars.len();
    let mut from: usize = 0;
    while from < n && chars[from] == c
        invariant
            from <= n,
            n == chars.len(),
            chars@ == s@,
            skip_char(s@, c, from as int) == skip_char(s@, c, 0),
        decreases n - from,
    {
        from = from + 1;
    }
    s.substring_char(from, n)
}

/// The parts one after the other, with `sep` between each two.
pub open spec fn joined(parts: Seq<Seq<char>>, sep: Seq<char>) -> Seq<char>
    decreases parts.len(),
{
    if parts.len() == 0 {
        Seq::empty()
    } else if parts.len() == 1 {
        parts[0]
    } else {
        joined(parts.drop_last(), sep) + sep + parts.last()
    }
}

/// Joins the parts into one string, with `sep` between each two.
pub fn join(parts: &Vec<String>, sep: &str) -> (text: String)
    ensures
        text@ == joined(parts.deep_view(), sep@),
{
    let mut text = String::new();
    let mut i: usize = 0;
    while i < parts.len()
        invariant
            i <= parts.len(),
            text@ == joined(parts.deep_view().take(i as int), sep@),
        decreases parts.len() - i,
    {
        if i > 0 {
            text.append(sep);
        }
        text.append(parts[i].as_str());
        proof {
            let before = parts.deep_view().take(i as int);
            let after = parts.deep_view().take(i + 1);
            assert(after.drop_last() =~= before);
        }
        i = i + 1;
    }
    assert(parts.deep_view().take(parts.len() as int) =~= parts.deep_view());
    text
}

/// Every part stands in what the parts are joined to.
pub proof fn lemma_joined_holds_each_part(parts: Seq<Seq<char>>, sep: Seq<char>, k: int)
    requires
        0 <= k < parts.len(),
    ensures
        has_occurrence(joined(parts, sep), parts[k]),
    decreases parts.len(),
{
    let whole = joined(parts, sep);
    if parts.len() == 1 {
        assert(whole.subrange(0, whole.len() as int) =~= whole);
        assert(occurs_at(whole, parts[k], 0));
    } else {
        let earlier = joined(parts.drop_last(), sep);
        if k == parts.len() - 1 {
            let last = parts.last();
            assert(last.subrange(0, last.len() as int) =~= last);
            lemma_occurrence_shifts(earlier + sep, last, last, 0);
        } else {
            lemma_joined_holds_each_part(parts.drop_last(), sep, k);
            let at = choose|i: int| occurs_at(earlier, parts.drop_last()[k], i);
            lemma_occurrence_extends(earlier, sep + parts.last(), parts[k], at);
            assert(whole =~= earlier + (sep + parts.last()));
        }
    }
}

} // verus!
