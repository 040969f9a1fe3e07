//! The grammar of placeholders, and the scanner that finds them.

use crate::gpu_status::fields::{
    field_result_is, spec_field, Field, FormatSegments, Segments, UnitParseError,
};
use crate::text::{is_digit, string_of};
use vstd::prelude::*;
use vstd::string::*;

verus! {

/// Whether `c` may stand in a name or a unit: an ASCII letter, an ASCII digit
/// or an underscore.
pub open spec fn is_word(c: char) -> bool {
    ('a' <= c <= 'z') || ('A' <= c <= 'Z') || is_digit(c) || c == '_'
}

/// Whether `c` belongs to the class of characters that a run is made of: the
/// digits where `digits` is set, else the word characters.
pub open spec fn in_class(c: char, digits: bool) -> bool {
    if digits {
        is_digit(c)
    } else {
        is_word(c)
    }
}

/// The length of the longest run of characters of one class that starts at
/// index `i` of `s`.
pub open spec fn run_len(s: Seq<char>, i: int, digits: bool) -> nat
    decreases s.len() - i,
{
    if 0 <= i < s.len() && in_class(s[i], digits) {
        1 + run_len(s, i + 1, digits)
    } else {
        0
    }
}

/// A placeholder found in a template: its length, braces included, and the
/// parts of its text.
pub struct Placeholder {
    pub len: nat,
    pub segments: Segments,
}

/// The placeholder that starts at index `i` of `s`, if one does.
///
/// A placeholder is `{name}`, `{name:unit}` or `{name:unit.precision}`: name
/// and unit are non-empty runs of word characters, the precision a non-empty
/// run of digits, and nothing else stands between the braces.
pub open spec fn placeholder_at(s: Seq<char>, i: int) -> Option<Placeholder> {
    if !(0 <= i < s.len() && s[i] == '{') {
        None
    } else {
        let n = run_len(s, i + 1, false);
        let a = i + 1 + n;
        if n == 0 || a >= s.len() {
            None
        } else if s[a] == '}' {
            Some(
                Placeholder {
                    len: n + 2,
                    segments: Segments { field: s.subrange(i + 1, a), unit: None, precision: None },
                },
            )
        } else if s[a] != ':' {
            None
        } else {
            let u = run_len(s, a + 1, false);
            let b = a + 1 + u;
            if u == 0 || b >= s.len() {
                None
            } else if s[b] == '}' {
                Some(
                    Placeholder {
                        len: n + u + 3,
                        segments: Segments {
                            field: s.subrange(i + 1, a),
                            unit: Some(s.subrange(a + 1, b)),
                            precision: None,
                        },
                    },
                )
            } else if s[b] != '.' {
                None
            } else {
                let d = run_len(s, b + 1, true);
                let c = b + 1 + d;
                if d == 0 || c >= s.len() || s[c] != '}' {
                    None
                } else {
                    Some(
                        Placeholder {
                            len: n + u + d + 4,
                            segments: Segments {
                                field: s.subrange(i + 1, a),
                                unit: Some(s.subrange(a + 1, b)),
                                precision: Some(s.subrange(b + 1, c)),
                            },
                        },
                    )
                }
            }
        }
    }
}

/// A run that is known from both ends has the length between them.
proof fn lemma_run_len(s: Seq<char>, from: int, to: int, digits: bool)
    requires
        0 <= from <= to <= s.len(),
        forall|k: int| from <= k < to ==> in_class(#[trigger] s[k], digits),
        to < s.len() ==> !in_class(s[to], digits),
    ensures
        run_len(s, from, digits) == to - from,
    decreases to - from,
{
    if from < to {
        lemma_run_len(s, from + 1, to, digits);
    }
}

/// The index at which the run of one class that starts at `from` ends.
fn scan_run(v: &Vec<char>, from: usize, digits: bool) -> (to: usize)
    requires
        from <= v.len(),
    ensures
        to == from + run_len(v@, from as int, digits),
        from <= to <= v.len(),
{
    let mut i: usize = from;
    while i < v.len() && in_class_exec(v[i], digits)
        invariant
            from <= i <= v.len(),
            forall|k: int| from <= k < i ==> in_class(#[trigger] v@[k], digits),
        decreases v.len() - i,
    {
        i += 1;
    }
    proof {
        lemma_run_len(v@, from as int, i as int, digits);
    }
    i
}

fn in_class_exec(c: char, digits: bool) -> (r: bool)
    ensures
        r == in_class(c, digits),
{
    if digits {
        '0' <= c && c <= '9'
    } else {
        ('a' <= c && c <= 'z') || ('A' <= c && c <= 'Z') || ('0' <= c && c <= '9') || c == '_'
    }
}

/// Where the parts of a placeholder end. The name starts behind the opening
/// brace; the unit and the precision, where there are any, start one behind
/// the colon and the dot.
pub(crate) struct Span {
    pub(crate) name_end: usize,
    pub(crate) unit_end: Option<usize>,
    pub(crate) precision_end: Option<usize>,
}

impl Span {
    /// The index behind the closing brace.
    pub(crate) fn end_index(&self) -> (r: usize)
        requires
            self.name_end < usize::MAX,
            self.unit_end matches Some(b) ==> b < usize::MAX,
            self.precision_end matches Some(c) ==> c < usize::MAX,
        ensures
            r == self.end(),
    {
        match (self.unit_end, self.precision_end) {
            (Some(_), Some(c)) => c + 1,
            (Some(b), None) => b + 1,
            _ => self.name_end + 1,
        }
    }

    /// The index behind the closing brace.
    pub(crate) open spec fn end(self) -> int {
        match (self.unit_end, self.precision_end) {
            (Some(_), Some(c)) => c + 1,
            (Some(b), None) => b + 1,
            _ => self.name_end + 1,
        }
    }

    /// The placeholder that a span at index `i` of `s` marks.
    pub(crate) open spec fn placeholder(self, s: Seq<char>, i: int) -> Placeholder {
        Placeholder {
            len: (self.end() - i) as nat,
            segments: Segments {
                field: s.subrange(i + 1, self.name_end as int),
                unit: match self.unit_end {
                    Some(b) => Some(s.subrange(self.name_end + 1, b as int)),
                    None => None,
                },
                precision: match (self.unit_end, self.precision_end) {
                    (Some(b), Some(c)) => Some(s.subrange(b + 1, c as int)),
                    _ => None,
                },
            },
        }
    }

    pub(crate) open spec fn wf(self, s: Seq<char>, i: int) -> bool {
        &&& i + 1 < self.name_end < s.len()
        &&& match self.unit_end {
            Some(b) => self.name_end + 1 < b < s.len(),
            None => self.precision_end.is_none(),
        }
        &&& match (self.unit_end, self.precision_end) {
            (Some(b), Some(c)) => b + 1 < c < s.len(),
            _ => true,
        }
    }
}

/// The placeholder that starts at index `i`, if one does.
pub(crate) fn match_placeholder(v: &Vec<char>, i: usize) -> (r: Option<Span>)
    requires
        i < v.len(),
    ensures
        match r {
            Some(span) => span.wf(v@, i as int) && placeholder_at(v@, i as int) == Some(
                span.placeholder(v@, i as int),
            ),
            None => placeholder_at(v@, i as int).is_none(),
        },
{
    let n = v.len();
    if v[i] != '{' {
        return None;
    }
    let a = scan_run(v, i + 1, false);
    if a == i + 1 || a >= n {
        return None;
    }
    if v[a] == '}' {
        return Some(Span { name_end: a, unit_end: None, precision_end: None });
    }
    if v[a] != ':' {
        return None;
    }
    let b = scan_run(v, a + 1, false);
    if b == a + 1 || b >= n {
        return None;
    }
    if v[b] == '}' {
        return Some(Span { name_end: a, unit_end: Some(b), precision_end: None });
    }
    if v[b] != '.' {
        return None;
    }
    let c = scan_run(v, b + 1, true);
    if c == b + 1 || c >= n || v[c] != '}' {
        return None;
    }
    Some(Span { name_end: a, unit_end: Some(b), precision_end: Some(c) })
}

/// The field that the placeholder at index `i` names.
pub(crate) fn field_at(v: &Vec<char>, i: usize, span: &Span) -> (r: Result<Field, UnitParseError>)
    requires
        span.wf(v@, i as int),
    ensures
        field_result_is(r, spec_field(span.placeholder(v@, i as int).segments)),
{
    let name = string_of(v, i + 1, span.name_end);
    match span.unit_end {
        None => Field::from_segments(
            FormatSegments { field: name.as_str(), unit: None, precision: None },
        ),
        Some(b) => {
            let unit = string_of(v, span.name_end + 1, b);
            match span.precision_end {
                None => Field::from_segments(
                    FormatSegments { field: name.as_str(), unit: Some(unit.as_str()), precision: None },
                ),
                Some(c) => {
                    let precision = string_of(v, b + 1, c);
                    Field::from_segments(
                        FormatSegments {
                            field: name.as_str(),
                            unit: Some(unit.as_str()),
                            precision: Some(precision.as_str()),
                        },
                    )
                },
            }
        },
    }
}

/// A run ends inside the text, or at its end.
pub proof fn lemma_run_len_bound(s: Seq<char>, i: int, digits: bool)
    requires
        0 <= i <= s.len(),
    ensures
        i + run_len(s, i, digits) <= s.len(),
    decreases s.len() - i,
{
    if i < s.len() && in_class(s[i], digits) {
        lemma_run_len_bound(s, i + 1, digits);
    }
}

/// A run that starts in a text which ends with a line feed ends before that
/// line feed, whatever follows the text.
pub proof fn lemma_run_len_prefix(a: Seq<char>, b: Seq<char>, i: int, digits: bool)
    requires
        a.len() > 0,
        a.last() == '\n',
        0 <= i < a.len(),
    ensures
        run_len(a + b, i, digits) == run_len(a, i, digits),
        i + run_len(a, i, digits) < a.len(),
    decreases a.len() - i,
{
    assert((a + b)[i] == a[i]);
    if in_class(a[i], digits) {
        lemma_run_len_prefix(a, b, i + 1, digits);
    }
}

/// A run in the second of two texts is the same run in both together.
pub proof fn lemma_run_len_shift(a: Seq<char>, b: Seq<char>, k: int, digits: bool)
    requires
        0 <= k,
    ensures
        run_len(a + b, a.len() + k, digits) == run_len(b, k, digits),
    decreases b.len() - k,
{
    if k < b.len() {
        assert((a + b)[a.len() + k] == b[k]);
        if in_class(b[k], digits) {
            lemma_run_len_shift(a, b, k + 1, digits);
        }
    }
}

/// A placeholder never reaches across a line feed: one that starts in a text
/// which ends with a line feed is the same, and ends in that text, whatever
/// follows.
pub proof fn lemma_placeholder_prefix(a: Seq<char>, b: Seq<char>, i: int)
    requires
        a.len() > 0,
        a.last() == '\n',
        0 <= i < a.len(),
    ensures
        placeholder_at(a + b, i) == placeholder_at(a, i),
        placeholder_at(a, i) matches Some(ph) ==> i + ph.len <= a.len(),
{
    let s = a + b;
    assert(s[i] == a[i]);
    if a[i] == '{' {
        lemma_run_len_prefix(a, b, i + 1, false);
        let n = run_len(a, i + 1, false);
        let x = i + 1 + n;
        assert(s[x] == a[x]);
        assert(s.subrange(i + 1, x) =~= a.subrange(i + 1, x));
        if n != 0 && a[x] == ':' {
            lemma_run_len_prefix(a, b, x + 1, false);
            let u = run_len(a, x + 1, false);
            let y = x + 1 + u;
            assert(s[y] == a[y]);
            assert(s.subrange(x + 1, y) =~= a.subrange(x + 1, y));
            if u != 0 && a[y] == '.' {
                lemma_run_len_prefix(a, b, y + 1, true);
                let d = run_len(a, y + 1, true);
                let z = y + 1 + d;
                assert(s[z] == a[z]);
                assert(s.subrange(y + 1, z) =~= a.subrange(y + 1, z));
            }
        }
    }
}

/// A placeholder in the second of two texts is the same placeholder in both
/// together.
pub proof fn lemma_placeholder_shift(a: Seq<char>, b: Seq<char>, k: int)
    requires
        0 <= k,
    ensures
        placeholder_at(a + b, a.len() + k) == placeholder_at(b, k),
{
    let s = a + b;
    let m = a.len() as int;
    if k < b.len() {
        assert(s[m + k] == b[k]);
        if b[k] == '{' {
            lemma_run_len_shift(a, b, k + 1, false);
            lemma_run_len_bound(b, k + 1, false);
            let n = run_len(b, k + 1, false);
            let x = k + 1 + n;
            assert(s.subrange(m + k + 1, m + x) =~= b.subrange(k + 1, x));
            if n != 0 && x < b.len() {
                assert(s[m + x] == b[x]);
                if b[x] == ':' {
                    lemma_run_len_shift(a, b, x + 1, false);
                    lemma_run_len_bound(b, x + 1, false);
                    let u = run_len(b, x + 1, false);
                    let y = x + 1 + u;
                    assert(s.subrange(m + x + 1, m + y) =~= b.subrange(x + 1, y));
                    if u != 0 && y < b.len() {
                        assert(s[m + y] == b[y]);
                        if b[y] == '.' {
                            lemma_run_len_shift(a, b, y + 1, true);
                            lemma_run_len_bound(b, y + 1, true);
                            let d = run_len(b, y + 1, true);
                            let z = y + 1 + d;
                            assert(s.subrange(m + y + 1, m + z) =~= b.subrange(y + 1, z));
                            if d != 0 && z < b.len() {
                                assert(s[m + z] == b[z]);
                            }
                        }
                    }
                }
            }
        }
    }
}

} // verus!
