//! Character-level helpers on `str` and `String`.

use vstd::prelude::*;
use vstd::std_specs::iter::IteratorSpec;
use vstd::string::*;

verus! {

/// `String::push` of std, taken on trust: it appends the character to the end
/// of the string and changes nothing else.
pub assume_specification[ String::push ](s: &mut String, ch: char)
    ensures
        final(s)@ == old(s)@.push(ch),
;

/// `String::pop` of std, taken on trust: it removes the last character and
/// returns it, or returns `None` and leaves the string alone when it is empty.
pub assume_specification[ String::pop ](s: &mut String) -> (r: Option<char>)
    ensures
        old(s)@.len() == 0 ==> r.is_none() && final(s)@ == old(s)@,
        old(s)@.len() > 0 ==> r == Some(old(s)@.last()) && final(s)@ == old(s)@.drop_last(),
;

/// `String::clear` of std, taken on trust: it leaves the string empty.
pub assume_specification[ String::clear ](s: &mut String)
    ensures
        final(s)@ == Seq::<char>::empty(),
;

/// The characters of `s`, in order.
pub fn chars_of(s: &str) -> (v: Vec<char>)
    ensures
        v@ == s@,
{
    let mut v: Vec<char> = Vec::new();
    for c in it: s.chars()
        invariant
            it.seq() == s@,
            v@ == s@.take(it.index() as int),
    {
        v.push(c);
    }
    assert(s@.take(s@.len() as int) == s@);
    v
}

/// The index of the first occurrence of `c` in `s`, or `s.len()` when `c` does
/// not occur.
pub open spec fn position(s: Seq<char>, c: char) -> int
    decreases s.len(),
{
    if s.len() == 0 || s[0] == c {
        0
    } else {
        1 + position(s.drop_first(), c)
    }
}

/// `position` is a valid index or the length; it points at `c` when it is an
/// index, and nothing before it is `c`.
pub proof fn lemma_position(s: Seq<char>, c: char)
    ensures
        0 <= position(s, c) <= s.len(),
        position(s, c) < s.len() ==> s[position(s, c)] == c,
        forall|k: int| 0 <= k < position(s, c) ==> s[k] != c,
    decreases s.len(),
{
    if s.len() == 0 || s[0] == c {
    } else {
        let t = s.drop_first();
        lemma_position(t, c);
        assert forall|k: int| 0 <= k < position(s, c) implies s[k] != c by {
            if k > 0 {
                assert(s[k] == t[k - 1]);
            }
        }
    }
}

/// An index that points at `c` (or is the length) with no `c` before it is the
/// position of `c`.
pub proof fn lemma_position_unique(s: Seq<char>, c: char, i: int)
    requires
        0 <= i <= s.len(),
        i < s.len() ==> s[i] == c,
        forall|k: int| 0 <= k < i ==> s[k] != c,
    ensures
        position(s, c) == i,
    decreases s.len(),
{
    if s.len() == 0 || s[0] == c {
    } else {
        let t = s.drop_first();
        assert forall|k: int| 0 <= k < i - 1 implies t[k] != c by {
            assert(t[k] == s[k + 1]);
        }
        lemma_position_unique(t, c, i - 1);
    }
}

/// The first index at or after `from` at which `v` holds `c`, or `v.len()`.
pub fn find_char(v: &Vec<char>, from: usize, c: char) -> (i: usize)
    requires
        from <= v.len(),
    ensures
        i == from + position(v@.skip(from as int), c),
        from <= i <= v.len(),
{
    let mut i: usize = from;
    while i < v.len() && v[i] != c
        invariant
            from <= i <= v.len(),
            forall|k: int| from <= k < i ==> v@[k] != c,
        decreases v.len() - i,
    {
        i += 1;
    }
    proof {
        let t = v@.skip(from as int);
        assert forall|k: int| 0 <= k < i - from implies t[k] != c by {
            assert(t[k] == v@[from + k]);
        }
        lemma_position_unique(t, c, i - from);
    }
    i
}

/// Whether two strings hold the same characters.
pub fn str_eq(a: &str, b: &str) -> (r: bool)
    ensures
        r == (a@ == b@),
{
    let x = chars_of(a);
    let y = chars_of(b);
    if x.len() != y.len() {
        return false;
    }
    let mut i: usize = 0;
    while i < x.len()
        invariant
            x.len() == y.len(),
            x@ == a@,
            y@ == b@,
            i <= x.len(),
            forall|k: int| 0 <= k < i ==> x@[k] == y@[k],
        decreases x.len() - i,
    {
        if x[i] != y[i] {
            return false;
        }
        i += 1;
    }
    assert(x@ =~= y@);
    true
}

/// Appends the characters `v[from..to]` to `buf`.
pub fn push_chars(buf: &mut String, v: &Vec<char>, from: usize, to: usize)
    requires
        from <= to <= v.len(),
    ensures
        final(buf)@ == old(buf)@ + v@.subrange(from as int, to as int),
{
    let mut i: usize = from;
    while i < to
        invariant
            from <= i <= to <= v.len(),
            buf@ == old(buf)@ + v@.subrange(from as int, i as int),
        decreases to - i,
    {
        buf.push(v[i]);
        i += 1;
        assert(buf@ =~= old(buf)@ + v@.subrange(from as int, i as int));
    }
}

/// A new string holding the characters `v[from..to]`.
pub fn string_of(v: &Vec<char>, from: usize, to: usize) -> (s: String)
    requires
        from <= to <= v.len(),
    ensures
        s@ == v@.subrange(from as int, to as int),
{
    let mut s = String::new();
    push_chars(&mut s, v, from, to);
    assert(s@ =~= v@.subrange(from as int, to as int));
    s
}

/// Whether `c` is one of the ASCII digits `0` to `9`.
pub open spec fn is_digit(c: char) -> bool {
    '0' <= c <= '9'
}

/// Whether every character of `s` is an ASCII digit.
pub open spec fn all_digits(s: Seq<char>) -> bool {
    forall|i: int| 0 <= i < s.len() ==> is_digit(#[trigger] s[i])
}

/// The number that the decimal digits `s` write, most significant first.
pub open spec fn digits_value(s: Seq<char>) -> nat
    decreases s.len(),
{
    if s.len() == 0 {
        0
    } else {
        (digits_value(s.drop_last()) * 10 + (s.last() as int - '0' as int)) as nat
    }
}

/// What a string of an unsigned number means, for numbers up to `max`: an
/// optional `+`, then at least one ASCII digit and nothing else, with a value
/// of at most `max`.
pub open spec fn bounded_of(s: Seq<char>, max: nat) -> Option<nat> {
    let body = if s.len() > 0 && s[0] == '+' {
        s.drop_first()
    } else {
        s
    };
    digits_of(body, max)
}

/// What a string of digits means: at least one ASCII digit and nothing else,
/// with a value of at most `max`.
pub open spec fn digits_of(body: Seq<char>, max: nat) -> Option<nat> {
    if body.len() > 0 && all_digits(body) && digits_value(body) <= max {
        Some(digits_value(body))
    } else {
        None
    }
}

/// What a string of an unsigned number means, for numbers that fit in
/// `usize`.
pub open spec fn unsigned_of(s: Seq<char>) -> Option<usize> {
    match bounded_of(s, usize::MAX as nat) {
        Some(n) => Some(n as usize),
        None => None,
    }
}

/// The value of a prefix of a digit string never exceeds the value of the whole.
pub proof fn lemma_digits_value_prefix(s: Seq<char>, k: int)
    requires
        all_digits(s),
        0 <= k <= s.len(),
    ensures
        digits_value(s.take(k)) <= digits_value(s),
    decreases s.len() - k,
{
    if k == s.len() {
        assert(s.take(k) =~= s);
    } else {
        let t = s.drop_last();
        assert(is_digit(s.last()));
        assert forall|i: int| 0 <= i < t.len() implies is_digit(#[trigger] t[i]) by {
            assert(t[i] == s[i]);
        }
        if k == t.len() {
            assert(s.take(k) =~= t);
        } else {
            lemma_digits_value_prefix(t, k);
            assert(t.take(k) =~= s.take(k));
        }
    }
}

/// Reads an unsigned decimal number of at most `max`, as `str::parse` does
/// for an unsigned type with that maximum.
pub fn parse_bounded(s: &str, max: u64) -> (r: Option<u64>)
    ensures
        match r {
            Some(n) => bounded_of(s@, max as nat) == Some(n as nat),
            None => bounded_of(s@, max as nat).is_none(),
        },
{
    let v = chars_of(s);
    let start: usize = if v.len() > 0 && v[0] == '+' {
        1
    } else {
        0
    };
    let ghost body = v@.skip(start as int);
    assert(body =~= if s@.len() > 0 && s@[0] == '+' {
        s@.drop_first()
    } else {
        s@
    });
    if start == v.len() {
        return None;
    }
    let mut n: u64 = 0;
    let mut i: usize = start;
    assert(body.take(0) =~= Seq::<char>::empty());
    while i < v.len()
        invariant
            start <= i <= v.len(),
            body == v@.skip(start as int),
            body.len() > 0,
            bounded_of(s@, max as nat) == digits_of(body, max as nat),
            all_digits(body.take(i - start)),
            n == digits_value(body.take(i - start)),
            n <= max,
        decreases v.len() - i,
    {
        let c = v[i];
        let ghost next = body.take(i + 1 - start);
        assert(next.drop_last() =~= body.take(i - start));
        assert(next.last() == c);
        if c < '0' || c > '9' {
            assert(!is_digit(body[i - start]));
            return None;
        }
        let d: u64 = (c as u32 - '0' as u32) as u64;
        assert forall|k: int| 0 <= k < next.len() implies is_digit(#[trigger] next[k]) by {
            if k < next.len() - 1 {
                assert(next[k] == body.take(i - start)[k]);
            }
        }
        if d > max || n > (max - d) / 10 {
            proof {
                if all_digits(body) {
                    lemma_digits_value_prefix(body, i + 1 - start);
                }
            }
            return None;
        }
        n = n * 10 + d;
        i += 1;
    }
    assert(body.take(i - start) =~= body);
    Some(n)
}

/// Reads an unsigned decimal number, as `str::parse::<usize>` does.
pub fn parse_unsigned(s: &str) -> (r: Option<usize>)
    ensures
        r == unsigned_of(s@),
{
    match parse_bounded(s, usize::MAX as u64) {
        Some(n) => Some(n as usize),
        None => None,
    }
}

/// Whether `s` starts with `pattern`.
pub open spec fn starts_with(s: Seq<char>, pattern: Seq<char>) -> bool {
    pattern.len() <= s.len() && s.take(pattern.len() as int) == pattern
}

/// Whether `pattern` occurs in `s`.
pub open spec fn contains_text(s: Seq<char>, pattern: Seq<char>) -> bool {
    exists|i: int| 0 <= i <= s.len() && #[trigger] starts_with(s.skip(i), pattern)
}

/// Whether `v` holds `pattern` at index `i`.
pub fn has_at(v: &Vec<char>, i: usize, pattern: &Vec<char>) -> (r: bool)
    requires
        i <= v.len(),
    ensures
        r == starts_with(v@.skip(i as int), pattern@),
{
    if pattern.len() > v.len() - i {
        return false;
    }
    let ghost rest = v@.skip(i as int);
    let mut k: usize = 0;
    while k < pattern.len()
        invariant
            i <= v.len(),
            pattern.len() <= v.len() - i,
            k <= pattern.len(),
            rest == v@.skip(i as int),
            forall|j: int| 0 <= j < k ==> rest[j] == pattern@[j],
        decreases pattern.len() - k,
    {
        if v[i + k] != pattern[k] {
            assert(rest.take(pattern.len() as int)[k as int] == rest[k as int]);
            return false;
        }
        k += 1;
    }
    assert(rest.take(pattern.len() as int) =~= pattern@);
    true
}

/// Whether `s` starts with `pattern`.
pub fn str_starts_with(s: &str, pattern: &str) -> (r: bool)
    ensures
        r == starts_with(s@, pattern@),
{
    let v = chars_of(s);
    let p = chars_of(pattern);
    assert(v@.skip(0) =~= v@);
    has_at(&v, 0, &p)
}

/// Whether `pattern` occurs in `s`.
pub fn str_contains(s: &str, pattern: &str) -> (r: bool)
    ensures
        r == contains_text(s@, pattern@),
{
    let v = chars_of(s);
    let p = chars_of(pattern);
    let mut i: usize = 0;
    while i < v.len()
        invariant
            i <= v.len(),
            v@ == s@,
            p@ == pattern@,
            forall|j: int| 0 <= j < i ==> !starts_with(v@.skip(j), p@),
        decreases v.len() - i,
    {
        if has_at(&v, i, &p) {
            return true;
        }
        i += 1;
    }
    has_at(&v, i, &p)
}

/// Whether `c` is white space, as `char::is_whitespace` has it: the
/// characters with the Unicode property `White_Space`.
pub open spec fn is_whitespace(c: char) -> bool {
    let v = c as u32;
    (0x09 <= v <= 0x0D) || v == 0x20 || v == 0x85 || v == 0xA0 || v == 0x1680 || (0x2000 <= v
        <= 0x200A) || v == 0x2028 || v == 0x2029 || v == 0x202F || v == 0x205F || v == 0x3000
}

/// Whether `c` is white space.
pub fn is_whitespace_exec(c: char) -> (r: bool)
    ensures
        r == is_whitespace(c),
{
    let v = c as u32;
    (0x09 <= v && v <= 0x0D) || v == 0x20 || v == 0x85 || v == 0xA0 || v == 0x1680 || (0x2000 <= v
        && v <= 0x200A) || v == 0x2028 || v == 0x2029 || v == 0x202F || v == 0x205F || v == 0x3000
}

/// The length of the longest run that starts at index `i` of `s` and is all
/// white space, where `white` is set, or holds none, where it is not.
pub open spec fn space_run(s: Seq<char>, i: int, white: bool) -> nat
    decreases s.len() - i,
{
    if 0 <= i < s.len() && is_whitespace(s[i]) == white {
        1 + space_run(s, i + 1, white)
    } else {
        0
    }
}

proof fn lemma_space_run(s: Seq<char>, from: int, to: int, white: bool)
    requires
        0 <= from <= to <= s.len(),
        forall|k: int| from <= k < to ==> is_whitespace(#[trigger] s[k]) == white,
        to < s.len() ==> is_whitespace(s[to]) != white,
    ensures
        space_run(s, from, white) == to - from,
    decreases to - from,
{
    if from < to {
        lemma_space_run(s, from + 1, to, white);
    }
}

/// The index at which the run of white space, or of what is none, that starts
/// at `from` ends.
pub fn skip_run(v: &Vec<char>, from: usize, white: bool) -> (to: usize)
    requires
        from <= v.len(),
    ensures
        to == from + space_run(v@, from as int, white),
        from <= to <= v.len(),
{
    let mut i: usize = from;
    while i < v.len() && is_whitespace_exec(v[i]) == white
        invariant
            from <= i <= v.len(),
            forall|k: int| from <= k < i ==> is_whitespace(#[trigger] v@[k]) == white,
        decreases v.len() - i,
    {
        i += 1;
    }
    proof {
        lemma_space_run(v@, from as int, i as int, white);
    }
    i
}

/// `s` without the white space at its start and at its end.
pub open spec fn spec_trim(s: Seq<char>) -> Seq<char>
    decreases s.len(),
{
    if s.len() > 0 && is_whitespace(s.last()) {
        spec_trim(s.drop_last())
    } else {
        s.skip(space_run(s, 0, true) as int)
    }
}

/// `s` without the white space at its start and at its end, as `str::trim`
/// gives it.
pub fn trim(s: &str) -> (r: String)
    ensures
        r@ == spec_trim(s@),
{
    let v = chars_of(s);
    let mut end: usize = v.len();
    assert(v@.take(end as int) =~= v@);
    while end > 0 && is_whitespace_exec(v[end - 1])
        invariant
            end <= v.len(),
            spec_trim(v@) == spec_trim(v@.take(end as int)),
        decreases end,
    {
        assert(v@.take(end as int).drop_last() =~= v@.take(end - 1));
        end -= 1;
    }
    let head = string_of(&v, 0, end);
    let hv = chars_of(head.as_str());
    assert(hv@ =~= v@.take(end as int));
    let start = skip_run(&hv, 0, true);
    let r = string_of(&hv, start, end);
    assert(r@ =~= hv@.skip(start as int));
    r
}

/// The index behind the word that starts at or after index `i` of `s`, white
/// space before it skipped.
pub open spec fn word_end(s: Seq<char>, i: int) -> int {
    let start = i + space_run(s, i, true);
    start + space_run(s, start, false)
}

/// The second of the words of `s` that white space separates, if there are
/// two.
pub open spec fn second_word(s: Seq<char>) -> Option<Seq<char>> {
    let first_end = word_end(s, 0);
    let start = first_end + space_run(s, first_end, true);
    if start < s.len() {
        Some(s.subrange(start, start + space_run(s, start, false)))
    } else {
        None
    }
}

/// The second of the words of `s` that white space separates, if there are
/// two.
pub fn second_word_of(s: &str) -> (r: Option<String>)
    ensures
        match r {
            Some(w) => second_word(s@) == Some(w@),
            None => second_word(s@).is_none(),
        },
{
    let v = chars_of(s);
    let a = skip_run(&v, 0, true);
    let b = skip_run(&v, a, false);
    let c = skip_run(&v, b, true);
    if c < v.len() {
        let d = skip_run(&v, c, false);
        Some(string_of(&v, c, d))
    } else {
        None
    }
}

/// The value of the hexadecimal digit `c`, in either case; none for another
/// character.
pub open spec fn hex_digit(c: char) -> Option<nat> {
    if '0' <= c <= '9' {
        Some((c as u32 - '0' as u32) as nat)
    } else if 'a' <= c <= 'f' {
        Some((c as u32 - 'a' as u32 + 10) as nat)
    } else if 'A' <= c <= 'F' {
        Some((c as u32 - 'A' as u32 + 10) as nat)
    } else {
        None
    }
}

/// Whether every character of `s` is a hexadecimal digit.
pub open spec fn all_hex(s: Seq<char>) -> bool {
    forall|i: int| 0 <= i < s.len() ==> hex_digit(#[trigger] s[i]).is_some()
}

/// The number that the hexadecimal digits `s` write, most significant first.
pub open spec fn hex_value(s: Seq<char>) -> nat
    decreases s.len(),
{
    if s.len() == 0 {
        0
    } else {
        hex_value(s.drop_last()) * 16 + match hex_digit(s.last()) {
            Some(d) => d,
            None => 0,
        }
    }
}

/// What a string of a 16-bit hexadecimal number means: an optional `+`, then
/// at least one hexadecimal digit and nothing else, with a value below 65536.
pub open spec fn hex_u16_of(s: Seq<char>) -> Option<u16> {
    let body = if s.len() > 0 && s[0] == '+' {
        s.drop_first()
    } else {
        s
    };
    if body.len() > 0 && all_hex(body) && hex_value(body) <= u16::MAX {
        Some(hex_value(body) as u16)
    } else {
        None
    }
}

proof fn lemma_hex_value_prefix(s: Seq<char>, k: int)
    requires
        0 <= k <= s.len(),
    ensures
        hex_value(s.take(k)) <= hex_value(s),
    decreases s.len() - k,
{
    if k == s.len() {
        assert(s.take(k) =~= s);
    } else {
        let t = s.drop_last();
        if k == t.len() {
            assert(s.take(k) =~= t);
        } else {
            lemma_hex_value_prefix(t, k);
            assert(t.take(k) =~= s.take(k));
        }
    }
}

fn hex_digit_exec(c: char) -> (r: Option<u32>)
    ensures
        match r {
            Some(d) => hex_digit(c) == Some(d as nat) && d < 16,
            None => hex_digit(c).is_none(),
        },
{
    if '0' <= c && c <= '9' {
        Some(c as u32 - '0' as u32)
    } else if 'a' <= c && c <= 'f' {
        Some(c as u32 - 'a' as u32 + 10)
    } else if 'A' <= c && c <= 'F' {
        Some(c as u32 - 'A' as u32 + 10)
    } else {
        None
    }
}

/// Reads a 16-bit hexadecimal number, as `u16::from_str_radix` does with the
/// radix 16.
pub fn parse_hex_u16(s: &str) -> (r: Option<u16>)
    ensures
        r == hex_u16_of(s@),
{
    let v = chars_of(s);
    let start: usize = if v.len() > 0 && v[0] == '+' {
        1
    } else {
        0
    };
    let ghost body = v@.skip(start as int);
    assert(body =~= if s@.len() > 0 && s@[0] == '+' {
        s@.drop_first()
    } else {
        s@
    });
    if start == v.len() {
        return None;
    }
    let mut n: u32 = 0;
    let mut i: usize = start;
    assert(body.take(0) =~= Seq::<char>::empty());
    while i < v.len()
        invariant
            start <= i <= v.len(),
            body == v@.skip(start as int),
            body.len() > 0,
            hex_u16_of(s@) == (if all_hex(body) && hex_value(body) <= u16::MAX {
                Some(hex_value(body) as u16)
            } else {
                None
            }),
            all_hex(body.take(i - start)),
            n == hex_value(body.take(i - start)),
            n <= u16::MAX,
        decreases v.len() - i,
    {
        let c = v[i];
        let ghost next = body.take(i + 1 - start);
        assert(next.drop_last() =~= body.take(i - start));
        assert(next.last() == c);
        let d = match hex_digit_exec(c) {
            Some(d) => d,
            None => {
                assert(hex_digit(body[i - start]).is_none());
                return None;
            },
        };
        assert forall|k: int| 0 <= k < next.len() implies hex_digit(#[trigger] next[k]).is_some() by {
            if k < next.len() - 1 {
                assert(next[k] == body.take(i - start)[k]);
            }
        }
        if n * 16 + d > 0xFFFF {
            proof {
                lemma_hex_value_prefix(body, i + 1 - start);
            }
            return None;
        }
        n = n * 16 + d;
        i += 1;
    }
    assert(body.take(i - start) =~= body);
    Some(n as u16)
}

} // verus!
