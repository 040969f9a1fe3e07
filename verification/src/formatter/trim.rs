//! Trimming the zeros that end the text of a number.

use vstd::prelude::*;
use vstd::std_specs::iter::IteratorSpec;
use vstd::string::*;
use vstd::utf8::{char_is_scalar, encode_scalar, encode_utf8};

verus! {

/// How many bytes the UTF-8 encoding of `s` takes.
pub open spec fn utf8_len(s: Seq<char>) -> nat {
    encode_utf8(s).len()
}

/// The encoding of a text is the encoding of its parts, one after the other.
pub proof fn lemma_encode_concat(a: Seq<char>, b: Seq<char>)
    ensures
        encode_utf8(a + b) == encode_utf8(a) + encode_utf8(b),
    decreases a.len(),
{
    if a.len() == 0 {
        assert(a + b =~= b);
        assert(encode_utf8(a) + encode_utf8(b) =~= encode_utf8(b));
    } else {
        lemma_encode_concat(a.drop_first(), b);
        assert((a + b).drop_first() =~= a.drop_first() + b);
        assert(encode_utf8(a + b) =~= encode_utf8(a) + encode_utf8(b));
    }
}

/// How many bytes the UTF-8 encoding of `c` takes.
fn utf8_width(c: char) -> (w: usize)
    ensures
        w == utf8_len(seq![c]),
        1 <= w <= 4,
{
    proof {
        char_is_scalar(c);
        assert(seq![c].drop_first() =~= Seq::<char>::empty());
        assert(encode_utf8(seq![c]) =~= encode_scalar(c as u32)) by {
            reveal_with_fuel(encode_utf8, 2);
        }
    }
    let v = c as u32;
    if v <= 0x7F {
        1
    } else if v <= 0x7FF {
        2
    } else if v <= 0xFFFF {
        3
    } else {
        4
    }
}

/// The index of the last occurrence of `c` in `s`, or -1 when `c` does not
/// occur.
pub open spec fn last_position(s: Seq<char>, c: char) -> int
    decreases s.len(),
{
    if s.len() == 0 {
        -1
    } else if s.last() == c {
        s.len() - 1
    } else {
        last_position(s.drop_last(), c)
    }
}

/// `s` without the zeros at its end.
pub open spec fn strip_zeros(s: Seq<char>) -> Seq<char>
    decreases s.len(),
{
    if s.len() > 0 && s.last() == '0' {
        strip_zeros(s.drop_last())
    } else {
        s
    }
}

/// What trimming leaves of `s`.
///
/// Where `s` holds no dot, or its last dot starts at or before the byte index
/// `scan_end_index`, all of `s`. Else `s` without the zeros at its end, and
/// without the dot too where the zeros followed it directly.
pub open spec fn trimmed(s: Seq<char>, scan_end_index: nat) -> Seq<char> {
    let j = last_position(s, '.');
    if j < 0 || utf8_len(s.take(j)) <= scan_end_index {
        s
    } else {
        let t = strip_zeros(s);
        if t.len() > 0 && t.last() == '.' {
            t.drop_last()
        } else {
            t
        }
    }
}

/// Whether the last dot of `buf` starts after the byte index `scan_end_index`.
fn dot_after(buf: &str, scan_end_index: usize) -> (r: bool)
    ensures
        r == (last_position(buf@, '.') >= 0 && utf8_len(buf@.take(last_position(buf@, '.')))
            > scan_end_index),
{
    let mut found = false;
    let mut offset: usize = 0;
    let mut beyond = false;
    assert(buf@.take(0) =~= Seq::<char>::empty());
    for c in it: buf.chars()
        invariant
            it.seq() == buf@,
            beyond == (utf8_len(buf@.take(it.index() as int)) > scan_end_index),
            !beyond ==> offset == utf8_len(buf@.take(it.index() as int)),
            found == (last_position(buf@.take(it.index() as int), '.') >= 0 && utf8_len(
                buf@.take(last_position(buf@.take(it.index() as int), '.')),
            ) > scan_end_index),
    {
        let ghost i = it.index() as int;
        let ghost before = buf@.take(i);
        let ghost after = buf@.take(i + 1);
        proof {
            assert(after =~= before + seq![c]);
            assert(after.drop_last() =~= before);
            lemma_encode_concat(before, seq![c]);
            if c == '.' {
                assert(after.take(i) =~= before);
                assert(buf@.take(i) =~= before);
            } else {
                let j = last_position(before, '.');
                if j >= 0 {
                    lemma_last_position(before, '.');
                    assert(after.take(j) =~= before.take(j));
                    assert(buf@.take(j) =~= before.take(j));
                }
            }
        }
        if c == '.' {
            found = beyond;
        }
        let w = utf8_width(c);
        if !beyond {
            if w > scan_end_index - offset {
                beyond = true;
            } else {
                offset = offset + w;
            }
        }
    }
    proof {
        assert(buf@.take(buf@.len() as int) =~= buf@);
        let j = last_position(buf@, '.');
        if j >= 0 {
            lemma_last_position(buf@, '.');
        }
    }
    found
}

/// `last_position` is -1 or an index at which `c` stands, with no `c` after it.
pub proof fn lemma_last_position(s: Seq<char>, c: char)
    ensures
        -1 <= last_position(s, c) < s.len(),
        last_position(s, c) >= 0 ==> s[last_position(s, c)] == c,
        forall|k: int| last_position(s, c) < k < s.len() ==> s[k] != c,
    decreases s.len(),
{
    if s.len() == 0 || s.last() == c {
    } else {
        let t = s.drop_last();
        lemma_last_position(t, c);
        assert forall|k: int| last_position(s, c) < k < s.len() implies s[k] != c by {
            if k < t.len() {
                assert(t[k] == s[k]);
            }
        }
    }
}

/// Removes the zeros at the end of `buf`, and a dot that is left bare, where
/// the last dot of `buf` starts after the byte index `scan_end_index`; what
/// ends at or before that index is never touched.
pub fn trim_trailing_zeros(buf: &mut String, scan_end_index: usize)
    ensures
        final(buf)@ == trimmed(old(buf)@, scan_end_index as nat),
{
    if !dot_after(buf.as_str(), scan_end_index) {
        return ;
    }
    let ghost j = last_position(buf@, '.');
    proof {
        lemma_last_position(buf@, '.');
    }
    loop
        invariant_except_break
            0 <= j < buf@.len(),
            buf@[j] == '.',
            strip_zeros(buf@) == strip_zeros(old(buf)@),
        invariant
            trimmed(old(buf)@, scan_end_index as nat) == (if strip_zeros(old(buf)@).len() > 0
                && strip_zeros(old(buf)@).last() == '.' {
                strip_zeros(old(buf)@).drop_last()
            } else {
                strip_zeros(old(buf)@)
            }),
        ensures
            buf@ == trimmed(old(buf)@, scan_end_index as nat),
        decreases buf@.len(),
    {
        let ghost before = buf@;
        match buf.pop() {
            Some(c) => {
                if c == '0' {
                    assert(j < buf@.len());
                    assert(buf@[j] == before[j]);
                } else if c == '.' {
                    break ;
                } else {
                    buf.push(c);
                    assert(buf@ =~= before);
                    break ;
                }
            },
            None => {
                break ;
            },
        }
    }
}

/// The last occurrence in a text made of two parts lies in the second part
/// where that holds one, else in the first.
pub proof fn lemma_last_position_concat(a: Seq<char>, b: Seq<char>, c: char)
    ensures
        last_position(a + b, c) == if last_position(b, c) >= 0 {
            a.len() + last_position(b, c)
        } else {
            last_position(a, c)
        },
    decreases b.len(),
{
    if b.len() == 0 {
        assert(a + b =~= a);
    } else {
        assert((a + b).last() == b.last());
        assert((a + b).drop_last() =~= a + b.drop_last());
        lemma_last_position_concat(a, b.drop_last(), c);
    }
}

/// Stripping the zeros from the end of a text leaves a prefix of it, which
/// reaches beyond every character that is no zero.
pub proof fn lemma_strip_zeros(s: Seq<char>, j: int)
    requires
        0 <= j < s.len(),
        s[j] != '0',
    ensures
        j < strip_zeros(s).len() <= s.len(),
        strip_zeros(s) == s.take(strip_zeros(s).len() as int),
    decreases s.len(),
{
    if s.last() == '0' {
        let t = s.drop_last();
        assert(t[j] == s[j]);
        lemma_strip_zeros(t, j);
        assert(t.take(strip_zeros(t).len() as int) =~= s.take(strip_zeros(t).len() as int));
    } else {
        assert(s.take(s.len() as int) =~= s);
    }
}

/// A text does not take more bytes than a text that it starts.
pub proof fn lemma_utf8_len_prefix(s: Seq<char>, j: int)
    requires
        0 <= j <= s.len(),
    ensures
        utf8_len(s) == utf8_len(s.take(j)) + utf8_len(s.skip(j)),
        j < s.len() ==> utf8_len(s.skip(j)) > 0,
{
    assert(s.take(j) + s.skip(j) =~= s);
    lemma_encode_concat(s.take(j), s.skip(j));
    if j < s.len() {
        let t = s.skip(j);
        char_is_scalar(t[0]);
        assert(encode_utf8(t) == encode_scalar(t[0] as u32) + encode_utf8(t.drop_first()));
    }
}

/// Trimming touches nothing that ends at or before the byte index
/// `scan_end_index`: whatever prefix of the text fits in that many bytes is a
/// prefix of what trimming leaves. A decimal point that stood in the buffer
/// before the text of the last value was appended stays as it is.
pub proof fn lemma_trim_scope(s: Seq<char>, scan_end_index: nat, j: int)
    requires
        0 <= j <= s.len(),
        utf8_len(s.take(j)) <= scan_end_index,
    ensures
        j <= trimmed(s, scan_end_index).len() <= s.len(),
        trimmed(s, scan_end_index).take(j) == s.take(j),
        trimmed(s, scan_end_index) == s.take(trimmed(s, scan_end_index).len() as int),
{
    let d = last_position(s, '.');
    assert(s.take(s.len() as int) =~= s);
    if d < 0 || utf8_len(s.take(d)) <= scan_end_index {
    } else {
        lemma_last_position(s, '.');
        if j > d {
            lemma_utf8_len_prefix(s.take(j), d);
            assert(s.take(j).take(d) =~= s.take(d));
        }
        lemma_strip_zeros(s, d);
        let t = strip_zeros(s);
        let r = trimmed(s, scan_end_index);
        if t.last() == '.' {
            assert(t.last() == s[t.len() - 1]);
            assert(t.len() - 1 == d);
            assert(r =~= s.take(d));
        }
        assert(r.take(j) =~= s.take(j));
    }
}

/// Trimming the text of a value behind what the buffer held before it trims
/// the text of the value alone, where that text does not start with a dot.
pub proof fn lemma_trimmed_append(prefix: Seq<char>, t: Seq<char>)
    requires
        t.len() > 0,
        t[0] != '.',
    ensures
        trimmed(prefix + t, utf8_len(prefix)) == prefix + trimmed(t, 0),
{
    let s = prefix + t;
    let n = prefix.len() as int;
    let jt = last_position(t, '.');
    lemma_last_position_concat(prefix, t, '.');
    lemma_last_position(t, '.');
    lemma_last_position(prefix, '.');
    if jt >= 0 {
        assert(s.take(n + jt) =~= prefix + t.take(jt));
        lemma_encode_concat(prefix, t.take(jt));
        lemma_utf8_len_prefix(t.take(jt), 0);
        assert(t.take(jt).skip(0) =~= t.take(jt));
        assert(t.take(jt).take(0) =~= Seq::<char>::empty());
        assert(utf8_len(t.take(jt)) > 0);
        lemma_strip_zeros(t, jt);
        lemma_strip_zeros(s, n + jt);
        lemma_strip_concat(prefix, t, jt);
        let x = strip_zeros(t);
        assert((prefix + x).last() == x.last());
        assert((prefix + x).drop_last() =~= prefix + x.drop_last());
    } else {
        let j = last_position(prefix, '.');
        if j >= 0 {
            assert(s.take(j) =~= prefix.take(j));
            lemma_utf8_len_prefix(prefix, j);
        }
    }
}

/// The zeros at the end of a text made of two parts are those at the end of
/// the second part, where that holds a character that is no zero.
proof fn lemma_strip_concat(a: Seq<char>, b: Seq<char>, j: int)
    requires
        0 <= j < b.len(),
        b[j] != '0',
    ensures
        strip_zeros(a + b) == a + strip_zeros(b),
    decreases b.len(),
{
    assert((a + b).last() == b.last());
    if b.last() == '0' {
        assert((a + b).drop_last() =~= a + b.drop_last());
        assert(b.drop_last()[j] == b[j]);
        lemma_strip_concat(a, b.drop_last(), j);
    }
}

/// A character that does not occur has no last position.
pub proof fn lemma_last_position_absent(s: Seq<char>, c: char)
    requires
        forall|i: int| 0 <= i < s.len() ==> s[i] != c,
    ensures
        last_position(s, c) == -1,
    decreases s.len(),
{
    if s.len() > 0 {
        let t = s.drop_last();
        assert forall|i: int| 0 <= i < t.len() implies t[i] != c by {
            assert(t[i] == s[i]);
        }
        lemma_last_position_absent(t, c);
    }
}

/// What is left when the zeros at the end are stripped does not end with a
/// zero.
pub proof fn lemma_strip_zeros_end(s: Seq<char>)
    ensures
        strip_zeros(s).len() > 0 ==> strip_zeros(s).last() != '0',
    decreases s.len(),
{
    if s.len() > 0 && s.last() == '0' {
        lemma_strip_zeros_end(s.drop_last());
    }
}

} // verus!
