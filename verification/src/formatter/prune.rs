//! Tailoring a default template to a device: whole lines that name a metric
//! which the device does not have are left out.

use crate::formatter::grammar::{
    field_at, lemma_placeholder_prefix, lemma_placeholder_shift, match_placeholder, placeholder_at,
};
use crate::formatter::{spec_chunks, spec_parse, with_static, ChunkView};
use crate::gpu_status::fields::{spec_field, Field};
use crate::gpu_status::GpuStatusData;
use crate::text::{chars_of, find_char, lemma_position, lemma_position_unique, position, push_chars};
use vstd::prelude::*;

verus! {

/// The length of the first line of `s`, with the line feed that ends it where
/// there is one.
pub open spec fn first_line_len(s: Seq<char>) -> int {
    let i = position(s, '\n');
    if i < s.len() {
        i + 1
    } else {
        s.len() as int
    }
}

/// Whether every placeholder of `s` from index `pos` on names a field that the
/// device supports. The placeholders are found as in parsing; one whose text
/// names no field counts as not supported.
pub open spec fn fields_supported(s: Seq<char>, pos: int, data: GpuStatusData) -> bool
    decreases s.len() - pos,
{
    if pos >= s.len() {
        true
    } else {
        match placeholder_at(s, pos) {
            None => fields_supported(s, pos + 1, data),
            Some(ph) => match spec_field(ph.segments) {
                Ok(f) => !data.unsupported(f) && fields_supported(s, pos + ph.len, data),
                Err(_) => false,
            },
        }
    }
}

/// Whether a line stays: every placeholder on it names a supported field. A
/// line without a placeholder stays.
pub open spec fn line_kept(line: Seq<char>, data: GpuStatusData) -> bool {
    fields_supported(line, 0, data)
}

/// The template `s` without the lines that do not stay. The lines that stay
/// are kept whole, line feed included, and in their order.
pub open spec fn spec_prune(s: Seq<char>, data: GpuStatusData) -> Seq<char>
    decreases s.len(),
{
    if s.len() == 0 {
        Seq::<char>::empty()
    } else {
        proof {
            lemma_position(s, '\n');
        }
        let n = first_line_len(s);
        let rest = spec_prune(s.skip(n), data);
        if line_kept(s.take(n), data) {
            s.take(n) + rest
        } else {
            rest
        }
    }
}

/// Whether the line `line` stays.
fn keeps_line(line: &Vec<char>, data: &GpuStatusData) -> (r: bool)
    ensures
        r == line_kept(line@, *data),
{
    let mut pos: usize = 0;
    while pos < line.len()
        invariant
            pos <= line.len(),
            line_kept(line@, *data) == fields_supported(line@, pos as int, *data),
        decreases line.len() - pos,
    {
        match match_placeholder(line, pos) {
            None => {
                pos += 1;
            },
            Some(span) => {
                match field_at(line, pos, &span) {
                    Err(_) => {
                        return false;
                    },
                    Ok(f) => {
                        if data.is_field_unsupported(f) {
                            return false;
                        }
                        pos = span.end_index();
                    },
                }
            },
        }
    }
    true
}

/// The characters `v[from..to]`.
fn slice_of(v: &Vec<char>, from: usize, to: usize) -> (r: Vec<char>)
    requires
        from <= to <= v.len(),
    ensures
        r@ == v@.subrange(from as int, to as int),
{
    let mut r: Vec<char> = Vec::new();
    let mut i: usize = from;
    while i < to
        invariant
            from <= i <= to <= v.len(),
            r@ == v@.subrange(from as int, i as int),
        decreases to - i,
    {
        r.push(v[i]);
        i += 1;
        assert(r@ =~= v@.subrange(from as int, i as int));
    }
    r
}

/// Makes the template for a device from a default template of several lines:
/// a line is kept, whole and as it is, where every field that it names is
/// supported by the device, and is left out where any is not.
///
/// Supported means that the snapshot does not say of the metric that the
/// vendor lacks it; a metric that only could not be read when the snapshot was
/// taken keeps its line. An unknown field is never supported.
pub fn prune_template(template: &str, data: &GpuStatusData) -> (r: String)
    ensures
        r@ == spec_prune(template@, *data),
{
    let v = chars_of(template);
    let n = v.len();
    let mut out = String::new();
    let mut start: usize = 0;
    assert(v@.skip(0) =~= v@);
    assert(out@ + spec_prune(v@, *data) =~= spec_prune(v@, *data));
    while start < n
        invariant
            n == v.len(),
            v@ == template@,
            start <= n,
            spec_prune(template@, *data) == out@ + spec_prune(v@.skip(start as int), *data),
        decreases n - start,
    {
        let ghost rest = v@.skip(start as int);
        let ghost before = out@;
        let nl = find_char(&v, start, '\n');
        let end = if nl < n {
            nl + 1
        } else {
            n
        };
        assert(end - start == first_line_len(rest));
        let line = slice_of(&v, start, end);
        assert(line@ =~= rest.take(end - start));
        assert(rest.skip(end - start) =~= v@.skip(end as int));
        if keeps_line(&line, data) {
            push_chars(&mut out, &v, start, end);
            assert(out@ + spec_prune(v@.skip(end as int), *data) =~= before + (line@ + spec_prune(
                v@.skip(end as int),
                *data,
            )));
        }
        start = end;
    }
    assert(out@ + spec_prune(v@.skip(n as int), *data) =~= out@);
    out
}

/// Whether `s` is empty or ends with a line feed, so that a line starts
/// behind it.
pub open spec fn ends_lines(s: Seq<char>) -> bool {
    s.len() == 0 || s.last() == '\n'
}

/// Whether `s` is one line: not empty, with no line feed but at its end.
pub open spec fn is_line(s: Seq<char>) -> bool {
    s.len() > 0 && forall|i: int| 0 <= i < s.len() - 1 ==> s[i] != '\n'
}

/// Whether a placeholder starts somewhere in `s`.
pub open spec fn has_placeholder(s: Seq<char>) -> bool {
    exists|i: int| 0 <= i < s.len() && placeholder_at(s, i).is_some()
}

/// Whether every line of `s` holds a placeholder.
pub open spec fn every_line_has_placeholder(s: Seq<char>) -> bool
    decreases s.len(),
{
    if s.len() == 0 {
        true
    } else {
        proof {
            lemma_position(s, '\n');
        }
        let n = first_line_len(s);
        has_placeholder(s.take(n)) && every_line_has_placeholder(s.skip(n))
    }
}

proof fn lemma_position_concat(a: Seq<char>, b: Seq<char>, c: char)
    requires
        position(a, c) < a.len(),
    ensures
        position(a + b, c) == position(a, c),
{
    lemma_position(a, c);
    let i = position(a, c);
    assert forall|k: int| 0 <= k < i implies (a + b)[k] != c by {
        assert((a + b)[k] == a[k]);
    }
    assert((a + b)[i] == a[i]);
    lemma_position_unique(a + b, c, i);
}

proof fn lemma_first_line(s: Seq<char>)
    requires
        s.len() > 0,
    ensures
        0 < first_line_len(s) <= s.len(),
        is_line(s.take(first_line_len(s))),
        ends_lines(s) ==> ends_lines(s.skip(first_line_len(s))),
        first_line_len(s) < s.len() ==> s.take(first_line_len(s)).last() == '\n',
{
    lemma_position(s, '\n');
}

/// Pruning works line by line: what is pruned behind whole lines does not
/// depend on them, nor they on it.
pub proof fn lemma_prune_concat(a: Seq<char>, b: Seq<char>, data: GpuStatusData)
    requires
        ends_lines(a),
    ensures
        spec_prune(a + b, data) == spec_prune(a, data) + spec_prune(b, data),
    decreases a.len(),
{
    if a.len() == 0 {
        assert(a + b =~= b);
        assert(spec_prune(a, data) + spec_prune(b, data) =~= spec_prune(b, data));
    } else {
        lemma_position(a, '\n');
        lemma_first_line(a);
        lemma_position_concat(a, b, '\n');
        let n = first_line_len(a);
        assert(first_line_len(a + b) == n);
        assert((a + b).take(n) =~= a.take(n));
        assert((a + b).skip(n) =~= a.skip(n) + b);
        lemma_prune_concat(a.skip(n), b, data);
        assert(spec_prune(a + b, data) =~= spec_prune(a, data) + spec_prune(b, data));
    }
}

/// Of one line pruning leaves all or nothing.
pub proof fn lemma_prune_line(line: Seq<char>, data: GpuStatusData)
    requires
        is_line(line),
    ensures
        spec_prune(line, data) == if line_kept(line, data) {
            line
        } else {
            Seq::<char>::empty()
        },
{
    let n = line.len() as int;
    if line.last() == '\n' {
        lemma_position_unique(line, '\n', n - 1);
    } else {
        lemma_position_unique(line, '\n', n);
    }
    assert(first_line_len(line) == n);
    assert(line.take(n) =~= line);
    assert(line.skip(n) =~= Seq::<char>::empty());
    assert(spec_prune(Seq::<char>::empty(), data) =~= Seq::<char>::empty());
    assert(spec_prune(line.skip(n), data) =~= Seq::<char>::empty());
    assert(line + Seq::<char>::empty() =~= line);
}

/// Pruning keeps exactly the lines whose fields are all supported, whole and
/// in their order: a line between the lines before it and the text behind it
/// is kept as it is or left out, by its own fields alone, and what is before
/// and behind it is pruned the same with or without it.
pub proof fn lemma_prune_lines(before: Seq<char>, line: Seq<char>, after: Seq<char>, data: GpuStatusData)
    requires
        ends_lines(before),
        is_line(line),
        line.last() == '\n' || after.len() == 0,
    ensures
        spec_prune(before + line + after, data) == spec_prune(before, data) + (if line_kept(line, data) {
            line
        } else {
            Seq::<char>::empty()
        }) + spec_prune(after, data),
{
    assert(before + line + after =~= before + (line + after));
    lemma_prune_concat(before, line + after, data);
    lemma_prune_line(line, data);
    if line.last() == '\n' {
        lemma_prune_concat(line, after, data);
    } else {
        assert(line + after =~= line);
        assert(spec_prune(line, data) + spec_prune(after, data) =~= spec_prune(line, data));
    }
    assert(spec_prune(before, data) + (spec_prune(line, data) + spec_prune(after, data)) =~= spec_prune(
        before,
        data,
    ) + spec_prune(line, data) + spec_prune(after, data));
}

proof fn lemma_line_dropped(line: Seq<char>, pos: int, i: int, data: GpuStatusData)
    requires
        0 <= pos <= i < line.len(),
        placeholder_at(line, i).is_some(),
        forall|f: Field| data.unsupported(f),
    ensures
        !fields_supported(line, pos, data),
    decreases i - pos,
{
    match placeholder_at(line, pos) {
        None => {
            lemma_line_dropped(line, pos + 1, i, data);
        },
        Some(ph) => {},
    }
}

/// For a device that supports no field at all, a template of which every line
/// holds a placeholder is pruned to nothing.
pub proof fn lemma_prune_nothing_supported(s: Seq<char>, data: GpuStatusData)
    requires
        forall|f: Field| data.unsupported(f),
        every_line_has_placeholder(s),
    ensures
        spec_prune(s, data) == Seq::<char>::empty(),
    decreases s.len(),
{
    if s.len() > 0 {
        lemma_first_line(s);
        let n = first_line_len(s);
        let line = s.take(n);
        let i = choose|i: int| 0 <= i < line.len() && placeholder_at(line, i).is_some();
        lemma_line_dropped(line, 0, i, data);
        lemma_prune_nothing_supported(s.skip(n), data);
    }
}

/// The snapshot of a device that is off and has no metric supports no field.
pub proof fn lemma_nothing_is_supported()
    ensures
        forall|f: Field| GpuStatusData::nothing().unsupported(f),
{
}

/// Pruning a pruned template again changes nothing.
pub proof fn lemma_prune_idempotent(s: Seq<char>, data: GpuStatusData)
    ensures
        spec_prune(spec_prune(s, data), data) == spec_prune(s, data),
    decreases s.len(),
{
    if s.len() > 0 {
        lemma_first_line(s);
        let n = first_line_len(s);
        let line = s.take(n);
        let rest = spec_prune(s.skip(n), data);
        lemma_prune_idempotent(s.skip(n), data);
        if line_kept(line, data) {
            lemma_prune_line(line, data);
            if n < s.len() {
                lemma_prune_concat(line, rest, data);
            } else {
                assert(s.skip(n) =~= Seq::<char>::empty());
                assert(line + rest =~= line);
            }
        }
    }
}

/// The pruned template parses as the lines that stayed do when they are taken
/// from the template directly. Where the lines `kept` all stay, and the lines
/// before and behind them all go, the pruned text is `kept`, character for
/// character, and so are its chunks those of `kept`.
pub proof fn lemma_prune_round_trip(
    before: Seq<char>,
    kept: Seq<char>,
    after: Seq<char>,
    data: GpuStatusData,
)
    requires
        ends_lines(before),
        ends_lines(kept),
        spec_prune(before, data) == Seq::<char>::empty(),
        spec_prune(kept, data) == kept,
        spec_prune(after, data) == Seq::<char>::empty(),
    ensures
        spec_prune(before + kept + after, data) == kept,
        spec_parse(spec_prune(before + kept + after, data)) == spec_parse(kept),
{
    assert(before + kept + after =~= before + (kept + after));
    lemma_prune_concat(before, kept + after, data);
    lemma_prune_concat(kept, after, data);
    assert(Seq::<char>::empty() + (kept + Seq::<char>::empty()) =~= kept);
}

/// Whether every field among `chunks` is supported by the device.
pub open spec fn all_supported(chunks: Seq<ChunkView>, data: GpuStatusData) -> bool {
    forall|i: int|
        0 <= i < chunks.len() ==> (#[trigger] chunks[i] matches ChunkView::Variable(f)
            ==> !data.unsupported(f))
}

proof fn lemma_supported_shift(a: Seq<char>, b: Seq<char>, k: int, data: GpuStatusData)
    requires
        0 <= k,
    ensures
        fields_supported(a + b, a.len() + k, data) == fields_supported(b, k, data),
    decreases b.len() - k,
{
    if k < b.len() {
        lemma_placeholder_shift(a, b, k);
        match placeholder_at(b, k) {
            None => {
                lemma_supported_shift(a, b, k + 1, data);
            },
            Some(ph) => {
                lemma_supported_shift(a, b, k + ph.len, data);
            },
        }
    }
}

proof fn lemma_supported_concat(a: Seq<char>, b: Seq<char>, pos: int, data: GpuStatusData)
    requires
        ends_lines(a),
        0 <= pos <= a.len(),
    ensures
        fields_supported(a + b, pos, data) == (fields_supported(a, pos, data) && fields_supported(
            b,
            0,
            data,
        )),
    decreases a.len() - pos,
{
    if pos == a.len() {
        lemma_supported_shift(a, b, 0, data);
    } else {
        lemma_placeholder_prefix(a, b, pos);
        match placeholder_at(a, pos) {
            None => {
                lemma_supported_concat(a, b, pos + 1, data);
            },
            Some(ph) => {
                lemma_supported_concat(a, b, pos + ph.len, data);
            },
        }
    }
}

proof fn lemma_pruned_supported(s: Seq<char>, data: GpuStatusData)
    ensures
        fields_supported(spec_prune(s, data), 0, data),
    decreases s.len(),
{
    if s.len() > 0 {
        lemma_first_line(s);
        let n = first_line_len(s);
        let line = s.take(n);
        let rest = spec_prune(s.skip(n), data);
        lemma_pruned_supported(s.skip(n), data);
        if line_kept(line, data) {
            if n < s.len() {
                lemma_supported_concat(line, rest, 0, data);
            } else {
                assert(s.skip(n) =~= Seq::<char>::empty());
                assert(line + rest =~= line);
            }
        }
    }
}

proof fn lemma_supported_parses(s: Seq<char>, start: int, pos: int, data: GpuStatusData)
    requires
        0 <= start <= pos,
        fields_supported(s, pos, data),
    ensures
        spec_chunks(s, start, pos) matches Ok(chunks) && all_supported(chunks, data),
    decreases s.len() - pos,
{
    if pos >= s.len() {
    } else {
        match placeholder_at(s, pos) {
            None => {
                lemma_supported_parses(s, start, pos + 1, data);
            },
            Some(ph) => {
                let f = spec_field(ph.segments)->Ok_0;
                lemma_supported_parses(s, pos + ph.len, pos + ph.len, data);
                let rest = spec_chunks(s, pos + ph.len, pos + ph.len)->Ok_0;
                let tail = seq![ChunkView::Variable(f)] + rest;
                assert forall|i: int| 0 <= i < tail.len() implies (#[trigger] tail[i] matches ChunkView::Variable(
                    g,
                ) ==> !data.unsupported(g)) by {
                    if i > 0 {
                        assert(tail[i] == rest[i - 1]);
                    }
                }
                let all = with_static(s.subrange(start, pos), tail);
                assert forall|i: int| 0 <= i < all.len() implies (#[trigger] all[i] matches ChunkView::Variable(
                    g,
                ) ==> !data.unsupported(g)) by {
                    if all.len() > tail.len() && i > 0 {
                        assert(all[i] == tail[i - 1]);
                    }
                }
            },
        }
    }
}

/// What pruning is for: the pruned template always parses, and every field in
/// it is one that the device supports, so that rendering it shows the marker
/// for no metric that the device lacks. This holds of every template, also of
/// one that itself does not parse, since the lines at fault are left out.
pub proof fn lemma_pruned_template_parses(s: Seq<char>, data: GpuStatusData)
    ensures
        spec_parse(spec_prune(s, data)) matches Ok(chunks) && all_supported(chunks, data),
{
    lemma_pruned_supported(s, data);
    lemma_supported_parses(spec_prune(s, data), 0, 0, data);
}

} // verus!
