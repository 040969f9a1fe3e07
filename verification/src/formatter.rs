//! Templates: their grammar, their parsed form, and how they are rendered.

pub mod decimal;
pub mod grammar;
pub mod prune;
pub mod trim;
pub mod units;

pub use crate::formatter::trim::trim_trailing_zeros;

use crate::formatter::grammar::{field_at, match_placeholder, placeholder_at};
use crate::gpu_status::fields::{spec_field, Field, ParseFailure, UnitParseError};
use crate::gpu_status::GpuStatusData;
use crate::text::{chars_of, string_of};
use vstd::prelude::*;
use vstd::string::*;

verus! {

/// One element of a parsed template: a run of text to copy, or a field to
/// resolve.
#[derive(Debug, PartialEq)]
pub enum Chunk {
    Static(String),
    Variable(Field),
}

/// A [`Chunk`] with its text as a sequence of characters.
pub enum ChunkView {
    Static(Seq<char>),
    Variable(Field),
}

impl View for Chunk {
    type V = ChunkView;

    open spec fn view(&self) -> ChunkView {
        match self {
            Chunk::Static(s) => ChunkView::Static(s@),
            Chunk::Variable(f) => ChunkView::Variable(*f),
        }
    }
}

/// The chunks of a vector, each by its view.
pub open spec fn chunk_views(chunks: Seq<Chunk>) -> Seq<ChunkView> {
    chunks.map_values(|c: Chunk| c@)
}

/// `rest` behind the static text `text`; an empty text makes no chunk.
pub open spec fn with_static(text: Seq<char>, rest: Seq<ChunkView>) -> Seq<ChunkView> {
    if text.len() == 0 {
        rest
    } else {
        seq![ChunkView::Static(text)] + rest
    }
}

/// The chunks of `s` from index `pos` on, with the text from `start` to `pos`
/// still waiting to become a static chunk.
///
/// The placeholders are taken from left to right, each at the first index
/// where one starts, and none overlaps another. The first placeholder whose
/// text names no field fails the whole template.
pub open spec fn spec_chunks(s: Seq<char>, start: int, pos: int) -> Result<Seq<ChunkView>, ParseFailure>
    decreases s.len() - pos,
{
    if pos >= s.len() {
        Ok(with_static(s.subrange(start, s.len() as int), Seq::empty()))
    } else {
        match placeholder_at(s, pos) {
            None => spec_chunks(s, start, pos + 1),
            Some(ph) => match spec_field(ph.segments) {
                Err(e) => Err(e),
                Ok(f) => match spec_chunks(s, pos + ph.len, pos + ph.len) {
                    Err(e) => Err(e),
                    Ok(rest) => Ok(
                        with_static(s.subrange(start, pos), seq![ChunkView::Variable(f)] + rest),
                    ),
                },
            },
        }
    }
}

/// The chunks of the template `s`.
pub open spec fn spec_parse(s: Seq<char>) -> Result<Seq<ChunkView>, ParseFailure> {
    spec_chunks(s, 0, 0)
}

/// Whether an outcome of parsing is the one that the text calls for.
pub open spec fn parse_result_is(
    r: Result<Vec<Chunk>, UnitParseError>,
    expected: Result<Seq<ChunkView>, ParseFailure>,
) -> bool {
    match r {
        Ok(chunks) => expected == Ok::<Seq<ChunkView>, ParseFailure>(chunk_views(chunks@)),
        Err(e) => expected == Err::<Seq<ChunkView>, ParseFailure>(e@),
    }
}

/// Parsing is a function of the text: two outcomes of parsing one text are
/// the same chunks, or the same error.
pub proof fn lemma_parse_deterministic(
    text: Seq<char>,
    first: Result<Vec<Chunk>, UnitParseError>,
    second: Result<Vec<Chunk>, UnitParseError>,
)
    requires
        parse_result_is(first, spec_parse(text)),
        parse_result_is(second, spec_parse(text)),
    ensures
        match (first, second) {
            (Ok(a), Ok(b)) => chunk_views(a@) == chunk_views(b@),
            (Err(a), Err(b)) => a@ == b@,
            _ => false,
        },
{
}

/// A result with `head` put before its chunks.
spec fn prepend(head: Seq<ChunkView>, r: Result<Seq<ChunkView>, ParseFailure>) -> Result<
    Seq<ChunkView>,
    ParseFailure,
> {
    match r {
        Ok(rest) => Ok(head + rest),
        Err(e) => Err(e),
    }
}

/// Appends the text `v[start..end]` as a static chunk, unless it is empty.
fn push_static(chunks: &mut Vec<Chunk>, v: &Vec<char>, start: usize, end: usize)
    requires
        start <= end <= v.len(),
    ensures
        chunk_views(final(chunks)@) == chunk_views(old(chunks)@) + with_static(
            v@.subrange(start as int, end as int),
            Seq::empty(),
        ),
{
    if end > start {
        let c = Chunk::Static(string_of(v, start, end));
        chunks.push(c);
        assert(chunk_views(chunks@) =~= chunk_views(old(chunks)@) + seq![c@]);
    } else {
        assert(chunk_views(chunks@) =~= chunk_views(old(chunks)@) + Seq::<ChunkView>::empty());
    }
}

/// Parses a template into its chunks.
///
/// The static texts and the fields come in the order of the template; an
/// empty text makes no chunk. One placeholder whose text names no field fails
/// the whole template; a name outside the vocabulary is no failure but the
/// field [`Field::Unknown`], and [`unknown_fields`] lists such names for a
/// warning.
pub fn parse(format: &str) -> (r: Result<Vec<Chunk>, UnitParseError>)
    ensures
        parse_result_is(r, spec_parse(format@)),
{
    let v = chars_of(format);
    let n = v.len();
    let mut chunks: Vec<Chunk> = Vec::new();
    let mut start: usize = 0;
    let mut pos: usize = 0;
    assert(chunk_views(chunks@) =~= Seq::<ChunkView>::empty());
    assert(prepend(Seq::empty(), spec_chunks(v@, 0, 0)) == spec_chunks(v@, 0, 0)) by {
        match spec_chunks(v@, 0, 0) {
            Ok(rest) => {
                assert(Seq::<ChunkView>::empty() + rest =~= rest);
            },
            Err(e) => {},
        }
    }
    while pos < n
        invariant
            n == v.len(),
            v@ == format@,
            start <= pos <= n,
            spec_parse(format@) == prepend(chunk_views(chunks@), spec_chunks(v@, start as int, pos as int)),
        decreases n - pos,
    {
        match match_placeholder(&v, pos) {
            None => {
                pos += 1;
            },
            Some(span) => {
                let ghost ph = span.placeholder(v@, pos as int);
                let ghost before = chunk_views(chunks@);
                let field = match field_at(&v, pos, &span) {
                    Ok(f) => f,
                    Err(e) => {
                        return Err(e);
                    },
                };
                push_static(&mut chunks, &v, start, pos);
                chunks.push(Chunk::Variable(field));
                let end = span.end_index();
                proof {
                    let text = v@.subrange(start as int, pos as int);
                    let var = seq![ChunkView::Variable(field)];
                    assert(chunk_views(chunks@) =~= before + with_static(text, Seq::empty()) + var);
                    assert(end == pos + ph.len);
                    match spec_chunks(v@, end as int, end as int) {
                        Ok(rest) => {
                            assert(before + with_static(text, var + rest) =~= (before + with_static(
                                text,
                                Seq::empty(),
                            ) + var) + rest);
                        },
                        Err(e) => {},
                    }
                }
                start = end;
                pos = end;
            },
        }
    }
    push_static(&mut chunks, &v, start, n);
    Ok(chunks)
}

/// The names in the placeholders of `s` from index `pos` on that are outside
/// the vocabulary, in their order, up to the first placeholder that fails.
pub open spec fn spec_unknown_names(s: Seq<char>, pos: int) -> Seq<Seq<char>>
    decreases s.len() - pos,
{
    if pos >= s.len() {
        Seq::empty()
    } else {
        match placeholder_at(s, pos) {
            None => spec_unknown_names(s, pos + 1),
            Some(ph) => match spec_field(ph.segments) {
                Err(_) => Seq::empty(),
                Ok(f) => (if f is Unknown {
                    seq![ph.segments.field]
                } else {
                    Seq::empty()
                }) + spec_unknown_names(s, pos + ph.len),
            },
        }
    }
}

/// The strings of a vector, each by its view.
pub open spec fn string_views(names: Seq<String>) -> Seq<Seq<char>> {
    names.map_values(|n: String| n@)
}

/// The names in the placeholders of a template that are outside the
/// vocabulary, for the caller to warn of: such a name is no error, and is
/// rendered as `N/A`.
pub fn unknown_fields(format: &str) -> (names: Vec<String>)
    ensures
        string_views(names@) == spec_unknown_names(format@, 0),
{
    let v = chars_of(format);
    let n = v.len();
    let mut names: Vec<String> = Vec::new();
    let mut pos: usize = 0;
    assert(string_views(names@) =~= Seq::<Seq<char>>::empty());
    assert(Seq::<Seq<char>>::empty() + spec_unknown_names(v@, 0) =~= spec_unknown_names(v@, 0));
    while pos < n
        invariant
            n == v.len(),
            v@ == format@,
            pos <= n,
            spec_unknown_names(format@, 0) == string_views(names@) + spec_unknown_names(v@, pos as int),
        decreases n - pos,
    {
        match match_placeholder(&v, pos) {
            None => {
                pos += 1;
            },
            Some(span) => {
                let ghost before = string_views(names@);
                let ghost rest = spec_unknown_names(v@, span.end());
                match field_at(&v, pos, &span) {
                    Err(_) => {
                        assert(before + Seq::<Seq<char>>::empty() =~= before);
                        return names;
                    },
                    Ok(Field::Unknown) => {
                        let name = string_of(&v, pos + 1, span.name_end);
                        names.push(name);
                        assert(string_views(names@) =~= before + seq![name@]);
                        assert(before + (seq![name@] + rest) =~= (before + seq![name@]) + rest);
                    },
                    Ok(_) => {
                        assert(Seq::<Seq<char>>::empty() + rest =~= rest);
                    },
                }
                pos = span.end_index();
            },
        }
    }
    assert(string_views(names@) + Seq::<Seq<char>>::empty() =~= string_views(names@));
    names
}

/// What a chunk adds to the output: a static text itself, a field what the
/// snapshot shows for it.
pub open spec fn chunk_text(chunk: ChunkView, data: GpuStatusData) -> Seq<char> {
    match chunk {
        ChunkView::Static(s) => s,
        ChunkView::Variable(f) => data.shown(f),
    }
}

/// The output for a template: what its chunks add, one after the other.
pub open spec fn rendered(chunks: Seq<ChunkView>, data: GpuStatusData) -> Seq<char>
    decreases chunks.len(),
{
    if chunks.len() == 0 {
        Seq::<char>::empty()
    } else {
        rendered(chunks.drop_last(), data) + chunk_text(chunks.last(), data)
    }
}

/// Renders a parsed template against a snapshot into `out`, in place of what
/// `out` held.
///
/// A field without a value, and an unknown field, is shown as `N/A`; nothing
/// stops the rest from being rendered.
pub fn render(chunks: &Vec<Chunk>, data: &GpuStatusData, out: &mut String)
    ensures
        final(out)@ == rendered(chunk_views(chunks@), *data),
{
    out.clear();
    let ghost views = chunk_views(chunks@);
    let mut i: usize = 0;
    assert(views.take(0) =~= Seq::<ChunkView>::empty());
    while i < chunks.len()
        invariant
            i <= chunks.len(),
            views == chunk_views(chunks@),
            out@ == rendered(views.take(i as int), *data),
        decreases chunks.len() - i,
    {
        let ghost before = out@;
        match &chunks[i] {
            Chunk::Static(s) => {
                out.append(s.as_str());
            },
            Chunk::Variable(field) => {
                if data.write_field(*field, out).is_err() {
                    out.append("N/A");
                }
            },
        }
        proof {
            assert(views.take(i + 1).drop_last() =~= views.take(i as int));
            assert(views.take(i + 1).last() == chunks@[i as int]@);
            assert(out@ == before + chunk_text(views[i as int], *data));
        }
        i += 1;
    }
    assert(views.take(chunks.len() as int) =~= views);
}

/// A parsed template together with the buffer that it is rendered into, time
/// and again.
pub struct State {
    pub chunks: Vec<Chunk>,
    pub buffer: String,
}

impl State {
    /// Assembles `self.chunks` into `self.buffer` using the provided `data`.
    ///
    /// Writes `"N/A"` if a variable segment in `chunks` is [`Field::Unknown`],
    /// or if `data` holds no value for the field.
    pub fn assemble(&mut self, data: &GpuStatusData)
        ensures
            final(self).chunks == old(self).chunks,
            final(self).buffer@ == rendered(chunk_views(old(self).chunks@), *data),
    {
        render(&self.chunks, data, &mut self.buffer);
    }

    /// A state for the template `format`, with an empty buffer; the error of
    /// the first placeholder that names no field, where there is one.
    pub fn try_from_format(format: &str) -> (r: Result<State, UnitParseError>)
        ensures
            match r {
                Ok(state) => spec_parse(format@) == Ok::<Seq<ChunkView>, ParseFailure>(
                    chunk_views(state.chunks@),
                ) && state.buffer@ == Seq::<char>::empty(),
                Err(e) => spec_parse(format@) == Err::<Seq<ChunkView>, ParseFailure>(e@),
            },
    {
        match parse(format) {
            Ok(chunks) => Ok(State { chunks, buffer: String::new() }),
            Err(e) => Err(e),
        }
    }
}

} // verus!
