//! Truncation of styled terminal lines to a display width.
//!
//! A line is a sequence of spans, each a run of text with one style. The
//! style is carried through unchanged; in the terminal UI it is a `ratatui`
//! style. Display widths are those of the `unicode-width` crate.

use vstd::prelude::*;

use crate::text::{chars_of, push_char};

verus! {

/// The display width that `UnicodeWidthChar::width` gives a character:
/// `None` for a control character.
pub uninterp spec fn char_width(c: char) -> Option<nat>;

/// The display width that `UnicodeWidthStr::width` gives a string. It is not
/// always the sum of the widths of the characters (emoji sequences, `\r\n`
/// and some ligatures count differently).
pub uninterp spec fn str_width(s: Seq<char>) -> nat;

/// `UnicodeWidthChar::width` of unicode-width: the display width of `c`,
/// `None` for control characters. The contract only names the result.
#[verifier::external_body]
fn unicode_char_width(c: char) -> (res: Option<usize>)
    ensures
        match res {
            Some(w) => char_width(c) == Some(w as nat),
            None => char_width(c) is None,
        },
{
    unicode_width::UnicodeWidthChar::width(c)
}

/// `UnicodeWidthStr::width` of unicode-width: the display width of `s`.
/// The contract only names the result.
#[verifier::external_body]
fn unicode_str_width(s: &str) -> (res: usize)
    ensures
        res == str_width(s@),
{
    unicode_width::UnicodeWidthStr::width(s)
}

/// A run of text with one style.
pub struct StyledSpan<S> {
    pub content: String,
    pub style: S,
}

/// A line of styled text: its spans, and the style and alignment of the
/// line as a whole.
pub struct StyledLine<S, A> {
    pub spans: Vec<StyledSpan<S>>,
    pub style: S,
    pub alignment: Option<A>,
}

/// The text and style of each span.
pub open spec fn spans_view<S>(spans: Seq<StyledSpan<S>>) -> Seq<(Seq<char>, S)> {
    spans.map_values(|span: StyledSpan<S>| (span.content@, span.style))
}

/// The columns a character takes: its width, or none for a control
/// character.
pub open spec fn char_columns(c: char) -> nat {
    match char_width(c) {
        Some(w) => w,
        None => 0,
    }
}

/// The display width of a line: the sum of the widths of its spans.
pub open spec fn line_width<S>(spans: Seq<StyledSpan<S>>) -> nat
    decreases spans.len(),
{
    if spans.len() == 0 {
        0
    } else {
        str_width(spans[0].content@) + line_width(spans.drop_first())
    }
}

/// How many leading characters of `cs` fit, one after another, into `room`
/// columns: the count stops at the first character that does not fit.
pub open spec fn fitting_prefix_len(cs: Seq<char>, room: nat) -> nat
    decreases cs.len(),
{
    if cs.len() == 0 || char_columns(cs[0]) > room {
        0
    } else {
        1 + fitting_prefix_len(cs.drop_first(), (room - char_columns(cs[0])) as nat)
    }
}

/// The spans that fit into `room` columns: whole spans while they fit, then
/// the part of the first span that does not fit whose characters fit, if
/// that part is not empty.
pub open spec fn fitting_spans<S>(spans: Seq<StyledSpan<S>>, room: nat) -> Seq<(Seq<char>, S)>
    decreases spans.len(),
{
    if spans.len() == 0 {
        Seq::empty()
    } else if str_width(spans[0].content@) <= room {
        seq![(spans[0].content@, spans[0].style)] + fitting_spans(
            spans.drop_first(),
            (room - str_width(spans[0].content@)) as nat,
        )
    } else {
        let k = fitting_prefix_len(spans[0].content@, room);
        if k > 0 {
            seq![(spans[0].content@.take(k as int), spans[0].style)]
        } else {
            Seq::empty()
        }
    }
}

/// A line cut down to `max_width` columns; nothing is left of it when
/// `max_width` is 0.
pub open spec fn truncated<S>(spans: Seq<StyledSpan<S>>, max_width: nat) -> Seq<(Seq<char>, S)> {
    if max_width == 0 {
        Seq::empty()
    } else {
        fitting_spans(spans, max_width)
    }
}

proof fn lemma_fitting_prefix_len_bound(cs: Seq<char>, room: nat)
    ensures
        fitting_prefix_len(cs, room) <= cs.len(),
    decreases cs.len(),
{
    if cs.len() > 0 && char_columns(cs[0]) <= room {
        lemma_fitting_prefix_len_bound(cs.drop_first(), (room - char_columns(cs[0])) as nat);
    }
}

/// The characters of `content` that fit into `room` columns, one after
/// another.
fn fitting_prefix(content: &String, room: usize) -> (res: String)
    ensures
        res@ == content@.take(fitting_prefix_len(content@, room as nat) as int),
{
    let cs = chars_of(content.as_str());
    let mut res = String::new();
    let mut left = room;
    let mut k: usize = 0;
    proof {
        lemma_fitting_prefix_len_bound(cs@, room as nat);
        assert(cs@.skip(0) =~= cs@);
    }
    while k < cs.len()
        invariant
            cs@ == content@,
            k <= cs.len(),
            left <= room,
            res@ == cs@.take(k as int),
            fitting_prefix_len(cs@, room as nat) == k + fitting_prefix_len(
                cs@.skip(k as int),
                left as nat,
            ),
        ensures
            res@ == cs@.take(k as int),
            fitting_prefix_len(cs@, room as nat) == k,
        decreases cs.len() - k,
    {
        let w = match unicode_char_width(cs[k]) {
            Some(w) => w,
            None => 0,
        };
        assert(cs@.skip(k as int)[0] == cs@[k as int]);
        if w > left {
            assert(fitting_prefix_len(cs@.skip(k as int), left as nat) == 0);
            break;
        }
        assert(cs@.skip(k as int).drop_first() =~= cs@.skip(k + 1));
        push_char(&mut res, cs[k]);
        assert(cs@.take(k + 1) =~= cs@.take(k as int).push(cs@[k as int]));
        left = left - w;
        k = k + 1;
    }
    res
}

/// Cuts a line down to `max_width` display columns, keeping the style of
/// each span. The result is a new line: it has no alignment, and its own
/// style is `S::default()`.
pub fn truncate_line_to_width<S: Copy + Default, A>(line: StyledLine<S, A>, max_width: usize) -> (res:
    StyledLine<S, A>)
    ensures
        spans_view(res.spans@) == truncated(line.spans@, max_width as nat),
        res.alignment is None,
        call_ensures(S::default, (), res.style),
{
    let mut spans_out: Vec<StyledSpan<S>> = Vec::new();
    if max_width == 0 {
        assert(spans_view(spans_out@) =~= truncated(line.spans@, max_width as nat));
        return StyledLine { spans: spans_out, style: S::default(), alignment: None };
    }
    let spans = &line.spans;
    let mut used: usize = 0;
    let mut i: usize = 0;
    assert(spans@.skip(0) =~= spans@);
    while i < spans.len()
        invariant
            spans@ == line.spans@,
            max_width > 0,
            i <= spans.len(),
            used <= max_width,
            spans_view(spans_out@) + fitting_spans(spans@.skip(i as int), (max_width - used) as nat)
                == fitting_spans(spans@, max_width as nat),
        decreases spans.len() - i,
    {
        let span = &spans[i];
        let span_width = unicode_str_width(span.content.as_str());
        let ghost rest = spans@.skip(i as int);
        assert(rest[0] == spans@[i as int]);
        assert(rest.drop_first() =~= spans@.skip(i + 1));
        if span_width <= max_width - used {
            let ghost before = spans_view(spans_out@);
            spans_out.push(StyledSpan { content: span.content.clone(), style: span.style });
            assert(spans_view(spans_out@) =~= before + seq![(span.content@, span.style)]);
            used = used + span_width;
            i = i + 1;
        } else {
            let truncated_text = fitting_prefix(&span.content, max_width - used);
            let ghost before = spans_view(spans_out@);
            let ghost k = fitting_prefix_len(span.content@, (max_width - used) as nat);
            proof {
                lemma_fitting_prefix_len_bound(span.content@, (max_width - used) as nat);
                assert(truncated_text@.len() == k);
                assert(fitting_spans(rest, (max_width - used) as nat) == if k > 0 {
                    seq![(span.content@.take(k as int), span.style)]
                } else {
                    Seq::<(Seq<char>, S)>::empty()
                });
            }
            if !truncated_text.as_str().is_empty() {
                spans_out.push(StyledSpan { content: truncated_text, style: span.style });
                assert(spans_view(spans_out@) =~= before + seq![(truncated_text@, span.style)]);
            } else {
                assert(truncated_text@.len() == 0);
                assert(spans_view(spans_out@) =~= before + Seq::<(Seq<char>, S)>::empty());
            }
            return StyledLine { spans: spans_out, style: S::default(), alignment: None };
        }
    }
    assert(spans_view(spans_out@) =~= truncated(line.spans@, max_width as nat));
    StyledLine { spans: spans_out, style: S::default(), alignment: None }
}

/// Whether the line fits into `max_width` columns.
fn line_fits<S, A>(line: &StyledLine<S, A>, max_width: usize) -> (res: bool)
    ensures
        res == (line_width(line.spans@) <= max_width),
{
    let spans = &line.spans;
    let mut used: usize = 0;
    let mut i: usize = 0;
    assert(spans@.skip(0) =~= spans@);
    while i < spans.len()
        invariant
            spans@ == line.spans@,
            i <= spans.len(),
            used <= max_width,
            line_width(spans@) == used + line_width(spans@.skip(i as int)),
        decreases spans.len() - i,
    {
        let w = unicode_str_width(spans[i].content.as_str());
        assert(spans@.skip(i as int)[0] == spans@[i as int]);
        assert(spans@.skip(i as int).drop_first() =~= spans@.skip(i + 1));
        assert(line_width(spans@.skip(i as int)) == w + line_width(spans@.skip(i + 1)));
        if w > max_width - used {
            return false;
        }
        used = used + w;
        i = i + 1;
    }
    true
}

/// The line unchanged if it fits into `max_width` columns; otherwise the
/// line cut down to `max_width - 1` columns, followed by an ellipsis `…` in
/// the style of the last span kept. Nothing is left when `max_width` is 0.
///
/// A cut line is a new line, with no alignment and the style
/// `S::default()`; when no text at all is kept, the ellipsis gets that style
/// too.
pub fn truncate_line_with_ellipsis_if_overflow<S: Copy + Default, A>(
    line: StyledLine<S, A>,
    max_width: usize,
) -> (res: StyledLine<S, A>)
    ensures
        max_width == 0 ==> {
            &&& res.spans@.len() == 0
            &&& res.alignment is None
            &&& call_ensures(S::default, (), res.style)
        },
        max_width > 0 && line_width(line.spans@) <= max_width ==> res == line,
        max_width > 0 && line_width(line.spans@) > max_width ==> {
            let kept = truncated(line.spans@, (max_width - 1) as nat);
            &&& spans_view(res.spans@) == kept.push(
                ("…"@, spans_view(res.spans@).last().1),
            )
            &&& kept.len() > 0 ==> spans_view(res.spans@).last().1 == kept.last().1
            &&& kept.len() == 0 ==> call_ensures(S::default, (), spans_view(res.spans@).last().1)
            &&& res.alignment is None
            &&& call_ensures(S::default, (), res.style)
        },
{
    if max_width == 0 {
        return StyledLine { spans: Vec::new(), style: S::default(), alignment: None };
    }
    if line_fits(&line, max_width) {
        return line;
    }
    let truncated_line = truncate_line_to_width(line, max_width - 1);
    let line_style = truncated_line.style;
    let mut spans = truncated_line.spans;
    let ellipsis_style = if spans.len() > 0 {
        spans[spans.len() - 1].style
    } else {
        S::default()
    };
    let ghost kept = spans_view(spans@);
    spans.push(StyledSpan { content: "…".to_owned(), style: ellipsis_style });
    assert(spans_view(spans@) =~= kept.push(("…"@, ellipsis_style)));
    StyledLine { spans, style: line_style, alignment: None }
}

/// `kept` is made of leading spans of `spans`, in order and with their
/// styles: all whole but the last, which may be cut short.
pub open spec fn is_span_prefix<S>(kept: Seq<(Seq<char>, S)>, spans: Seq<StyledSpan<S>>) -> bool {
    &&& kept.len() <= spans.len()
    &&& forall|j: int|
        0 <= j < kept.len() ==> {
            &&& (#[trigger] kept[j]).1 == spans[j].style
            &&& kept[j].0 == spans[j].content@.take(kept[j].0.len() as int)
            &&& kept[j].0.len() <= spans[j].content@.len()
            &&& j < kept.len() - 1 ==> kept[j].0 == spans[j].content@
        }
}

proof fn lemma_fitting_spans_prefix<S>(spans: Seq<StyledSpan<S>>, room: nat)
    ensures
        is_span_prefix(fitting_spans(spans, room), spans),
    decreases spans.len(),
{
    if spans.len() > 0 {
        let content = spans[0].content@;
        if str_width(content) <= room {
            let rest = fitting_spans(spans.drop_first(), (room - str_width(content)) as nat);
            lemma_fitting_spans_prefix(spans.drop_first(), (room - str_width(content)) as nat);
            let kept = fitting_spans(spans, room);
            assert(content.take(content.len() as int) =~= content);
            assert forall|j: int| 0 <= j < kept.len() implies {
                &&& (#[trigger] kept[j]).1 == spans[j].style
                &&& kept[j].0 == spans[j].content@.take(kept[j].0.len() as int)
                &&& kept[j].0.len() <= spans[j].content@.len()
                &&& j < kept.len() - 1 ==> kept[j].0 == spans[j].content@
            } by {
                if j > 0 {
                    assert(kept[j] == rest[j - 1]);
                    assert(spans[j] == spans.drop_first()[j - 1]);
                }
            }
        } else {
            lemma_fitting_prefix_len_bound(content, room);
        }
    }
}

/// Truncation only drops text from the end of a line: what is kept are the
/// leading spans, in order and with their styles, the last possibly cut
/// short.
pub proof fn law_truncation_keeps_a_prefix<S>(spans: Seq<StyledSpan<S>>, max_width: nat)
    ensures
        is_span_prefix(truncated(spans, max_width), spans),
{
    if max_width > 0 {
        lemma_fitting_spans_prefix(spans, max_width);
    }
}

} // verus!
