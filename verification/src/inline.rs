//! Styled text within a line: links, code, underline, bold, italic and strike-through marks.
use vstd::prelude::*;

use crate::segments::{
    append_segments, appended, law_appending_keeps_segments_tidy, law_pushing_keeps_segments_tidy,
    linked, push_text_segment, pushed, tidy, SlackTextSegment, SlackTextSegmentModel,
    SlackTextStyle, SlackTextStyleModel,
};
use crate::text::{
    begins_with, find_char, find_from, lemma_find_char, lemma_find_char_skip, lemma_find_from,
    occurs_at, position_of, position_of_char, slice_text, starts_with, to_chars, trim, trim_end,
    trim_start, trimmed,
};

verus! {

/// The text between a marker at the start and the next marker, and the length of all three. An
/// empty text between markers is no span.
pub open spec fn wrapped_span(text: Seq<char>, marker: Seq<char>) -> Option<(int, Seq<char>)> {
    if !starts_with(text, marker) {
        None
    } else {
        match find_from(text, marker, marker.len() as int) {
            Some(end) if end > marker.len() => Some(
                (end + marker.len(), text.subrange(marker.len() as int, end)),
            ),
            _ => None,
        }
    }
}

/// Whether a text is an address that a link may have.
pub open spec fn is_link_target(url: Seq<char>) -> bool {
    starts_with(url, "http://"@) || starts_with(url, "https://"@) || starts_with(url, "mailto:"@)
}

/// The address and the label that stand between angle brackets.
pub open spec fn link_parts(inner: Seq<char>) -> (Seq<char>, Seq<char>) {
    match find_char(inner, '|', 0) {
        Some(bar) => (trim(inner.take(bar)), trim(inner.skip(bar + 1))),
        None => (trim(inner), trim(inner)),
    }
}

/// The link in angle brackets at the start of a text: its length, its address and its label.
pub open spec fn angle_link(text: Seq<char>) -> Option<(int, Seq<char>, Seq<char>)> {
    if text.len() == 0 || text.first() != '<' {
        None
    } else {
        match find_char(text, '>', 0) {
            Some(end) if 1 <= end < text.len() => {
                let (url, label) = link_parts(text.subrange(1, end));
                if is_link_target(url) {
                    Some((end + 1, url, label))
                } else {
                    None
                }
            },
            _ => None,
        }
    }
}

/// A character that may begin a span.
pub open spec fn is_special(c: char) -> bool {
    c == '<' || c == '`' || c == '*' || c == '_' || c == '~'
}

/// The first position at or after `from` of a character that may begin a span, or the end.
pub open spec fn next_special(text: Seq<char>, from: int) -> int
    decreases text.len() - from,
{
    if from < 0 || from >= text.len() {
        text.len() as int
    } else if is_special(text[from]) {
        from
    } else {
        next_special(text, from + 1)
    }
}

/// What stands at the start of a text.
pub enum Span {
    /// A link, shown as the label or, if that is empty, as the address.
    Link { url: Seq<char>, shown: Seq<char> },
    /// A text that is shown as it is, as code.
    Code { inner: Seq<char> },
    Underline { inner: Seq<char> },
    Bold { inner: Seq<char> },
    Italic { inner: Seq<char> },
    Strike { inner: Seq<char> },
    /// A text without meaning: up to the next special character, or one such character itself.
    Plain { inner: Seq<char> },
}

/// The span at the start of a text, and its length.
pub open spec fn span_at(text: Seq<char>) -> (int, Span) {
    if let Some((length, url, label)) = angle_link(text) {
        (
            length,
            Span::Link {
                url,
                shown: if label.len() == 0 {
                    url
                } else {
                    label
                },
            },
        )
    } else if let Some((length, inner)) = wrapped_span(text, seq!['`']) {
        (length, Span::Code { inner })
    } else if let Some((length, inner)) = wrapped_span(text, seq!['_', '_']) {
        (length, Span::Underline { inner })
    } else if let Some((length, inner)) = wrapped_span(text, seq!['*']) {
        (length, Span::Bold { inner })
    } else if let Some((length, inner)) = wrapped_span(text, seq!['_']) {
        (length, Span::Italic { inner })
    } else if let Some((length, inner)) = wrapped_span(text, seq!['~']) {
        (length, Span::Strike { inner })
    } else {
        let length = if next_special(text, 0) > 0 {
            next_special(text, 0)
        } else {
            1
        };
        (length, Span::Plain { inner: text.take(length) })
    }
}

impl Span {
    /// The text within the span.
    pub open spec fn inner(self) -> Seq<char> {
        match self {
            Span::Link { shown, .. } => shown,
            Span::Code { inner } => inner,
            Span::Underline { inner } => inner,
            Span::Bold { inner } => inner,
            Span::Italic { inner } => inner,
            Span::Strike { inner } => inner,
            Span::Plain { inner } => inner,
        }
    }

    /// The style of what is within the span.
    pub open spec fn styled(self, style: SlackTextStyleModel) -> SlackTextStyleModel {
        match self {
            Span::Link { url, .. } => linked(style, url),
            Span::Code { .. } => SlackTextStyleModel { code: true, ..style },
            Span::Underline { .. } => SlackTextStyleModel { underline: true, ..style },
            Span::Bold { .. } => SlackTextStyleModel { bold: true, ..style },
            Span::Italic { .. } => SlackTextStyleModel { italic: true, ..style },
            Span::Strike { .. } => SlackTextStyleModel { strike: true, ..style },
            Span::Plain { .. } => style,
        }
    }

    /// Whether spans are looked for within the span.
    pub open spec fn nests(self) -> bool {
        !(self is Code) && !(self is Plain)
    }
}

/// A span has at least one character and no more than the text; what is within it is shorter.
pub proof fn lemma_span_at(text: Seq<char>)
    requires
        text.len() > 0,
    ensures
        0 < span_at(text).0 <= text.len(),
        span_at(text).1.nests() ==> span_at(text).1.inner().len() < text.len(),
        span_at(text).1.inner().len() > 0,
{
    lemma_find_char(text, '>', 0);
    lemma_next_special(text, 0);
    assert(text[0] == text.first());
    if let Some((length, url, label)) = angle_link(text) {
        let inner = text.subrange(1, length - 1);
        lemma_find_char(inner, '|', 0);
        lemma_link_parts_shorter(inner);
        reveal_strlit("http://");
        reveal_strlit("https://");
        reveal_strlit("mailto:");
        assert(url.len() > 0);
    } else {
        lemma_wrapped_span(text, seq!['`']);
        lemma_wrapped_span(text, seq!['_', '_']);
        lemma_wrapped_span(text, seq!['*']);
        lemma_wrapped_span(text, seq!['_']);
        lemma_wrapped_span(text, seq!['~']);
    }
}

proof fn lemma_wrapped_span(text: Seq<char>, marker: Seq<char>)
    requires
        marker.len() > 0,
    ensures
        wrapped_span(text, marker) matches Some((length, inner)) ==> 0 < length <= text.len() && 0
            < inner.len() < text.len(),
{
    lemma_find_from(text, marker, marker.len() as int);
}

proof fn lemma_next_special(text: Seq<char>, from: int)
    requires
        0 <= from <= text.len(),
    ensures
        from <= next_special(text, from) <= text.len(),
    decreases text.len() - from,
{
    if from < text.len() && !is_special(text[from]) {
        lemma_next_special(text, from + 1);
    }
}

proof fn lemma_trim_length(text: Seq<char>)
    ensures
        trim_start(text).len() <= text.len(),
        trim(text).len() <= text.len(),
{
    lemma_trim_start_length(text);
    lemma_trim_end_length(trim_start(text));
}

proof fn lemma_trim_start_length(text: Seq<char>)
    ensures
        trim_start(text).len() <= text.len(),
    decreases text.len(),
{
    if text.len() > 0 && crate::text::is_space(text.first()) {
        lemma_trim_start_length(text.skip(1));
    }
}

proof fn lemma_trim_end_length(text: Seq<char>)
    ensures
        trim_end(text).len() <= text.len(),
    decreases text.len(),
{
    if text.len() > 0 && crate::text::is_space(text.last()) {
        lemma_trim_end_length(text.drop_last());
    }
}

proof fn lemma_link_parts_shorter(inner: Seq<char>)
    ensures
        link_parts(inner).0.len() <= inner.len(),
        link_parts(inner).1.len() <= inner.len(),
{
    lemma_find_char(inner, '|', 0);
    match find_char(inner, '|', 0) {
        Some(bar) => {
            lemma_trim_length(inner.take(bar));
            lemma_trim_length(inner.skip(bar + 1));
        },
        None => {
            lemma_trim_length(inner);
        },
    }
}

/// Segments followed by those of a text: span after span, each in its own style.
pub open spec fn inline_onto(
    segments: Seq<SlackTextSegmentModel>,
    text: Seq<char>,
    style: SlackTextStyleModel,
) -> Seq<SlackTextSegmentModel>
    decreases text.len(),
{
    if text.len() == 0 {
        segments
    } else {
        proof {
            lemma_span_at(text);
        }
        let (length, span) = span_at(text);
        let next = if span.nests() {
            appended(segments, inline_onto(Seq::empty(), span.inner(), span.styled(style)))
        } else {
            pushed(segments, span.inner(), span.styled(style))
        };
        inline_onto(next, text.skip(length), style)
    }
}

/// The segments of a text.
pub open spec fn inline_segments(text: Seq<char>, style: SlackTextStyleModel) -> Seq<
    SlackTextSegmentModel,
> {
    inline_onto(Seq::empty(), text, style)
}

/// Searching a tail of a text finds what searching from the tail's start finds.
proof fn lemma_find_from_skip(text: Seq<char>, part: Seq<char>, start: int, from: int)
    requires
        0 <= start <= text.len(),
        0 <= from,
    ensures
        find_from(text.skip(start), part, from) == (match find_from(text, part, start + from) {
            Some(at) => Some(at - start),
            None => None,
        }),
    decreases text.len() - start - from,
{
    let tail = text.skip(start);
    if from + part.len() <= tail.len() {
        assert(tail.subrange(from, from + part.len()) =~= text.subrange(
            start + from,
            start + from + part.len(),
        ));
        if !occurs_at(tail, part, from) && from < tail.len() {
            lemma_find_from_skip(text, part, start, from + 1);
        }
    }
}

/// The text between the marker at a position and the next marker.
fn parse_wrapped_span(chars: &Vec<char>, at: usize, marker: &Vec<char>) -> (r: Option<
    (usize, String),
>)
    requires
        at <= chars.len(),
        0 < marker.len(),
    ensures
        match r {
            Some((length, inner)) => wrapped_span(chars@.skip(at as int), marker@) == Some(
                (length as int, inner@),
            ) && at + length <= chars.len() && length > 0 && inner@.len() < chars.len() - at,
            None => wrapped_span(chars@.skip(at as int), marker@) is None,
        },
{
    let ghost rest = chars@.skip(at as int);
    proof {
        if at + marker@.len() <= chars@.len() {
            assert(rest.subrange(0, marker@.len() as int) =~= chars@.subrange(
                at as int,
                at + marker@.len(),
            ));
        }
    }
    if !crate::text::stands_at(chars, marker, at) {
        return None;
    }
    let from: usize = at + marker.len();
    proof {
        lemma_find_from_skip(chars@, marker@, at as int, marker@.len() as int);
        lemma_find_from(chars@, marker@, from as int);
        lemma_wrapped_span(rest, marker@);
    }
    match position_of(chars, marker, from) {
        Some(end) => {
            if end == from {
                return None;
            }
            let inner = slice_text(chars, from, end);
            assert(inner@ =~= rest.subrange(marker@.len() as int, end - at));
            Some((end + marker.len() - at, inner))
        },
        None => None,
    }
}

/// The address and the label that stand between angle brackets.
fn parse_link_parts(inner: &str) -> (r: (String, String))
    ensures
        (r.0@, r.1@) == link_parts(inner@),
{
    let chars = to_chars(inner);
    proof {
        lemma_find_char(inner@, '|', 0);
    }
    match position_of_char(&chars, '|', 0) {
        Some(bar) => {
            let url = slice_text(&chars, 0, bar);
            let label = slice_text(&chars, bar + 1, chars.len());
            assert(url@ =~= inner@.take(bar as int));
            assert(label@ =~= inner@.skip(bar as int + 1));
            (trimmed(url.as_str()), trimmed(label.as_str()))
        },
        None => (trimmed(inner), trimmed(inner)),
    }
}

/// The link in angle brackets at a position: its length, its address and its label.
fn parse_angle_link(chars: &Vec<char>, at: usize) -> (r: Option<(usize, String, String)>)
    requires
        at < chars.len(),
    ensures
        match r {
            Some((length, url, label)) => angle_link(chars@.skip(at as int)) == Some(
                (length as int, url@, label@),
            ) && at + length <= chars.len() && length > 0,
            None => angle_link(chars@.skip(at as int)) is None,
        },
{
    let ghost rest = chars@.skip(at as int);
    assert(rest.first() == chars@[at as int]);
    if chars[at] != '<' {
        return None;
    }
    proof {
        lemma_find_char_skip(chars@, '>', at as int, 0);
        lemma_find_char(chars@, '>', at as int);
        lemma_find_char(rest, '>', 0);
    }
    match position_of_char(chars, '>', at) {
        Some(end) => {
            let inner = slice_text(chars, at + 1, end);
            assert(inner@ =~= rest.subrange(1, end - at));
            let (url, label) = parse_link_parts(inner.as_str());
            if begins_with(url.as_str(), "http://") || begins_with(url.as_str(), "https://")
                || begins_with(url.as_str(), "mailto:") {
                Some((end + 1 - at, url, label))
            } else {
                None
            }
        },
        None => None,
    }
}

/// The length of the text at a position up to the next special character.
fn plain_length(chars: &Vec<char>, at: usize) -> (r: usize)
    requires
        at < chars.len(),
    ensures
        r == (if next_special(chars@.skip(at as int), 0) > 0 {
            next_special(chars@.skip(at as int), 0)
        } else {
            1
        }),
        0 < r <= chars.len() - at,
{
    let ghost rest = chars@.skip(at as int);
    let mut i: usize = at;
    while i < chars.len() && !(chars[i] == '<' || chars[i] == '`' || chars[i] == '*' || chars[i]
        == '_' || chars[i] == '~')
        invariant
            at <= i <= chars.len(),
            rest == chars@.skip(at as int),
            next_special(rest, 0) == next_special(rest, i - at),
        decreases chars.len() - i,
    {
        assert(rest[i - at] == chars@[i as int]);
        i += 1;
    }
    if i < chars.len() {
        assert(rest[i - at] == chars@[i as int]);
    }
    if i > at {
        i - at
    } else {
        1
    }
}

/// The kinds of spans that a pair of markers makes.
#[derive(Clone, Copy, PartialEq, Eq, Structural)]
enum Mark {
    Code,
    Underline,
    Bold,
    Italic,
    Strike,
}

/// The style within a pair of markers.
fn marked(style: &SlackTextStyle, mark: Mark) -> (r: SlackTextStyle)
    ensures
        r.deep_view() == (match mark {
            Mark::Code => SlackTextStyleModel { code: true, ..style.deep_view() },
            Mark::Underline => SlackTextStyleModel { underline: true, ..style.deep_view() },
            Mark::Bold => SlackTextStyleModel { bold: true, ..style.deep_view() },
            Mark::Italic => SlackTextStyleModel { italic: true, ..style.deep_view() },
            Mark::Strike => SlackTextStyleModel { strike: true, ..style.deep_view() },
        }),
{
    let mut changed = style.clone();
    match mark {
        Mark::Code => {
            changed.code = true;
        },
        Mark::Underline => {
            changed.underline = true;
        },
        Mark::Bold => {
            changed.bold = true;
        },
        Mark::Italic => {
            changed.italic = true;
        },
        Mark::Strike => {
            changed.strike = true;
        },
    }
    changed
}

/// The span that a mark makes.
spec fn marked_span(mark: Mark, inner: Seq<char>) -> Span {
    match mark {
        Mark::Code => Span::Code { inner },
        Mark::Underline => Span::Underline { inner },
        Mark::Bold => Span::Bold { inner },
        Mark::Italic => Span::Italic { inner },
        Mark::Strike => Span::Strike { inner },
    }
}

/// The span between a pair of markers at a position, for the first kind that there is one of.
fn parse_marked_span(chars: &Vec<char>, at: usize) -> (r: Option<(usize, Mark, String)>)
    requires
        at < chars.len(),
        angle_link(chars@.skip(at as int)) is None,
    ensures
        match r {
            Some((length, mark, inner)) => span_at(chars@.skip(at as int)) == (
                length as int,
                marked_span(mark, inner@),
            ) && 0 < length <= chars.len() - at && inner@.len() < chars.len() - at,
            None => span_at(chars@.skip(at as int)).1 is Plain,
        },
{
    let code = vec!['`'];
    assert(code@ =~= seq!['`']);
    if let Some((length, inner)) = parse_wrapped_span(chars, at, &code) {
        return Some((length, Mark::Code, inner));
    }
    let underline = vec!['_', '_'];
    assert(underline@ =~= seq!['_', '_']);
    if let Some((length, inner)) = parse_wrapped_span(chars, at, &underline) {
        return Some((length, Mark::Underline, inner));
    }
    let bold = vec!['*'];
    assert(bold@ =~= seq!['*']);
    if let Some((length, inner)) = parse_wrapped_span(chars, at, &bold) {
        return Some((length, Mark::Bold, inner));
    }
    let italic = vec!['_'];
    assert(italic@ =~= seq!['_']);
    if let Some((length, inner)) = parse_wrapped_span(chars, at, &italic) {
        return Some((length, Mark::Italic, inner));
    }
    let strike = vec!['~'];
    assert(strike@ =~= seq!['~']);
    if let Some((length, inner)) = parse_wrapped_span(chars, at, &strike) {
        return Some((length, Mark::Strike, inner));
    }
    None
}

/// The segments of a text, in a style and in the styles that its marks add.
pub fn parse_fallback_inline_segments(text: &str, base_style: &SlackTextStyle) -> (r: Vec<
    SlackTextSegment,
>)
    ensures
        r.deep_view() == inline_segments(text@, base_style.deep_view()),
    decreases text@.len(),
{
    let chars = to_chars(text);
    let ghost style = base_style.deep_view();
    let mut segments: Vec<SlackTextSegment> = Vec::new();
    let mut at: usize = 0;
    assert(segments.deep_view() =~= Seq::empty());
    assert(text@.skip(0) =~= text@);
    while at < chars.len()
        invariant
            at <= chars.len(),
            chars@ == text@,
            style == base_style.deep_view(),
            inline_segments(text@, style) == inline_onto(
                segments.deep_view(),
                text@.skip(at as int),
                style,
            ),
        decreases chars.len() - at,
    {
        let ghost rest = text@.skip(at as int);
        let ghost before = segments.deep_view();
        proof {
            lemma_span_at(rest);
        }
        if let Some((length, url, label)) = parse_angle_link(&chars, at) {
            let shown = if label.as_str().is_empty() {
                url.clone()
            } else {
                label
            };
            let mut inner_style = base_style.clone();
            inner_style.link = Some(url);
            inner_style.underline = true;
            assert(span_at(rest).1.inner() == shown@);
            let nested = parse_fallback_inline_segments(shown.as_str(), &inner_style);
            append_segments(&mut segments, &nested);
            assert(rest.skip(length as int) =~= text@.skip(at + length));
            at += length;
            continue;
        }
        if let Some((length, mark, inner)) = parse_marked_span(&chars, at) {
            let inner_style = marked(base_style, mark);
            assert(rest.skip(length as int) =~= text@.skip(at + length));
            if let Mark::Code = mark {
                push_text_segment(&mut segments, inner.as_str(), &inner_style);
            } else {
                let nested = parse_fallback_inline_segments(inner.as_str(), &inner_style);
                append_segments(&mut segments, &nested);
            }
            at += length;
            continue;
        }
        let length = plain_length(&chars, at);
        let plain = slice_text(&chars, at, at + length);
        assert(plain@ =~= rest.take(length as int));
        push_text_segment(&mut segments, plain.as_str(), base_style);
        assert(rest.skip(length as int) =~= text@.skip(at + length));
        at += length;
    }
    assert(text@.skip(at as int) =~= Seq::empty());
    segments
}

/// Parsed segments are tidy: none is empty, and no two neighbours have one style.
pub proof fn law_inline_segments_are_tidy(text: Seq<char>, style: SlackTextStyleModel)
    ensures
        tidy(inline_segments(text, style)),
{
    lemma_inline_onto_tidy(Seq::empty(), text, style);
}

proof fn lemma_inline_onto_tidy(
    segments: Seq<SlackTextSegmentModel>,
    text: Seq<char>,
    style: SlackTextStyleModel,
)
    requires
        tidy(segments),
    ensures
        tidy(inline_onto(segments, text, style)),
    decreases text.len(),
{
    if text.len() > 0 {
        lemma_span_at(text);
        let (length, span) = span_at(text);
        if span.nests() {
            let nested = inline_onto(Seq::empty(), span.inner(), span.styled(style));
            law_appending_keeps_segments_tidy(segments, nested);
            lemma_inline_onto_tidy(appended(segments, nested), text.skip(length), style);
        } else {
            law_pushing_keeps_segments_tidy(segments, span.inner(), span.styled(style));
            lemma_inline_onto_tidy(
                pushed(segments, span.inner(), span.styled(style)),
                text.skip(length),
                style,
            );
        }
    }
}

/// A text without special characters is one segment with that text.
pub proof fn law_plain_text_is_one_segment(text: Seq<char>, style: SlackTextStyleModel)
    requires
        text.len() > 0,
        forall|i: int| 0 <= i < text.len() ==> !is_special(#[trigger] text[i]),
    ensures
        inline_segments(text, style) == seq![SlackTextSegmentModel { text, style }],
{
    lemma_no_special(text, 0);
    lemma_no_span(text, seq!['`']);
    lemma_no_span(text, seq!['_', '_']);
    lemma_no_span(text, seq!['*']);
    lemma_no_span(text, seq!['_']);
    lemma_no_span(text, seq!['~']);
    assert(text[0] == text.first());
    assert(text.take(text.len() as int) =~= text);
    assert(text.skip(text.len() as int) =~= Seq::empty());
    reveal_with_fuel(inline_onto, 2);
    assert(inline_segments(text, style) =~= seq![SlackTextSegmentModel { text, style }]);
}

proof fn lemma_no_special(text: Seq<char>, from: int)
    requires
        0 <= from <= text.len(),
        forall|i: int| 0 <= i < text.len() ==> !is_special(#[trigger] text[i]),
    ensures
        next_special(text, from) == text.len(),
    decreases text.len() - from,
{
    if from < text.len() {
        lemma_no_special(text, from + 1);
    }
}

proof fn lemma_no_span(text: Seq<char>, marker: Seq<char>)
    requires
        text.len() > 0,
        marker.len() > 0,
        is_special(marker[0]),
        !is_special(text[0]),
    ensures
        wrapped_span(text, marker) is None,
{
    if starts_with(text, marker) {
        assert(text.subrange(0, marker.len() as int)[0] == marker[0]);
    }
}

/// Every text has a segment: only the empty text has none.
pub proof fn law_text_has_segments(text: Seq<char>, style: SlackTextStyleModel)
    ensures
        inline_segments(text, style).len() == 0 <==> text.len() == 0,
    decreases text.len(),
{
    if text.len() > 0 {
        lemma_span_at(text);
        let (length, span) = span_at(text);
        if span.nests() {
            law_text_has_segments(span.inner(), span.styled(style));
            let nested = inline_segments(span.inner(), span.styled(style));
            lemma_inline_onto_tidy(Seq::empty(), span.inner(), span.styled(style));
            lemma_appended_grows(Seq::empty(), nested);
            lemma_inline_onto_grows(appended(Seq::empty(), nested), text.skip(length), style);
        } else {
            lemma_inline_onto_grows(
                pushed(Seq::empty(), span.inner(), span.styled(style)),
                text.skip(length),
                style,
            );
        }
    }
}

proof fn lemma_appended_grows(
    segments: Seq<SlackTextSegmentModel>,
    more: Seq<SlackTextSegmentModel>,
)
    ensures
        appended(segments, more).len() >= segments.len(),
        tidy(more) && more.len() > 0 ==> appended(segments, more).len() > 0,
    decreases more.len(),
{
    if more.len() > 0 {
        lemma_appended_grows(segments, more.drop_last());
        assert(more[more.len() - 1] == more.last());
    }
}

proof fn lemma_inline_onto_grows(
    segments: Seq<SlackTextSegmentModel>,
    text: Seq<char>,
    style: SlackTextStyleModel,
)
    ensures
        inline_onto(segments, text, style).len() >= segments.len(),
    decreases text.len(),
{
    if text.len() > 0 {
        lemma_span_at(text);
        let (length, span) = span_at(text);
        if span.nests() {
            let nested = inline_onto(Seq::empty(), span.inner(), span.styled(style));
            lemma_appended_grows(segments, nested);
            lemma_inline_onto_grows(appended(segments, nested), text.skip(length), style);
        } else {
            lemma_inline_onto_grows(
                pushed(segments, span.inner(), span.styled(style)),
                text.skip(length),
                style,
            );
        }
    }
}

} // verus!
