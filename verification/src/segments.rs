//! Styled text: segments, the blocks that messages are shown as, and their markup.
use vstd::prelude::*;
use vstd::string::*;

use crate::emoji::{render_slack_text, with_emoji};
use crate::text::{owned, same_option, to_chars};

verus! {

/// How a text is shown.
#[derive(Debug, PartialEq, Eq)]
pub struct SlackTextStyle {
    pub bold: bool,
    pub italic: bool,
    pub underline: bool,
    pub strike: bool,
    pub code: bool,
    pub link: Option<String>,
}

/// What a [`SlackTextStyle`] says: its texts as sequences of characters.
#[verifier::ext_equal]
pub struct SlackTextStyleModel {
    pub bold: bool,
    pub italic: bool,
    pub underline: bool,
    pub strike: bool,
    pub code: bool,
    pub link: Option<Seq<char>>,
}

impl DeepView for SlackTextStyle {
    type V = SlackTextStyleModel;

    open spec fn deep_view(&self) -> SlackTextStyleModel {
        SlackTextStyleModel {
            bold: self.bold,
            italic: self.italic,
            underline: self.underline,
            strike: self.strike,
            code: self.code,
            link: self.link.deep_view(),
        }
    }
}

impl Clone for SlackTextStyle {
    fn clone(&self) -> (copy: Self)
        ensures
            copy.deep_view() == self.deep_view(),
    {
        let copy = SlackTextStyle {
            bold: self.bold,
            italic: self.italic,
            underline: self.underline,
            strike: self.strike,
            code: self.code,
            link: self.link.clone(),
        };
        assert(copy.link.deep_view() =~= self.link.deep_view());
        copy
    }
}

impl Default for SlackTextStyle {
    fn default() -> (value: Self)
        ensures
            value.deep_view() == (SlackTextStyleModel {
                bold: false,
                italic: false,
                underline: false,
                strike: false,
                code: false,
                link: None,
            }),
    {
        let value = SlackTextStyle {
            bold: false,
            italic: false,
            underline: false,
            strike: false,
            code: false,
            link: None,
        };
        assert(value.deep_view() =~= (SlackTextStyleModel {
            bold: false,
            italic: false,
            underline: false,
            strike: false,
            code: false,
            link: None,
        }));
        value
    }
}

/// A text in one style.
#[derive(Debug, PartialEq, Eq)]
pub struct SlackTextSegment {
    pub text: String,
    pub style: SlackTextStyle,
}

/// What a [`SlackTextSegment`] says: its texts as sequences of characters.
#[verifier::ext_equal]
pub struct SlackTextSegmentModel {
    pub text: Seq<char>,
    pub style: SlackTextStyleModel,
}

impl DeepView for SlackTextSegment {
    type V = SlackTextSegmentModel;

    open spec fn deep_view(&self) -> SlackTextSegmentModel {
        SlackTextSegmentModel {
            text: self.text@,
            style: self.style.deep_view(),
        }
    }
}

impl Clone for SlackTextSegment {
    fn clone(&self) -> (copy: Self)
        ensures
            copy.deep_view() == self.deep_view(),
    {
        let copy = SlackTextSegment {
            text: self.text.clone(),
            style: self.style.clone(),
        };
        copy
    }
}

/// How the cells of a column are aligned.
#[derive(Clone, Copy, Debug, PartialEq, Eq, Structural)]
pub enum SlackTableAlignment {
    Left,
    Center,
    Right,
}

impl DeepView for SlackTableAlignment {
    type V = SlackTableAlignment;

    open spec fn deep_view(&self) -> SlackTableAlignment {
        *self
    }
}

/// A block of a message.
#[derive(Debug, PartialEq, Eq)]
pub enum SlackRenderBlock {
    Paragraph(Vec<SlackTextSegment>),
    Quote(Vec<SlackTextSegment>),
    CodeBlock { code: String, language_hint: Option<String> },
    Table { headers: Vec<Vec<SlackTextSegment>>, rows: Vec<Vec<Vec<SlackTextSegment>>>, alignments: Vec<SlackTableAlignment> },
    UnorderedList(Vec<Vec<SlackTextSegment>>),
    OrderedList(Vec<(usize, Vec<SlackTextSegment>)>),
}

/// What a [`SlackRenderBlock`] says: its texts as sequences of characters.
#[verifier::ext_equal]
pub enum SlackRenderBlockModel {
    Paragraph(Seq<SlackTextSegmentModel>),
    Quote(Seq<SlackTextSegmentModel>),
    CodeBlock { code: Seq<char>, language_hint: Option<Seq<char>> },
    Table { headers: Seq<Seq<SlackTextSegmentModel>>, rows: Seq<Seq<Seq<SlackTextSegmentModel>>>, alignments: Seq<SlackTableAlignment> },
    UnorderedList(Seq<Seq<SlackTextSegmentModel>>),
    OrderedList(Seq<(usize, Seq<SlackTextSegmentModel>)>),
}

impl DeepView for SlackRenderBlock {
    type V = SlackRenderBlockModel;

    open spec fn deep_view(&self) -> SlackRenderBlockModel {
        match self {
            SlackRenderBlock::Paragraph(a) => SlackRenderBlockModel::Paragraph(a.deep_view()),
            SlackRenderBlock::Quote(a) => SlackRenderBlockModel::Quote(a.deep_view()),
            SlackRenderBlock::CodeBlock { code, language_hint } => SlackRenderBlockModel::CodeBlock { code: code@, language_hint: language_hint.deep_view() },
            SlackRenderBlock::Table { headers, rows, alignments } => SlackRenderBlockModel::Table { headers: headers.deep_view(), rows: rows.deep_view(), alignments: alignments.deep_view() },
            SlackRenderBlock::UnorderedList(a) => SlackRenderBlockModel::UnorderedList(a.deep_view()),
            SlackRenderBlock::OrderedList(a) => SlackRenderBlockModel::OrderedList(a.deep_view()),
        }
    }
}

impl Clone for SlackRenderBlock {
    fn clone(&self) -> (copy: Self)
        ensures
            copy.deep_view() == self.deep_view(),
    {
        match self {
            SlackRenderBlock::Paragraph(a) => {
                let copy = SlackRenderBlock::Paragraph(a.clone());
                assert(copy.deep_view() =~~= self.deep_view());
                copy
            },
            SlackRenderBlock::Quote(a) => {
                let copy = SlackRenderBlock::Quote(a.clone());
                assert(copy.deep_view() =~~= self.deep_view());
                copy
            },
            SlackRenderBlock::CodeBlock { code, language_hint } => {
                let copy = SlackRenderBlock::CodeBlock { code: code.clone(), language_hint: language_hint.clone() };
                assert(copy.deep_view() =~~= self.deep_view());
                copy
            },
            SlackRenderBlock::Table { headers, rows, alignments } => {
                let copy = SlackRenderBlock::Table { headers: headers.clone(), rows: rows.clone(), alignments: alignments.clone() };
                assert(copy.deep_view() =~~= self.deep_view());
                copy
            },
            SlackRenderBlock::UnorderedList(a) => {
                let copy = SlackRenderBlock::UnorderedList(a.clone());
                assert(copy.deep_view() =~~= self.deep_view());
                copy
            },
            SlackRenderBlock::OrderedList(a) => {
                let copy = SlackRenderBlock::OrderedList(copy_numbered(a));
                assert(copy.deep_view() =~~= self.deep_view());
                copy
            },
        }
    }
}
/// The numbered items of a list once more.
fn copy_numbered(items: &Vec<(usize, Vec<SlackTextSegment>)>) -> (r: Vec<
    (usize, Vec<SlackTextSegment>),
>)
    ensures
        r.deep_view() == items.deep_view(),
{
    let mut copy: Vec<(usize, Vec<SlackTextSegment>)> = Vec::new();
    let mut i: usize = 0;
    while i < items.len()
        invariant
            i <= items.len(),
            copy.len() == i,
            forall|k: int| 0 <= k < i ==> (#[trigger] copy[k]).deep_view() == items[k].deep_view(),
        decreases items.len() - i,
    {
        let segments = items[i].1.clone();
        assert(segments.deep_view() =~= items[i as int].1.deep_view());
        copy.push((items[i].0, segments));
        i += 1;
    }
    assert(copy.deep_view() =~= items.deep_view());
    copy
}

/// The style of plain text.
pub open spec fn plain_style() -> SlackTextStyleModel {
    SlackTextStyleModel {
        bold: false,
        italic: false,
        underline: false,
        strike: false,
        code: false,
        link: None,
    }
}

/// A style with a link, which is also underlined.
pub open spec fn linked(style: SlackTextStyleModel, url: Seq<char>) -> SlackTextStyleModel {
    SlackTextStyleModel { link: Some(url), underline: true, ..style }
}

/// Segments with one more text at the end: nothing for an empty text; the last segment grows if
/// it has the same style.
pub open spec fn pushed(
    segments: Seq<SlackTextSegmentModel>,
    text: Seq<char>,
    style: SlackTextStyleModel,
) -> Seq<SlackTextSegmentModel> {
    if text.len() == 0 {
        segments
    } else if segments.len() > 0 && segments.last().style == style {
        segments.drop_last().push(
            SlackTextSegmentModel { text: segments.last().text + text, style },
        )
    } else {
        segments.push(SlackTextSegmentModel { text, style })
    }
}

/// Segments with others pushed behind them.
pub open spec fn appended(
    segments: Seq<SlackTextSegmentModel>,
    more: Seq<SlackTextSegmentModel>,
) -> Seq<SlackTextSegmentModel>
    decreases more.len(),
{
    if more.len() == 0 {
        segments
    } else {
        pushed(appended(segments, more.drop_last()), more.last().text, more.last().style)
    }
}

/// The text of segments, one after the other.
pub open spec fn segments_text(segments: Seq<SlackTextSegmentModel>) -> Seq<char>
    decreases segments.len(),
{
    if segments.len() == 0 {
        Seq::empty()
    } else {
        segments_text(segments.drop_last()) + segments.last().text
    }
}

/// Segments as they should be: none is empty, and no two neighbours have one style.
pub open spec fn tidy(segments: Seq<SlackTextSegmentModel>) -> bool {
    &&& forall|i: int| 0 <= i < segments.len() ==> (#[trigger] segments[i]).text.len() > 0
    &&& forall|i: int, j: int|
        0 <= i && j == i + 1 && j < segments.len() ==> (#[trigger] segments[i]).style != (
        #[trigger] segments[j]).style
}

/// Whether two styles are the same.
pub fn same_style(left: &SlackTextStyle, right: &SlackTextStyle) -> (r: bool)
    ensures
        r == (left.deep_view() == right.deep_view()),
{
    left.bold == right.bold && left.italic == right.italic && left.underline == right.underline
        && left.strike == right.strike && left.code == right.code && same_option(
        &left.link,
        &right.link,
    )
}

/// Puts a text behind the segments.
pub fn push_text_segment(
    segments: &mut Vec<SlackTextSegment>,
    text: &str,
    style: &SlackTextStyle,
)
    ensures
        final(segments).deep_view() == pushed(
            old(segments).deep_view(),
            text@,
            style.deep_view(),
        ),
{
    if text.is_empty() {
        return;
    }
    let ghost before = segments.deep_view();
    let count = segments.len();
    if count > 0 {
        assert(before.last() == segments[count - 1].deep_view());
        if same_style(&segments[count - 1].style, style) {
            match segments.pop() {
                Some(mut last) => {
                    assert(segments.deep_view() =~= before.drop_last());
                    last.text.append(text);
                    let ghost grown = last.deep_view();
                    segments.push(last);
                    assert(segments.deep_view() =~= before.drop_last().push(grown));
                },
                None => {},
            }
            return;
        }
    }
    let segment = SlackTextSegment { text: owned(text), style: style.clone() };
    let ghost added = segment.deep_view();
    segments.push(segment);
    assert(segments.deep_view() =~= before.push(added));
}

/// Puts segments behind others.
pub fn append_segments(target: &mut Vec<SlackTextSegment>, more: &Vec<SlackTextSegment>)
    ensures
        final(target).deep_view() == appended(old(target).deep_view(), more.deep_view()),
{
    let ghost all = more.deep_view();
    let mut i: usize = 0;
    assert(all.take(0) =~= Seq::empty());
    while i < more.len()
        invariant
            i <= more.len(),
            all == more.deep_view(),
            target.deep_view() == appended(old(target).deep_view(), all.take(i as int)),
        decreases more.len() - i,
    {
        assert(all.take(i as int + 1).drop_last() =~= all.take(i as int));
        assert(all.take(i as int + 1).last() == more[i as int].deep_view());
        push_text_segment(target, more[i].text.as_str(), &more[i].style);
        i += 1;
    }
    assert(all.take(i as int) =~= all);
}

/// The text of segments, one after the other.
pub fn plain_text(segments: &Vec<SlackTextSegment>) -> (r: String)
    ensures
        r@ == segments_text(segments.deep_view()),
{
    let ghost all = segments.deep_view();
    let mut out = String::new();
    let mut i: usize = 0;
    assert(all.take(0) =~= Seq::empty());
    while i < segments.len()
        invariant
            i <= segments.len(),
            all == segments.deep_view(),
            out@ == segments_text(all.take(i as int)),
        decreases segments.len() - i,
    {
        assert(all.take(i as int + 1).drop_last() =~= all.take(i as int));
        assert(all.take(i as int + 1).last() == segments[i as int].deep_view());
        out.append(segments[i].text.as_str());
        i += 1;
    }
    assert(all.take(i as int) =~= all);
    out
}

/// Pushing a text puts that text at the end.
pub proof fn law_pushing_keeps_the_text(
    segments: Seq<SlackTextSegmentModel>,
    text: Seq<char>,
    style: SlackTextStyleModel,
)
    ensures
        segments_text(pushed(segments, text, style)) == segments_text(segments) + text,
{
    let result = pushed(segments, text, style);
    if text.len() == 0 {
        assert(segments_text(segments) + text =~= segments_text(segments));
    } else if segments.len() > 0 && segments.last().style == style {
        assert(result.drop_last() =~= segments.drop_last());
        assert(segments_text(result) =~= segments_text(segments) + text);
    } else {
        assert(result.drop_last() =~= segments);
    }
}

/// Appending segments puts their text at the end.
pub proof fn law_appending_keeps_the_text(
    segments: Seq<SlackTextSegmentModel>,
    more: Seq<SlackTextSegmentModel>,
)
    ensures
        segments_text(appended(segments, more)) == segments_text(segments) + segments_text(more),
    decreases more.len(),
{
    if more.len() == 0 {
        assert(segments_text(segments) + Seq::<char>::empty() =~= segments_text(segments));
    } else {
        law_appending_keeps_the_text(segments, more.drop_last());
        law_pushing_keeps_the_text(
            appended(segments, more.drop_last()),
            more.last().text,
            more.last().style,
        );
        assert(segments_text(segments) + segments_text(more.drop_last()) + more.last().text
            =~= segments_text(segments) + segments_text(more));
    }
}

/// Pushing keeps segments tidy.
pub proof fn law_pushing_keeps_segments_tidy(
    segments: Seq<SlackTextSegmentModel>,
    text: Seq<char>,
    style: SlackTextStyleModel,
)
    requires
        tidy(segments),
    ensures
        tidy(pushed(segments, text, style)),
{
    let result = pushed(segments, text, style);
    assert forall|i: int| 0 <= i < result.len() implies (#[trigger] result[i]).text.len() > 0 by {
        if i < segments.len() {
            assert(segments[i].text.len() > 0);
        }
    }
    assert forall|i: int, j: int| 0 <= i && j == i + 1 && j < result.len() implies (
    #[trigger] result[i]).style != (#[trigger] result[j]).style by {
        if j < segments.len() {
            assert(segments[i].style != segments[j].style);
        }
    }
}

/// Appending keeps segments tidy.
pub proof fn law_appending_keeps_segments_tidy(
    segments: Seq<SlackTextSegmentModel>,
    more: Seq<SlackTextSegmentModel>,
)
    requires
        tidy(segments),
    ensures
        tidy(appended(segments, more)),
    decreases more.len(),
{
    if more.len() > 0 {
        law_appending_keeps_segments_tidy(segments, more.drop_last());
        law_pushing_keeps_segments_tidy(
            appended(segments, more.drop_last()),
            more.last().text,
            more.last().style,
        );
    }
}

/// A number below sixteen as a hexadecimal digit in lowercase.
pub open spec fn hex_digit(value: int) -> char {
    if value < 10 {
        (48 + value) as char
    } else {
        (87 + value) as char
    }
}

/// Whether a character is a control character that markup cannot hold as it is.
pub open spec fn is_markup_control(c: char) -> bool {
    let code = c as u32;
    1 <= code <= 8 || 11 <= code <= 12 || 14 <= code <= 31 || 127 <= code <= 132 || 134 <= code
        <= 159
}

/// A character as markup: the five special characters by name, control characters by number.
pub open spec fn escaped_char(c: char) -> Seq<char> {
    if c == '&' {
        "&amp;"@
    } else if c == '<' {
        "&lt;"@
    } else if c == '>' {
        "&gt;"@
    } else if c == '\'' {
        "&apos;"@
    } else if c == '"' {
        "&quot;"@
    } else if is_markup_control(c) {
        let code = c as u32 as int;
        if code < 16 {
            "&#x"@ + seq![hex_digit(code)] + ";"@
        } else {
            "&#x"@ + seq![hex_digit(code / 16), hex_digit(code % 16)] + ";"@
        }
    } else {
        seq![c]
    }
}

/// A text as markup.
pub open spec fn escaped(text: Seq<char>) -> Seq<char>
    decreases text.len(),
{
    if text.len() == 0 {
        Seq::empty()
    } else {
        escaped(text.drop_last()) + escaped_char(text.last())
    }
}

fn hex_char(value: u8) -> (r: char)
    requires
        value < 16,
    ensures
        r == hex_digit(value as int),
{
    if value < 10 {
        (48 + value) as char
    } else {
        (87 + value) as char
    }
}

/// The text as markup, with what is special in it escaped.
pub fn escape_markup(text: &str) -> (r: String)
    ensures
        r@ == escaped(text@),
{
    let chars = to_chars(text);
    let mut out = String::new();
    let mut i: usize = 0;
    assert(text@.take(0) =~= Seq::empty());
    while i < chars.len()
        invariant
            i <= chars.len(),
            chars@ == text@,
            out@ == escaped(text@.take(i as int)),
        decreases chars.len() - i,
    {
        let c = chars[i];
        let ghost before = out@;
        assert(text@.take(i as int + 1).drop_last() =~= text@.take(i as int));
        if c == '&' {
            out.append("&amp;");
        } else if c == '<' {
            out.append("&lt;");
        } else if c == '>' {
            out.append("&gt;");
        } else if c == '\'' {
            out.append("&apos;");
        } else if c == '"' {
            out.append("&quot;");
        } else {
            let code: u32 = c as u32;
            if (1 <= code && code <= 8) || (11 <= code && code <= 12) || (14 <= code && code <= 31)
                || (127 <= code && code <= 132) || (134 <= code && code <= 159) {
                let small: u8 = code as u8;
                out.append("&#x");
                if small >= 16 {
                    out.push(hex_char(small / 16));
                    out.push(hex_char(small % 16));
                } else {
                    out.push(hex_char(small));
                }
                out.append(";");
            } else {
                out.push(c);
            }
        }
        assert(out@ =~= before + escaped_char(c));
        i += 1;
    }
    assert(text@.take(i as int) =~= text@);
    out
}

/// A text between two others.
pub open spec fn wrapped(open: Seq<char>, inner: Seq<char>, close: Seq<char>) -> Seq<char> {
    open + inner + close
}

/// The markup of a segment: its text, with the tags of its style from the innermost to the
/// outermost.
pub open spec fn segment_markup(segment: SlackTextSegmentModel) -> Seq<char> {
    let text = escaped(with_emoji(segment.text));
    if text.len() == 0 {
        Seq::empty()
    } else {
        let coded = if segment.style.code {
            wrapped("<tt>"@, text, "</tt>"@)
        } else {
            text
        };
        let bolded = if segment.style.bold {
            wrapped("<b>"@, coded, "</b>"@)
        } else {
            coded
        };
        let slanted = if segment.style.italic {
            wrapped("<i>"@, bolded, "</i>"@)
        } else {
            bolded
        };
        let underlined = if segment.style.underline {
            wrapped("<u>"@, slanted, "</u>"@)
        } else {
            slanted
        };
        let struck = if segment.style.strike {
            wrapped("<s>"@, underlined, "</s>"@)
        } else {
            underlined
        };
        match segment.style.link {
            Some(url) => wrapped(
                wrapped("<a href=\""@, escaped(url), "\">"@),
                struck,
                "</a>"@,
            ),
            None => struck,
        }
    }
}

/// The markup of segments, one after the other.
pub open spec fn segments_markup(segments: Seq<SlackTextSegmentModel>) -> Seq<char>
    decreases segments.len(),
{
    if segments.len() == 0 {
        Seq::empty()
    } else {
        segments_markup(segments.drop_last()) + segment_markup(segments.last())
    }
}

fn wrap(open: &str, inner: String, close: &str) -> (r: String)
    ensures
        r@ == wrapped(open@, inner@, close@),
{
    let mut out = owned(open);
    out.append(inner.as_str());
    out.append(close);
    out
}

/// The markup of a segment.
fn render_segment_markup(segment: &SlackTextSegment) -> (r: String)
    ensures
        r@ == segment_markup(segment.deep_view()),
{
    let shown = render_slack_text(segment.text.as_str());
    let mut content = escape_markup(shown.as_str());
    if content.as_str().is_empty() {
        assert(content@ =~= Seq::empty());
        return content;
    }
    if segment.style.code {
        content = wrap("<tt>", content, "</tt>");
    }
    if segment.style.bold {
        content = wrap("<b>", content, "</b>");
    }
    if segment.style.italic {
        content = wrap("<i>", content, "</i>");
    }
    if segment.style.underline {
        content = wrap("<u>", content, "</u>");
    }
    if segment.style.strike {
        content = wrap("<s>", content, "</s>");
    }
    if let Some(url) = &segment.style.link {
        let href = escape_markup(url.as_str());
        let open = wrap("<a href=\"", href, "\">");
        content = wrap(open.as_str(), content, "</a>");
    }
    content
}

/// The markup of segments, one after the other.
pub fn render_segments_markup(segments: &Vec<SlackTextSegment>) -> (r: String)
    ensures
        r@ == segments_markup(segments.deep_view()),
{
    let ghost all = segments.deep_view();
    let mut out = String::new();
    let mut i: usize = 0;
    assert(all.take(0) =~= Seq::empty());
    while i < segments.len()
        invariant
            i <= segments.len(),
            all == segments.deep_view(),
            out@ == segments_markup(all.take(i as int)),
        decreases segments.len() - i,
    {
        assert(all.take(i as int + 1).drop_last() =~= all.take(i as int));
        assert(all.take(i as int + 1).last() == segments[i as int].deep_view());
        let markup = render_segment_markup(&segments[i]);
        out.append(markup.as_str());
        i += 1;
    }
    assert(all.take(i as int) =~= all);
    out
}

/// Escaped text holds no character that opens or closes a tag or a quoted value.
pub proof fn law_escaped_text_holds_no_markup(text: Seq<char>)
    ensures
        !escaped(text).contains('<'),
        !escaped(text).contains('>'),
        !escaped(text).contains('"'),
        !escaped(text).contains('\''),
    decreases text.len(),
{
    reveal_strlit("&amp;");
    reveal_strlit("&lt;");
    reveal_strlit("&gt;");
    reveal_strlit("&apos;");
    reveal_strlit("&quot;");
    reveal_strlit("&#x");
    reveal_strlit(";");
    if text.len() > 0 {
        law_escaped_text_holds_no_markup(text.drop_last());
        let head = escaped(text.drop_last());
        let tail = escaped_char(text.last());
        assert forall|i: int| 0 <= i < escaped(text).len() implies {
            let c = #[trigger] escaped(text)[i];
            c != '<' && c != '>' && c != '"' && c != '\''
        } by {
            if i < head.len() {
                assert(head.contains(head[i]));
            } else {
                assert(escaped(text)[i] == tail[i - head.len()]);
            }
        }
    }
}

} // verus!
