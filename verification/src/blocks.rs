//! The blocks of a message that is written as plain text: code, tables, quotes, lists, paragraphs.
use vstd::prelude::*;

use crate::inline::{inline_segments, parse_fallback_inline_segments};
use crate::segments::{
    plain_style, SlackRenderBlock, SlackRenderBlockModel, SlackTableAlignment, SlackTextSegment,
    SlackTextSegmentModel, SlackTextStyle,
};
use crate::text::{
    after_prefix, all_digits, ascii_lowercase, begins_with, blank, digits_value, first_word,
    is_blank, is_digit, join, join_texts, lines, parse_number, slice_text, split, split_lines,
    split_text, starts_with, strip_leading, strip_trailing, to_ascii_lower, to_chars, trim,
    trim_start, trimmed, trimmed_start, without_leading, without_trailing, word_of,
};

verus! {

/// A text with line feeds for the pairs of carriage return and line feed.
pub open spec fn with_line_feeds(text: Seq<char>) -> Seq<char>
    decreases text.len(),
{
    if text.len() == 0 {
        Seq::empty()
    } else if text.len() >= 2 && text[0] == '\r' && text[1] == '\n' {
        seq!['\n'] + with_line_feeds(text.skip(2))
    } else {
        seq![text[0]] + with_line_feeds(text.skip(1))
    }
}

/// What follows a prefix.
pub open spec fn after(text: Seq<char>, prefix: Seq<char>) -> Option<Seq<char>> {
    if starts_with(text, prefix) {
        Some(text.skip(prefix.len() as int))
    } else {
        None
    }
}

/// The first of two that is there.
pub open spec fn either<T>(first: Option<T>, second: Option<T>) -> Option<T> {
    match first {
        Some(_) => first,
        None => second,
    }
}

/// The content of a line of an unordered list.
pub open spec fn unordered_content(line: Seq<char>) -> Option<Seq<char>> {
    let text = trim_start(line);
    either(after(text, "- "@), either(after(text, "* "@), after(text, "• "@)))
}

/// How many digits a text starts with.
pub open spec fn leading_digits(text: Seq<char>) -> int
    decreases text.len(),
{
    if text.len() > 0 && is_digit(text.first()) {
        1 + leading_digits(text.skip(1))
    } else {
        0
    }
}

/// The number and the content of a line of an ordered list: digits, a point or a bracket, and
/// something behind it.
pub open spec fn ordered_content(line: Seq<char>) -> Option<(usize, Seq<char>)> {
    let text = trim_start(line);
    let digits = leading_digits(text);
    if 0 < digits < text.len() && (text[digits] == '.' || text[digits] == ')') {
        let body = trim_start(text.skip(digits + 1));
        let number = digits_value(text.take(digits));
        if body.len() > 0 && number <= usize::MAX {
            Some((number as usize, body))
        } else {
            None
        }
    } else {
        None
    }
}

/// The content of a line of a quote.
pub open spec fn quote_content(line: Seq<char>) -> Option<Seq<char>> {
    let text = trim_start(line);
    either(after(text, "> "@), after(text, ">"@))
}

/// Whether a line opens or closes a block of code.
pub open spec fn is_fence(line: Seq<char>) -> bool {
    starts_with(trim_start(line), "```"@)
}

/// The language that the opening line of a block of code names.
pub open spec fn fence_language(line: Seq<char>) -> Option<Seq<char>> {
    let rest = trim(strip_leading(trim_start(line), '`'));
    if is_fence(line) && rest.len() > 0 {
        Some(ascii_lowercase(first_word(rest)))
    } else {
        None
    }
}

/// The cells of a row of a table: what stands between bars, if there is a bar and a cell that is
/// not empty.
pub open spec fn table_row(line: Seq<char>) -> Option<Seq<Seq<char>>> {
    let text = trim(line);
    if !text.contains('|') {
        None
    } else {
        let cells = split(strip_trailing(strip_leading(text, '|'), '|'), '|').map_values(
            |cell: Seq<char>| trim(cell),
        );
        if forall|i: int| 0 <= i < cells.len() ==> (#[trigger] cells[i]).len() == 0 {
            None
        } else {
            Some(cells)
        }
    }
}

/// The alignment that a cell of a table's second line gives: hyphens, with a colon at the side or
/// sides to align to.
pub open spec fn cell_alignment(cell: Seq<char>) -> Option<SlackTableAlignment> {
    let text = trim(cell);
    let compact = text.filter(|c: char| c != ' ');
    if text.len() < 3 || exists|i: int|
        0 <= i < text.len() && !is_alignment_char(#[trigger] text[i]) {
        None
    } else if !compact.contains('-') {
        None
    } else if compact.last() == ':' {
        if compact.first() == ':' {
            Some(SlackTableAlignment::Center)
        } else {
            Some(SlackTableAlignment::Right)
        }
    } else {
        Some(SlackTableAlignment::Left)
    }
}

/// Whether a character may stand in a table's second line.
pub open spec fn is_alignment_char(c: char) -> bool {
    c == '-' || c == ':' || c == ' '
}

/// The alignments of all cells, if each cell gives one.
pub open spec fn all_alignments(cells: Seq<Seq<char>>) -> Option<Seq<SlackTableAlignment>>
    decreases cells.len(),
{
    if cells.len() == 0 {
        Some(Seq::empty())
    } else {
        match (all_alignments(cells.drop_last()), cell_alignment(cells.last())) {
            (Some(others), Some(alignment)) => Some(others.push(alignment)),
            _ => None,
        }
    }
}

/// What a line can be.
pub enum LineKind {
    /// No opening or closing line of a block of code.
    Code,
    Quote,
    Unordered,
    Ordered,
    /// A line that goes on with a paragraph.
    Paragraph,
    /// A row of a table that has so many columns.
    Row(usize),
}

/// Whether a line is of a kind.
pub open spec fn is_kind(kind: LineKind, line: Seq<char>) -> bool {
    match kind {
        LineKind::Code => !is_fence(line),
        LineKind::Quote => quote_content(line) is Some,
        LineKind::Unordered => unordered_content(line) is Some,
        LineKind::Ordered => ordered_content(line) is Some,
        LineKind::Paragraph => !is_blank(line) && !is_fence(line) && quote_content(line) is None
            && unordered_content(line) is None && ordered_content(line) is None,
        LineKind::Row(columns) => !is_blank(line) && (table_row(line) matches Some(cells)
            && cells.len() == columns),
    }
}

/// How many lines of a kind come first.
pub open spec fn leading(kind: LineKind, lines: Seq<Seq<char>>) -> int
    decreases lines.len(),
{
    if lines.len() > 0 && is_kind(kind, lines.first()) {
        1 + leading(kind, lines.skip(1))
    } else {
        0
    }
}

/// The segments of a text in the plain style.
pub open spec fn plain_segments(text: Seq<char>) -> Seq<SlackTextSegmentModel> {
    inline_segments(text, plain_style())
}

/// The segments of each cell of a row.
pub open spec fn cell_segments(cells: Seq<Seq<char>>) -> Seq<Seq<SlackTextSegmentModel>> {
    cells.map_values(|cell: Seq<char>| plain_segments(cell))
}

/// The table at the start of the lines, and how many lines it has: a row of headers, a line of as
/// many alignments, and all rows of that width that follow.
pub open spec fn table_block(lines: Seq<Seq<char>>) -> Option<(int, SlackRenderBlockModel)> {
    if lines.len() < 2 {
        None
    } else {
        match (table_row(lines[0]), table_row(lines[1])) {
            (Some(headers), Some(separators)) if headers.len() == separators.len() => {
                match all_alignments(separators) {
                    Some(alignments) => {
                        let count = leading(LineKind::Row(headers.len() as usize), lines.skip(2));
                        Some(
                            (
                                2 + count,
                                SlackRenderBlockModel::Table {
                                    headers: cell_segments(headers),
                                    rows: lines.subrange(2, 2 + count).map_values(
                                        |line: Seq<char>| cell_segments(table_row(line).unwrap()),
                                    ),
                                    alignments,
                                },
                            ),
                        )
                    },
                    None => None,
                }
            },
            _ => None,
        }
    }
}

/// The block at the start of lines of which the first is not blank, and how many lines it has.
pub open spec fn first_block(lines: Seq<Seq<char>>) -> (int, SlackRenderBlockModel) {
    let first = lines.first();
    if is_fence(first) {
        let count = leading(LineKind::Code, lines.skip(1));
        (
            if 1 + count < lines.len() {
                2 + count
            } else {
                1 + count
            },
            SlackRenderBlockModel::CodeBlock {
                code: join(lines.subrange(1, 1 + count), seq!['\n']),
                language_hint: fence_language(first),
            },
        )
    } else if let Some((count, table)) = table_block(lines) {
        (count, table)
    } else if quote_content(first) is Some {
        let count = leading(LineKind::Quote, lines);
        (
            count,
            SlackRenderBlockModel::Quote(
                plain_segments(
                    join(
                        lines.take(count).map_values(
                            |line: Seq<char>| quote_content(line).unwrap(),
                        ),
                        seq!['\n'],
                    ),
                ),
            ),
        )
    } else if unordered_content(first) is Some {
        let count = leading(LineKind::Unordered, lines);
        (
            count,
            SlackRenderBlockModel::UnorderedList(
                lines.take(count).map_values(
                    |line: Seq<char>| plain_segments(unordered_content(line).unwrap()),
                ),
            ),
        )
    } else if ordered_content(first) is Some {
        let count = leading(LineKind::Ordered, lines);
        (
            count,
            SlackRenderBlockModel::OrderedList(
                lines.take(count).map_values(
                    |line: Seq<char>|
                        (
                            ordered_content(line).unwrap().0,
                            plain_segments(ordered_content(line).unwrap().1),
                        ),
                ),
            ),
        )
    } else {
        let count = 1 + leading(LineKind::Paragraph, lines.skip(1));
        (
            count,
            SlackRenderBlockModel::Paragraph(
                plain_segments(join(lines.take(count), seq!['\n'])),
            ),
        )
    }
}

/// The lines of a kind that come first are no more than there are, and are all of the kind.
pub proof fn lemma_leading(kind: LineKind, lines: Seq<Seq<char>>)
    ensures
        0 <= leading(kind, lines) <= lines.len(),
        forall|i: int|
            0 <= i < leading(kind, lines) ==> is_kind(kind, #[trigger] lines[i]),
        leading(kind, lines) < lines.len() ==> !is_kind(kind, lines[leading(kind, lines)]),
    decreases lines.len(),
{
    if lines.len() > 0 && is_kind(kind, lines.first()) {
        let rest = lines.skip(1);
        lemma_leading(kind, rest);
        assert forall|i: int| 0 <= i < leading(kind, lines) implies is_kind(
            kind,
            #[trigger] lines[i],
        ) by {
            if i > 0 {
                assert(rest[i - 1] == lines[i]);
            }
        }
    }
}

/// The first block has at least one line and no more than there are.
pub proof fn lemma_first_block(lines: Seq<Seq<char>>)
    requires
        lines.len() > 0,
    ensures
        0 < first_block(lines).0 <= lines.len(),
{
    lemma_leading(LineKind::Code, lines.skip(1));
    lemma_leading(LineKind::Quote, lines);
    lemma_leading(LineKind::Unordered, lines);
    lemma_leading(LineKind::Ordered, lines);
    lemma_leading(LineKind::Paragraph, lines.skip(1));
    if let Some(headers) = table_row(lines[0]) {
        if lines.len() >= 2 {
            lemma_leading(LineKind::Row(headers.len() as usize), lines.skip(2));
        }
    }
}

/// The blocks of lines. Blank lines separate.
pub open spec fn line_blocks(lines: Seq<Seq<char>>) -> Seq<SlackRenderBlockModel>
    decreases lines.len(),
{
    if lines.len() == 0 {
        Seq::empty()
    } else if is_blank(lines.first()) {
        line_blocks(lines.skip(1))
    } else {
        proof {
            lemma_first_block(lines);
        }
        let (count, block) = first_block(lines);
        seq![block] + line_blocks(lines.skip(count))
    }
}

/// The blocks of a text.
pub open spec fn fallback_blocks(text: Seq<char>) -> Seq<SlackRenderBlockModel> {
    line_blocks(lines(with_line_feeds(text)))
}

fn normalize_line_feeds(text: &str) -> (r: String)
    ensures
        r@ == with_line_feeds(text@),
{
    let chars = to_chars(text);
    let mut out = String::new();
    let mut i: usize = 0;
    assert(text@.skip(0) =~= text@);
    assert(Seq::<char>::empty() + with_line_feeds(text@) =~= with_line_feeds(text@));
    while i < chars.len()
        invariant
            i <= chars.len(),
            chars@ == text@,
            out@ + with_line_feeds(text@.skip(i as int)) == with_line_feeds(text@),
        decreases chars.len() - i,
    {
        let ghost before = out@;
        let ghost rest = text@.skip(i as int);
        if chars.len() - i >= 2 && chars[i] == '\r' && chars[i + 1] == '\n' {
            out.push('\n');
            assert(rest.skip(2) =~= text@.skip(i + 2));
            assert(before + (seq!['\n'] + with_line_feeds(text@.skip(i + 2))) =~= out@
                + with_line_feeds(text@.skip(i + 2)));
            i += 2;
        } else {
            out.push(chars[i]);
            assert(rest.skip(1) =~= text@.skip(i + 1));
            assert(before + (seq![rest[0]] + with_line_feeds(text@.skip(i + 1))) =~= out@
                + with_line_feeds(text@.skip(i + 1)));
            i += 1;
        }
    }
    assert(text@.skip(i as int) =~= Seq::empty());
    assert(out@ + Seq::<char>::empty() =~= out@);
    out
}

fn unordered_list_content(line: &str) -> (r: Option<String>)
    ensures
        r.deep_view() == unordered_content(line@),
{
    let text = trimmed_start(line);
    if let Some(content) = after_prefix(text.as_str(), "- ") {
        return Some(content);
    }
    if let Some(content) = after_prefix(text.as_str(), "* ") {
        return Some(content);
    }
    after_prefix(text.as_str(), "• ")
}

proof fn lemma_leading_digits(text: Seq<char>)
    ensures
        0 <= leading_digits(text) <= text.len(),
        all_digits(text.take(leading_digits(text))),
    decreases text.len(),
{
    if text.len() > 0 && is_digit(text.first()) {
        lemma_leading_digits(text.skip(1));
        let head = text.take(leading_digits(text));
        assert forall|i: int| 0 <= i < head.len() implies is_digit(#[trigger] head[i]) by {
            if i > 0 {
                assert(text.skip(1).take(leading_digits(text) - 1)[i - 1] == head[i]);
            }
        }
    }
}

fn ordered_list_content(line: &str) -> (r: Option<(usize, String)>)
    ensures
        r.deep_view() == ordered_content(line@),
{
    let text = trimmed_start(line);
    let chars = to_chars(text.as_str());
    let mut digits: usize = 0;
    assert(text@.skip(0) =~= text@);
    proof {
        lemma_leading_digits(text@);
    }
    while digits < chars.len() && '0' <= chars[digits] && chars[digits] <= '9'
        invariant
            digits <= chars.len(),
            chars@ == text@,
            leading_digits(text@) == digits + leading_digits(text@.skip(digits as int)),
        decreases chars.len() - digits,
    {
        assert(text@.skip(digits as int).skip(1) =~= text@.skip(digits as int + 1));
        digits += 1;
    }
    if digits == 0 || digits >= chars.len() {
        return None;
    }
    if chars[digits] != '.' && chars[digits] != ')' {
        return None;
    }
    let tail = slice_text(&chars, digits + 1, chars.len());
    assert(tail@ =~= text@.skip(digits as int + 1));
    let body = trimmed_start(tail.as_str());
    if body.as_str().is_empty() {
        return None;
    }
    let head = slice_text(&chars, 0, digits);
    assert(head@ =~= text@.take(digits as int));
    assert(is_digit(head@.first()));
    match parse_number(head.as_str(), usize::MAX as u64) {
        Some(number) => Some((number as usize, body)),
        None => None,
    }
}

fn quoted_content(line: &str) -> (r: Option<String>)
    ensures
        r.deep_view() == quote_content(line@),
{
    let text = trimmed_start(line);
    if let Some(content) = after_prefix(text.as_str(), "> ") {
        return Some(content);
    }
    after_prefix(text.as_str(), ">")
}

fn fence(line: &str) -> (r: bool)
    ensures
        r == is_fence(line@),
{
    let text = trimmed_start(line);
    begins_with(text.as_str(), "```")
}

fn fenced_code_language(line: &str) -> (r: Option<String>)
    ensures
        r.deep_view() == fence_language(line@),
{
    if !fence(line) {
        return None;
    }
    let text = trimmed_start(line);
    let bare = without_leading(text.as_str(), '`');
    let rest = trimmed(bare.as_str());
    if rest.as_str().is_empty() {
        None
    } else {
        Some(to_ascii_lower(word_of(rest.as_str()).as_str()))
    }
}

/// Whether a character stands in a text.
fn holds_char(text: &str, c: char) -> (r: bool)
    ensures
        r == text@.contains(c),
{
    let chars = to_chars(text);
    let mut i: usize = 0;
    while i < chars.len()
        invariant
            i <= chars.len(),
            chars@ == text@,
            forall|k: int| 0 <= k < i ==> text@[k] != c,
        decreases chars.len() - i,
    {
        if chars[i] == c {
            assert(text@[i as int] == c);
            return true;
        }
        i += 1;
    }
    false
}

fn split_gfm_table_row(line: &str) -> (r: Option<Vec<String>>)
    ensures
        r.deep_view() == table_row(line@),
{
    let text = trimmed(line);
    if !holds_char(text.as_str(), '|') {
        return None;
    }
    let open = without_leading(text.as_str(), '|');
    let inner = without_trailing(open.as_str(), '|');
    let parts = split_text(inner.as_str(), '|');
    let ghost cells = parts.deep_view().map_values(|cell: Seq<char>| trim(cell));
    let mut row: Vec<String> = Vec::new();
    let mut filled = false;
    let mut i: usize = 0;
    while i < parts.len()
        invariant
            i <= parts.len(),
            cells == parts.deep_view().map_values(|cell: Seq<char>| trim(cell)),
            row.deep_view() == cells.take(i as int),
            filled == exists|k: int| 0 <= k < i && (#[trigger] cells[k]).len() > 0,
        decreases parts.len() - i,
    {
        let ghost before = row.deep_view();
        let cell = trimmed(parts[i].as_str());
        assert(cells[i as int] == cell@);
        if !cell.as_str().is_empty() {
            filled = true;
        }
        row.push(cell);
        assert(row.deep_view() =~= before.push(cells[i as int]));
        assert(cells.take(i as int + 1) =~= cells.take(i as int).push(cells[i as int]));
        i += 1;
    }
    assert(cells.take(i as int) =~= cells);
    if filled {
        Some(row)
    } else {
        None
    }
}

fn parse_gfm_alignment_cell(cell: &str) -> (r: Option<SlackTableAlignment>)
    ensures
        r == cell_alignment(cell@),
{
    let text = trimmed(cell);
    let chars = to_chars(text.as_str());
    if chars.len() < 3 {
        return None;
    }
    let ghost keep = |c: char| c != ' ';
    let ghost compact = text@.filter(keep);
    let mut kept: Vec<char> = Vec::new();
    let mut hyphen = false;
    let mut i: usize = 0;
    proof {
        reveal(Seq::filter);
        assert(text@.take(0) =~= Seq::empty());
    }
    while i < chars.len()
        invariant
            i <= chars.len(),
            chars@ == text@,
            text@ == trim(cell@),
            keep == (|c: char| c != ' '),
            kept@ == text@.take(i as int).filter(keep),
            hyphen == kept@.contains('-'),
            forall|k: int| 0 <= k < i ==> is_alignment_char(#[trigger] text@[k]),
        decreases chars.len() - i,
    {
        let c = chars[i];
        proof {
            reveal(Seq::filter);
            assert(text@.take(i as int + 1).drop_last() =~= text@.take(i as int));
        }
        if c != '-' && c != ':' && c != ' ' {
            assert(!is_alignment_char(text@[i as int]));
            return None;
        }
        if c != ' ' {
            let ghost before = kept@;
            kept.push(c);
            assert(kept@[before.len() as int] == c);
            assert forall|x: char| before.contains(x) implies kept@.contains(x) by {
                let k = choose|k: int| 0 <= k < before.len() && before[k] == x;
                assert(kept@[k] == x);
            }
            if c == '-' {
                hyphen = true;
            }
        }
        i += 1;
    }
    assert(text@.take(i as int) =~= text@);
    if !hyphen {
        return None;
    }
    let count = kept.len();
    assert(compact.last() == kept@[count - 1]);
    assert(compact.first() == kept@[0]);
    if kept[count - 1] == ':' {
        if kept[0] == ':' {
            Some(SlackTableAlignment::Center)
        } else {
            Some(SlackTableAlignment::Right)
        }
    } else {
        Some(SlackTableAlignment::Left)
    }
}

proof fn lemma_alignments_prefix(cells: Seq<Seq<char>>, at: int)
    requires
        0 <= at < cells.len(),
        cell_alignment(cells[at]) is None,
    ensures
        all_alignments(cells) is None,
    decreases cells.len(),
{
    if at < cells.len() - 1 {
        assert(cells.drop_last()[at] == cells[at]);
        lemma_alignments_prefix(cells.drop_last(), at);
    }
}

fn parse_alignments(cells: &Vec<String>) -> (r: Option<Vec<SlackTableAlignment>>)
    ensures
        r.deep_view() == all_alignments(cells.deep_view()),
{
    let ghost all = cells.deep_view();
    let mut out: Vec<SlackTableAlignment> = Vec::new();
    let mut i: usize = 0;
    assert(all.take(0) =~= Seq::empty());
    assert(out.deep_view() =~= Seq::empty());
    while i < cells.len()
        invariant
            i <= cells.len(),
            all == cells.deep_view(),
            all_alignments(all.take(i as int)) == Some(out.deep_view()),
        decreases cells.len() - i,
    {
        let ghost before = out.deep_view();
        assert(all.take(i as int + 1).drop_last() =~= all.take(i as int));
        assert(all.take(i as int + 1).last() == cells[i as int]@);
        match parse_gfm_alignment_cell(cells[i].as_str()) {
            Some(alignment) => {
                out.push(alignment);
                assert(out.deep_view() =~= before.push(alignment));
            },
            None => {
                proof {
                    lemma_alignments_prefix(all, i as int);
                }
                return None;
            },
        }
        i += 1;
    }
    assert(all.take(i as int) =~= all);
    Some(out)
}

/// Whether a line is of a kind.
fn line_is(kind: &LineKind, line: &str) -> (r: bool)
    ensures
        r == is_kind(*kind, line@),
{
    match kind {
        LineKind::Code => !fence(line),
        LineKind::Quote => quoted_content(line).is_some(),
        LineKind::Unordered => unordered_list_content(line).is_some(),
        LineKind::Ordered => ordered_list_content(line).is_some(),
        LineKind::Paragraph => !blank(line) && !fence(line) && quoted_content(line).is_none()
            && unordered_list_content(line).is_none() && ordered_list_content(line).is_none(),
        LineKind::Row(columns) => !blank(line) && match split_gfm_table_row(line) {
            Some(cells) => cells.len() == *columns,
            None => false,
        },
    }
}

/// The position behind the lines of a kind that stand from a position on.
fn end_of_kind(kind: &LineKind, all: &Vec<String>, from: usize) -> (end: usize)
    requires
        from <= all.len(),
    ensures
        end == from + leading(*kind, all.deep_view().skip(from as int)),
        from <= end <= all.len(),
{
    let ghost texts = all.deep_view();
    let mut end: usize = from;
    while end < all.len() && line_is(kind, all[end].as_str())
        invariant
            from <= end <= all.len(),
            texts == all.deep_view(),
            leading(*kind, texts.skip(from as int)) == end - from + leading(
                *kind,
                texts.skip(end as int),
            ),
        decreases all.len() - end,
    {
        assert(texts.skip(end as int).first() == all[end as int]@);
        assert(texts.skip(end as int).skip(1) =~= texts.skip(end as int + 1));
        end += 1;
    }
    proof {
        if end < all.len() {
            assert(texts.skip(end as int).first() == all[end as int]@);
        }
    }
    end
}

/// The lines from a position up to another, with line feeds between them.
fn join_range(all: &Vec<String>, from: usize, to: usize) -> (r: String)
    requires
        from <= to <= all.len(),
    ensures
        r@ == join(all.deep_view().subrange(from as int, to as int), seq!['\n']),
{
    let ghost texts = all.deep_view();
    let mut part: Vec<String> = Vec::new();
    let mut i: usize = from;
    assert(part.deep_view() =~= texts.subrange(from as int, from as int));
    while i < to
        invariant
            from <= i <= to <= all.len(),
            texts == all.deep_view(),
            part.deep_view() == texts.subrange(from as int, i as int),
        decreases to - i,
    {
        let ghost before = part.deep_view();
        part.push(all[i].clone());
        assert(part.deep_view() =~= before.push(texts[i as int]));
        i += 1;
        assert(texts.subrange(from as int, i as int) =~= texts.subrange(from as int, i - 1).push(
            texts[i - 1],
        ));
    }
    proof {
        reveal_strlit("\n");
        assert("\n"@ =~= seq!['\n']);
    }
    join_texts(&part, "\n")
}

fn plain_inline(text: &str) -> (r: Vec<SlackTextSegment>)
    ensures
        r.deep_view() == plain_segments(text@),
{
    parse_fallback_inline_segments(text, &SlackTextStyle::default())
}

fn parse_cells(cells: &Vec<String>) -> (r: Vec<Vec<SlackTextSegment>>)
    ensures
        r.deep_view() == cell_segments(cells.deep_view()),
{
    let ghost goal = cell_segments(cells.deep_view());
    let mut out: Vec<Vec<SlackTextSegment>> = Vec::new();
    let mut i: usize = 0;
    assert(out.deep_view() =~= goal.take(0));
    while i < cells.len()
        invariant
            i <= cells.len(),
            goal == cell_segments(cells.deep_view()),
            out.deep_view() == goal.take(i as int),
        decreases cells.len() - i,
    {
        let ghost before = out.deep_view();
        let segments = plain_inline(cells[i].as_str());
        assert(goal[i as int] == segments.deep_view());
        out.push(segments);
        assert(out.deep_view() =~= before.push(goal[i as int]));
        i += 1;
        assert(goal.take(i as int) =~= goal.take(i - 1).push(goal[i - 1]));
    }
    assert(goal.take(i as int) =~= goal);
    out
}

/// The table at a position, with the position behind it.
fn parse_gfm_table_at(all: &Vec<String>, start: usize) -> (r: Option<(usize, SlackRenderBlock)>)
    requires
        start < all.len(),
    ensures
        match r {
            Some((end, block)) => table_block(all.deep_view().skip(start as int)) == Some(
                (end - start, block.deep_view()),
            ) && start < end <= all.len(),
            None => table_block(all.deep_view().skip(start as int)) is None,
        },
{
    let ghost texts = all.deep_view();
    let ghost rest = texts.skip(start as int);
    if all.len() - start < 2 {
        return None;
    }
    assert(rest[0] == all[start as int]@);
    assert(rest[1] == all[start + 1]@);
    let header_cells = match split_gfm_table_row(all[start].as_str()) {
        Some(cells) => cells,
        None => {
            return None;
        },
    };
    let separator_cells = match split_gfm_table_row(all[start + 1].as_str()) {
        Some(cells) => cells,
        None => {
            return None;
        },
    };
    if header_cells.len() != separator_cells.len() {
        return None;
    }
    let alignments = match parse_alignments(&separator_cells) {
        Some(alignments) => alignments,
        None => {
            return None;
        },
    };
    let kind = LineKind::Row(header_cells.len());
    let end = end_of_kind(&kind, all, start + 2);
    let ghost count = leading(kind, rest.skip(2));
    proof {
        assert(rest.skip(2) =~= texts.skip(start + 2));
        lemma_leading(kind, rest.skip(2));
    }
    let ghost goal = rest.subrange(2, 2 + count).map_values(
        |line: Seq<char>| cell_segments(table_row(line).unwrap()),
    );
    let mut rows: Vec<Vec<Vec<SlackTextSegment>>> = Vec::new();
    let mut i: usize = start + 2;
    assert(rows.deep_view() =~= goal.take(0));
    while i < end
        invariant
            start + 2 <= i <= end <= all.len(),
            texts == all.deep_view(),
            rest == texts.skip(start as int),
            count == end - start - 2,
            count == leading(kind, rest.skip(2)),
            goal == rest.subrange(2, 2 + count).map_values(
                |line: Seq<char>| cell_segments(table_row(line).unwrap()),
            ),
            rows.deep_view() == goal.take(i - start - 2),
            forall|k: int| 0 <= k < count ==> is_kind(kind, #[trigger] rest.skip(2)[k]),
            kind is Row,
        decreases end - i,
    {
        let ghost before = rows.deep_view();
        let ghost line = rest.skip(2)[i - start - 2];
        assert(line == all[i as int]@);
        assert(is_kind(kind, line));
        let cells = match split_gfm_table_row(all[i].as_str()) {
            Some(cells) => cells,
            None => Vec::new(),
        };
        let parsed = parse_cells(&cells);
        assert(rest.subrange(2, 2 + count)[i - start - 2] == line);
        assert(goal[i - start - 2] == parsed.deep_view());
        rows.push(parsed);
        assert(rows.deep_view() =~= before.push(goal[i - start - 2]));
        assert(goal.take(i - start - 1) =~= goal.take(i - start - 2).push(goal[i - start - 2]));
        i += 1;
    }
    assert(goal.take(i - start - 2) =~= goal);
    let headers = parse_cells(&header_cells);
    Some((end, SlackRenderBlock::Table { headers, rows, alignments }))
}

/// The quote at a position, with the position behind it.
fn parse_quote_at(all: &Vec<String>, start: usize) -> (r: (usize, SlackRenderBlock))
    requires
        start < all.len(),
    ensures
        ({
            let rest = all.deep_view().skip(start as int);
            let count = leading(LineKind::Quote, rest);
            &&& r.0 == start + count
            &&& r.1.deep_view() == SlackRenderBlockModel::Quote(
                plain_segments(
                    join(
                        rest.take(count).map_values(
                            |line: Seq<char>| quote_content(line).unwrap(),
                        ),
                        seq!['\n'],
                    ),
                ),
            )
        }),
{
    let ghost rest = all.deep_view().skip(start as int);
    let ghost count = leading(LineKind::Quote, rest);
    let end = end_of_kind(&LineKind::Quote, all, start);
    proof {
        lemma_leading(LineKind::Quote, rest);
    }
    let ghost goal = rest.take(count).map_values(|line: Seq<char>| quote_content(line).unwrap());
    let mut contents: Vec<String> = Vec::new();
    let mut i: usize = start;
    assert(contents.deep_view() =~= goal.take(0));
    while i < end
        invariant
            start <= i <= end <= all.len(),
            rest == all.deep_view().skip(start as int),
            count == end - start,
            goal == rest.take(count).map_values(
                |line: Seq<char>| quote_content(line).unwrap(),
            ),
            contents.deep_view() == goal.take(i - start),
            forall|k: int| 0 <= k < count ==> is_kind(LineKind::Quote, #[trigger] rest[k]),
        decreases end - i,
    {
        let ghost before = contents.deep_view();
        assert(is_kind(LineKind::Quote, rest[i - start]));
        assert(rest[i - start] == all[i as int]@);
        let content = match quoted_content(all[i].as_str()) {
            Some(content) => content,
            None => String::new(),
        };
        assert(goal[i - start] == content@);
        contents.push(content);
        assert(contents.deep_view() =~= before.push(goal[i - start]));
        assert(goal.take(i - start + 1) =~= goal.take(i - start).push(goal[i - start]));
        i += 1;
    }
    assert(goal.take(i - start) =~= goal);
    proof {
        reveal_strlit("\n");
        assert("\n"@ =~= seq!['\n']);
    }
    let text = join_texts(&contents, "\n");
    (end, SlackRenderBlock::Quote(plain_inline(text.as_str())))
}

/// The unordered list at a position, with the position behind it.
fn parse_unordered_at(all: &Vec<String>, start: usize) -> (r: (usize, SlackRenderBlock))
    requires
        start < all.len(),
    ensures
        ({
            let rest = all.deep_view().skip(start as int);
            let count = leading(LineKind::Unordered, rest);
            &&& r.0 == start + count
            &&& r.1.deep_view() == SlackRenderBlockModel::UnorderedList(
                rest.take(count).map_values(
                    |line: Seq<char>| plain_segments(unordered_content(line).unwrap()),
                ),
            )
        }),
{
    let ghost rest = all.deep_view().skip(start as int);
    let ghost count = leading(LineKind::Unordered, rest);
    let end = end_of_kind(&LineKind::Unordered, all, start);
    proof {
        lemma_leading(LineKind::Unordered, rest);
    }
    let ghost goal = rest.take(count).map_values(
        |line: Seq<char>| plain_segments(unordered_content(line).unwrap()),
    );
    let mut items: Vec<Vec<SlackTextSegment>> = Vec::new();
    let mut i: usize = start;
    assert(items.deep_view() =~= goal.take(0));
    while i < end
        invariant
            start <= i <= end <= all.len(),
            rest == all.deep_view().skip(start as int),
            count == end - start,
            goal == rest.take(count).map_values(
                |line: Seq<char>| plain_segments(unordered_content(line).unwrap()),
            ),
            items.deep_view() == goal.take(i - start),
            forall|k: int| 0 <= k < count ==> is_kind(LineKind::Unordered, #[trigger] rest[k]),
        decreases end - i,
    {
        let ghost before = items.deep_view();
        assert(is_kind(LineKind::Unordered, rest[i - start]));
        assert(rest[i - start] == all[i as int]@);
        let content = match unordered_list_content(all[i].as_str()) {
            Some(content) => content,
            None => String::new(),
        };
        let item = plain_inline(content.as_str());
        assert(goal[i - start] == item.deep_view());
        items.push(item);
        assert(items.deep_view() =~= before.push(goal[i - start]));
        assert(goal.take(i - start + 1) =~= goal.take(i - start).push(goal[i - start]));
        i += 1;
    }
    assert(goal.take(i - start) =~= goal);
    (end, SlackRenderBlock::UnorderedList(items))
}

/// The ordered list at a position, with the position behind it.
fn parse_ordered_at(all: &Vec<String>, start: usize) -> (r: (usize, SlackRenderBlock))
    requires
        start < all.len(),
    ensures
        ({
            let rest = all.deep_view().skip(start as int);
            let count = leading(LineKind::Ordered, rest);
            &&& r.0 == start + count
            &&& r.1.deep_view() == SlackRenderBlockModel::OrderedList(
                rest.take(count).map_values(
                    |line: Seq<char>|
                        (
                            ordered_content(line).unwrap().0,
                            plain_segments(ordered_content(line).unwrap().1),
                        ),
                ),
            )
        }),
{
    let ghost rest = all.deep_view().skip(start as int);
    let ghost count = leading(LineKind::Ordered, rest);
    let end = end_of_kind(&LineKind::Ordered, all, start);
    proof {
        lemma_leading(LineKind::Ordered, rest);
    }
    let ghost goal = rest.take(count).map_values(
        |line: Seq<char>|
            (
                ordered_content(line).unwrap().0,
                plain_segments(ordered_content(line).unwrap().1),
            ),
    );
    let mut items: Vec<(usize, Vec<SlackTextSegment>)> = Vec::new();
    let mut i: usize = start;
    assert(items.deep_view() =~= goal.take(0));
    while i < end
        invariant
            start <= i <= end <= all.len(),
            rest == all.deep_view().skip(start as int),
            count == end - start,
            goal == rest.take(count).map_values(
                |line: Seq<char>|
                    (
                        ordered_content(line).unwrap().0,
                        plain_segments(ordered_content(line).unwrap().1),
                    ),
            ),
            items.deep_view() == goal.take(i - start),
            forall|k: int| 0 <= k < count ==> is_kind(LineKind::Ordered, #[trigger] rest[k]),
        decreases end - i,
    {
        let ghost before = items.deep_view();
        assert(is_kind(LineKind::Ordered, rest[i - start]));
        assert(rest[i - start] == all[i as int]@);
        let (number, content): (usize, String) = match ordered_list_content(all[i].as_str()) {
            Some(found) => found,
            None => (0, String::new()),
        };
        let item = plain_inline(content.as_str());
        assert(goal[i - start] == (number, item.deep_view()));
        items.push((number, item));
        assert(items.deep_view() =~= before.push(goal[i - start]));
        assert(goal.take(i - start + 1) =~= goal.take(i - start).push(goal[i - start]));
        i += 1;
    }
    assert(goal.take(i - start) =~= goal);
    (end, SlackRenderBlock::OrderedList(items))
}

/// The block at a position whose line is not blank, with the position behind it.
fn parse_block_at(all: &Vec<String>, start: usize) -> (r: (usize, SlackRenderBlock))
    requires
        start < all.len(),
    ensures
        (r.0 - start, r.1.deep_view()) == first_block(all.deep_view().skip(start as int)),
        start < r.0 <= all.len(),
{
    let ghost texts = all.deep_view();
    let ghost rest = texts.skip(start as int);
    proof {
        lemma_first_block(rest);
        assert(rest.first() == all[start as int]@);
        assert(rest.skip(1) =~= texts.skip(start + 1));
    }
    let line = all[start].as_str();
    if fence(line) {
        let end = end_of_kind(&LineKind::Code, all, start + 1);
        let code = join_range(all, start + 1, end);
        let language_hint = fenced_code_language(line);
        let ghost count = leading(LineKind::Code, rest.skip(1));
        assert(rest.subrange(1, 1 + count) =~= texts.subrange(start + 1, end as int));
        let next: usize = if end < all.len() {
            end + 1
        } else {
            end
        };
        return (next, SlackRenderBlock::CodeBlock { code, language_hint });
    }
    if let Some(found) = parse_gfm_table_at(all, start) {
        return found;
    }
    if quoted_content(line).is_some() {
        return parse_quote_at(all, start);
    }
    if unordered_list_content(line).is_some() {
        return parse_unordered_at(all, start);
    }
    if ordered_list_content(line).is_some() {
        return parse_ordered_at(all, start);
    }
    let end = end_of_kind(&LineKind::Paragraph, all, start + 1);
    let text = join_range(all, start, end);
    assert(rest.take(end - start) =~= texts.subrange(start as int, end as int));
    (end, SlackRenderBlock::Paragraph(plain_inline(text.as_str())))
}

/// The blocks of a text.
pub fn parse_fallback_slack_blocks(text: &str) -> (r: Vec<SlackRenderBlock>)
    ensures
        r.deep_view() == fallback_blocks(text@),
{
    let normalized = normalize_line_feeds(text);
    let all = split_lines(normalized.as_str());
    let ghost texts = all.deep_view();
    let mut blocks: Vec<SlackRenderBlock> = Vec::new();
    let mut at: usize = 0;
    assert(texts.skip(0) =~= texts);
    assert(blocks.deep_view() + line_blocks(texts) =~= line_blocks(texts));
    while at < all.len()
        invariant
            at <= all.len(),
            texts == all.deep_view(),
            blocks.deep_view() + line_blocks(texts.skip(at as int)) == line_blocks(texts),
        decreases all.len() - at,
    {
        let ghost rest = texts.skip(at as int);
        assert(rest.first() == all[at as int]@);
        if blank(all[at].as_str()) {
            assert(rest.skip(1) =~= texts.skip(at as int + 1));
            at += 1;
            continue;
        }
        let ghost before = blocks.deep_view();
        let (end, block) = parse_block_at(&all, at);
        let ghost parsed = block.deep_view();
        blocks.push(block);
        proof {
            assert(blocks.deep_view() =~= before.push(parsed));
            assert(rest.skip(end - at) =~= texts.skip(end as int));
            assert(before + (seq![parsed] + line_blocks(texts.skip(end as int))) =~= before.push(
                parsed,
            ) + line_blocks(texts.skip(end as int)));
        }
        at = end;
    }
    assert(texts.skip(at as int) =~= Seq::empty());
    assert(blocks.deep_view() + Seq::<SlackRenderBlockModel>::empty() =~= blocks.deep_view());
    blocks
}

/// A text of blank lines has no blocks.
pub proof fn law_blank_lines_have_no_blocks(lines: Seq<Seq<char>>)
    requires
        forall|i: int| 0 <= i < lines.len() ==> is_blank(#[trigger] lines[i]),
    ensures
        line_blocks(lines).len() == 0,
    decreases lines.len(),
{
    if lines.len() > 0 {
        assert(is_blank(lines[0]));
        let rest = lines.skip(1);
        assert forall|i: int| 0 <= i < rest.len() implies is_blank(#[trigger] rest[i]) by {
            assert(is_blank(lines[i + 1]));
        }
        law_blank_lines_have_no_blocks(rest);
    }
}

/// A table has as many alignments as headers, and as many cells in each row.
pub proof fn law_tables_are_rectangular(lines: Seq<Seq<char>>)
    requires
        lines.len() > 0,
        table_row(lines[0]) matches Some(cells) ==> cells.len() <= usize::MAX,
    ensures
        table_block(lines) matches Some((count, SlackRenderBlockModel::Table {
            headers,
            rows,
            alignments,
        })) ==> headers.len() == alignments.len() && forall|i: int|
            0 <= i < rows.len() ==> (#[trigger] rows[i]).len() == headers.len(),
{
    if lines.len() >= 2 {
        if let (Some(headers), Some(separators)) = (table_row(lines[0]), table_row(lines[1])) {
            lemma_alignment_count(separators);
            let kind = LineKind::Row(headers.len() as usize);
            lemma_leading(kind, lines.skip(2));
            let count = leading(kind, lines.skip(2));
            let body = lines.subrange(2, 2 + count);
            assert forall|i: int| 0 <= i < count implies is_kind(kind, #[trigger] body[i]) by {
                assert(lines.skip(2)[i] == body[i]);
            }
        }
    }
}

proof fn lemma_alignment_count(cells: Seq<Seq<char>>)
    ensures
        all_alignments(cells) matches Some(alignments) ==> alignments.len() == cells.len(),
    decreases cells.len(),
{
    if cells.len() > 0 {
        lemma_alignment_count(cells.drop_last());
    }
}

} // verus!
