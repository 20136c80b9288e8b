//! How the text of a message is laid out: which lines make which block, and which words have which
//! style.
use vstd::prelude::*;

use crate::blocks::{
    after, cell_alignment, cell_segments, fallback_blocks, first_block, is_fence, is_kind, leading,
    lemma_first_block, lemma_leading, line_blocks, ordered_content, plain_segments, quote_content,
    table_block, table_row, unordered_content, with_line_feeds, LineKind,
};
use crate::inline::{
    angle_link, inline_onto, inline_segments, is_special, law_plain_text_is_one_segment,
    next_special, span_at, wrapped_span, Span,
};
use crate::segments::{
    appended, plain_style, pushed, SlackRenderBlockModel, SlackTableAlignment,
    SlackTextSegmentModel, SlackTextStyleModel,
};
use crate::text::{
    decimal, find_from, is_blank, is_digit, is_space, join, lemma_find_from, lines, occurs_at,
    starts_with, trim, trim_start,
};
use crate::wording::{
    law_lines_undo_joining, law_numbers_read_back, law_splitting_undoes_joining, lemma_join_front,
    lemma_join_members, lemma_trimmed_stays,
};

verus! {

/// Whether a character is an ASCII letter.
pub open spec fn is_letter(c: char) -> bool {
    'a' <= c <= 'z' || 'A' <= c <= 'Z'
}

/// Whether a text has no character that marks a style, a link, a table or the end of a line.
pub open spec fn unmarked(text: Seq<char>) -> bool {
    forall|i: int|
        0 <= i < text.len() ==> {
            let c = #[trigger] text[i];
            c != '<' && c != '`' && c != '*' && c != '_' && c != '~' && c != '|' && c != '\n' && c
                != '\r'
        }
}

/// Whether a line is nothing but words: it starts with a letter and has no marks.
pub open spec fn only_words(line: Seq<char>) -> bool {
    line.len() > 0 && is_letter(line[0]) && unmarked(line)
}

/// A text in the plain style.
pub open spec fn plainly(text: Seq<char>) -> Seq<SlackTextSegmentModel> {
    seq![
        SlackTextSegmentModel {
            text,
            style: SlackTextStyleModel {
                bold: false,
                italic: false,
                underline: false,
                strike: false,
                code: false,
                link: None,
            },
        },
    ]
}

/// A line that starts with a character that is no white space keeps its start.
proof fn lemma_line_start(line: Seq<char>)
    requires
        line.len() > 0,
        !is_space(line[0]),
    ensures
        trim_start(line) == line,
        !is_blank(line),
{
    assert(line.first() == line[0]);
    crate::wording::law_trimming_takes_white_space_away(line);
}

/// A text that starts otherwise has no such prefix.
proof fn lemma_other_start(text: Seq<char>, prefix: Seq<char>)
    requires
        text.len() == 0 || text[0] != prefix[0],
        prefix.len() > 0,
    ensures
        after(text, prefix) is None,
        !starts_with(text, prefix),
{
    if starts_with(text, prefix) {
        assert(text.subrange(0, prefix.len() as int)[0] == prefix[0]);
    }
}

/// What the lines of lists, quotes and code start with.
proof fn lemma_marks()
    ensures
        "- "@ == seq!['-', ' '],
        "* "@ == seq!['*', ' '],
        "• "@ == seq!['•', ' '],
        "> "@ == seq!['>', ' '],
        ">"@ == seq!['>'],
        "```"@ == seq!['`', '`', '`'],
{
    reveal_strlit("- ");
    reveal_strlit("* ");
    reveal_strlit("• ");
    reveal_strlit("> ");
    reveal_strlit(">");
    reveal_strlit("```");
    assert("- "@ =~= seq!['-', ' ']);
    assert("* "@ =~= seq!['*', ' ']);
    assert("• "@ =~= seq!['•', ' ']);
    assert("> "@ =~= seq!['>', ' ']);
    assert(">"@ =~= seq!['>']);
    assert("```"@ =~= seq!['`', '`', '`']);
}

/// A line without a bar is no row of a table.
proof fn lemma_no_row(line: Seq<char>)
    requires
        !line.contains('|'),
    ensures
        table_row(line) is None,
{
    crate::wording::law_trimming_takes_white_space_away(line);
    let before = choose|before: int| #[trigger]
        crate::wording::is_core_of(trim(line), line, before);
    let core = trim(line);
    if core.contains('|') {
        let k = choose|k: int| 0 <= k < core.len() && core[k] == '|';
        assert(line[before + k] == '|');
    }
}

/// An unmarked text has none of the marks.
proof fn lemma_unmarked(text: Seq<char>)
    requires
        unmarked(text),
    ensures
        !text.contains('|'),
        !text.contains('\n'),
        !text.contains('\r'),
        forall|i: int| 0 <= i < text.len() ==> !is_special(#[trigger] text[i]),
{
    if text.contains('|') {
        let k = choose|k: int| 0 <= k < text.len() && text[k] == '|';
        assert(text[k] != '|');
    }
    if text.contains('\n') {
        let k = choose|k: int| 0 <= k < text.len() && text[k] == '\n';
        assert(text[k] != '\n');
    }
    if text.contains('\r') {
        let k = choose|k: int| 0 <= k < text.len() && text[k] == '\r';
        assert(text[k] != '\r');
    }
}

/// What a line of words is, and what it is not.
proof fn lemma_word_line(line: Seq<char>)
    requires
        only_words(line),
    ensures
        is_kind(LineKind::Paragraph, line),
        table_row(line) is None,
        !line.contains('\n'),
        !line.contains('\r'),
{
    lemma_marks();
    lemma_unmarked(line);
    lemma_line_start(line);
    lemma_other_start(line, "- "@);
    lemma_other_start(line, "* "@);
    lemma_other_start(line, "• "@);
    lemma_other_start(line, "> "@);
    lemma_other_start(line, ">"@);
    lemma_other_start(line, "```"@);
    lemma_no_row(line);
}

/// All lines are of a kind if each is.
proof fn lemma_all_leading(kind: LineKind, lines: Seq<Seq<char>>)
    requires
        forall|i: int| 0 <= i < lines.len() ==> is_kind(kind, #[trigger] lines[i]),
    ensures
        leading(kind, lines) == lines.len(),
{
    lemma_leading(kind, lines);
}

/// Lines that are joined have no carriage returns to take away.
proof fn lemma_no_returns(text: Seq<char>)
    requires
        !text.contains('\r'),
    ensures
        with_line_feeds(text) == text,
    decreases text.len(),
{
    if text.len() > 0 {
        let rest = text.skip(1);
        if rest.contains('\r') {
            let k = choose|k: int| 0 <= k < rest.len() && rest[k] == '\r';
            assert(text[k + 1] == '\r');
        }
        lemma_no_returns(rest);
        if text[0] == '\r' {
            assert(text.contains(text[0]));
        }
        assert(seq![text[0]] + rest =~= text);
    } else {
        assert(with_line_feeds(text) =~= text);
    }
}

/// The blocks of a text that is joined from lines are those of the lines.
proof fn lemma_joined_blocks(all: Seq<Seq<char>>)
    requires
        all.len() > 0,
        all.last().len() > 0,
        forall|i: int|
            0 <= i < all.len() ==> !(#[trigger] all[i]).contains('\n') && !all[i].contains('\r'),
    ensures
        fallback_blocks(join(all, seq!['\n'])) == line_blocks(all),
{
    law_lines_undo_joining(all);
    assert(!seq!['\n'].contains('\r'));
    lemma_join_members(all, seq!['\n'], '\r');
    lemma_no_returns(join(all, seq!['\n']));
}

/// A text without marks is a single plain segment.
proof fn lemma_plain(text: Seq<char>)
    requires
        text.len() > 0,
        forall|i: int| 0 <= i < text.len() ==> !is_special(#[trigger] text[i]),
    ensures
        plain_segments(text) == plainly(text),
{
    law_plain_text_is_one_segment(text, plain_style());
    assert(plain_segments(text) =~= plainly(text));
}

/// Unmarked lines that are joined are shown as they are.
proof fn lemma_plain_lines(all: Seq<Seq<char>>)
    requires
        all.len() > 0,
        all[0].len() > 0,
        forall|i: int| 0 <= i < all.len() ==> unmarked(#[trigger] all[i]),
    ensures
        plain_segments(join(all, seq!['\n'])) == plainly(join(all, seq!['\n'])),
{
    let text = join(all, seq!['\n']);
    assert forall|c: char| is_special(c) implies !#[trigger] text.contains(c) by {
        assert forall|i: int| 0 <= i < all.len() implies !(#[trigger] all[i]).contains(c) by {
            assert(unmarked(all[i]));
            lemma_unmarked(all[i]);
        }
        assert(!seq!['\n'].contains(c));
        lemma_join_members(all, seq!['\n'], c);
    }
    assert forall|i: int| 0 <= i < text.len() implies !is_special(#[trigger] text[i]) by {
        assert(text.contains(text[i]));
    }
    if all.len() > 1 {
        lemma_join_front(all, seq!['\n']);
    }
    lemma_plain(text);
}

/// Lines of words make one paragraph, in which each line is shown as it is.
pub proof fn law_lines_of_words_make_a_paragraph(all: Seq<Seq<char>>)
    requires
        all.len() > 0,
        forall|i: int| 0 <= i < all.len() ==> only_words(#[trigger] all[i]),
    ensures
        fallback_blocks(join(all, seq!['\n'])) == seq![
            SlackRenderBlockModel::Paragraph(plainly(join(all, seq!['\n']))),
        ],
{
    assert forall|i: int| 0 <= i < all.len() implies is_kind(
        LineKind::Paragraph,
        #[trigger] all[i],
    ) && table_row(all[i]) is None && !all[i].contains('\n') && !all[i].contains('\r') && unmarked(
        all[i],
    ) by {
        assert(only_words(all[i]));
        lemma_word_line(all[i]);
    }
    let rest = all.skip(1);
    assert forall|i: int| 0 <= i < rest.len() implies is_kind(
        LineKind::Paragraph,
        #[trigger] rest[i],
    ) by {
        assert(is_kind(LineKind::Paragraph, all[i + 1]));
    }
    assert(only_words(all[0]));
    assert(only_words(all[all.len() - 1]));
    lemma_joined_blocks(all);
    lemma_all_leading(LineKind::Paragraph, rest);
    lemma_plain_lines(all);
    assert(all.first() == all[0]);
    assert(all.take(all.len() as int) =~= all);
    assert(all.skip(all.len() as int) =~= Seq::<Seq<char>>::empty());
    assert(line_blocks(Seq::<Seq<char>>::empty()) == Seq::<SlackRenderBlockModel>::empty());
    assert(line_blocks(all) =~= seq![
        SlackRenderBlockModel::Paragraph(plainly(join(all, seq!['\n']))),
    ]);
}

/// Lines that are no fence, no quote, no list and no row of a table make one paragraph, which has
/// the segments of all of them joined.
pub proof fn law_paragraphs_keep_their_lines(all: Seq<Seq<char>>)
    requires
        all.len() > 0,
        forall|i: int|
            0 <= i < all.len() ==> !is_blank(#[trigger] all[i]) && !is_fence(all[i])
                && quote_content(all[i]) is None && unordered_content(all[i]) is None
                && ordered_content(all[i]) is None && table_row(all[i]) is None,
    ensures
        line_blocks(all).len() == 1,
        line_blocks(all)[0] == SlackRenderBlockModel::Paragraph(
            inline_segments(join(all, seq!['\n']), plain_style()),
        ),
{
    let rest = all.skip(1);
    assert forall|i: int| 0 <= i < rest.len() implies is_kind(
        LineKind::Paragraph,
        #[trigger] rest[i],
    ) by {
        assert(!is_blank(all[i + 1]));
    }
    lemma_all_leading(LineKind::Paragraph, rest);
    assert(all.first() == all[0]);
    assert(all.take(all.len() as int) =~= all);
    assert(all.skip(all.len() as int) =~= Seq::<Seq<char>>::empty());
    assert(line_blocks(Seq::<Seq<char>>::empty()) == Seq::<SlackRenderBlockModel>::empty());
}

/// Each line with a mark before it.
pub open spec fn with_mark(mark: Seq<char>, contents: Seq<Seq<char>>) -> Seq<Seq<char>> {
    contents.map_values(|content: Seq<char>| mark + content)
}

/// A line that a mark and then words make.
proof fn lemma_marked_line(mark: Seq<char>, content: Seq<char>)
    requires
        mark.len() > 0,
        !is_space(mark[0]),
        mark[0] != '|',
        mark[0] != '\n',
        mark[0] != '\r',
        mark.len() <= 2,
        mark.len() == 2 ==> mark[1] == ' ',
        unmarked(content),
    ensures
        trim_start(mark + content) == mark + content,
        !is_blank(mark + content),
        table_row(mark + content) is None,
        !(mark + content).contains('\n'),
        !(mark + content).contains('\r'),
        after(mark + content, mark) == Some(content),
{
    let line = mark + content;
    lemma_line_start(line);
    lemma_unmarked(content);
    assert forall|c: char| c == '|' || c == '\n' || c == '\r' implies !#[trigger] line.contains(
        c,
    ) by {
        if line.contains(c) {
            let k = choose|k: int| 0 <= k < line.len() && line[k] == c;
            if k >= mark.len() {
                assert(content.contains(content[k - mark.len()]));
            }
        }
    }
    lemma_no_row(line);
    assert(line.subrange(0, mark.len() as int) =~= mark);
    assert(line.skip(mark.len() as int) =~= content);
}

/// Lines that start with `> ` make one quote, of what follows the marks.
pub proof fn law_quoted_lines_make_a_quote(contents: Seq<Seq<char>>)
    requires
        contents.len() > 0,
        contents[0].len() > 0,
        forall|i: int| 0 <= i < contents.len() ==> unmarked(#[trigger] contents[i]),
    ensures
        fallback_blocks(join(with_mark(seq!['>', ' '], contents), seq!['\n'])) == seq![
            SlackRenderBlockModel::Quote(plainly(join(contents, seq!['\n']))),
        ],
{
    lemma_marks();
    let mark = seq!['>', ' '];
    let all = with_mark(mark, contents);
    assert forall|i: int| 0 <= i < all.len() implies is_kind(LineKind::Quote, #[trigger] all[i])
        && quote_content(all[i]) == Some(contents[i]) && !is_blank(all[i]) && !is_fence(all[i])
        && table_row(all[i]) is None && !all[i].contains('\n') && !all[i].contains('\r') by {
        assert(unmarked(contents[i]));
        lemma_marked_line(mark, contents[i]);
        lemma_other_start(all[i], "```"@);
    }
    assert(all[0].len() > 0 && all[all.len() - 1].len() > 0);
    lemma_joined_blocks(all);
    lemma_all_leading(LineKind::Quote, all);
    lemma_plain_lines(contents);
    assert(all.first() == all[0]);
    assert(all.take(all.len() as int).map_values(|line: Seq<char>| quote_content(line).unwrap())
        =~= contents);
    assert(all.skip(all.len() as int) =~= Seq::<Seq<char>>::empty());
    assert(line_blocks(Seq::<Seq<char>>::empty()) == Seq::<SlackRenderBlockModel>::empty());
    assert(line_blocks(all) =~= seq![
        SlackRenderBlockModel::Quote(plainly(join(contents, seq!['\n']))),
    ]);
}

/// Lines that start with a dash, a star or a dot, and a space, make one list, each line an entry.
#[verifier::rlimit(50)]
pub proof fn law_marked_lines_make_a_list(mark: char, contents: Seq<Seq<char>>)
    requires
        mark == '-' || mark == '*' || mark == '•',
        contents.len() > 0,
        forall|i: int|
            0 <= i < contents.len() ==> unmarked(#[trigger] contents[i]) && contents[i].len() > 0,
    ensures
        fallback_blocks(join(with_mark(seq![mark, ' '], contents), seq!['\n'])) == seq![
            SlackRenderBlockModel::UnorderedList(
                contents.map_values(|content: Seq<char>| plainly(content)),
            ),
        ],
{
    lemma_marks();
    let sign = seq![mark, ' '];
    let all = with_mark(sign, contents);
    assert forall|i: int| 0 <= i < all.len() implies is_kind(
        LineKind::Unordered,
        #[trigger] all[i],
    ) && unordered_content(all[i]) == Some(contents[i]) && !is_blank(all[i]) && !is_fence(all[i])
        && quote_content(all[i]) is None && table_row(all[i]) is None && !all[i].contains('\n')
        && !all[i].contains('\r') && plain_segments(contents[i]) == plainly(contents[i]) by {
        assert(unmarked(contents[i]));
        lemma_marked_line(sign, contents[i]);
        lemma_other_start(all[i], "```"@);
        lemma_other_start(all[i], "> "@);
        lemma_other_start(all[i], ">"@);
        if mark != '-' {
            lemma_other_start(all[i], "- "@);
        }
        if mark != '*' {
            lemma_other_start(all[i], "* "@);
        }
        lemma_unmarked(contents[i]);
        lemma_plain(contents[i]);
    }
    assert(all[0].len() > 0 && all[all.len() - 1].len() > 0);
    lemma_joined_blocks(all);
    lemma_all_leading(LineKind::Unordered, all);
    assert(all.first() == all[0]);
    let entries = contents.map_values(|content: Seq<char>| plainly(content));
    assert(all.take(all.len() as int).map_values(
        |line: Seq<char>| plain_segments(unordered_content(line).unwrap()),
    ) =~= entries);
    assert(all.skip(all.len() as int) =~= Seq::<Seq<char>>::empty());
    assert(line_blocks(Seq::<Seq<char>>::empty()) == Seq::<SlackRenderBlockModel>::empty());
    assert(line_blocks(all) =~= seq![SlackRenderBlockModel::UnorderedList(entries)]);
}

/// A line of a list with its number.
pub open spec fn numbered(number: usize, content: Seq<char>) -> Seq<char> {
    decimal(number as nat) + seq!['.', ' '] + content
}

/// How many digits a number with something behind it starts with.
proof fn lemma_leading_digits(digits: Seq<char>, rest: Seq<char>)
    requires
        forall|i: int| 0 <= i < digits.len() ==> is_digit(#[trigger] digits[i]),
        rest.len() == 0 || !is_digit(rest[0]),
    ensures
        crate::blocks::leading_digits(digits + rest) == digits.len(),
    decreases digits.len(),
{
    if digits.len() > 0 {
        let less = digits.skip(1);
        assert forall|i: int| 0 <= i < less.len() implies is_digit(#[trigger] less[i]) by {
            assert(is_digit(digits[i + 1]));
        }
        lemma_leading_digits(less, rest);
        assert((digits + rest).skip(1) =~= less + rest);
        assert(is_digit(digits[0]));
        assert((digits + rest).first() == digits[0]);
    } else {
        assert(digits + rest =~= rest);
        if rest.len() > 0 {
            assert(rest.first() == rest[0]);
        }
    }
}

/// What a numbered line is.
proof fn lemma_numbered_line(number: usize, content: Seq<char>)
    requires
        only_words(content),
    ensures
        ordered_content(numbered(number, content)) == Some((number, content)),
        !is_blank(numbered(number, content)),
        !is_fence(numbered(number, content)),
        quote_content(numbered(number, content)) is None,
        unordered_content(numbered(number, content)) is None,
        table_row(numbered(number, content)) is None,
        !numbered(number, content).contains('\n'),
        !numbered(number, content).contains('\r'),
{
    lemma_marks();
    let digits = decimal(number as nat);
    law_numbers_read_back(number as nat);
    let line = numbered(number, content);
    assert(is_digit(digits[0]));
    assert(line[0] == digits[0]);
    lemma_line_start(line);
    lemma_other_start(line, "- "@);
    lemma_other_start(line, "* "@);
    lemma_other_start(line, "• "@);
    lemma_other_start(line, "> "@);
    lemma_other_start(line, ">"@);
    lemma_other_start(line, "```"@);
    lemma_unmarked(content);
    assert forall|c: char| c == '|' || c == '\n' || c == '\r' implies !#[trigger] line.contains(
        c,
    ) by {
        if line.contains(c) {
            let k = choose|k: int| 0 <= k < line.len() && line[k] == c;
            if k < digits.len() {
                assert(is_digit(digits[k]));
            } else if k >= digits.len() + 2 {
                assert(content.contains(content[k - digits.len() - 2]));
            }
        }
    }
    lemma_no_row(line);
    let rest = seq!['.', ' '] + content;
    assert(line =~= digits + rest);
    lemma_leading_digits(digits, rest);
    assert(line.take(digits.len() as int) =~= digits);
    assert(line.skip(digits.len() as int + 1) =~= seq![' '] + content);
    let behind = seq![' '] + content;
    assert(behind.first() == ' ');
    assert(behind.skip(1) =~= content);
    assert(content.first() == content[0]);
    assert(trim_start(content) == content);
    assert(trim_start(behind) == trim_start(content));
}

/// Lines that start with a number, a point and a space make one list, each line an entry with its
/// number.
pub proof fn law_numbered_lines_make_a_list(numbers: Seq<usize>, contents: Seq<Seq<char>>)
    requires
        contents.len() > 0,
        numbers.len() == contents.len(),
        forall|i: int| 0 <= i < contents.len() ==> only_words(#[trigger] contents[i]),
    ensures
        fallback_blocks(
            join(
                Seq::new(contents.len(), |i: int| numbered(numbers[i], contents[i])),
                seq!['\n'],
            ),
        ) == seq![
            SlackRenderBlockModel::OrderedList(
                Seq::new(contents.len(), |i: int| (numbers[i], plainly(contents[i]))),
            ),
        ],
{
    let all = Seq::new(contents.len(), |i: int| numbered(numbers[i], contents[i]));
    assert forall|i: int| 0 <= i < all.len() implies is_kind(
        LineKind::Ordered,
        #[trigger] all[i],
    ) && ordered_content(all[i]) == Some((numbers[i], contents[i])) && !is_blank(all[i])
        && !is_fence(all[i]) && quote_content(all[i]) is None && unordered_content(all[i]) is None
        && table_row(all[i]) is None && !all[i].contains('\n') && !all[i].contains('\r')
        && plain_segments(contents[i]) == plainly(contents[i]) by {
        assert(only_words(contents[i]));
        lemma_numbered_line(numbers[i], contents[i]);
        lemma_unmarked(contents[i]);
        lemma_plain(contents[i]);
    }
    assert(all[0].len() > 0 && all[all.len() - 1].len() > 0);
    lemma_joined_blocks(all);
    lemma_all_leading(LineKind::Ordered, all);
    assert(all.first() == all[0]);
    let entries = Seq::new(contents.len(), |i: int| (numbers[i], plainly(contents[i])));
    assert(all.take(all.len() as int).map_values(
        |line: Seq<char>|
            (
                ordered_content(line).unwrap().0,
                plain_segments(ordered_content(line).unwrap().1),
            ),
    ) =~= entries);
    assert(all.skip(all.len() as int) =~= Seq::<Seq<char>>::empty());
    assert(line_blocks(Seq::<Seq<char>>::empty()) == Seq::<SlackRenderBlockModel>::empty());
    assert(line_blocks(all) =~= seq![SlackRenderBlockModel::OrderedList(entries)]);
}

/// What stands between two fences is code, shown as it is, whatever marks it has.
pub proof fn law_fenced_lines_are_code(code: Seq<Seq<char>>)
    requires
        forall|i: int|
            0 <= i < code.len() ==> !(#[trigger] code[i]).contains('`') && !code[i].contains('\n')
                && !code[i].contains('\r'),
    ensures
        fallback_blocks(
            join(
                seq![seq!['`', '`', '`']] + code + seq![seq!['`', '`', '`']],
                seq!['\n'],
            ),
        ) == seq![
            SlackRenderBlockModel::CodeBlock { code: join(code, seq!['\n']), language_hint: None },
        ],
{
    lemma_marks();
    let fence = seq!['`', '`', '`'];
    let all = seq![fence] + code + seq![fence];
    assert forall|i: int| 0 <= i < all.len() implies !(#[trigger] all[i]).contains('\n')
        && !all[i].contains('\r') by {
        if 0 < i <= code.len() {
            assert(all[i] == code[i - 1]);
        }
    }
    lemma_joined_blocks(all);
    assert(fence.subrange(0, 3) =~= fence);
    lemma_line_start(fence);
    assert(is_fence(fence));
    let rest = all.skip(1);
    assert forall|i: int| 0 <= i < code.len() implies !is_fence(#[trigger] rest[i]) by {
        assert(rest[i] == code[i]);
        lemma_no_fence(code[i]);
    }
    lemma_leading(LineKind::Code, rest);
    let count = leading(LineKind::Code, rest);
    if count > code.len() {
        assert(is_kind(LineKind::Code, rest[code.len() as int]));
    }
    assert(count == code.len());
    assert(all.subrange(1, 1 + count) =~= code);
    let stripped = crate::text::strip_leading(fence, '`');
    crate::wording::law_leading_characters_are_taken_away(fence, '`');
    assert(stripped.len() == 0) by {
        let n = choose|n: int|
            0 <= n <= fence.len() && #[trigger] fence.skip(n) == stripped && (n < fence.len()
                ==> fence[n] != '`') && forall|k: int| 0 <= k < n ==> #[trigger] fence[k] == '`';
    }
    crate::wording::law_trimming_takes_white_space_away(stripped);
    assert(all.first() == fence);
    assert(all.skip(2 + count) =~= Seq::<Seq<char>>::empty());
    assert(line_blocks(Seq::<Seq<char>>::empty()) == Seq::<SlackRenderBlockModel>::empty());
    assert(line_blocks(all) =~= seq![
        SlackRenderBlockModel::CodeBlock { code: join(code, seq!['\n']), language_hint: None },
    ]);
}

/// A line without a backtick is no fence.
proof fn lemma_no_fence(line: Seq<char>)
    requires
        !line.contains('`'),
    ensures
        !is_fence(line),
{
    lemma_marks();
    if is_fence(line) {
        let text = trim_start(line);
        assert(text.subrange(0, 3)[0] == '`');
        lemma_trim_start_members(line, '`');
        assert(text.contains(text[0]));
    }
}

/// What is trimmed holds nothing that the text does not hold.
proof fn lemma_trim_start_members(text: Seq<char>, c: char)
    requires
        !text.contains(c),
    ensures
        !trim_start(text).contains(c),
    decreases text.len(),
{
    if text.len() > 0 && is_space(text.first()) {
        let rest = text.skip(1);
        if rest.contains(c) {
            let k = choose|k: int| 0 <= k < rest.len() && rest[k] == c;
            assert(text[k + 1] == c);
        }
        lemma_trim_start_members(rest, c);
    }
}

/// A row of a table with bars around and between its cells.
pub open spec fn barred(cells: Seq<Seq<char>>) -> Seq<char> {
    seq!['|'] + join(cells, seq!['|']) + seq!['|']
}

/// Whether a text can stand in a cell as it is: it is not empty, has no marks and no white space
/// at its ends.
pub open spec fn fits_cell(text: Seq<char>) -> bool {
    text.len() > 0 && unmarked(text) && !is_space(text[0]) && !is_space(text[text.len() - 1])
}

/// What is joined starts with the first part and ends with the last.
proof fn lemma_join_ends(parts: Seq<Seq<char>>, separator: Seq<char>)
    requires
        parts.len() > 0,
        parts[0].len() > 0,
        parts.last().len() > 0,
    ensures
        join(parts, separator).len() > 0,
        join(parts, separator)[0] == parts[0][0],
        join(parts, separator).last() == parts.last().last(),
{
    if parts.len() > 1 {
        lemma_join_front(parts, separator);
    }
}

/// A row of cells is read as those cells.
proof fn lemma_barred_row(cells: Seq<Seq<char>>)
    requires
        cells.len() > 0,
        forall|i: int| 0 <= i < cells.len() ==> fits_cell(#[trigger] cells[i]),
    ensures
        table_row(barred(cells)) == Some(cells),
        !is_blank(barred(cells)),
        !is_fence(barred(cells)),
        !barred(cells).contains('\n'),
        !barred(cells).contains('\r'),
{
    lemma_marks();
    let row = barred(cells);
    let inner = join(cells, seq!['|']);
    assert forall|i: int| 0 <= i < cells.len() implies !(#[trigger] cells[i]).contains('|')
        && !cells[i].contains('\n') && !cells[i].contains('\r') by {
        assert(fits_cell(cells[i]));
        lemma_unmarked(cells[i]);
    }
    assert(fits_cell(cells[0]));
    assert(fits_cell(cells[cells.len() - 1]));
    lemma_join_ends(cells, seq!['|']);
    assert(!seq!['|'].contains('\n') && !seq!['|'].contains('\r'));
    lemma_join_members(cells, seq!['|'], '\n');
    lemma_join_members(cells, seq!['|'], '\r');
    assert forall|c: char| c == '\n' || c == '\r' implies !#[trigger] row.contains(c) by {
        if row.contains(c) {
            let k = choose|k: int| 0 <= k < row.len() && row[k] == c;
            assert(inner.contains(inner[k - 1]));
        }
    }
    lemma_line_start(row);
    lemma_other_start(row, "```"@);
    lemma_trimmed_stays(row);
    assert(row.contains(row[0]));
    let tail = inner + seq!['|'];
    assert(row.skip(1) =~= tail);
    assert(row.first() == '|');
    assert(tail.first() == inner[0]);
    assert(unmarked(cells[0]));
    assert(cells[0][0] != '|');
    assert(crate::text::strip_leading(tail, '|') == tail);
    assert(crate::text::strip_leading(row, '|') == tail);
    assert(tail.drop_last() =~= inner);
    assert(unmarked(cells[cells.len() - 1]));
    let last = cells[cells.len() - 1];
    assert(last[last.len() - 1] != '|');
    assert(inner.last() == last.last());
    assert(crate::text::strip_trailing(inner, '|') == inner);
    assert(crate::text::strip_trailing(tail, '|') == inner);
    law_splitting_undoes_joining(cells, '|');
    let trimmed = split_cells(inner);
    assert forall|i: int| 0 <= i < cells.len() implies trim(#[trigger] cells[i]) == cells[i] by {
        assert(fits_cell(cells[i]));
        lemma_trimmed_stays(cells[i]);
    }
    assert(trimmed =~= cells);
    assert(cells[0].len() > 0);
}

spec fn split_cells(text: Seq<char>) -> Seq<Seq<char>> {
    crate::text::split(text, '|').map_values(|cell: Seq<char>| trim(cell))
}

/// The alignment that a cell asks for: to the side, or sides, at which it has a colon; to the left
/// if it has none.
pub proof fn law_colons_align_columns(dashes: nat)
    requires
        dashes >= 3,
    ensures
        ({
            let line = Seq::new(dashes, |i: int| '-');
            &&& cell_alignment(line) == Some(SlackTableAlignment::Left)
            &&& cell_alignment(seq![':'] + line) == Some(SlackTableAlignment::Left)
            &&& cell_alignment(line + seq![':']) == Some(SlackTableAlignment::Right)
            &&& cell_alignment(seq![':'] + line + seq![':']) == Some(SlackTableAlignment::Center)
        }),
{
    let line = Seq::new(dashes, |i: int| '-');
    let first = seq![':'] + line;
    let last = line + seq![':'];
    let both = seq![':'] + line + seq![':'];
    assert(line[0] == '-');
    assert(first[1] == '-');
    assert(last[0] == '-');
    assert(both[1] == '-');
    lemma_aligned(line);
    lemma_aligned(first);
    lemma_aligned(last);
    lemma_aligned(both);
}

/// A cell of dashes and colons is read by its ends.
proof fn lemma_aligned(cell: Seq<char>)
    requires
        cell.len() >= 3,
        cell.contains('-'),
        forall|i: int| 0 <= i < cell.len() ==> #[trigger] cell[i] == '-' || cell[i] == ':',
    ensures
        cell_alignment(cell) == Some(
            if cell[cell.len() - 1] != ':' {
                SlackTableAlignment::Left
            } else if cell[0] != ':' {
                SlackTableAlignment::Right
            } else {
                SlackTableAlignment::Center
            },
        ),
{
    assert(cell[0] == '-' || cell[0] == ':');
    assert(cell[cell.len() - 1] == '-' || cell[cell.len() - 1] == ':');
    lemma_trimmed_stays(cell);
    lemma_filter_all(cell, |c: char| c != ' ');
    assert forall|i: int| 0 <= i < cell.len() implies crate::blocks::is_alignment_char(
        #[trigger] cell[i],
    ) by {
        assert(cell[i] == '-' || cell[i] == ':');
    }
}

/// A filter that keeps everything keeps the sequence.
proof fn lemma_filter_all(text: Seq<char>, keep: spec_fn(char) -> bool)
    requires
        forall|i: int| 0 <= i < text.len() ==> keep(#[trigger] text[i]),
    ensures
        text.filter(keep) == text,
    decreases text.len(),
{
    reveal(Seq::filter);
    if text.len() > 0 {
        let rest = text.drop_last();
        assert forall|i: int| 0 <= i < rest.len() implies keep(#[trigger] rest[i]) by {
            assert(keep(text[i]));
        }
        lemma_filter_all(rest, keep);
        assert(keep(text[text.len() - 1]));
        assert(rest.push(text.last()) =~= text);
    } else {
        assert(text.filter(keep) =~= text);
    }
}

/// A row of headers, a row of dashes and rows of as many cells make one table, with each text in
/// its place.
pub proof fn law_rows_make_a_table(headers: Seq<Seq<char>>, rows: Seq<Seq<Seq<char>>>)
    requires
        0 < headers.len() <= usize::MAX,
        forall|i: int| 0 <= i < headers.len() ==> fits_cell(#[trigger] headers[i]),
        forall|r: int| 0 <= r < rows.len() ==> (#[trigger] rows[r]).len() == headers.len(),
        forall|r: int, i: int|
            0 <= r < rows.len() && 0 <= i < headers.len() ==> fits_cell(#[trigger] rows[r][i]),
    ensures
        fallback_blocks(
            join(
                seq![
                    barred(headers),
                    barred(Seq::new(headers.len(), |i: int| seq!['-', '-', '-'])),
                ] + rows.map_values(|cells: Seq<Seq<char>>| barred(cells)),
                seq!['\n'],
            ),
        ) == seq![
            SlackRenderBlockModel::Table {
                headers: headers.map_values(|cell: Seq<char>| plainly(cell)),
                rows: rows.map_values(
                    |cells: Seq<Seq<char>>| cells.map_values(|cell: Seq<char>| plainly(cell)),
                ),
                alignments: Seq::new(headers.len(), |i: int| SlackTableAlignment::Left),
            },
        ],
{
    let dashes = Seq::new(headers.len(), |i: int| seq!['-', '-', '-']);
    let texts = rows.map_values(|cells: Seq<Seq<char>>| barred(cells));
    let all = seq![barred(headers), barred(dashes)] + texts;
    assert forall|i: int| 0 <= i < dashes.len() implies fits_cell(#[trigger] dashes[i]) by {
        assert(dashes[i] == seq!['-', '-', '-']);
    }
    lemma_barred_row(headers);
    lemma_barred_row(dashes);
    assert forall|r: int| 0 <= r < rows.len() implies table_row(#[trigger] texts[r]) == Some(
        rows[r],
    ) && !is_blank(texts[r]) && !texts[r].contains('\n') && !texts[r].contains('\r')
        && texts[r].len() > 0 by {
        let cells = rows[r];
        assert forall|i: int| 0 <= i < cells.len() implies fits_cell(#[trigger] cells[i]) by {
            assert(fits_cell(rows[r][i]));
        }
        lemma_barred_row(cells);
    }
    assert forall|i: int| 0 <= i < all.len() implies !(#[trigger] all[i]).contains('\n')
        && !all[i].contains('\r') && all[i].len() > 0 by {
        if i >= 2 {
            assert(all[i] == texts[i - 2]);
        }
    }
    assert(all[all.len() - 1].len() > 0);
    lemma_joined_blocks(all);
    let rest = all.skip(2);
    assert(rest =~= texts);
    let kind = LineKind::Row(headers.len() as usize);
    assert forall|i: int| 0 <= i < rest.len() implies is_kind(kind, #[trigger] rest[i]) by {
        assert(rest[i] == texts[i]);
        assert(rows[i].len() == headers.len());
    }
    lemma_all_leading(kind, rest);
    law_colons_align_columns(3);
    assert(Seq::new(3, |i: int| '-') =~= seq!['-', '-', '-']);
    lemma_dashes_align(dashes);
    lemma_plain_cells(headers);
    let shown = rows.map_values(
        |cells: Seq<Seq<char>>| cells.map_values(|cell: Seq<char>| plainly(cell)),
    );
    let read = all.subrange(2, all.len() as int).map_values(
        |line: Seq<char>| cell_segments(table_row(line).unwrap()),
    );
    assert forall|r: int| 0 <= r < rows.len() implies #[trigger] read[r] == shown[r] by {
        assert(all[r + 2] == texts[r]);
        let cells = rows[r];
        assert forall|i: int| 0 <= i < cells.len() implies fits_cell(#[trigger] cells[i]) by {
            assert(fits_cell(rows[r][i]));
        }
        lemma_plain_cells(cells);
    }
    assert(read =~= shown);
    assert(all.first() == all[0]);
    assert(all[1] == barred(dashes));
    assert(all.skip(all.len() as int) =~= Seq::<Seq<char>>::empty());
    assert(line_blocks(Seq::<Seq<char>>::empty()) == Seq::<SlackRenderBlockModel>::empty());
    assert(2 + leading(kind, rest) == all.len());
    assert(line_blocks(all) =~= seq![first_block(all).1]);
}

/// Cells of dashes align to the left.
proof fn lemma_dashes_align(cells: Seq<Seq<char>>)
    requires
        forall|i: int| 0 <= i < cells.len() ==> #[trigger] cells[i] == seq!['-', '-', '-'],
        cell_alignment(seq!['-', '-', '-']) == Some(SlackTableAlignment::Left),
    ensures
        crate::blocks::all_alignments(cells) == Some(
            Seq::new(cells.len(), |i: int| SlackTableAlignment::Left),
        ),
    decreases cells.len(),
{
    let lefts = Seq::new(cells.len(), |i: int| SlackTableAlignment::Left);
    if cells.len() > 0 {
        let fewer = cells.drop_last();
        assert forall|i: int| 0 <= i < fewer.len() implies #[trigger] fewer[i] == seq![
            '-',
            '-',
            '-',
        ] by {
            assert(cells[i] == seq!['-', '-', '-']);
        }
        lemma_dashes_align(fewer);
        assert(cells[cells.len() - 1] == seq!['-', '-', '-']);
        assert(Seq::new(fewer.len(), |i: int| SlackTableAlignment::Left).push(
            SlackTableAlignment::Left,
        ) =~= lefts);
    } else {
        assert(lefts =~= Seq::<SlackTableAlignment>::empty());
    }
}

/// Cells without marks are shown as they are.
proof fn lemma_plain_cells(cells: Seq<Seq<char>>)
    requires
        forall|i: int| 0 <= i < cells.len() ==> fits_cell(#[trigger] cells[i]),
    ensures
        cell_segments(cells) == cells.map_values(|cell: Seq<char>| plainly(cell)),
{
    assert forall|i: int| 0 <= i < cells.len() implies plain_segments(#[trigger] cells[i])
        == plainly(cells[i]) by {
        assert(fits_cell(cells[i]));
        lemma_unmarked(cells[i]);
        lemma_plain(cells[i]);
    }
    assert(cell_segments(cells) =~= cells.map_values(|cell: Seq<char>| plainly(cell)));
}

/// As many lines of a kind come first, whatever follows a line that ends them.
proof fn lemma_leading_stops(kind: LineKind, head: Seq<Seq<char>>, tail: Seq<Seq<char>>)
    requires
        tail.len() > 0 ==> !is_kind(kind, tail[0]),
    ensures
        leading(kind, head + tail) == leading(kind, head),
    decreases head.len(),
{
    if head.len() > 0 {
        let rest = head.skip(1);
        assert((head + tail).skip(1) =~= rest + tail);
        assert((head + tail).first() == head.first());
        if is_kind(kind, head.first()) {
            lemma_leading_stops(kind, rest, tail);
        }
    } else {
        assert(head + tail =~= tail);
        if tail.len() > 0 {
            assert(tail.first() == tail[0]);
        }
    }
}

/// A blank line is nothing but white space.
proof fn lemma_blank_line(line: Seq<char>)
    requires
        is_blank(line),
    ensures
        quote_content(line) is None,
        unordered_content(line) is None,
        ordered_content(line) is None,
        table_row(line) is None,
{
    lemma_marks();
    crate::wording::law_trimming_takes_white_space_away(line);
    lemma_spaces_vanish(line);
    let text = trim_start(line);
    lemma_other_start(text, "- "@);
    lemma_other_start(text, "* "@);
    lemma_other_start(text, "• "@);
    lemma_other_start(text, "> "@);
    lemma_other_start(text, ">"@);
    assert(!trim(line).contains('|'));
}

/// White space alone is trimmed to nothing.
proof fn lemma_spaces_vanish(text: Seq<char>)
    requires
        forall|k: int| 0 <= k < text.len() ==> is_space(#[trigger] text[k]),
    ensures
        trim_start(text).len() == 0,
    decreases text.len(),
{
    if text.len() > 0 {
        let rest = text.skip(1);
        assert(is_space(text[0]));
        assert forall|k: int| 0 <= k < rest.len() implies is_space(#[trigger] rest[k]) by {
            assert(is_space(text[k + 1]));
        }
        lemma_spaces_vanish(rest);
    }
}

/// A blank line separates: outside of code, what stands before it and what stands after it make
/// their blocks on their own.
pub proof fn law_blank_lines_separate(
    before: Seq<Seq<char>>,
    blank: Seq<char>,
    behind: Seq<Seq<char>>,
)
    requires
        is_blank(blank),
        forall|i: int| 0 <= i < before.len() ==> !is_fence(#[trigger] before[i]),
    ensures
        line_blocks(before + seq![blank] + behind) == line_blocks(before) + line_blocks(behind),
    decreases before.len(),
{
    let tail = seq![blank] + behind;
    let all = before + tail;
    assert(before + seq![blank] + behind =~= all);
    lemma_blank_line(blank);
    if before.len() == 0 {
        assert(all =~= tail);
        assert(tail.first() == blank);
        assert(tail.skip(1) =~= behind);
        assert(line_blocks(before) =~= Seq::<SlackRenderBlockModel>::empty());
        assert(line_blocks(tail) == line_blocks(behind));
        assert(line_blocks(before) + line_blocks(behind) =~= line_blocks(behind));
    } else {
        assert(all.first() == before.first());
        assert(before.first() == before[0]);
        if is_blank(before.first()) {
            let rest = before.skip(1);
            assert forall|i: int| 0 <= i < rest.len() implies !is_fence(#[trigger] rest[i]) by {
                assert(!is_fence(before[i + 1]));
            }
            law_blank_lines_separate(rest, blank, behind);
            assert(rest + seq![blank] + behind =~= all.skip(1));
        } else {
            lemma_first_block(before);
            lemma_block_ends(before, tail);
            let count = first_block(before).0;
            let rest = before.skip(count);
            assert forall|i: int| 0 <= i < rest.len() implies !is_fence(#[trigger] rest[i]) by {
                assert(!is_fence(before[i + count]));
            }
            law_blank_lines_separate(rest, blank, behind);
            assert(rest + seq![blank] + behind =~= all.skip(count));
            lemma_first_block(all);
            assert(line_blocks(all) =~= line_blocks(before) + line_blocks(behind));
        }
    }
}

/// A block outside of code ends before a blank line.
proof fn lemma_block_ends(before: Seq<Seq<char>>, tail: Seq<Seq<char>>)
    requires
        before.len() > 0,
        tail.len() > 0,
        is_blank(tail[0]),
        !is_blank(before.first()),
        forall|i: int| 0 <= i < before.len() ==> !is_fence(#[trigger] before[i]),
    ensures
        first_block(before + tail) == first_block(before),
{
    let all = before + tail;
    lemma_blank_line(tail[0]);
    assert(all.first() == before.first());
    assert(all[0] == before[0]);
    assert(before.first() == before[0]);
    lemma_leading_stops(LineKind::Quote, before, tail);
    lemma_leading_stops(LineKind::Unordered, before, tail);
    lemma_leading_stops(LineKind::Ordered, before, tail);
    assert(all.skip(1) =~= before.skip(1) + tail);
    lemma_leading_stops(LineKind::Paragraph, before.skip(1), tail);
    lemma_leading(LineKind::Quote, before);
    lemma_leading(LineKind::Unordered, before);
    lemma_leading(LineKind::Ordered, before);
    lemma_leading(LineKind::Paragraph, before.skip(1));
    assert(table_block(all) == table_block(before)) by {
        if before.len() == 1 {
            assert(all[1] == tail[0]);
        } else {
            assert(all[1] == before[1]);
            assert(all.skip(2) =~= before.skip(2) + tail);
            if let Some(headers) = table_row(before[0]) {
                let kind = LineKind::Row(headers.len() as usize);
                lemma_leading_stops(kind, before.skip(2), tail);
                lemma_leading(kind, before.skip(2));
                let count = leading(kind, before.skip(2));
                assert(all.subrange(2, 2 + count) =~= before.subrange(2, 2 + count));
            }
        }
    }
    let q = leading(LineKind::Quote, before);
    assert(all.take(q) =~= before.take(q));
    let u = leading(LineKind::Unordered, before);
    assert(all.take(u) =~= before.take(u));
    let o = leading(LineKind::Ordered, before);
    assert(all.take(o) =~= before.take(o));
    let p = 1 + leading(LineKind::Paragraph, before.skip(1));
    assert(all.take(p) =~= before.take(p));
}

/// Pairs of carriage return and line feed are read as line feeds, and nothing else is changed.
pub proof fn law_line_ends_are_alike(head: Seq<char>, tail: Seq<char>)
    requires
        !head.contains('\r'),
    ensures
        with_line_feeds(head + seq!['\r', '\n'] + tail) == head + seq!['\n'] + with_line_feeds(
            tail,
        ),
        with_line_feeds(head) == head,
    decreases head.len(),
{
    lemma_no_returns(head);
    let text = head + seq!['\r', '\n'] + tail;
    if head.len() == 0 {
        assert(text.skip(2) =~= tail);
        assert(with_line_feeds(text) =~= head + seq!['\n'] + with_line_feeds(tail));
    } else {
        let rest = head.skip(1);
        if rest.contains('\r') {
            let k = choose|k: int| 0 <= k < rest.len() && rest[k] == '\r';
            assert(head[k + 1] == '\r');
        }
        law_line_ends_are_alike(rest, tail);
        assert(text.skip(1) =~= rest + seq!['\r', '\n'] + tail);
        assert(head.contains(head[0]));
        assert(with_line_feeds(text) =~= head + seq!['\n'] + with_line_feeds(tail));
    }
}

/// Whether a text has no character that may begin a span.
pub open spec fn no_spans(text: Seq<char>) -> bool {
    forall|i: int|
        0 <= i < text.len() ==> {
            let c = #[trigger] text[i];
            c != '<' && c != '`' && c != '*' && c != '_' && c != '~'
        }
}

/// The first special character of a text.
proof fn lemma_next_special(head: Seq<char>, tail: Seq<char>, from: int)
    requires
        no_spans(head),
        0 <= from <= head.len(),
        tail.len() > 0 ==> is_special(tail[0]),
    ensures
        next_special(head + tail, from) == head.len(),
    decreases head.len() - from,
{
    let text = head + tail;
    if from < head.len() {
        assert(text[from] == head[from]);
        lemma_next_special(head, tail, from + 1);
    } else if tail.len() > 0 {
        assert(text[from] == tail[0]);
    }
}

/// A text that starts with a character that begins no span has none at its start.
proof fn lemma_no_span_here(text: Seq<char>)
    requires
        text.len() > 0,
        !is_special(text[0]),
    ensures
        angle_link(text) is None,
        wrapped_span(text, seq!['`']) is None,
        wrapped_span(text, seq!['_', '_']) is None,
        wrapped_span(text, seq!['*']) is None,
        wrapped_span(text, seq!['_']) is None,
        wrapped_span(text, seq!['~']) is None,
{
    assert(text.first() == text[0]);
    lemma_other_start(text, seq!['`']);
    lemma_other_start(text, seq!['_', '_']);
    lemma_other_start(text, seq!['*']);
    lemma_other_start(text, seq!['_']);
    lemma_other_start(text, seq!['~']);
}

/// Words before a span are pushed as they are.
proof fn lemma_words_first(
    segments: Seq<SlackTextSegmentModel>,
    head: Seq<char>,
    tail: Seq<char>,
    style: SlackTextStyleModel,
)
    requires
        no_spans(head),
        tail.len() > 0 ==> is_special(tail[0]),
    ensures
        inline_onto(segments, head + tail, style) == inline_onto(
            pushed(segments, head, style),
            tail,
            style,
        ),
{
    let text = head + tail;
    if head.len() > 0 {
        assert(text[0] == head[0]);
        lemma_no_span_here(text);
        lemma_next_special(head, tail, 0);
        assert(text.take(head.len() as int) =~= head);
        assert(text.skip(head.len() as int) =~= tail);
    } else {
        assert(text =~= tail);
    }
}

/// A mark is found again behind words that do not hold it.
proof fn lemma_mark_found(mark: Seq<char>, inner: Seq<char>, tail: Seq<char>)
    requires
        0 < mark.len(),
        inner.len() > 0,
        !inner.contains(mark[0]),
    ensures
        wrapped_span(mark + inner + mark + tail, mark) == Some(
            ((mark.len() + inner.len() + mark.len()) as int, inner),
        ),
{
    let text = mark + inner + mark + tail;
    let end = (mark.len() + inner.len()) as int;
    lemma_find_from(text, mark, mark.len() as int);
    assert(text.subrange(0, mark.len() as int) =~= mark);
    assert(text.subrange(end, end + mark.len()) =~= mark);
    assert(occurs_at(text, mark, end));
    assert forall|k: int| mark.len() <= k < end implies !occurs_at(text, mark, k) by {
        if occurs_at(text, mark, k) {
            assert(text.subrange(k, k + mark.len())[0] == text[k]);
            assert(inner.contains(inner[k - mark.len()]));
        }
    }
    match find_from(text, mark, mark.len() as int) {
        Some(at) => {
            if at > end {
                assert(!occurs_at(text, mark, end));
            }
            assert(at == end);
            assert(text.subrange(mark.len() as int, end) =~= inner);
        },
        None => {
            assert(!occurs_at(text, mark, end));
        },
    }
}

/// The style that a mark gives.
pub open spec fn marked_style(mark: Seq<char>, style: SlackTextStyleModel) -> SlackTextStyleModel {
    if mark == seq!['*'] {
        SlackTextStyleModel { bold: true, ..style }
    } else if mark == seq!['_'] {
        SlackTextStyleModel { italic: true, ..style }
    } else if mark == seq!['~'] {
        SlackTextStyleModel { strike: true, ..style }
    } else if mark == seq!['`'] {
        SlackTextStyleModel { code: true, ..style }
    } else {
        SlackTextStyleModel { underline: true, ..style }
    }
}

/// Words between two stars are bold, between two underscores italic, between two tildes struck
/// out, between two backticks code and between two pairs of underscores underlined; the words
/// before and after keep their style, and the marks are not shown.
pub proof fn law_marks_give_styles(
    mark: Seq<char>,
    before: Seq<char>,
    inner: Seq<char>,
    behind: Seq<char>,
    style: SlackTextStyleModel,
)
    requires
        mark == seq!['*'] || mark == seq!['_'] || mark == seq!['~'] || mark == seq!['`'] || mark
            == seq!['_', '_'],
        no_spans(before),
        no_spans(behind),
        no_spans(inner) || (mark == seq!['`'] && !inner.contains('`')),
        before.len() > 0,
        inner.len() > 0,
        behind.len() > 0,
        marked_style(mark, style) != style,
    ensures
        inline_segments(before + mark + inner + mark + behind, style) == seq![
            SlackTextSegmentModel { text: before, style },
            SlackTextSegmentModel { text: inner, style: marked_style(mark, style) },
            SlackTextSegmentModel { text: behind, style },
        ],
{
    let first = seq![SlackTextSegmentModel { text: before, style }];
    let tail = mark + inner + mark + behind;
    assert(before + mark + inner + mark + behind =~= before + tail);
    assert(tail[0] == mark[0]);
    lemma_words_first(Seq::empty(), before, tail, style);
    assert(pushed(Seq::empty(), before, style) =~= first);
    if no_spans(inner) && inner.contains(mark[0]) {
        let k = choose|k: int| 0 <= k < inner.len() && inner[k] == mark[0];
        assert(inner[k] != '*');
    }
    lemma_mark_found(mark, inner, behind);
    assert(tail[1] == (mark + inner)[1]);
    assert(tail.subrange(0, (mark.len() + inner.len()) as int) =~= mark + inner);
    lemma_this_mark(mark, inner, tail);
    let length = (mark.len() + inner.len() + mark.len()) as int;
    assert(tail.skip(length) =~= behind);
    let second = SlackTextSegmentModel { text: inner, style: marked_style(mark, style) };
    let next = first.push(second);
    if mark != seq!['`'] {
        assert forall|i: int| 0 <= i < inner.len() implies !is_special(#[trigger] inner[i]) by {
            assert(inner[i] != '<');
        }
        law_plain_text_is_one_segment(inner, second.style);
        let nested = seq![second];
        assert(nested.drop_last() =~= Seq::<SlackTextSegmentModel>::empty());
        assert(appended(first, nested.drop_last()) == first);
        assert(appended(first, nested) =~= next);
    }
    assert(pushed(first, inner, second.style) =~= next);
    assert(inline_onto(first, tail, style) == inline_onto(next, behind, style));
    lemma_words_first(next, behind, Seq::empty(), style);
    assert(behind + Seq::<char>::empty() =~= behind);
    assert(pushed(next, behind, style) =~= seq![
        SlackTextSegmentModel { text: before, style },
        second,
        SlackTextSegmentModel { text: behind, style },
    ]);
}

/// What a mark begins.
proof fn lemma_this_mark(mark: Seq<char>, inner: Seq<char>, tail: Seq<char>)
    requires
        mark == seq!['*'] || mark == seq!['_'] || mark == seq!['~'] || mark == seq!['`'] || mark
            == seq!['_', '_'],
        inner.len() > 0,
        mark == seq!['_'] ==> inner[0] != '_',
        tail.len() > mark.len() + inner.len(),
        tail.subrange(0, (mark.len() + inner.len()) as int) == mark + inner,
        wrapped_span(tail, mark) == Some(((2 * mark.len() + inner.len()) as int, inner)),
    ensures
        span_at(tail).0 == 2 * mark.len() + inner.len(),
        mark == seq!['*'] ==> span_at(tail).1 == (Span::Bold { inner }),
        mark == seq!['_'] ==> span_at(tail).1 == (Span::Italic { inner }),
        mark == seq!['~'] ==> span_at(tail).1 == (Span::Strike { inner }),
        mark == seq!['`'] ==> span_at(tail).1 == (Span::Code { inner }),
        mark == seq!['_', '_'] ==> span_at(tail).1 == (Span::Underline { inner }),
{
    let start = mark + inner;
    assert(tail[0] == tail.subrange(0, start.len() as int)[0]);
    assert(tail[1] == tail.subrange(0, start.len() as int)[1]);
    assert(tail.first() == tail[0]);
    if mark != seq!['`'] {
        lemma_other_start(tail, seq!['`']);
    }
    if mark == seq!['_'] {
        assert(tail[1] == inner[0]);
        if starts_with(tail, seq!['_', '_']) {
            assert(tail.subrange(0, 2)[1] == '_');
        }
    } else if mark != seq!['_', '_'] {
        lemma_other_start(tail, seq!['_', '_']);
        lemma_other_start(tail, seq!['_']);
    }
    if mark != seq!['*'] {
        lemma_other_start(tail, seq!['*']);
    }
}

/// A link between angle brackets is shown as its label, or as its address if it has none; what
/// stands before and behind it keeps its style.
pub proof fn law_links_show_their_label(
    before: Seq<char>,
    url: Seq<char>,
    label: Seq<char>,
    behind: Seq<char>,
    style: SlackTextStyleModel,
)
    requires
        no_spans(before),
        no_spans(label),
        no_spans(behind),
        before.len() > 0,
        label.len() > 0,
        behind.len() > 0,
        starts_with(url, "http://"@) || starts_with(url, "https://"@) || starts_with(
            url,
            "mailto:"@,
        ),
        !url.contains('>') && !url.contains('|') && !label.contains('>'),
        !is_space(url[0]) && !is_space(url[url.len() - 1]),
        !is_space(label[0]) && !is_space(label[label.len() - 1]),
        style.link != Some(url),
    ensures
        inline_segments(
            before + seq!['<'] + url + seq!['|'] + label + seq!['>'] + behind,
            style,
        ) == seq![
            SlackTextSegmentModel { text: before, style },
            SlackTextSegmentModel {
                text: label,
                style: SlackTextStyleModel { link: Some(url), underline: true, ..style },
            },
            SlackTextSegmentModel { text: behind, style },
        ],
        no_spans(url) ==> inline_segments(before + seq!['<'] + url + seq!['>'] + behind, style)
            == seq![
            SlackTextSegmentModel { text: before, style },
            SlackTextSegmentModel {
                text: url,
                style: SlackTextStyleModel { link: Some(url), underline: true, ..style },
            },
            SlackTextSegmentModel { text: behind, style },
        ],
{
    reveal_strlit("http://");
    reveal_strlit("https://");
    reveal_strlit("mailto:");
    crate::wording::lemma_trimmed_stays(url);
    crate::wording::lemma_trimmed_stays(label);
    let inner = url + seq!['|'] + label;
    assert(!inner.contains('>')) by {
        if inner.contains('>') {
            let k = choose|k: int| 0 <= k < inner.len() && inner[k] == '>';
            if k < url.len() {
                assert(url.contains(url[k]));
            } else if k > url.len() {
                assert(label.contains(label[k - url.len() - 1]));
            }
        }
    }
    assert(crate::inline::link_parts(inner) == (url, label)) by {
        crate::text::lemma_find_char(inner, '|', 0);
        assert(inner[url.len() as int] == '|');
        if let Some(at) = crate::text::find_char(inner, '|', 0) {
            if at < url.len() {
                assert(url.contains(url[at]));
            }
        }
        assert(inner.take(url.len() as int) =~= url);
        assert(inner.skip(url.len() as int + 1) =~= label);
    }
    lemma_link(before, inner, url, label, behind, style);
    assert(before + seq!['<'] + url + seq!['|'] + label + seq!['>'] + behind =~= before + seq!['<']
        + inner + seq!['>'] + behind);
    if no_spans(url) {
        assert(crate::inline::link_parts(url) == (url, url)) by {
            crate::text::lemma_find_char(url, '|', 0);
            if let Some(at) = crate::text::find_char(url, '|', 0) {
                assert(url.contains(url[at]));
            }
        }
        lemma_link(before, url, url, url, behind, style);
    }
}

proof fn lemma_link(
    before: Seq<char>,
    inner: Seq<char>,
    url: Seq<char>,
    shown: Seq<char>,
    behind: Seq<char>,
    style: SlackTextStyleModel,
)
    requires
        no_spans(before),
        no_spans(shown),
        no_spans(behind),
        before.len() > 0,
        shown.len() > 0,
        behind.len() > 0,
        crate::inline::is_link_target(url),
        !inner.contains('>'),
        crate::inline::link_parts(inner) == (url, shown),
        style.link != Some(url),
    ensures
        inline_segments(before + seq!['<'] + inner + seq!['>'] + behind, style) == seq![
            SlackTextSegmentModel { text: before, style },
            SlackTextSegmentModel {
                text: shown,
                style: SlackTextStyleModel { link: Some(url), underline: true, ..style },
            },
            SlackTextSegmentModel { text: behind, style },
        ],
{
    let tail = seq!['<'] + inner + seq!['>'] + behind;
    let end = inner.len() as int + 1;
    assert(before + seq!['<'] + inner + seq!['>'] + behind =~= before + tail);
    assert(tail.first() == '<');
    assert(tail[0] == '<');
    crate::text::lemma_find_char(tail, '>', 0);
    assert(tail[end] == '>');
    if let Some(at) = crate::text::find_char(tail, '>', 0) {
        if 0 < at < end {
            assert(inner.contains(inner[at - 1]));
        }
    }
    assert(tail.subrange(1, end) =~= inner);
    assert(angle_link(tail) == Some((end + 1, url, shown)));
    assert(tail.skip(end + 1) =~= behind);
    let first = seq![SlackTextSegmentModel { text: before, style }];
    let second = SlackTextSegmentModel {
        text: shown,
        style: SlackTextStyleModel { link: Some(url), underline: true, ..style },
    };
    let next = first.push(second);
    lemma_words_first(Seq::empty(), before, tail, style);
    assert(pushed(Seq::empty(), before, style) =~= first);
    assert forall|i: int| 0 <= i < shown.len() implies !is_special(#[trigger] shown[i]) by {
        assert(shown[i] != '<');
    }
    law_plain_text_is_one_segment(shown, second.style);
    let nested = seq![second];
    assert(nested.drop_last() =~= Seq::<SlackTextSegmentModel>::empty());
    assert(appended(first, nested.drop_last()) == first);
    assert(appended(first, nested) =~= next);
    assert(span_at(tail).1 == (Span::Link { url, shown }));
    assert(inline_onto(Seq::empty(), shown, second.style) =~= nested);
    assert(inline_onto(first, tail, style) == inline_onto(next, behind, style));
    lemma_words_first(next, behind, Seq::empty(), style);
    assert(behind + Seq::<char>::empty() =~= behind);
    assert(pushed(next, behind, style) =~= seq![
        SlackTextSegmentModel { text: before, style },
        second,
        SlackTextSegmentModel { text: behind, style },
    ]);
}

/// The word behind the backticks that open a block of code is its language, in lower case.
pub proof fn law_fences_name_languages(language: Seq<char>)
    requires
        language.len() > 0,
        forall|k: int| 0 <= k < language.len() ==> 'a' <= #[trigger] language[k] <= 'z',
    ensures
        crate::blocks::fence_language(seq!['`', '`', '`'] + language) == Some(language),
{
    lemma_marks();
    let line = seq!['`', '`', '`'] + language;
    assert('a' <= language[0] <= 'z');
    assert('a' <= language[language.len() - 1] <= 'z');
    lemma_line_start(line);
    assert(line.subrange(0, 3) =~= seq!['`', '`', '`']);
    crate::showing::lemma_run_before('`', 3, language);
    assert(Seq::new(3, |i: int| '`') + language =~= line);
    crate::wording::lemma_trimmed_stays(language);
    assert forall|k: int| 0 <= k < language.len() implies !is_space(#[trigger] language[k]) by {
        assert('a' <= language[k] <= 'z');
    }
    lemma_one_word(language);
    assert forall|k: int| 0 <= k < language.len() implies #[trigger] crate::text::ascii_lowercase(
        language,
    )[k] == language[k] by {
        assert('a' <= language[k] <= 'z');
    }
    assert(crate::text::ascii_lowercase(language) =~= language);
}

proof fn lemma_one_word(text: Seq<char>)
    requires
        forall|k: int| 0 <= k < text.len() ==> !is_space(#[trigger] text[k]),
    ensures
        crate::text::first_word(text) == text,
    decreases text.len(),
{
    if text.len() > 0 {
        assert(!is_space(text[0]));
        let rest = text.skip(1);
        assert forall|k: int| 0 <= k < rest.len() implies !is_space(#[trigger] rest[k]) by {
            assert(!is_space(text[k + 1]));
        }
        lemma_one_word(rest);
        assert(crate::text::first_word(text) =~= text);
    } else {
        assert(crate::text::first_word(text) =~= text);
    }
}

/// White space before a line does not matter to what the line is.
pub proof fn law_indented_lines_are_the_same(indent: Seq<char>, line: Seq<char>)
    requires
        forall|k: int| 0 <= k < indent.len() ==> is_space(#[trigger] indent[k]),
    ensures
        is_fence(indent + line) == is_fence(line),
        crate::blocks::fence_language(indent + line) == crate::blocks::fence_language(line),
        quote_content(indent + line) == quote_content(line),
        unordered_content(indent + line) == unordered_content(line),
        ordered_content(indent + line) == ordered_content(line),
    decreases indent.len(),
{
    let all = indent + line;
    if indent.len() > 0 {
        let less = indent.skip(1);
        assert(is_space(indent[0]));
        assert forall|k: int| 0 <= k < less.len() implies is_space(#[trigger] less[k]) by {
            assert(is_space(indent[k + 1]));
        }
        law_indented_lines_are_the_same(less, line);
        assert(all.skip(1) =~= less + line);
        assert(all.first() == indent[0]);
        assert(trim_start(all) == trim_start(less + line));
    } else {
        assert(all =~= line);
    }
}

} // verus!
