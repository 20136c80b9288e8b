//! What holds of texts when they are taken apart, put together and trimmed.
use vstd::prelude::*;

use crate::text::{
    decimal, digits_value, find_char, is_digit, is_space, join, lemma_find_char, lines, split,
    strip_leading, strip_trailing, trim, trim_end, trim_start, words,
};

verus! {

/// What is joined starts with the first part.
pub proof fn lemma_join_front(parts: Seq<Seq<char>>, separator: Seq<char>)
    requires
        parts.len() >= 2,
    ensures
        join(parts, separator) == parts[0] + separator + join(parts.skip(1), separator),
    decreases parts.len(),
{
    let rest = parts.skip(1);
    if parts.len() == 2 {
        assert(parts.drop_last() =~= seq![parts[0]]);
        assert(join(parts.drop_last(), separator) == parts[0]);
        assert(rest =~= seq![parts[1]]);
        assert(join(rest, separator) == parts[1]);
    } else {
        lemma_join_front(parts.drop_last(), separator);
        assert(parts.drop_last().skip(1) =~= rest.drop_last());
        assert(join(parts, separator) =~= parts[0] + separator + join(rest, separator));
    }
}

/// The first separator in a text that starts with a part without one.
proof fn lemma_first_separator(head: Seq<char>, c: char, tail: Seq<char>)
    requires
        !head.contains(c),
    ensures
        find_char(head + seq![c] + tail, c, 0) == Some(head.len() as int),
        find_char(head, c, 0) is None,
{
    let text = head + seq![c] + tail;
    lemma_find_char(text, c, 0);
    lemma_find_char(head, c, 0);
    assert(text[head.len() as int] == c);
    assert forall|k: int| 0 <= k < head.len() implies #[trigger] text[k] != c by {
        assert(head.contains(head[k]));
    }
    if find_char(head, c, 0) is Some {
        assert(head.contains(head[find_char(head, c, 0)->0]));
    }
}

/// Splitting undoes joining: parts without the separator come back as they were.
pub proof fn law_splitting_undoes_joining(parts: Seq<Seq<char>>, c: char)
    requires
        parts.len() > 0,
        forall|i: int| 0 <= i < parts.len() ==> !(#[trigger] parts[i]).contains(c),
    ensures
        split(join(parts, seq![c]), c) == parts,
    decreases parts.len(),
{
    if parts.len() == 1 {
        lemma_first_separator(parts[0], c, Seq::empty());
        assert(split(parts[0], c) =~= parts);
    } else {
        let rest = parts.skip(1);
        assert forall|i: int| 0 <= i < rest.len() implies !(#[trigger] rest[i]).contains(c) by {
            assert(!parts[i + 1].contains(c));
        }
        law_splitting_undoes_joining(rest, c);
        lemma_join_front(parts, seq![c]);
        let tail = join(rest, seq![c]);
        let text = join(parts, seq![c]);
        assert(!parts[0].contains(c));
        lemma_first_separator(parts[0], c, tail);
        assert(text.take(parts[0].len() as int) =~= parts[0]);
        assert(text.skip((parts[0].len() + 1) as int) =~= tail);
        assert(split(text, c) =~= parts);
    }
}

/// Joining undoes splitting: the parts of a text with the separator between them are the text.
pub proof fn law_joining_undoes_splitting(text: Seq<char>, c: char)
    ensures
        join(split(text, c), seq![c]) == text,
        split(text, c).len() > 0,
        forall|i: int| 0 <= i < split(text, c).len() ==> !(#[trigger] split(text, c)[i]).contains(c),
    decreases text.len(),
{
    lemma_find_char(text, c, 0);
    match find_char(text, c, 0) {
        Some(at) => {
            let (head, tail) = (text.take(at), text.skip(at + 1));
            law_joining_undoes_splitting(tail, c);
            let parts = split(text, c);
            assert(parts.skip(1) =~= split(tail, c));
            lemma_join_front(parts, seq![c]);
            assert(text =~= head + seq![c] + tail);
            assert forall|i: int| 0 <= i < parts.len() implies !(#[trigger] parts[i]).contains(
                c,
            ) by {
                if i > 0 {
                    assert(parts[i] == split(tail, c)[i - 1]);
                } else if head.contains(c) {
                    let k = choose|k: int| 0 <= k < head.len() && head[k] == c;
                    assert(text[k] == c);
                }
            }
        },
        None => {
            assert(split(text, c) =~= seq![text]);
            if text.contains(c) {
                let k = choose|k: int| 0 <= k < text.len() && text[k] == c;
                assert(text[k] == c);
            }
        },
    }
}

/// The lines of a text that is joined from lines are those lines.
pub proof fn law_lines_undo_joining(parts: Seq<Seq<char>>)
    requires
        parts.len() > 0,
        parts.last().len() > 0,
        forall|i: int|
            0 <= i < parts.len() ==> !(#[trigger] parts[i]).contains('\n') && !parts[i].contains(
                '\r',
            ),
    ensures
        lines(join(parts, seq!['\n'])) == parts,
    decreases parts.len(),
{
    assert(!parts[0].contains('\n') && !parts[0].contains('\r'));
    if parts.len() == 1 {
        lemma_first_separator(parts[0], '\n', Seq::empty());
        assert(lines(parts[0]) =~= parts);
    } else {
        let rest = parts.skip(1);
        assert forall|i: int| 0 <= i < rest.len() implies !(#[trigger] rest[i]).contains('\n')
            && !rest[i].contains('\r') by {
            assert(!parts[i + 1].contains('\n'));
        }
        law_lines_undo_joining(rest);
        lemma_join_front(parts, seq!['\n']);
        let tail = join(rest, seq!['\n']);
        let text = join(parts, seq!['\n']);
        lemma_first_separator(parts[0], '\n', tail);
        assert(text.take(parts[0].len() as int) =~= parts[0]);
        assert(text.skip((parts[0].len() + 1) as int) =~= tail);
        if parts[0].len() > 0 && parts[0].last() == '\r' {
            assert(parts[0].contains(parts[0][parts[0].len() - 1]));
        }
        assert(lines(text) =~= parts);
    }
}

/// What is joined holds no character that neither the parts nor the separator hold.
pub proof fn lemma_join_members(parts: Seq<Seq<char>>, separator: Seq<char>, c: char)
    requires
        !separator.contains(c),
        forall|i: int| 0 <= i < parts.len() ==> !(#[trigger] parts[i]).contains(c),
    ensures
        !join(parts, separator).contains(c),
    decreases parts.len(),
{
    if parts.len() == 1 {
        assert(!parts[0].contains(c));
    } else if parts.len() > 1 {
        let shorter = parts.drop_last();
        assert forall|i: int| 0 <= i < shorter.len() implies !(#[trigger] shorter[i]).contains(
            c,
        ) by {
            assert(!parts[i].contains(c));
        }
        lemma_join_members(shorter, separator, c);
        assert(!parts[parts.len() - 1].contains(c));
        let text = join(parts, separator);
        let head = join(shorter, separator);
        if text.contains(c) {
            let k = choose|k: int| 0 <= k < text.len() && text[k] == c;
            if k < head.len() {
                assert(head.contains(head[k]));
            } else if k < head.len() + separator.len() {
                assert(separator.contains(separator[k - head.len()]));
            } else {
                assert(parts.last().contains(parts.last()[k - head.len() - separator.len()]));
            }
        }
    }
}

/// Whether a text is another with white space before and after it that it neither starts nor ends
/// with.
pub open spec fn is_core_of(core: Seq<char>, text: Seq<char>, before: int) -> bool {
    &&& 0 <= before && before + core.len() <= text.len()
    &&& core == text.subrange(before, before + core.len())
    &&& forall|k: int| 0 <= k < before ==> is_space(#[trigger] text[k])
    &&& forall|k: int| before + core.len() <= k < text.len() ==> is_space(#[trigger] text[k])
    &&& core.len() > 0 ==> !is_space(core[0]) && !is_space(core[core.len() - 1])
}

/// How much white space a text starts with.
proof fn lemma_trim_start(text: Seq<char>) -> (before: int)
    ensures
        0 <= before <= text.len(),
        trim_start(text) == text.skip(before),
        forall|k: int| 0 <= k < before ==> is_space(#[trigger] text[k]),
        before < text.len() ==> !is_space(text[before]),
    decreases text.len(),
{
    if text.len() > 0 && is_space(text.first()) {
        let rest = text.skip(1);
        let n = lemma_trim_start(rest);
        assert(rest.skip(n) =~= text.skip(n + 1));
        assert forall|k: int| 0 <= k < n + 1 implies is_space(#[trigger] text[k]) by {
            if k > 0 {
                assert(is_space(rest[k - 1]));
            }
        }
        if n + 1 < text.len() {
            assert(rest[n] == text[n + 1]);
        }
        n + 1
    } else {
        assert(text.skip(0) =~= text);
        0
    }
}

/// How much of a text stands before the white space that it ends with.
proof fn lemma_trim_end(text: Seq<char>) -> (length: int)
    ensures
        0 <= length <= text.len(),
        trim_end(text) == text.take(length),
        forall|k: int| length <= k < text.len() ==> is_space(#[trigger] text[k]),
        length > 0 ==> !is_space(text[length - 1]),
    decreases text.len(),
{
    if text.len() > 0 && is_space(text.last()) {
        let rest = text.drop_last();
        let n = lemma_trim_end(rest);
        assert(rest.take(n) =~= text.take(n));
        assert forall|k: int| n <= k < text.len() implies is_space(#[trigger] text[k]) by {
            if k < rest.len() {
                assert(is_space(rest[k]));
            }
        }
        if n > 0 {
            assert(rest[n - 1] == text[n - 1]);
        }
        n
    } else {
        assert(text.take(text.len() as int) =~= text);
        text.len() as int
    }
}

/// Trimming takes away all the white space at both ends of a text, and nothing else.
pub proof fn law_trimming_takes_white_space_away(text: Seq<char>)
    ensures
        exists|before: int| #[trigger] is_core_of(trim(text), text, before),
        trim(text).len() == 0 <==> forall|k: int|
            0 <= k < text.len() ==> is_space(#[trigger] text[k]),
        trim(trim(text)) == trim(text),
{
    let before = lemma_trim_start(text);
    let rest = trim_start(text);
    let length = lemma_trim_end(rest);
    let core = trim(text);
    assert(core =~= text.subrange(before, before + length));
    assert forall|k: int| before + length <= k < text.len() implies is_space(
        #[trigger] text[k],
    ) by {
        assert(is_space(rest[k - before]));
    }
    if core.len() > 0 {
        assert(rest[length - 1] == core[core.len() - 1]);
        if length > 0 {
            assert(text[before] == core[0]);
        }
    }
    assert(is_core_of(core, text, before));
    if length > 0 {
        assert(!is_space(text[before + length - 1]));
    }
    lemma_trimmed_stays(core);
}

/// A text that neither starts nor ends with white space is not changed by trimming.
pub proof fn lemma_trimmed_stays(text: Seq<char>)
    requires
        text.len() > 0 ==> !is_space(text[0]) && !is_space(text[text.len() - 1]),
    ensures
        trim(text) == text,
        trim_start(text) == text,
{
    if text.len() > 0 {
        assert(text.first() == text[0]);
        assert(text.last() == text[text.len() - 1]);
    }
}

/// Taking away what a text starts with takes all of it away, and nothing else.
pub proof fn law_leading_characters_are_taken_away(text: Seq<char>, c: char)
    ensures
        exists|n: int|
            0 <= n <= text.len() && #[trigger] text.skip(n) == strip_leading(text, c) && (n
                < text.len() ==> text[n] != c) && forall|k: int|
                0 <= k < n ==> #[trigger] text[k] == c,
    decreases text.len(),
{
    if text.len() > 0 && text.first() == c {
        let rest = text.skip(1);
        law_leading_characters_are_taken_away(rest, c);
        let n = choose|n: int|
            0 <= n <= rest.len() && #[trigger] rest.skip(n) == strip_leading(rest, c) && (n
                < rest.len() ==> rest[n] != c) && forall|k: int|
                0 <= k < n ==> #[trigger] rest[k] == c;
        assert(text.skip(n + 1) =~= rest.skip(n));
        assert forall|k: int| 0 <= k < n + 1 implies #[trigger] text[k] == c by {
            if k > 0 {
                assert(rest[k - 1] == c);
            }
        }
        if n + 1 < text.len() {
            assert(rest[n] == text[n + 1]);
        }
    } else {
        assert(text.skip(0) =~= text);
    }
}

/// Taking away what a text ends with takes all of it away, and nothing else.
pub proof fn law_trailing_characters_are_taken_away(text: Seq<char>, c: char)
    ensures
        exists|n: int|
            0 <= n <= text.len() && #[trigger] text.take(n) == strip_trailing(text, c) && (n > 0
                ==> text[n - 1] != c) && forall|k: int|
                n <= k < text.len() ==> #[trigger] text[k] == c,
    decreases text.len(),
{
    if text.len() > 0 && text.last() == c {
        let rest = text.drop_last();
        law_trailing_characters_are_taken_away(rest, c);
        let n = choose|n: int|
            0 <= n <= rest.len() && #[trigger] rest.take(n) == strip_trailing(rest, c) && (n > 0
                ==> rest[n - 1] != c) && forall|k: int|
                n <= k < rest.len() ==> #[trigger] rest[k] == c;
        assert(text.take(n) =~= rest.take(n));
        assert forall|k: int| n <= k < text.len() implies #[trigger] text[k] == c by {
            if k < rest.len() {
                assert(rest[k] == c);
            }
        }
    } else {
        assert(text.take(text.len() as int) =~= text);
    }
}

/// A number that is written in decimal is read back: it is made of digits and denotes the number.
pub proof fn law_numbers_read_back(value: nat)
    ensures
        decimal(value).len() > 0,
        forall|i: int| 0 <= i < decimal(value).len() ==> is_digit(#[trigger] decimal(value)[i]),
        digits_value(decimal(value)) == value,
        value > 0 ==> decimal(value)[0] != '0',
    decreases value,
{
    if value < 10 {
        let one = decimal(value);
        assert(one.drop_last() =~= Seq::<char>::empty());
        assert(one.last() == one[0]);
        assert(digits_value(Seq::<char>::empty()) == 0);
    } else {
        let head = decimal(value / 10);
        law_numbers_read_back(value / 10);
        let all = decimal(value);
        assert(all.drop_last() =~= head);
        assert forall|i: int| 0 <= i < all.len() implies is_digit(#[trigger] all[i]) by {
            if i < head.len() {
                assert(is_digit(head[i]));
            }
        }
        assert(all[0] == head[0]);
    }
}

/// The words of a text hold no white space and are not empty.
pub proof fn law_words_hold_no_white_space(text: Seq<char>)
    ensures
        forall|i: int| 0 <= i < words(text).len() ==> (#[trigger] words(text)[i]).len() > 0,
        forall|i: int, k: int|
            0 <= i < words(text).len() && 0 <= k < words(text)[i].len() ==> !is_space(
                #[trigger] words(text)[i][k],
            ),
    decreases text.len(),
{
    if text.len() > 0 {
        if is_space(text.first()) {
            law_words_hold_no_white_space(text.skip(1));
            assert(words(text) == words(text.skip(1)));
        } else {
            crate::text::lemma_first_word(text);
            let first = crate::text::first_word(text);
            let rest = text.skip(first.len() as int);
            law_words_hold_no_white_space(rest);
            lemma_first_word_is_solid(text);
            let all = words(text);
            assert(all == seq![first] + words(rest));
            assert forall|i: int| 0 <= i < all.len() implies (#[trigger] all[i]).len() > 0 by {
                if i > 0 {
                    assert(all[i] == words(rest)[i - 1]);
                }
            }
            assert forall|i: int, k: int|
                0 <= i < all.len() && 0 <= k < all[i].len() implies !is_space(
                #[trigger] all[i][k],
            ) by {
                if i > 0 {
                    assert(all[i] == words(rest)[i - 1]);
                    assert(!is_space(words(rest)[i - 1][k]));
                } else {
                    assert(all[i][k] == first[k]);
                }
            }
        }
    }
}

/// A first word holds no white space.
proof fn lemma_first_word_is_solid(text: Seq<char>)
    ensures
        forall|k: int|
            0 <= k < crate::text::first_word(text).len() ==> !is_space(
                #[trigger] crate::text::first_word(text)[k],
            ),
    decreases text.len(),
{
    if text.len() > 0 && !is_space(text.first()) {
        lemma_first_word_is_solid(text.skip(1));
        let all = crate::text::first_word(text);
        let rest = crate::text::first_word(text.skip(1));
        assert forall|k: int| 0 <= k < all.len() implies !is_space(#[trigger] all[k]) by {
            if k > 0 {
                assert(all[k] == rest[k - 1]);
            }
        }
    }
}

/// The words of a text that is joined from words with single spaces are those words.
pub proof fn law_words_undo_joining(parts: Seq<Seq<char>>)
    requires
        forall|i: int| 0 <= i < parts.len() ==> (#[trigger] parts[i]).len() > 0,
        forall|i: int, k: int|
            0 <= i < parts.len() && 0 <= k < parts[i].len() ==> !is_space(#[trigger] parts[i][k]),
    ensures
        words(join(parts, seq![' '])) == parts,
    decreases parts.len(),
{
    if parts.len() > 0 {
        let first = parts[0];
        let text = join(parts, seq![' ']);
        assert(first.len() > 0);
        assert(!is_space(parts[0][0]));
        if parts.len() == 1 {
            lemma_word_ends(first, Seq::empty());
            assert(first + Seq::<char>::empty() =~= first);
            assert(text.skip(first.len() as int) =~= Seq::<char>::empty());
            assert(text.first() == parts[0][0]);
            assert(words(Seq::<char>::empty()) == Seq::<Seq<char>>::empty());
            assert(words(text) == seq![first] + words(Seq::<char>::empty()));
            assert(words(text) =~= parts);
        } else {
            let rest = parts.skip(1);
            assert forall|i: int| 0 <= i < rest.len() implies (#[trigger] rest[i]).len() > 0 by {
                assert(parts[i + 1].len() > 0);
            }
            assert forall|i: int, k: int|
                0 <= i < rest.len() && 0 <= k < rest[i].len() implies !is_space(
                #[trigger] rest[i][k],
            ) by {
                assert(!is_space(parts[i + 1][k]));
            }
            law_words_undo_joining(rest);
            lemma_join_front(parts, seq![' ']);
            let tail = join(rest, seq![' ']);
            assert(text =~= first + (seq![' '] + tail));
            lemma_word_ends(first, seq![' '] + tail);
            assert(text.first() == parts[0][0]);
            assert(text.skip(first.len() as int) =~= seq![' '] + tail);
            assert((seq![' '] + tail).skip(1) =~= tail);
            assert(is_space((seq![' '] + tail).first()));
            assert(words(seq![' '] + tail) == words(tail));
            assert(crate::text::first_word(text) == first);
            assert(words(text) == seq![first] + words(tail));
            assert(parts =~= seq![first] + rest);
            assert(words(tail) == rest);
        }
    }
}

/// A word ends where white space follows it.
proof fn lemma_word_ends(word: Seq<char>, rest: Seq<char>)
    requires
        forall|k: int| 0 <= k < word.len() ==> !is_space(#[trigger] word[k]),
        rest.len() > 0 ==> is_space(rest[0]),
    ensures
        crate::text::first_word(word + rest) == word,
    decreases word.len(),
{
    if word.len() > 0 {
        let tail = word.skip(1);
        assert forall|k: int| 0 <= k < tail.len() implies !is_space(#[trigger] tail[k]) by {
            assert(!is_space(word[k + 1]));
        }
        lemma_word_ends(tail, rest);
        assert((word + rest).skip(1) =~= tail + rest);
        assert(!is_space(word[0]));
        assert((word + rest).first() == word[0]);
        assert(crate::text::first_word(word + rest) =~= word);
    } else {
        assert(word + rest =~= rest);
        if rest.len() > 0 {
            assert(rest.first() == rest[0]);
        }
        assert(crate::text::first_word(rest) =~= word);
    }
}

} // verus!
