//! Text as sequences of characters: the operations on strings that the rest of the library is
//! stated and built with.
use vstd::prelude::*;
use vstd::string::*;

verus! {

/// `String::push` of the standard library: it appends one character.
pub assume_specification[ String::push ](target: &mut String, c: char)
    ensures
        final(target)@ == old(target)@.push(c),
;

/// The lowercase form of a text, as the standard library's Unicode tables give it.
pub uninterp spec fn lowercase(text: Seq<char>) -> Seq<char>;

/// `str::to_lowercase` of the standard library. Its result is a function of the text alone.
pub assume_specification[ str::to_lowercase ](source: &str) -> (lower: String)
    ensures
        lower@ == lowercase(source@),
;

/// The uppercase form of a text, as the standard library's Unicode tables give it.
pub uninterp spec fn uppercase(text: Seq<char>) -> Seq<char>;

/// `str::to_uppercase` of the standard library. Its result is a function of the text alone.
pub assume_specification[ str::to_uppercase ](source: &str) -> (upper: String)
    ensures
        upper@ == uppercase(source@),
;

/// A text holds a needle when both agree after lowercasing.
pub open spec fn contains_ignoring_case(haystack: Seq<char>, needle: Seq<char>) -> bool {
    occurs(lowercase(haystack), lowercase(needle))
}

/// The characters with the Unicode property White_Space.
pub open spec fn is_space(c: char) -> bool {
    ||| '\u{9}' <= c <= '\u{d}'
    ||| c == ' '
    ||| c == '\u{85}'
    ||| c == '\u{a0}'
    ||| c == '\u{1680}'
    ||| '\u{2000}' <= c <= '\u{200a}'
    ||| c == '\u{2028}'
    ||| c == '\u{2029}'
    ||| c == '\u{202f}'
    ||| c == '\u{205f}'
    ||| c == '\u{3000}'
}

/// A text without the white space it starts with.
pub open spec fn trim_start(text: Seq<char>) -> Seq<char>
    decreases text.len(),
{
    if text.len() > 0 && is_space(text.first()) {
        trim_start(text.skip(1))
    } else {
        text
    }
}

/// A text without the white space it ends with.
pub open spec fn trim_end(text: Seq<char>) -> Seq<char>
    decreases text.len(),
{
    if text.len() > 0 && is_space(text.last()) {
        trim_end(text.drop_last())
    } else {
        text
    }
}

/// A text without the white space at both ends.
pub open spec fn trim(text: Seq<char>) -> Seq<char> {
    trim_end(trim_start(text))
}

/// Whether nothing but white space is in a text.
pub open spec fn is_blank(text: Seq<char>) -> bool {
    trim(text).len() == 0
}

/// A text without the run of `c` it starts with.
pub open spec fn strip_leading(text: Seq<char>, c: char) -> Seq<char>
    decreases text.len(),
{
    if text.len() > 0 && text.first() == c {
        strip_leading(text.skip(1), c)
    } else {
        text
    }
}

/// A text without the run of `c` it ends with.
pub open spec fn strip_trailing(text: Seq<char>, c: char) -> Seq<char>
    decreases text.len(),
{
    if text.len() > 0 && text.last() == c {
        strip_trailing(text.drop_last(), c)
    } else {
        text
    }
}

/// Whether `part` stands in `text` at position `at`.
pub open spec fn occurs_at(text: Seq<char>, part: Seq<char>, at: int) -> bool {
    0 <= at && at + part.len() <= text.len() && text.subrange(at, at + part.len()) == part
}

/// Whether `part` stands anywhere in `text`.
pub open spec fn occurs(text: Seq<char>, part: Seq<char>) -> bool {
    exists|at: int| #[trigger] occurs_at(text, part, at)
}

/// The first position at or after `from` where `part` stands in `text`.
pub open spec fn find_from(text: Seq<char>, part: Seq<char>, from: int) -> Option<int>
    decreases text.len() - from,
{
    if from < 0 || from + part.len() > text.len() {
        None
    } else if occurs_at(text, part, from) {
        Some(from)
    } else if from >= text.len() {
        None
    } else {
        find_from(text, part, from + 1)
    }
}

/// Whether a text begins with `prefix`.
pub open spec fn starts_with(text: Seq<char>, prefix: Seq<char>) -> bool {
    occurs_at(text, prefix, 0)
}

/// Whether a text ends with `suffix`.
pub open spec fn ends_with(text: Seq<char>, suffix: Seq<char>) -> bool {
    occurs_at(text, suffix, text.len() - suffix.len())
}

/// The first position at or after `from` where `c` stands.
pub open spec fn find_char(text: Seq<char>, c: char, from: int) -> Option<int>
    decreases text.len() - from,
{
    if from < 0 || from >= text.len() {
        None
    } else if text[from] == c {
        Some(from)
    } else {
        find_char(text, c, from + 1)
    }
}

/// The pieces of a text between the separators `c`; there is one more piece than separators.
pub open spec fn split(text: Seq<char>, c: char) -> Seq<Seq<char>>
    decreases text.len(),
{
    match find_char(text, c, 0) {
        Some(at) if 0 <= at < text.len() => seq![text.take(at)] + split(text.skip(at + 1), c),
        _ => seq![text],
    }
}

/// The pieces one after the other, with the separator between each two.
pub open spec fn join(parts: Seq<Seq<char>>, separator: Seq<char>) -> Seq<char>
    decreases parts.len(),
{
    if parts.len() == 0 {
        Seq::empty()
    } else if parts.len() == 1 {
        parts[0]
    } else {
        join(parts.drop_last(), separator) + separator + parts.last()
    }
}

/// A line without the carriage return it ends with.
pub open spec fn without_carriage_return(line: Seq<char>) -> Seq<char> {
    if line.len() > 0 && line.last() == '\r' {
        line.drop_last()
    } else {
        line
    }
}

/// The lines of a text: the pieces that line feeds end, each without a final carriage return.
/// What follows the last line feed is a line if it is not empty; it keeps its carriage return.
pub open spec fn lines(text: Seq<char>) -> Seq<Seq<char>>
    decreases text.len(),
{
    match find_char(text, '\n', 0) {
        Some(at) if 0 <= at < text.len() => seq![without_carriage_return(text.take(at))] + lines(
            text.skip(at + 1),
        ),
        _ => if text.len() == 0 {
            Seq::empty()
        } else {
            seq![text]
        },
    }
}

/// The characters up to the first white space.
pub open spec fn first_word(text: Seq<char>) -> Seq<char>
    decreases text.len(),
{
    if text.len() == 0 || is_space(text.first()) {
        Seq::empty()
    } else {
        seq![text.first()] + first_word(text.skip(1))
    }
}

/// The words of a text: what stands between white space.
pub open spec fn words(text: Seq<char>) -> Seq<Seq<char>>
    decreases text.len(),
{
    if text.len() == 0 {
        Seq::empty()
    } else if is_space(text.first()) {
        words(text.skip(1))
    } else {
        proof {
            lemma_first_word(text);
        }
        seq![first_word(text)] + words(text.skip(first_word(text).len() as int))
    }
}

/// A first word is a prefix of the text, and not empty if the text starts with no white space.
pub proof fn lemma_first_word(text: Seq<char>)
    ensures
        first_word(text).len() <= text.len(),
        first_word(text) == text.take(first_word(text).len() as int),
        text.len() > 0 && !is_space(text.first()) ==> first_word(text).len() > 0,
    decreases text.len(),
{
    if text.len() > 0 && !is_space(text.first()) {
        lemma_first_word(text.skip(1));
        assert(first_word(text) =~= text.take(first_word(text).len() as int));
    } else {
        assert(first_word(text) =~= text.take(0));
    }
}

/// The order of texts: by the first character that differs, a prefix before what extends it.
pub open spec fn text_before(left: Seq<char>, right: Seq<char>) -> bool
    decreases left.len(),
{
    if right.len() == 0 {
        false
    } else if left.len() == 0 {
        true
    } else if left.first() != right.first() {
        left.first() < right.first()
    } else {
        text_before(left.skip(1), right.skip(1))
    }
}

/// The lowercase form of an ASCII letter; any other character is itself.
pub open spec fn ascii_lower(c: char) -> char {
    if 'A' <= c <= 'Z' {
        ((c as u32) + 32) as char
    } else {
        c
    }
}

/// A text with its ASCII letters in lowercase.
pub open spec fn ascii_lowercase(text: Seq<char>) -> Seq<char> {
    text.map_values(|c: char| ascii_lower(c))
}

/// The decimal digit of a number below ten.
pub open spec fn digit(value: nat) -> char {
    ((('0' as u32) + value) as u32) as char
}

/// A number in decimal digits, without leading zeros.
pub open spec fn decimal(value: nat) -> Seq<char>
    decreases value,
{
    if value < 10 {
        seq![digit(value)]
    } else {
        decimal(value / 10).push(digit(value % 10))
    }
}

/// Whether a character is an ASCII digit.
pub open spec fn is_digit(c: char) -> bool {
    '0' <= c <= '9'
}

/// Whether a text holds ASCII digits only.
pub open spec fn all_digits(text: Seq<char>) -> bool {
    forall|i: int| 0 <= i < text.len() ==> is_digit(#[trigger] text[i])
}

/// The number that a sequence of decimal digits denotes.
pub open spec fn digits_value(text: Seq<char>) -> nat
    decreases text.len(),
{
    if text.len() == 0 {
        0
    } else {
        digits_value(text.drop_last()) * 10 + (text.last() as u32 - '0' as u32) as nat
    }
}

/// The unsigned number that a text denotes: at least one digit, with an optional plus sign.
pub open spec fn parse_unsigned(text: Seq<char>, limit: nat) -> Option<nat> {
    let digits = if text.len() > 0 && text.first() == '+' {
        text.skip(1)
    } else {
        text
    };
    if digits.len() > 0 && all_digits(digits) && digits_value(digits) <= limit {
        Some(digits_value(digits))
    } else {
        None
    }
}

/// The texts of a sequence that are not blank, trimmed.
pub open spec fn trimmed_non_blank(text: Seq<char>) -> Option<Seq<char>> {
    if is_blank(text) {
        None
    } else {
        Some(trim(text))
    }
}

/// The characters of a text in a vector.
pub fn to_chars(text: &str) -> (chars: Vec<char>)
    ensures
        chars@ == text@,
{
    let mut chars: Vec<char> = Vec::new();
    for c in iter: text.chars()
        invariant
            chars@ == iter.seq().take(iter.index() as int),
            iter.seq() == text@,
    {
        chars.push(c);
    }
    assert(chars@ =~= text@);
    chars
}

/// The text made of the characters from `from` up to `to`.
pub fn slice_text(chars: &Vec<char>, from: usize, to: usize) -> (text: String)
    requires
        from <= to <= chars.len(),
    ensures
        text@ == chars@.subrange(from as int, to as int),
{
    let mut text = String::new();
    let mut i: usize = from;
    while i < to
        invariant
            from <= i <= to <= chars.len(),
            text@ == chars@.subrange(from as int, i as int),
        decreases to - i,
    {
        text.push(chars[i]);
        i += 1;
        assert(chars@.subrange(from as int, i as int) =~= chars@.subrange(
            from as int,
            i - 1,
        ).push(chars@[i - 1]));
    }
    text
}

/// Whether two texts are the same.
pub fn same_text(left: &str, right: &str) -> (same: bool)
    ensures
        same == (left@ == right@),
{
    left.to_owned() == right.to_owned()
}

/// A text of its own with the same characters.
pub fn owned(value: &str) -> (copy: String)
    ensures
        copy@ == value@,
{
    value.to_owned()
}

/// Whether two optional texts are the same.
pub fn same_option(left: &Option<String>, right: &Option<String>) -> (same: bool)
    ensures
        same == (left.deep_view() == right.deep_view()),
{
    match (left, right) {
        (Some(l), Some(r)) => same_text(l.as_str(), r.as_str()),
        (None, None) => true,
        _ => false,
    }
}

/// Whether a character is white space.
pub fn space(c: char) -> (r: bool)
    ensures
        r == is_space(c),
{
    ('\u{9}' <= c && c <= '\u{d}') || c == ' ' || c == '\u{85}' || c == '\u{a0}' || c == '\u{1680}'
        || ('\u{2000}' <= c && c <= '\u{200a}') || c == '\u{2028}' || c == '\u{2029}' || c
        == '\u{202f}' || c == '\u{205f}' || c == '\u{3000}'
}

/// The text without white space at its start.
pub fn trimmed_start(value: &str) -> (r: String)
    ensures
        r@ == trim_start(value@),
{
    let chars = to_chars(value);
    let mut from: usize = 0;
    assert(value@.skip(0) =~= value@);
    while from < chars.len() && space(chars[from])
        invariant
            from <= chars.len(),
            chars@ == value@,
            trim_start(value@) == trim_start(value@.skip(from as int)),
        decreases chars.len() - from,
    {
        assert(value@.skip(from as int).skip(1) =~= value@.skip(from as int + 1));
        from += 1;
    }
    assert(value@.skip(from as int) =~= value@.subrange(from as int, value@.len() as int));
    slice_text(&chars, from, chars.len())
}

/// The text without white space at its end.
pub fn trimmed_end(value: &str) -> (r: String)
    ensures
        r@ == trim_end(value@),
{
    let chars = to_chars(value);
    let mut to: usize = chars.len();
    assert(value@.take(to as int) =~= value@);
    while to > 0 && space(chars[to - 1])
        invariant
            to <= chars.len(),
            chars@ == value@,
            trim_end(value@) == trim_end(value@.take(to as int)),
        decreases to,
    {
        assert(value@.take(to as int).drop_last() =~= value@.take(to as int - 1));
        to -= 1;
    }
    assert(value@.take(to as int) =~= value@.subrange(0, to as int));
    slice_text(&chars, 0, to)
}

/// The text without white space at its ends.
pub fn trimmed(value: &str) -> (r: String)
    ensures
        r@ == trim(value@),
{
    let start = trimmed_start(value);
    trimmed_end(start.as_str())
}

/// Whether nothing but white space is in a text.
pub fn blank(value: &str) -> (r: bool)
    ensures
        r == is_blank(value@),
{
    trimmed(value).as_str().is_empty()
}

/// The trimmed text, unless nothing is left of it.
pub fn non_blank(value: &str) -> (r: Option<String>)
    ensures
        r.deep_view() == trimmed_non_blank(value@),
{
    let text = trimmed(value);
    if text.as_str().is_empty() {
        None
    } else {
        Some(text)
    }
}

/// The text without the run of `c` it starts with.
pub fn without_leading(value: &str, c: char) -> (r: String)
    ensures
        r@ == strip_leading(value@, c),
{
    let chars = to_chars(value);
    let mut from: usize = 0;
    assert(value@.skip(0) =~= value@);
    while from < chars.len() && chars[from] == c
        invariant
            from <= chars.len(),
            chars@ == value@,
            strip_leading(value@, c) == strip_leading(value@.skip(from as int), c),
        decreases chars.len() - from,
    {
        assert(value@.skip(from as int).skip(1) =~= value@.skip(from as int + 1));
        from += 1;
    }
    assert(value@.skip(from as int) =~= value@.subrange(from as int, value@.len() as int));
    slice_text(&chars, from, chars.len())
}

/// The text without the run of `c` it ends with.
pub fn without_trailing(value: &str, c: char) -> (r: String)
    ensures
        r@ == strip_trailing(value@, c),
{
    let chars = to_chars(value);
    let mut to: usize = chars.len();
    assert(value@.take(to as int) =~= value@);
    while to > 0 && chars[to - 1] == c
        invariant
            to <= chars.len(),
            chars@ == value@,
            strip_trailing(value@, c) == strip_trailing(value@.take(to as int), c),
        decreases to,
    {
        assert(value@.take(to as int).drop_last() =~= value@.take(to as int - 1));
        to -= 1;
    }
    assert(value@.take(to as int) =~= value@.subrange(0, to as int));
    slice_text(&chars, 0, to)
}

/// Whether `part` stands in `chars` at position `at`.
pub fn stands_at(chars: &Vec<char>, part: &Vec<char>, at: usize) -> (r: bool)
    ensures
        r == occurs_at(chars@, part@, at as int),
{
    if at > chars.len() || part.len() > chars.len() - at {
        return false;
    }
    let mut i: usize = 0;
    while i < part.len()
        invariant
            i <= part.len(),
            at + part.len() <= chars.len(),
            forall|k: int| 0 <= k < i ==> chars@[at + k] == part@[k],
        decreases part.len() - i,
    {
        if chars[at + i] != part[i] {
            assert(chars@.subrange(at as int, at + part@.len())[i as int] != part@[i as int]);
            return false;
        }
        i += 1;
    }
    assert(chars@.subrange(at as int, at + part@.len()) =~= part@);
    true
}

/// The first position at or after `from` where `part` stands in `chars`.
pub fn position_of(chars: &Vec<char>, part: &Vec<char>, from: usize) -> (r: Option<usize>)
    ensures
        match r {
            Some(at) => find_from(chars@, part@, from as int) == Some(at as int) && occurs_at(
                chars@,
                part@,
                at as int,
            ),
            None => find_from(chars@, part@, from as int) is None,
        },
{
    let mut at: usize = from;
    while at <= chars.len() && part.len() <= chars.len() - at
        invariant
            find_from(chars@, part@, from as int) == find_from(chars@, part@, at as int),
        decreases chars.len() + 1 - at,
    {
        if stands_at(chars, part, at) {
            return Some(at);
        }
        if at == chars.len() {
            return None;
        }
        at += 1;
    }
    None
}

/// A found part stands at the place where it is found, and nowhere before it.
pub proof fn lemma_find_from(text: Seq<char>, part: Seq<char>, from: int)
    requires
        0 <= from,
    ensures
        find_from(text, part, from) matches Some(at) ==> from <= at && occurs_at(text, part, at)
            && forall|k: int| from <= k < at ==> !occurs_at(text, part, k),
        find_from(text, part, from) is None ==> forall|k: int|
            from <= k ==> !occurs_at(text, part, k),
    decreases text.len() - from,
{
    if from + part.len() <= text.len() && !occurs_at(text, part, from) && from < text.len() {
        lemma_find_from(text, part, from + 1);
        assert forall|k: int| from <= k && k < from + 1 implies !occurs_at(text, part, k) by {
            assert(k == from);
        }
    }
}

/// Whether `part` stands anywhere in `value`.
pub fn holds(value: &str, part: &str) -> (r: bool)
    ensures
        r == occurs(value@, part@),
{
    let chars = to_chars(value);
    let wanted = to_chars(part);
    let found = position_of(&chars, &wanted, 0);
    proof {
        lemma_find_from(value@, part@, 0);
    }
    match found {
        Some(at) => {
            assert(occurs_at(value@, part@, at as int));
            true
        },
        None => false,
    }
}

/// Whether `value` holds `needle`, both in lowercase.
pub fn holds_ignoring_case(value: &str, needle: &str) -> (r: bool)
    ensures
        r == contains_ignoring_case(value@, needle@),
{
    let haystack = value.to_lowercase();
    let wanted = needle.to_lowercase();
    holds(haystack.as_str(), wanted.as_str())
}

/// Whether `value` begins with `prefix`.
pub fn begins_with(value: &str, prefix: &str) -> (r: bool)
    ensures
        r == starts_with(value@, prefix@),
{
    stands_at(&to_chars(value), &to_chars(prefix), 0)
}

/// Whether `value` ends with `suffix`.
pub fn finishes_with(value: &str, suffix: &str) -> (r: bool)
    ensures
        r == ends_with(value@, suffix@),
{
    let chars = to_chars(value);
    let part = to_chars(suffix);
    if part.len() > chars.len() {
        return false;
    }
    stands_at(&chars, &part, chars.len() - part.len())
}

/// What follows `prefix` in `value`, if `value` begins with it.
pub fn after_prefix(value: &str, prefix: &str) -> (r: Option<String>)
    ensures
        r.deep_view() == (if starts_with(value@, prefix@) {
            Some(value@.skip(prefix@.len() as int))
        } else {
            None
        }),
{
    let chars = to_chars(value);
    let part = to_chars(prefix);
    if stands_at(&chars, &part, 0) {
        assert(value@.skip(prefix@.len() as int) =~= value@.subrange(
            prefix@.len() as int,
            value@.len() as int,
        ));
        Some(slice_text(&chars, part.len(), chars.len()))
    } else {
        None
    }
}

/// A found character stands where it is found, and nowhere before it.
pub proof fn lemma_find_char(text: Seq<char>, c: char, from: int)
    requires
        0 <= from,
    ensures
        find_char(text, c, from) matches Some(at) ==> from <= at < text.len() && text[at] == c
            && forall|k: int| from <= k < at ==> text[k] != c,
        find_char(text, c, from) is None ==> forall|k: int|
            from <= k < text.len() ==> text[k] != c,
    decreases text.len() - from,
{
    if from < text.len() && text[from] != c {
        lemma_find_char(text, c, from + 1);
    }
}

/// The first position at or after `from` where `c` stands in `chars`.
pub fn position_of_char(chars: &Vec<char>, c: char, from: usize) -> (r: Option<usize>)
    ensures
        match r {
            Some(at) => find_char(chars@, c, from as int) == Some(at as int) && from <= at
                < chars.len(),
            None => find_char(chars@, c, from as int) is None,
        },
{
    let mut at: usize = from;
    while at < chars.len()
        invariant
            from <= at,
            find_char(chars@, c, from as int) == find_char(chars@, c, at as int),
        decreases chars.len() - at,
    {
        if chars[at] == c {
            return Some(at);
        }
        at += 1;
    }
    None
}

/// Searching a tail of a text finds what searching from the tail's start finds.
pub proof fn lemma_find_char_skip(text: Seq<char>, c: char, start: int, from: int)
    requires
        0 <= start <= text.len(),
        0 <= from,
    ensures
        find_char(text.skip(start), c, from) == (match find_char(text, c, start + from) {
            Some(at) => Some(at - start),
            None => None,
        }),
    decreases text.len() - start - from,
{
    if start + from < text.len() {
        assert(text.skip(start)[from] == text[start + from]);
        if text[start + from] != c {
            lemma_find_char_skip(text, c, start, from + 1);
        }
    }
}

/// The pieces of a text between the separators `c`.
pub fn split_text(value: &str, c: char) -> (parts: Vec<String>)
    ensures
        parts.deep_view() == split(value@, c),
        parts.len() > 0,
{
    let chars = to_chars(value);
    let mut parts: Vec<String> = Vec::new();
    let mut from: usize = 0;
    assert(value@.skip(0) =~= value@);
    assert(parts.deep_view() + split(value@, c) =~= split(value@, c));
    loop
        invariant_except_break
            from <= chars.len(),
            chars@ == value@,
            parts.deep_view() + split(value@.skip(from as int), c) == split(value@, c),
        ensures
            parts.deep_view() == split(value@, c),
            parts.len() > 0,
        decreases chars.len() - from,
    {
        let found = position_of_char(&chars, c, from);
        let ghost before = parts.deep_view();
        let ghost rest = value@.skip(from as int);
        proof {
            lemma_find_char_skip(value@, c, from as int, 0);
            lemma_find_char(value@, c, from as int);
        }
        match found {
            Some(at) => {
                parts.push(slice_text(&chars, from, at));
                proof {
                    let piece = rest.take(at - from);
                    assert(piece =~= value@.subrange(from as int, at as int));
                    assert(rest.skip(at - from + 1) =~= value@.skip(at as int + 1));
                    assert(split(rest, c) == seq![piece] + split(value@.skip(at as int + 1), c));
                    assert(parts.deep_view() =~= before.push(piece));
                    assert(before.push(piece) + split(value@.skip(at as int + 1), c) =~= before + (
                    seq![piece] + split(value@.skip(at as int + 1), c)));
                }
                from = at + 1;
            },
            None => {
                parts.push(slice_text(&chars, from, chars.len()));
                proof {
                    assert(rest =~= value@.subrange(from as int, value@.len() as int));
                    assert(split(rest, c) == seq![rest]);
                    assert(parts.deep_view() =~= before + seq![rest]);
                }
                break;
            },
        }
    }
    parts
}

/// The lines of a text.
pub fn split_lines(value: &str) -> (parts: Vec<String>)
    ensures
        parts.deep_view() == lines(value@),
{
    let chars = to_chars(value);
    let mut parts: Vec<String> = Vec::new();
    let mut from: usize = 0;
    assert(value@.skip(0) =~= value@);
    assert(parts.deep_view() + lines(value@) =~= lines(value@));
    loop
        invariant_except_break
            from <= chars.len(),
            chars@ == value@,
            parts.deep_view() + lines(value@.skip(from as int)) == lines(value@),
        ensures
            parts.deep_view() == lines(value@),
        decreases chars.len() - from,
    {
        let found = position_of_char(&chars, '\n', from);
        let ghost before = parts.deep_view();
        let ghost rest = value@.skip(from as int);
        proof {
            lemma_find_char_skip(value@, '\n', from as int, 0);
            lemma_find_char(value@, '\n', from as int);
        }
        match found {
            Some(at) => {
                let mut end: usize = at;
                if at > from && chars[at - 1] == '\r' {
                    end = at - 1;
                }
                parts.push(slice_text(&chars, from, end));
                proof {
                    let piece = rest.take(at - from);
                    assert(piece =~= value@.subrange(from as int, at as int));
                    assert(rest.skip(at - from + 1) =~= value@.skip(at as int + 1));
                    let line = without_carriage_return(piece);
                    assert(line =~= value@.subrange(from as int, end as int));
                    assert(lines(rest) == seq![line] + lines(value@.skip(at as int + 1)));
                    assert(parts.deep_view() =~= before.push(line));
                    assert(before.push(line) + lines(value@.skip(at as int + 1)) =~= before + (
                    seq![line] + lines(value@.skip(at as int + 1))));
                }
                from = at + 1;
            },
            None => {
                if from < chars.len() {
                    parts.push(slice_text(&chars, from, chars.len()));
                    proof {
                        assert(rest =~= value@.subrange(from as int, value@.len() as int));
                        assert(lines(rest) == seq![rest]);
                        assert(parts.deep_view() =~= before + seq![rest]);
                    }
                } else {
                    assert(rest =~= Seq::<char>::empty());
                    assert(before + Seq::<Seq<char>>::empty() =~= before);
                }
                break;
            },
        }
    }
    parts
}

/// The characters up to the first white space.
pub fn word_of(text: &str) -> (r: String)
    ensures
        r@ == first_word(text@),
{
    let chars = to_chars(text);
    let mut end: usize = 0;
    assert(text@.skip(0) =~= text@);
    assert(text@.take(0) + first_word(text@) =~= first_word(text@));
    while end < chars.len() && !space(chars[end])
        invariant
            end <= chars.len(),
            chars@ == text@,
            first_word(text@) == text@.take(end as int) + first_word(text@.skip(end as int)),
        decreases chars.len() - end,
    {
        let ghost rest = text@.skip(end as int);
        assert(rest.skip(1) =~= text@.skip(end as int + 1));
        assert(text@.take(end as int) + (seq![rest.first()] + first_word(rest.skip(1)))
            =~= text@.take(end as int + 1) + first_word(rest.skip(1)));
        end += 1;
    }
    assert(first_word(text@.skip(end as int)) =~= Seq::empty());
    assert(text@.take(end as int) + Seq::<char>::empty() =~= text@.subrange(0, end as int));
    slice_text(&chars, 0, end)
}

/// The words of a text.
pub fn split_words(value: &str) -> (parts: Vec<String>)
    ensures
        parts.deep_view() == words(value@),
{
    let chars = to_chars(value);
    let mut parts: Vec<String> = Vec::new();
    let mut at: usize = 0;
    assert(value@.skip(0) =~= value@);
    assert(parts.deep_view() + words(value@) =~= words(value@));
    while at < chars.len()
        invariant
            at <= chars.len(),
            chars@ == value@,
            parts.deep_view() + words(value@.skip(at as int)) == words(value@),
        decreases chars.len() - at,
    {
        let ghost rest = value@.skip(at as int);
        assert(rest.first() == value@[at as int]);
        if space(chars[at]) {
            assert(rest.skip(1) =~= value@.skip(at as int + 1));
            at += 1;
            continue;
        }
        let mut end: usize = at;
        assert(rest.take(0) + first_word(rest) =~= first_word(rest));
        assert(rest.skip(0) =~= rest);
        while end < chars.len() && !space(chars[end])
            invariant
                at <= end <= chars.len(),
                chars@ == value@,
                rest == value@.skip(at as int),
                first_word(rest) == rest.take(end - at) + first_word(rest.skip(end - at)),
            decreases chars.len() - end,
        {
            let ghost tail = rest.skip(end - at);
            assert(tail.first() == chars@[end as int]);
            assert(tail.skip(1) =~= rest.skip(end - at + 1));
            assert(rest.take(end - at) + (seq![tail.first()] + first_word(tail.skip(1)))
                =~= rest.take(end - at + 1) + first_word(tail.skip(1)));
            end += 1;
        }
        let ghost before = parts.deep_view();
        let ghost word = first_word(rest);
        proof {
            let tail = rest.skip(end - at);
            if end < chars.len() {
                assert(tail.first() == chars@[end as int]);
            }
            assert(first_word(tail) =~= Seq::empty());
            assert(word =~= rest.take(end - at));
            assert(rest.take(end - at) =~= value@.subrange(at as int, end as int));
            lemma_first_word(rest);
            assert(rest.skip(end - at) =~= value@.skip(end as int));
        }
        parts.push(slice_text(&chars, at, end));
        proof {
            assert(parts.deep_view() =~= before.push(word));
            assert(before + (seq![word] + words(value@.skip(end as int))) =~= before.push(word)
                + words(value@.skip(end as int)));
        }
        at = end;
    }
    assert(value@.skip(at as int) =~= Seq::empty());
    assert(parts.deep_view() + Seq::<Seq<char>>::empty() =~= parts.deep_view());
    parts
}

/// The texts one after the other, with the separator between each two.
pub fn join_texts(parts: &Vec<String>, separator: &str) -> (r: String)
    ensures
        r@ == join(parts.deep_view(), separator@),
{
    let mut out = String::new();
    let mut i: usize = 0;
    assert(parts.deep_view().take(0) =~= Seq::<Seq<char>>::empty());
    while i < parts.len()
        invariant
            i <= parts.len(),
            out@ == join(parts.deep_view().take(i as int), separator@),
        decreases parts.len() - i,
    {
        let ghost whole = parts.deep_view().take(i as int + 1);
        assert(whole.drop_last() =~= parts.deep_view().take(i as int));
        assert(whole.last() == parts[i as int]@);
        if i > 0 {
            out.append(separator);
        }
        let part = &parts[i];
        out.append(part.as_str());
        i += 1;
        assert(out@ =~= join(whole, separator@));
    }
    assert(parts.deep_view().take(i as int) =~= parts.deep_view());
    out
}

/// No text is before itself.
pub proof fn lemma_text_before_irreflexive(a: Seq<char>)
    ensures
        !text_before(a, a),
    decreases a.len(),
{
    if a.len() > 0 {
        lemma_text_before_irreflexive(a.skip(1));
    }
}

/// The order of texts is transitive.
pub proof fn lemma_text_before_transitive(a: Seq<char>, b: Seq<char>, c: Seq<char>)
    requires
        text_before(a, b),
        text_before(b, c),
    ensures
        text_before(a, c),
    decreases a.len(),
{
    if a.len() > 0 && b.len() > 0 && c.len() > 0 && a.first() == b.first() && b.first()
        == c.first() {
        lemma_text_before_transitive(a.skip(1), b.skip(1), c.skip(1));
    }
}

/// Of two different texts one is before the other.
pub proof fn lemma_text_before_total(a: Seq<char>, b: Seq<char>)
    ensures
        text_before(a, b) || text_before(b, a) || a == b,
    decreases a.len(),
{
    if a.len() > 0 && b.len() > 0 {
        if a.first() == b.first() {
            lemma_text_before_total(a.skip(1), b.skip(1));
            if a.skip(1) == b.skip(1) {
                assert(a =~= seq![a.first()] + a.skip(1));
                assert(b =~= seq![b.first()] + b.skip(1));
            }
        }
    } else if a.len() == 0 && b.len() == 0 {
        assert(a =~= b);
    }
}

/// Of two texts only one is before the other.
pub proof fn lemma_text_before_asymmetric(a: Seq<char>, b: Seq<char>)
    ensures
        text_before(a, b) ==> !text_before(b, a),
{
    if text_before(a, b) && text_before(b, a) {
        lemma_text_before_transitive(a, b, a);
        lemma_text_before_irreflexive(a);
    }
}

/// Not being before is transitive.
pub proof fn lemma_text_before_connected(a: Seq<char>, b: Seq<char>, c: Seq<char>)
    ensures
        !text_before(a, b) && !text_before(b, c) ==> !text_before(a, c),
{
    if !text_before(a, b) && !text_before(b, c) && text_before(a, c) {
        lemma_text_before_total(a, b);
        lemma_text_before_total(b, c);
        if text_before(b, a) {
            lemma_text_before_transitive(b, a, c);
        }
    }
}

/// Whether `left` comes before `right` in the order of texts.
pub fn precedes(left: &str, right: &str) -> (r: bool)
    ensures
        r == text_before(left@, right@),
{
    let a = to_chars(left);
    let b = to_chars(right);
    let mut i: usize = 0;
    assert(a@.skip(0) =~= a@);
    assert(b@.skip(0) =~= b@);
    while i < a.len() && i < b.len() && a[i] == b[i]
        invariant
            i <= a.len(),
            i <= b.len(),
            text_before(a@, b@) == text_before(a@.skip(i as int), b@.skip(i as int)),
        decreases a.len() - i,
    {
        assert(a@.skip(i as int).skip(1) =~= a@.skip(i as int + 1));
        assert(b@.skip(i as int).skip(1) =~= b@.skip(i as int + 1));
        i += 1;
    }
    if i >= b.len() {
        false
    } else if i >= a.len() {
        true
    } else {
        a[i] < b[i]
    }
}

/// The lowercase form of an ASCII letter.
pub fn lower_ascii(c: char) -> (r: char)
    ensures
        r == ascii_lower(c),
{
    if 'A' <= c && c <= 'Z' {
        ((c as u8) + 32) as char
    } else {
        c
    }
}

/// The text with its ASCII letters in lowercase.
pub fn to_ascii_lower(value: &str) -> (r: String)
    ensures
        r@ == ascii_lowercase(value@),
{
    let chars = to_chars(value);
    let mut out = String::new();
    let mut i: usize = 0;
    while i < chars.len()
        invariant
            i <= chars.len(),
            chars@ == value@,
            out@ == ascii_lowercase(value@).take(i as int),
        decreases chars.len() - i,
    {
        out.push(lower_ascii(chars[i]));
        i += 1;
        assert(ascii_lowercase(value@).take(i as int) =~= ascii_lowercase(value@).take(
            i - 1,
        ).push(ascii_lower(value@[i - 1])));
    }
    assert(ascii_lowercase(value@).take(i as int) =~= ascii_lowercase(value@));
    out
}

/// The decimal digit of a number below ten.
pub fn digit_char(value: u8) -> (r: char)
    requires
        value < 10,
    ensures
        r == digit(value as nat),
{
    (48u8 + value) as char
}

/// A number in decimal digits.
pub fn to_decimal(value: u64) -> (r: String)
    ensures
        r@ == decimal(value as nat),
    decreases value,
{
    if value < 10 {
        let mut out = String::new();
        out.push(digit_char(value as u8));
        assert(out@ =~= decimal(value as nat));
        out
    } else {
        let mut out = to_decimal(value / 10);
        out.push(digit_char((value % 10) as u8));
        out
    }
}

/// A prefix of a number in digits is no larger than the number.
proof fn lemma_digits_value_prefix(text: Seq<char>, to: int)
    requires
        all_digits(text),
        0 <= to <= text.len(),
    ensures
        digits_value(text.take(to)) <= digits_value(text),
    decreases text.len() - to,
{
    if to == text.len() {
        assert(text.take(to) =~= text);
    } else {
        assert(text.take(to + 1).drop_last() =~= text.take(to));
        assert(is_digit(text[to]));
        lemma_digits_value_prefix(text, to + 1);
    }
}

/// The unsigned number that a text denotes, if it is one and no larger than `limit`.
pub fn parse_number(value: &str, limit: u64) -> (r: Option<u64>)
    ensures
        match r {
            Some(number) => parse_unsigned(value@, limit as nat) == Some(number as nat),
            None => parse_unsigned(value@, limit as nat) is None,
        },
{
    let chars = to_chars(value);
    let start: usize = if chars.len() > 0 && chars[0] == '+' {
        1
    } else {
        0
    };
    let ghost digits = value@.skip(start as int);
    assert(value@.skip(0) =~= value@);
    if start >= chars.len() {
        return None;
    }
    let mut i: usize = start;
    let mut total: u64 = 0;
    assert(digits.take(0) =~= Seq::<char>::empty());
    while i < chars.len()
        invariant
            start <= i <= chars.len(),
            chars@ == value@,
            digits == value@.skip(start as int),
            parse_unsigned(value@, limit as nat) == (if digits.len() > 0 && all_digits(digits)
                && digits_value(digits) <= limit as nat {
                Some(digits_value(digits))
            } else {
                None::<nat>
            }),
            all_digits(digits.take(i - start)),
            total == digits_value(digits.take(i - start)),
            total <= limit,
        decreases chars.len() - i,
    {
        let c = chars[i];
        assert(digits[i - start] == c);
        if !('0' <= c && c <= '9') {
            assert(!is_digit(digits[i - start]));
            return None;
        }
        let d: u64 = (c as u8 - 48u8) as u64;
        let wide: u128 = (total as u128) * 10 + (d as u128);
        let ghost next = digits.take(i - start + 1);
        proof {
            assert(next.drop_last() =~= digits.take(i - start));
            assert(digits_value(next) == wide);
            if all_digits(digits) {
                lemma_digits_value_prefix(digits, i - start + 1);
            }
        }
        if wide > (limit as u128) {
            return None;
        }
        total = wide as u64;
        assert forall|k: int| 0 <= k < next.len() implies is_digit(#[trigger] next[k]) by {
            if k < i - start {
                assert(next[k] == digits.take(i - start)[k]);
            }
        }
        i += 1;
    }
    assert(digits.take(i - start) =~= digits);
    Some(total)
}

} // verus!
