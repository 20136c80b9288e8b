//! Emoji and reaction names.
use vstd::prelude::*;
use vstd::string::*;

use crate::text::{
    ascii_lowercase, find_char, lemma_find_char, lemma_find_char_skip, owned, position_of_char,
    same_text, slice_text, strip_leading, strip_trailing, to_ascii_lower, to_chars, trim, trimmed,
    without_leading, without_trailing,
};

verus! {

/// The emoji that the `emojis` crate has under a shortcode.
pub uninterp spec fn emoji_of(shortcode: Seq<char>) -> Option<Seq<char>>;

/// The first shortcode that the `emojis` crate has for an emoji.
pub uninterp spec fn shortcode_of(emoji: Seq<char>) -> Option<Seq<char>>;

/// `emojis::get_by_shortcode`, with the emoji as text. The crate looks it up in a fixed table.
#[verifier::external_body]
pub(crate) fn lookup_shortcode(shortcode: &str) -> (r: Option<String>)
    ensures
        r.deep_view() == emoji_of(shortcode@),
{
    emojis::get_by_shortcode(shortcode).map(|emoji| emoji.as_str().to_string())
}

/// `emojis::get` and the first shortcode of what it finds. The crate looks it up in a fixed table.
#[verifier::external_body]
pub(crate) fn lookup_emoji(emoji: &str) -> (r: Option<String>)
    ensures
        r.deep_view() == shortcode_of(emoji@),
{
    emojis::get(emoji).and_then(|found| found.shortcode()).map(|code| code.to_string())
}

/// A text without the colons at its ends.
pub open spec fn without_colons(text: Seq<char>) -> Seq<char> {
    strip_trailing(strip_leading(text, ':'), ':')
}

/// A text with underscores for hyphens.
pub open spec fn underscored(text: Seq<char>) -> Seq<char> {
    text.map_values(
        |c: char|
            if c == '-' {
                '_'
            } else {
                c
            },
    )
}

/// The emoji for a shortcode, given what the table has for its normal form.
pub open spec fn emoji_or(normal: Seq<char>, found: Option<Seq<char>>) -> Option<Seq<char>> {
    if normal == "+1"@ || normal == "thumbsup"@ {
        Some("👍"@)
    } else if normal == "-1"@ || normal == "thumbsdown"@ {
        Some("👎"@)
    } else if normal == "simple_smile"@ {
        Some("😄"@)
    } else if normal == "shipit"@ {
        Some("🚢"@)
    } else {
        found
    }
}

/// The normal form of a shortcode: no colons at its ends, underscores for hyphens.
pub open spec fn normal_shortcode(name: Seq<char>) -> Seq<char> {
    underscored(without_colons(name))
}

/// The emoji for a shortcode.
pub open spec fn shortcode_emoji(name: Seq<char>) -> Option<Seq<char>> {
    emoji_or(normal_shortcode(name), emoji_of(normal_shortcode(name)))
}

/// Whether a character may stand in a shortcode within a message.
pub open spec fn is_shortcode_char(c: char) -> bool {
    is_alphanumeric(c) || c == '_' || c == '-' || c == '+' || c == '/'
}

/// Whether a character is an ASCII letter or digit.
pub open spec fn is_alphanumeric(c: char) -> bool {
    'a' <= c <= 'z' || 'A' <= c <= 'Z' || '0' <= c <= '9'
}

/// Whether a text can be a shortcode within a message.
pub open spec fn is_shortcode(text: Seq<char>) -> bool {
    text.len() > 0 && forall|i: int| 0 <= i < text.len() ==> is_shortcode_char(#[trigger] text[i])
}

/// A text with the emoji for the shortcodes between colons.
pub open spec fn with_emoji(text: Seq<char>) -> Seq<char>
    decreases text.len(),
{
    match find_char(text, ':', 0) {
        Some(start) if 0 <= start < text.len() => match find_char(text, ':', start + 1) {
            Some(end) if start < end < text.len() => {
                let code = text.subrange(start + 1, end);
                match shortcode_emoji(code) {
                    Some(emoji) if is_shortcode(code) => text.take(start) + emoji + with_emoji(
                        text.skip(end + 1),
                    ),
                    _ => text.take(start) + seq![':'] + with_emoji(text.skip(start + 1)),
                }
            },
            _ => text,
        },
        _ => text,
    }
}

/// Whether a character may stand in the name of a reaction.
pub open spec fn is_reaction_char(c: char) -> bool {
    is_alphanumeric(c) || c == '_' || c == '-' || c == '+'
}

/// What a user typed as the name of a reaction: trimmed, without colons, in lowercase. There is
/// none if that is empty or holds other characters than names have.
pub open spec fn typed_reaction(trimmed: Seq<char>) -> Option<Seq<char>> {
    let plain = ascii_lowercase(trim(without_colons(trimmed)));
    if plain.len() > 0 && forall|i: int|
        0 <= i < plain.len() ==> is_reaction_char(#[trigger] plain[i]) {
        Some(plain)
    } else {
        None
    }
}

/// The name of a typed reaction: two have aliases; else the form that is a known shortcode, as it
/// is or with underscores; else as it is.
pub open spec fn known_reaction(plain: Seq<char>, known: bool, underscored_known: bool) -> Seq<
    char,
> {
    if plain == "thumbsup"@ {
        "+1"@
    } else if plain == "thumbsdown"@ {
        "-1"@
    } else if known {
        plain
    } else if underscored_known {
        underscored(plain)
    } else {
        plain
    }
}

/// The name of the reaction that a raw text stands for.
pub open spec fn reaction_name(raw: Seq<char>) -> Option<Seq<char>> {
    let text = trim(raw);
    if text.len() == 0 {
        None
    } else {
        match shortcode_of(text) {
            Some(code) => Some(code),
            None => match typed_reaction(text) {
                Some(plain) => Some(
                    known_reaction(
                        plain,
                        emoji_of(plain) is Some,
                        emoji_of(underscored(plain)) is Some,
                    ),
                ),
                None => None,
            },
        }
    }
}

/// What is shown for a reaction: its emoji, or its name between colons.
pub open spec fn reaction_display(name: Seq<char>) -> Seq<char> {
    match shortcode_emoji(name) {
        Some(emoji) => emoji,
        None => seq![':'] + name + seq![':'],
    }
}

fn to_underscored(value: &str) -> (r: String)
    ensures
        r@ == underscored(value@),
{
    let chars = to_chars(value);
    let mut out = String::new();
    let mut i: usize = 0;
    while i < chars.len()
        invariant
            i <= chars.len(),
            chars@ == value@,
            out@ == underscored(value@).take(i as int),
        decreases chars.len() - i,
    {
        out.push(
            if chars[i] == '-' {
                '_'
            } else {
                chars[i]
            },
        );
        i += 1;
        assert(underscored(value@).take(i as int) =~= underscored(value@).take(i - 1).push(
            underscored(value@)[i - 1],
        ));
    }
    assert(underscored(value@).take(i as int) =~= underscored(value@));
    out
}

fn strip_colons(value: &str) -> (r: String)
    ensures
        r@ == without_colons(value@),
{
    let start = without_leading(value, ':');
    without_trailing(start.as_str(), ':')
}

/// The emoji for a shortcode, given what the table has for its normal form.
pub fn emoji_for(normal: &str, found: Option<String>) -> (r: Option<String>)
    ensures
        r.deep_view() == emoji_or(normal@, found.deep_view()),
{
    if same_text(normal, "+1") || same_text(normal, "thumbsup") {
        Some(owned("👍"))
    } else if same_text(normal, "-1") || same_text(normal, "thumbsdown") {
        Some(owned("👎"))
    } else if same_text(normal, "simple_smile") {
        Some(owned("😄"))
    } else if same_text(normal, "shipit") {
        Some(owned("🚢"))
    } else {
        found
    }
}

/// The emoji for a shortcode.
pub fn emoji_from_shortcode(name: &str) -> (r: Option<String>)
    ensures
        r.deep_view() == shortcode_emoji(name@),
{
    let bare = strip_colons(name);
    let normal = to_underscored(bare.as_str());
    let found = lookup_shortcode(normal.as_str());
    emoji_for(normal.as_str(), found)
}

fn alphanumeric(c: char) -> (r: bool)
    ensures
        r == is_alphanumeric(c),
{
    ('a' <= c && c <= 'z') || ('A' <= c && c <= 'Z') || ('0' <= c && c <= '9')
}

/// Whether the characters from `from` up to `to` can be a shortcode.
fn shortcode_between(chars: &Vec<char>, from: usize, to: usize) -> (r: bool)
    requires
        from <= to <= chars.len(),
    ensures
        r == is_shortcode(chars@.subrange(from as int, to as int)),
{
    let ghost code = chars@.subrange(from as int, to as int);
    let mut i: usize = from;
    while i < to
        invariant
            from <= i <= to <= chars.len(),
            code == chars@.subrange(from as int, to as int),
            forall|k: int| 0 <= k < i - from ==> is_shortcode_char(#[trigger] code[k]),
        decreases to - i,
    {
        let c = chars[i];
        if !(alphanumeric(c) || c == '_' || c == '-' || c == '+' || c == '/') {
            assert(!is_shortcode_char(code[i - from]));
            return false;
        }
        i += 1;
    }
    from < to
}

/// The text with the emoji for the shortcodes between colons.
pub fn render_slack_text(value: &str) -> (r: String)
    ensures
        r@ == with_emoji(value@),
{
    let chars = to_chars(value);
    let mut rendered = String::new();
    let mut at: usize = 0;
    assert(value@.skip(0) =~= value@);
    assert(Seq::<char>::empty() + with_emoji(value@) =~= with_emoji(value@));
    loop
        invariant_except_break
            at <= chars.len(),
            chars@ == value@,
            rendered@ + with_emoji(value@.skip(at as int)) == with_emoji(value@),
        ensures
            rendered@ == with_emoji(value@),
        decreases chars.len() - at,
    {
        let ghost rest = value@.skip(at as int);
        let ghost done = rendered@;
        proof {
            lemma_find_char_skip(value@, ':', at as int, 0);
            lemma_find_char(value@, ':', at as int);
        }
        let start = match position_of_char(&chars, ':', at) {
            Some(start) => start,
            None => {
                rendered.append(slice_text(&chars, at, chars.len()).as_str());
                assert(value@.subrange(at as int, value@.len() as int) =~= rest);
                break;
            },
        };
        proof {
            lemma_find_char_skip(value@, ':', at as int, start - at + 1);
            lemma_find_char(value@, ':', start as int + 1);
        }
        let end = match position_of_char(&chars, ':', start + 1) {
            Some(end) => end,
            None => {
                rendered.append(slice_text(&chars, at, chars.len()).as_str());
                assert(value@.subrange(at as int, value@.len() as int) =~= rest);
                break;
            },
        };
        let ghost code = rest.subrange(start - at + 1, end - at);
        assert(code =~= value@.subrange(start + 1, end as int));
        assert(rest.take(start - at) =~= value@.subrange(at as int, start as int));
        assert(rest.skip(end - at + 1) =~= value@.skip(end + 1));
        assert(rest.skip(start - at + 1) =~= value@.skip(start + 1));
        rendered.append(slice_text(&chars, at, start).as_str());
        let found = if shortcode_between(&chars, start + 1, end) {
            emoji_from_shortcode(slice_text(&chars, start + 1, end).as_str())
        } else {
            None
        };
        match found {
            Some(emoji) => {
                rendered.append(emoji.as_str());
                assert(done + (rest.take(start - at) + emoji@ + with_emoji(value@.skip(end + 1)))
                    =~= rendered@ + with_emoji(value@.skip(end + 1)));
                at = end + 1;
            },
            None => {
                rendered.push(':');
                assert(done + (rest.take(start - at) + seq![':'] + with_emoji(
                    value@.skip(start + 1),
                )) =~= rendered@ + with_emoji(value@.skip(start + 1)));
                at = start + 1;
            },
        }
    }
    rendered
}

/// What a user typed as the name of a reaction, if it can be one.
pub fn typed_reaction_name(trimmed_text: &str) -> (r: Option<String>)
    ensures
        r.deep_view() == typed_reaction(trimmed_text@),
{
    let bare = strip_colons(trimmed_text);
    let tidy = trimmed(bare.as_str());
    let plain = to_ascii_lower(tidy.as_str());
    let chars = to_chars(plain.as_str());
    let mut i: usize = 0;
    while i < chars.len()
        invariant
            i <= chars.len(),
            chars@ == plain@,
            plain@ == ascii_lowercase(trim(without_colons(trimmed_text@))),
            forall|k: int| 0 <= k < i ==> is_reaction_char(#[trigger] plain@[k]),
        decreases chars.len() - i,
    {
        let c = chars[i];
        if !(alphanumeric(c) || c == '_' || c == '-' || c == '+') {
            assert(!is_reaction_char(plain@[i as int]));
            return None;
        }
        i += 1;
    }
    if chars.len() == 0 {
        None
    } else {
        Some(plain)
    }
}

/// The name of a typed reaction, given which of its forms are known shortcodes.
pub fn choose_reaction_name(plain: String, known: bool, underscored_known: bool) -> (r: String)
    ensures
        r@ == known_reaction(plain@, known, underscored_known),
{
    if same_text(plain.as_str(), "thumbsup") {
        owned("+1")
    } else if same_text(plain.as_str(), "thumbsdown") {
        owned("-1")
    } else if known {
        plain
    } else if underscored_known {
        to_underscored(plain.as_str())
    } else {
        plain
    }
}

/// The name of the reaction that a raw text stands for.
pub fn normalize_reaction_name(raw: &str) -> (r: Option<String>)
    ensures
        r.deep_view() == reaction_name(raw@),
{
    let trimmed_text = trimmed(raw);
    if trimmed_text.as_str().is_empty() {
        return None;
    }
    match lookup_emoji(trimmed_text.as_str()) {
        Some(code) => Some(code),
        None => match typed_reaction_name(trimmed_text.as_str()) {
            None => None,
            Some(plain) => {
                let known = lookup_shortcode(plain.as_str()).is_some();
                let other = to_underscored(plain.as_str());
                let underscored_known = lookup_shortcode(other.as_str()).is_some();
                Some(choose_reaction_name(plain, known, underscored_known))
            },
        },
    }
}

/// What is shown for a reaction: its emoji, or its name between colons.
pub fn reaction_emoji(name: &str) -> (r: String)
    ensures
        r@ == reaction_display(name@),
{
    match emoji_from_shortcode(name) {
        Some(emoji) => emoji,
        None => {
            let mut out = String::new();
            out.push(':');
            out.append(name);
            out.push(':');
            assert(out@ =~= seq![':'] + name@ + seq![':']);
            out
        },
    }
}

/// A text without colons is shown as it is.
pub proof fn law_text_without_colons_is_unchanged(text: Seq<char>)
    requires
        !text.contains(':'),
    ensures
        with_emoji(text) == text,
{
    lemma_find_char(text, ':', 0);
}

} // verus!
