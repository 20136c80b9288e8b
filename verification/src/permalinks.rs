//! Links to messages of Slack in texts.
use vstd::prelude::*;
use vstd::string::*;

use crate::collections::{first_match, order_of, sort_values, sorted, Order};
use crate::items::is_message_in;
use crate::models::{TimelineItem, TimelineItemModel};
use crate::state::{UiState, UiStateModel};
use crate::text::{
    all_digits, ends_with, finishes_with, is_digit, precedes, same_text, slice_text, split,
    split_text, split_words, starts_with, text_before, to_chars, words,
};
use crate::urls::{parse_url, parsed_url, WebUrl, WebUrlModel};

verus! {

/// How many linked messages are shown below a message.
pub const SHARED_PREVIEW_LIMIT: usize = 2;

/// A message that a link leads to.
#[derive(Debug, PartialEq, Eq)]
pub struct SlackPermalinkTarget {
    pub channel_id: String,
    pub message_ts: String,
}

/// What a [`SlackPermalinkTarget`] says: its texts as sequences of characters.
#[verifier::ext_equal]
pub struct SlackPermalinkTargetModel {
    pub channel_id: Seq<char>,
    pub message_ts: Seq<char>,
}

impl DeepView for SlackPermalinkTarget {
    type V = SlackPermalinkTargetModel;

    open spec fn deep_view(&self) -> SlackPermalinkTargetModel {
        SlackPermalinkTargetModel { channel_id: self.channel_id@, message_ts: self.message_ts@ }
    }
}

/// The timestamp that the last part of a link stands for: a `p`, and the digits of the timestamp
/// without the dot before the last six.
pub open spec fn token_stamp(token: Seq<char>) -> Option<Seq<char>> {
    if !starts_with(token, "p"@) {
        None
    } else {
        let digits = token.skip(1);
        if digits.len() < 7 || !all_digits(digits) {
            None
        } else {
            Some(digits.take(digits.len() - 6) + "."@ + digits.skip(digits.len() - 6))
        }
    }
}

/// The timestamp that the last part of a link stands for.
pub fn permalink_token_to_slack_ts(token: &str) -> (r: Option<String>)
    ensures
        r.deep_view() == token_stamp(token@),
{
    proof {
        reveal_strlit("p");
        assert("p"@ =~= seq!['p']);
    }
    let chars = to_chars(token);
    if chars.len() == 0 || chars[0] != 'p' {
        assert(!starts_with(token@, "p"@)) by {
            if token@.len() > 0 {
                assert(token@.take(1)[0] == token@[0]);
            }
        }
        return None;
    }
    assert(token@.take(1) =~= seq!['p']);
    let count: usize = chars.len() - 1;
    if count < 7 {
        return None;
    }
    let mut i: usize = 1;
    while i < chars.len()
        invariant
            1 <= i <= chars.len(),
            chars@ == token@,
            forall|k: int| 0 <= k < i - 1 ==> is_digit(#[trigger] token@.skip(1)[k]),
            starts_with(token@, "p"@),
        decreases chars.len() - i,
    {
        if chars[i] < '0' || chars[i] > '9' {
            assert(token@.skip(1)[i - 1] == token@[i as int]);
            assert(!is_digit(token@.skip(1)[i - 1]));
            return None;
        }
        assert(token@.skip(1)[i - 1] == token@[i as int]);
        i += 1;
    }
    let split_at: usize = chars.len() - 6;
    let mut out = slice_text(&chars, 1, split_at);
    let micros = slice_text(&chars, split_at, chars.len());
    let ghost digits = token@.skip(1);
    assert(out@ =~= digits.take(digits.len() - 6));
    assert(micros@ =~= digits.skip(digits.len() - 6));
    out.append(".");
    out.append(micros.as_str());
    Some(out)
}

/// The link part made of a timestamp's digits is read back as the timestamp.
pub proof fn law_link_tokens_read_back(seconds: Seq<char>, micros: Seq<char>)
    requires
        seconds.len() > 0,
        micros.len() == 6,
        all_digits(seconds),
        all_digits(micros),
    ensures
        token_stamp("p"@ + seconds + micros) == Some(seconds + "."@ + micros),
{
    reveal_strlit("p");
    let token = "p"@ + seconds + micros;
    let digits = token.skip(1);
    assert(token.take(1) =~= "p"@);
    assert(digits =~= seconds + micros);
    assert forall|k: int| 0 <= k < digits.len() implies is_digit(#[trigger] digits[k]) by {
        if k < seconds.len() {
            assert(digits[k] == seconds[k]);
        } else {
            assert(digits[k] == micros[k - seconds.len()]);
        }
    }
    assert(digits.take(digits.len() - 6) =~= seconds);
    assert(digits.skip(digits.len() - 6) =~= micros);
}

/// Whether a character is a mark that can stand around a link.
pub open spec fn is_link_mark(c: char) -> bool {
    c == '<' || c == '>' || c == '(' || c == ')' || c == '[' || c == ']' || c == ',' || c == '.' || c
        == '"' || c == '\''
}

/// A text without the marks that it starts with.
pub open spec fn without_marks_before(text: Seq<char>) -> Seq<char>
    decreases text.len(),
{
    if text.len() > 0 && is_link_mark(text.first()) {
        without_marks_before(text.skip(1))
    } else {
        text
    }
}

/// A text without the marks that it ends with.
pub open spec fn without_marks_after(text: Seq<char>) -> Seq<char>
    decreases text.len(),
{
    if text.len() > 0 && is_link_mark(text.last()) {
        without_marks_after(text.drop_last())
    } else {
        text
    }
}

/// What may be a link in a word: without the marks around it, up to the first bar.
pub open spec fn link_candidate(word: Seq<char>) -> Seq<char> {
    split(without_marks_after(without_marks_before(word)), '|')[0]
}

/// Whether a character is a mark that can stand around a link.
fn link_mark(c: char) -> (r: bool)
    ensures
        r == is_link_mark(c),
{
    c == '<' || c == '>' || c == '(' || c == ')' || c == '[' || c == ']' || c == ',' || c == '.' || c
        == '"' || c == '\''
}

/// What may be a link in a word.
pub fn candidate_of(word: &str) -> (r: String)
    ensures
        r@ == link_candidate(word@),
{
    let chars = to_chars(word);
    let mut start: usize = 0;
    assert(word@.skip(0) =~= word@);
    while start < chars.len() && link_mark(chars[start])
        invariant
            start <= chars.len(),
            chars@ == word@,
            without_marks_before(word@) == without_marks_before(word@.skip(start as int)),
        decreases chars.len() - start,
    {
        assert(word@.skip(start as int).skip(1) =~= word@.skip(start + 1));
        start += 1;
    }
    let ghost rest = word@.skip(start as int);
    let mut end: usize = chars.len();
    assert(word@.subrange(start as int, end as int) =~= rest);
    while end > start && link_mark(chars[end - 1])
        invariant
            start <= end <= chars.len(),
            chars@ == word@,
            without_marks_after(rest) == without_marks_after(
                word@.subrange(start as int, end as int),
            ),
        decreases end,
    {
        assert(word@.subrange(start as int, end as int).drop_last() =~= word@.subrange(
            start as int,
            end - 1,
        ));
        end -= 1;
    }
    let bare = slice_text(&chars, start, end);
    let parts = split_text(bare.as_str(), '|');
    assert(parts.deep_view()[0] == parts@[0]@);
    parts[0].clone()
}

/// The message that an address leads to, if it is that of a message of Slack: the path
/// `archives`, the channel and the message at a host of Slack.
pub open spec fn linked_message(address: WebUrlModel) -> Option<SlackPermalinkTargetModel> {
    match (address.domain, address.segments) {
        (Some(domain), Some(segments)) => if ends_with(domain, "slack.com"@) && segments.len() >= 3
            && segments[0] == "archives"@ {
            match token_stamp(segments[2]) {
                Some(message_ts) => Some(
                    SlackPermalinkTargetModel { channel_id: segments[1], message_ts },
                ),
                None => None,
            }
        } else {
            None
        },
        _ => None,
    }
}

/// The message that an address leads to, if it is that of a message of Slack.
pub fn linked_message_of(address: &WebUrl) -> (r: Option<SlackPermalinkTarget>)
    ensures
        r.deep_view() == linked_message(address.deep_view()),
{
    match (&address.domain, &address.segments) {
        (Some(domain), Some(segments)) => {
            assert(address.deep_view().segments->0 == segments.deep_view());
            if !finishes_with(domain.as_str(), "slack.com") || segments.len() < 3 {
                return None;
            }
            assert(segments.deep_view()[0] == segments@[0]@);
            assert(segments.deep_view()[1] == segments@[1]@);
            assert(segments.deep_view()[2] == segments@[2]@);
            if !same_text(segments[0].as_str(), "archives") {
                return None;
            }
            match permalink_token_to_slack_ts(segments[2].as_str()) {
                Some(message_ts) => {
                    let target = SlackPermalinkTarget { channel_id: segments[1].clone(), message_ts };
                    Some(target)
                },
                None => None,
            }
        },
        _ => None,
    }
}

/// The message that a word links to.
pub open spec fn word_target(word: Seq<char>) -> Option<SlackPermalinkTargetModel> {
    match parsed_url(link_candidate(word)) {
        Ok(address) => linked_message(address),
        Err(_) => None,
    }
}

/// The messages that words link to, each once.
pub open spec fn word_targets(parts: Seq<Seq<char>>) -> Seq<SlackPermalinkTargetModel>
    decreases parts.len(),
{
    if parts.len() == 0 {
        Seq::empty()
    } else {
        let before = word_targets(parts.drop_last());
        match word_target(parts.last()) {
            Some(target) => if before.contains(target) {
                before
            } else {
                before.push(target)
            },
            None => before,
        }
    }
}

/// Messages in the order of their channels, then of their timestamps.
pub struct ByChannelThenTs;

impl Order<SlackPermalinkTarget> for ByChannelThenTs {
    open spec fn before(
        left: SlackPermalinkTargetModel,
        right: SlackPermalinkTargetModel,
    ) -> bool {
        text_before(left.channel_id, right.channel_id) || (left.channel_id == right.channel_id
            && text_before(left.message_ts, right.message_ts))
    }

    fn stands_before(left: &SlackPermalinkTarget, right: &SlackPermalinkTarget) -> bool {
        precedes(left.channel_id.as_str(), right.channel_id.as_str()) || (same_text(
            left.channel_id.as_str(),
            right.channel_id.as_str(),
        ) && precedes(left.message_ts.as_str(), right.message_ts.as_str()))
    }
}

/// The messages that a text links to, each once, in the order of their channels and timestamps.
pub open spec fn permalink_targets(text: Seq<char>) -> Seq<SlackPermalinkTargetModel> {
    sorted(
        word_targets(words(text)),
        order_of::<SlackPermalinkTarget, ByChannelThenTs>(),
    )
}

/// Whether a target is in a list.
fn holds_target(targets: &Vec<SlackPermalinkTarget>, target: &SlackPermalinkTarget) -> (r: bool)
    ensures
        r == targets.deep_view().contains(target.deep_view()),
{
    let mut i: usize = 0;
    while i < targets.len()
        invariant
            i <= targets.len(),
            forall|k: int|
                0 <= k < i ==> (#[trigger] targets.deep_view()[k]) != target.deep_view(),
        decreases targets.len() - i,
    {
        assert(targets.deep_view()[i as int] == targets@[i as int].deep_view());
        if same_text(targets[i].channel_id.as_str(), target.channel_id.as_str()) && same_text(
            targets[i].message_ts.as_str(),
            target.message_ts.as_str(),
        ) {
            assert(targets.deep_view()[i as int] =~= target.deep_view());
            return true;
        }
        i += 1;
    }
    false
}

/// The messages that a text links to.
pub fn extract_slack_permalink_targets(text: &str) -> (r: Vec<SlackPermalinkTarget>)
    ensures
        r.deep_view() == permalink_targets(text@),
{
    let parts = split_words(text);
    let ghost all = parts.deep_view();
    let mut targets: Vec<SlackPermalinkTarget> = Vec::new();
    let mut i: usize = 0;
    assert(all.take(0) =~= Seq::empty());
    assert(targets.deep_view() =~= Seq::empty());
    while i < parts.len()
        invariant
            i <= parts.len(),
            all == parts.deep_view(),
            targets.deep_view() == word_targets(all.take(i as int)),
        decreases parts.len() - i,
    {
        assert(all.take(i + 1).drop_last() =~= all.take(i as int));
        assert(all.take(i + 1).last() == parts@[i as int]@);
        let ghost before = targets.deep_view();
        let candidate = candidate_of(parts[i].as_str());
        if let Ok(address) = parse_url(candidate.as_str()) {
            if let Some(target) = linked_message_of(&address) {
                if !holds_target(&targets, &target) {
                    targets.push(target);
                    assert(targets.deep_view() =~= before.push(target.deep_view()));
                }
            }
        }
        i += 1;
    }
    assert(all.take(i as int) =~= all);
    sort_values::<SlackPermalinkTarget, ByChannelThenTs>(targets)
}

/// The cached messages among targets, in order.
pub open spec fn cached_targets(state: UiStateModel, targets: Seq<SlackPermalinkTargetModel>) -> Seq<
    TimelineItemModel,
>
    decreases targets.len(),
{
    if targets.len() == 0 {
        Seq::empty()
    } else {
        let before = cached_targets(state, targets.drop_last());
        match first_match(
            state.source_items,
            is_message_in(targets.last().channel_id, targets.last().message_ts),
        ) {
            Some(item) => before.push(item),
            None => before,
        }
    }
}

/// The linked messages that are shown below a message: the first that are cached.
pub open spec fn shown_links(state: UiStateModel, text: Seq<char>) -> Seq<TimelineItemModel> {
    let found = cached_targets(state, permalink_targets(text));
    if found.len() > SHARED_PREVIEW_LIMIT {
        found.take(SHARED_PREVIEW_LIMIT as int)
    } else {
        found
    }
}

/// The linked messages that are shown below a message.
pub fn linked_items(state: &UiState, text: &str) -> (r: Vec<TimelineItem>)
    ensures
        r.deep_view() == shown_links(state.deep_view(), text@),
{
    let targets = extract_slack_permalink_targets(text);
    let ghost all = targets.deep_view();
    let mut found: Vec<TimelineItem> = Vec::new();
    let mut i: usize = 0;
    assert(all.take(0) =~= Seq::empty());
    assert(found.deep_view() =~= Seq::empty());
    while i < targets.len()
        invariant
            i <= targets.len(),
            all == targets.deep_view(),
            found.deep_view() == cached_targets(state.deep_view(), all.take(i as int)),
        decreases targets.len() - i,
    {
        assert(all.take(i + 1).drop_last() =~= all.take(i as int));
        assert(all.take(i + 1).last() == targets@[i as int].deep_view());
        let ghost before = found.deep_view();
        if let Some(item) = state.item_by_channel_and_message_ts(
            targets[i].channel_id.as_str(),
            targets[i].message_ts.as_str(),
        ) {
            found.push(item);
            assert(found.deep_view() =~= before.push(item.deep_view()));
        }
        i += 1;
    }
    assert(all.take(i as int) =~= all);
    if found.len() > SHARED_PREVIEW_LIMIT {
        let ghost before = found.deep_view();
        found.truncate(SHARED_PREVIEW_LIMIT);
        assert(found.deep_view() =~= before.take(SHARED_PREVIEW_LIMIT as int));
    }
    found
}

} // verus!
