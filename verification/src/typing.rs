//! Who is typing.
use vstd::prelude::*;
use vstd::string::*;

use crate::collections::{bind, lookup, with_texts, TextMap, TextSet};
use crate::state::{
    TypingIndicator, TypingIndicatorModel, UiState, UiStateModel, TYPING_INDICATOR_TTL_MS,
};
use crate::text::{owned, same_text};

verus! {

/// Who is typing, by channel.
pub type Typing = Seq<(Seq<char>, Seq<TypingIndicatorModel>)>;

/// The time up to which typing that is noted now is shown.
pub open spec fn typing_expiry(now: u64) -> u64 {
    if now <= u64::MAX - TYPING_INDICATOR_TTL_MS {
        (now + TYPING_INDICATOR_TTL_MS) as u64
    } else {
        u64::MAX
    }
}

/// Those whose typing is still shown.
pub open spec fn still_typing(indicators: Seq<TypingIndicatorModel>, now: u64) -> Seq<
    TypingIndicatorModel,
> {
    indicators.filter(|indicator: TypingIndicatorModel| indicator.expires_at > now)
}

/// Who is still typing, by channel; channels in which nobody is are left out.
pub open spec fn unexpired(typing: Typing, now: u64) -> Typing
    decreases typing.len(),
{
    if typing.len() == 0 {
        Seq::empty()
    } else {
        let rest = unexpired(typing.drop_last(), now);
        let left = still_typing(typing.last().1, now);
        if left.len() == 0 {
            rest
        } else {
            rest.push((typing.last().0, left))
        }
    }
}

/// Whether anybody's typing is not shown any more.
pub open spec fn any_expired(typing: Typing, now: u64) -> bool {
    exists|i: int, j: int|
        0 <= i < typing.len() && 0 <= j < typing[i].1.len() && (
        #[trigger] typing[i].1[j]).expires_at <= now
}

/// The first position at or after `from` of a user.
pub open spec fn user_from(
    indicators: Seq<TypingIndicatorModel>,
    user: Seq<char>,
    from: int,
) -> Option<int>
    decreases indicators.len() - from,
{
    if from < 0 || from >= indicators.len() {
        None
    } else if indicators[from].user_id == user {
        Some(from)
    } else {
        user_from(indicators, user, from + 1)
    }
}

/// Those who are typing, with one user noted up to a time.
pub open spec fn noted(
    indicators: Seq<TypingIndicatorModel>,
    user: Seq<char>,
    expires_at: u64,
) -> Seq<TypingIndicatorModel> {
    let entry = TypingIndicatorModel { user_id: user, expires_at };
    match user_from(indicators, user, 0) {
        Some(at) => indicators.update(at, entry),
        None => indicators.push(entry),
    }
}

/// Those who are typing in a channel.
pub open spec fn typing_in(typing: Typing, channel_id: Seq<char>) -> Seq<TypingIndicatorModel> {
    match lookup(typing, channel_id) {
        Some(indicators) => indicators,
        None => Seq::empty(),
    }
}

impl UiStateModel {
    /// The names of those who are typing, but for the user.
    pub open spec fn typing_names(self, indicators: Seq<TypingIndicatorModel>) -> Seq<Seq<char>> {
        indicators.map_values(
            |indicator: TypingIndicatorModel| self.author_name(indicator.user_id, false),
        ).filter(|name: Seq<char>| name != "you"@)
    }

    /// The line that says who is typing in a channel: one or two names, or two and others.
    pub open spec fn typing_line(self, channel_id: Seq<char>) -> Option<Seq<char>> {
        let names = with_texts(
            Seq::empty(),
            self.typing_names(typing_in(self.typing_by_channel, channel_id)),
        );
        if names.len() == 0 {
            None
        } else if names.len() == 1 {
            Some(names[0] + " is typing..."@)
        } else if names.len() == 2 {
            Some(names[0] + " and "@ + names[1] + " are typing..."@)
        } else {
            Some(names[0] + ", "@ + names[1] + ", and others are typing..."@)
        }
    }
}

/// Those whose typing is still shown, and whether there are others.
fn keep_typing(indicators: &Vec<TypingIndicator>, now: u64) -> (r: (Vec<TypingIndicator>, bool))
    ensures
        r.0.deep_view() == still_typing(indicators.deep_view(), now),
        r.1 == exists|j: int|
            0 <= j < indicators.deep_view().len() && (
            #[trigger] indicators.deep_view()[j]).expires_at <= now,
{
    let ghost all = indicators.deep_view();
    let ghost keep = |indicator: TypingIndicatorModel| indicator.expires_at > now;
    let mut kept: Vec<TypingIndicator> = Vec::new();
    let mut dropped = false;
    let mut i: usize = 0;
    proof {
        reveal(Seq::filter);
        assert(all.take(0) =~= Seq::empty());
        assert(kept.deep_view() =~= all.take(0).filter(keep));
    }
    while i < indicators.len()
        invariant
            i <= indicators.len(),
            all == indicators.deep_view(),
            keep == (|indicator: TypingIndicatorModel| indicator.expires_at > now),
            kept.deep_view() == all.take(i as int).filter(keep),
            dropped == exists|j: int| 0 <= j < i && (#[trigger] all[j]).expires_at <= now,
        decreases indicators.len() - i,
    {
        let ghost before = kept.deep_view();
        proof {
            reveal(Seq::filter);
            assert(all.take(i as int + 1).drop_last() =~= all.take(i as int));
            assert(all.take(i as int + 1).last() == indicators[i as int].deep_view());
            assert(all[i as int] == indicators[i as int].deep_view());
        }
        if indicators[i].expires_at > now {
            let copy = indicators[i].clone();
            let ghost meaning = copy.deep_view();
            kept.push(copy);
            assert(kept.deep_view() =~= before.push(meaning));
        } else {
            dropped = true;
        }
        i += 1;
    }
    assert(all.take(i as int) =~= all);
    (kept, dropped)
}

fn position_of_user(indicators: &Vec<TypingIndicator>, user: &str) -> (r: Option<usize>)
    ensures
        match r {
            Some(at) => user_from(indicators.deep_view(), user@, 0) == Some(at as int) && at
                < indicators.len(),
            None => user_from(indicators.deep_view(), user@, 0) is None,
        },
{
    let ghost all = indicators.deep_view();
    let mut at: usize = 0;
    while at < indicators.len()
        invariant
            at <= indicators.len(),
            all == indicators.deep_view(),
            user_from(all, user@, 0) == user_from(all, user@, at as int),
        decreases indicators.len() - at,
    {
        assert(all[at as int] == indicators[at as int].deep_view());
        if same_text(indicators[at].user_id.as_str(), user) {
            return Some(at);
        }
        at += 1;
    }
    None
}

impl UiState {
    /// Drops those whose typing is not shown any more; true if there were any.
    pub fn cleanup_expired_typing(&mut self, now_ms: u64) -> (changed: bool)
        ensures
            changed == any_expired(old(self).deep_view().typing_by_channel, now_ms),
            final(self).deep_view() == (UiStateModel {
                typing_by_channel: unexpired(old(self).deep_view().typing_by_channel, now_ms),
                ..old(self).deep_view()
            }),
    {
        let entries = self.typing_by_channel.entries();
        let ghost all = entries.deep_view();
        let mut kept: Vec<(String, Vec<TypingIndicator>)> = Vec::new();
        let mut changed = false;
        let mut i: usize = 0;
        assert(all.take(0) =~= Seq::empty());
        assert(kept.deep_view() =~= Seq::empty());
        while i < entries.len()
            invariant
                i <= entries.len(),
                all == entries.deep_view(),
                kept.deep_view() == unexpired(all.take(i as int), now_ms),
                changed == any_expired(all.take(i as int), now_ms),
            decreases entries.len() - i,
        {
            let ghost before = kept.deep_view();
            let (left, dropped) = keep_typing(&entries[i].1, now_ms);
            proof {
                let old_part = all.take(i as int);
                let part = all.take(i as int + 1);
                assert(part.drop_last() =~= old_part);
                assert(part.last() == entries[i as int].deep_view());
                assert(part[i as int] == entries[i as int].deep_view());
                let list = entries[i as int].1.deep_view();
                if any_expired(old_part, now_ms) {
                    let (a, b) = choose|a: int, b: int|
                        0 <= a < old_part.len() && 0 <= b < old_part[a].1.len() && (
                        #[trigger] old_part[a].1[b]).expires_at <= now_ms;
                    assert(part[a].1[b].expires_at <= now_ms);
                }
                if dropped {
                    let b = choose|b: int|
                        0 <= b < list.len() && (#[trigger] list[b]).expires_at <= now_ms;
                    assert(part[i as int].1[b].expires_at <= now_ms);
                }
                if any_expired(part, now_ms) && !dropped {
                    let (a, b) = choose|a: int, b: int|
                        0 <= a < part.len() && 0 <= b < part[a].1.len() && (
                        #[trigger] part[a].1[b]).expires_at <= now_ms;
                    if a == i {
                        assert(list[b].expires_at <= now_ms);
                    }
                    assert(old_part[a].1[b].expires_at <= now_ms);
                }
            }
            if dropped {
                changed = true;
            }
            if left.len() > 0 {
                let ghost meaning = (entries[i as int].0@, left.deep_view());
                kept.push((entries[i].0.clone(), left));
                assert(kept.deep_view() =~= before.push(meaning));
            }
            i += 1;
        }
        assert(all.take(i as int) =~= all);
        self.typing_by_channel = TextMap::from_entries(kept);
        changed
    }

    /// Notes that a user is typing in a channel; true if that shows anything new.
    pub fn note_user_typing(&mut self, channel_id: &str, user_id: &str, now_ms: u64) -> (changed:
        bool)
        ensures
            ({
                let before = typing_in(old(self).deep_view().typing_by_channel, channel_id@);
                let expires_at = typing_expiry(now_ms);
                &&& changed == (match user_from(before, user_id@, 0) {
                    Some(at) => before[at].expires_at < expires_at,
                    None => true,
                })
                &&& final(self).deep_view() == (UiStateModel {
                    typing_by_channel: bind(
                        old(self).deep_view().typing_by_channel,
                        channel_id@,
                        noted(before, user_id@, expires_at),
                    ),
                    ..old(self).deep_view()
                })
            }),
    {
        let expires_at: u64 = if now_ms <= u64::MAX - TYPING_INDICATOR_TTL_MS {
            now_ms + TYPING_INDICATOR_TTL_MS
        } else {
            u64::MAX
        };
        let ghost before = typing_in(self.typing_by_channel.deep_view(), channel_id@);
        let mut indicators: Vec<TypingIndicator> = match self.typing_by_channel.get(channel_id) {
            Some(existing) => existing.clone(),
            None => Vec::new(),
        };
        assert(indicators.deep_view() =~= before);
        let entry = TypingIndicator { user_id: owned(user_id), expires_at };
        let ghost meaning = entry.deep_view();
        let changed = match position_of_user(&indicators, user_id) {
            Some(at) => {
                assert(before[at as int] == indicators[at as int].deep_view());
                let later = indicators[at].expires_at < expires_at;
                indicators.set(at, entry);
                assert(indicators.deep_view() =~= before.update(at as int, meaning));
                later
            },
            None => {
                indicators.push(entry);
                assert(indicators.deep_view() =~= before.push(meaning));
                true
            },
        };
        self.typing_by_channel.insert(owned(channel_id), indicators);
        changed
    }

    /// The names of those who are typing, but for the user.
    fn names_typing(&self, indicators: &Vec<TypingIndicator>) -> (r: Vec<String>)
        ensures
            r.deep_view() == self.deep_view().typing_names(indicators.deep_view()),
    {
        let ghost model = self.deep_view();
        let ghost all = indicators.deep_view().map_values(
            |indicator: TypingIndicatorModel| model.author_name(indicator.user_id, false),
        );
        let ghost keep = |name: Seq<char>| name != "you"@;
        let mut names: Vec<String> = Vec::new();
        let mut i: usize = 0;
        proof {
            reveal(Seq::filter);
            assert(all.take(0) =~= Seq::empty());
            assert(names.deep_view() =~= all.take(0).filter(keep));
        }
        while i < indicators.len()
            invariant
                i <= indicators.len(),
                model == self.deep_view(),
                all == indicators.deep_view().map_values(
                    |indicator: TypingIndicatorModel| model.author_name(indicator.user_id, false),
                ),
                keep == (|name: Seq<char>| name != "you"@),
                names.deep_view() == all.take(i as int).filter(keep),
            decreases indicators.len() - i,
        {
            let ghost before = names.deep_view();
            let name = self.author_name_for(indicators[i].user_id.as_str(), false);
            proof {
                reveal(Seq::filter);
                assert(all.take(i as int + 1).drop_last() =~= all.take(i as int));
                assert(all.take(i as int + 1).last() == name@);
            }
            if !same_text(name.as_str(), "you") {
                let ghost meaning = name@;
                names.push(name);
                assert(names.deep_view() =~= before.push(meaning));
            }
            i += 1;
        }
        assert(all.take(i as int) =~= all);
        names
    }

    /// The line that says who is typing in a channel.
    pub fn typing_summary_for_channel(&self, channel_id: &str) -> (r: Option<String>)
        ensures
            r.deep_view() == self.deep_view().typing_line(channel_id@),
    {
        let ghost model = self.deep_view();
        let names = match self.typing_by_channel.get(channel_id) {
            Some(indicators) => self.names_typing(indicators),
            None => {
                let none: Vec<TypingIndicator> = Vec::new();
                assert(none.deep_view() =~= Seq::empty());
                self.names_typing(&none)
            },
        };
        let set = TextSet::from_texts(names);
        let sorted_names = set.members();
        let ghost all = sorted_names.deep_view();
        if sorted_names.len() == 0 {
            return None;
        }
        assert(all[0] == sorted_names[0]@);
        let mut line = sorted_names[0].clone();
        if sorted_names.len() == 1 {
            line.append(" is typing...");
        } else {
            assert(all[1] == sorted_names[1]@);
            if sorted_names.len() == 2 {
                line.append(" and ");
                line.append(sorted_names[1].as_str());
                line.append(" are typing...");
            } else {
                line.append(", ");
                line.append(sorted_names[1].as_str());
                line.append(", and others are typing...");
            }
        }
        Some(line)
    }
}

} // verus!
