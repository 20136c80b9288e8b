//! What the user is told of: notifications, who is typing, the desks of the office, and the
//! messages that a text links to.
use vstd::prelude::*;
use vstd::string::*;

use crate::collections::{
    ascending, lemma_lookup_bind, lemma_with_texts_members, lookup, with_texts,
};
use crate::decisions::lemma_first;
use crate::matching::SettingsErrorModel;
use crate::models::{AttachmentKind, TimelineItemModel};
use crate::notify::{action_for, best_action, is_quiet, notification, watching};
use crate::office::bubble_text;
use crate::permalinks::{
    cached_targets, link_candidate, linked_message, permalink_targets, shown_links, word_targets,
    SlackPermalinkTargetModel,
};
use crate::settings::{
    AppSettingsModel, NotificationAction, NotificationRuleModel, QuietHours, TimelinePolicyModel,
};
use crate::state::{TypingIndicatorModel, UiStateModel};
use crate::text::{decimal, join, split, text_before, trim, words};
use crate::typing::{noted, still_typing, typing_expiry, unexpired, Typing};
use crate::urls::{parsed_url, WebUrlModel};

verus! {

/// Quiet hours go round the clock from the hour in which they start to the one in which they end,
/// which is not one of them; they are all day if the two are one.
pub proof fn law_quiet_hours_go_round(start_hour: u8, end_hour: u8, hour: u8)
    requires
        start_hour < 24,
        end_hour < 24,
        hour < 24,
    ensures
        is_quiet(Some(QuietHours { start_hour, end_hour }), hour) <==> start_hour == end_hour || (
        hour - start_hour + 24) % 24 < (end_hour - start_hour + 24) % 24,
        !is_quiet(None, hour),
{
}

/// Whether a rule is heeded for a message: it is enabled, has no quiet hours now, and matches.
pub open spec fn heeded(
    settings: AppSettingsModel,
    rule: NotificationRuleModel,
    item: TimelineItemModel,
    hour: u8,
) -> bool {
    &&& rule.enabled
    &&& rule.quiet_hours matches Some(hours) ==> hours.start_hour != hours.end_hour && (hour
        - hours.start_hour + 24) % 24 >= (hours.end_hour - hours.start_hour + 24) % 24
    &&& settings.rule_outcome(rule, item) == Ok::<bool, SettingsErrorModel>(true)
}

/// Whether one of the rules is heeded and asks for the action.
pub open spec fn asks_for(
    settings: AppSettingsModel,
    item: TimelineItemModel,
    hour: u8,
    action: NotificationAction,
) -> bool {
    exists|k: int|
        0 <= k < settings.notification_rules.len() && heeded(
            settings,
            #[trigger] settings.notification_rules[k],
            item,
            hour,
        ) && settings.notification_rules[k].action == action
}

/// What is done for a message is the most that a rule asks for. If none does, a mention is
/// critical, and other messages are notified of if there are no rules or their channel is watched.
pub proof fn law_rules_ask_for_notifications(
    settings: AppSettingsModel,
    item: TimelineItemModel,
    hour: u8,
)
    requires
        hour < 24,
        forall|k: int|
            0 <= k < settings.notification_rules.len() ==> ((
            #[trigger] settings.notification_rules[k]).quiet_hours matches Some(hours)
                ==> hours.start_hour < 24 && hours.end_hour < 24),
    ensures
        action_for(settings, item, hour) == (if asks_for(
            settings,
            item,
            hour,
            NotificationAction::Critical,
        ) {
            Some(NotificationAction::Critical)
        } else if asks_for(settings, item, hour, NotificationAction::Notify) {
            Some(NotificationAction::Notify)
        } else if asks_for(settings, item, hour, NotificationAction::Silent) {
            Some(NotificationAction::Silent)
        } else if item.direct_mention {
            Some(NotificationAction::Critical)
        } else if settings.notification_rules.len() == 0
            || settings.timeline.watched_channels.contains(item.channel_id) {
            Some(NotificationAction::Notify)
        } else {
            None
        }),
{
    let rules = settings.notification_rules;
    crate::notify::law_best_action_matters_most(settings, rules, item, hour);
    assert forall|k: int| 0 <= k < rules.len() implies crate::notify::applies(
        settings,
        #[trigger] rules[k],
        item,
        hour,
    ) == heeded(settings, rules[k], item, hour) by {
        if let Some(hours) = rules[k].quiet_hours {
            law_quiet_hours_go_round(hours.start_hour, hours.end_hour, hour);
        }
    }
    if let Some(action) = best_action(settings, rules, item, hour) {
        let k = choose|k: int|
            0 <= k < rules.len() && crate::notify::applies(
                settings,
                #[trigger] rules[k],
                item,
                hour,
            ) && rules[k].action == action;
        assert(heeded(settings, rules[k], item, hour));
    }
}

/// A rule that cannot be evaluated is told of by its label and the error, unless it is switched
/// off or has quiet hours.
pub proof fn law_failing_rules_are_told_of(
    settings: AppSettingsModel,
    item: TimelineItemModel,
    hour: u8,
    at: int,
    error: SettingsErrorModel,
)
    requires
        0 <= at < settings.notification_rules.len(),
        settings.notification_rules[at].enabled,
        settings.notification_rules[at].quiet_hours is None,
        settings.rule_outcome(settings.notification_rules[at], item) == Err::<bool, _>(error),
    ensures
        crate::notify::rule_failures(settings, item, hour).contains(
            "notification rule `"@ + settings.notification_rules[at].label + "` failed: "@
                + error.message(),
        ),
{
    let rules = settings.notification_rules;
    let fails = |rule: NotificationRuleModel|
        crate::notify::rule_failure(settings, rule, item, hour) is Some;
    assert(rules.contains(rules[at]));
    crate::readings::lemma_filtered(rules, fails, rules[at]);
    let failing = rules.filter(fails);
    let k = choose|k: int| 0 <= k < failing.len() && failing[k] == rules[at];
    let told = crate::notify::rule_failures(settings, item, hour);
    assert(told[k] == crate::notify::rule_failure(settings, rules[at], item, hour)->0);
}

/// A notification names the channel and the author, shows the text or else what is attached, has
/// a sound unless it is silent, and leads to its message.
pub proof fn law_notifications_tell_of_messages(
    item: TimelineItemModel,
    action: NotificationAction,
    avatar_exists: bool,
)
    ensures
        ({
            let told = notification(item, action, avatar_exists);
            &&& told.summary == item.channel_name + " • "@ + item.author_name
            &&& trim(item.body).len() > 0 ==> told.body == crate::emoji::with_emoji(item.body)
            &&& trim(item.body).len() == 0 && item.attachments.len() > 0 ==> told.body
                == item.attachments[0].title
            &&& trim(item.body).len() == 0 && item.attachments.len() == 0 ==> told.body
                == "New Slack attachment"@
            &&& told.action == action
            &&& told.sound_name is Some <==> action != NotificationAction::Silent
            &&& told.icon == (if avatar_exists {
                item.author_avatar_path
            } else {
                None
            })
            &&& told.default_action_target == Some(item.message_ts)
        }),
{
}

/// Where no channel is watched, those of the items are watched from then on, with a weight of one
/// unless they have another; where one is, nothing changes.
pub proof fn law_channels_of_items_are_watched(
    policy: TimelinePolicyModel,
    items: Seq<TimelineItemModel>,
    channel_id: Seq<char>,
)
    ensures
        policy.watched_channels.len() > 0 ==> watching(policy, items) == policy,
        policy.watched_channels.len() == 0 ==> {
            let here = exists|i: int|
                0 <= i < items.len() && (#[trigger] items[i]).channel_id == channel_id;
            &&& watching(policy, items).watched_channels.contains(channel_id) <==> here
            &&& lookup(watching(policy, items).channel_weights, channel_id) == (if here && lookup(
                policy.channel_weights,
                channel_id,
            ) is None {
                Some(1u8)
            } else {
                lookup(policy.channel_weights, channel_id)
            })
            &&& watching(policy, items).muted_channels == policy.muted_channels
        },
{
    let ids = items.map_values(|item: TimelineItemModel| item.channel_id);
    let channels = with_texts(Seq::empty(), ids);
    lemma_with_texts_members(Seq::empty(), ids);
    lemma_with_texts_members(Seq::empty(), channels);
    lemma_weights(policy.channel_weights, channels, channel_id);
    assert(!Seq::<Seq<char>>::empty().contains(channel_id));
    assert(ids.contains(channel_id) <==> exists|i: int|
        0 <= i < items.len() && (#[trigger] items[i]).channel_id == channel_id) by {
        if ids.contains(channel_id) {
            let i = choose|i: int| 0 <= i < ids.len() && ids[i] == channel_id;
            assert(items[i].channel_id == channel_id);
        }
        if exists|i: int| 0 <= i < items.len() && (#[trigger] items[i]).channel_id == channel_id {
            let i = choose|i: int|
                0 <= i < items.len() && (#[trigger] items[i]).channel_id == channel_id;
            assert(ids[i] == channel_id);
        }
    }
}

proof fn lemma_weights(
    weights: Seq<(Seq<char>, u8)>,
    channels: Seq<Seq<char>>,
    channel_id: Seq<char>,
)
    ensures
        lookup(crate::notify::with_weights(weights, channels), channel_id) == (
        if channels.contains(channel_id) && lookup(weights, channel_id) is None {
            Some(1u8)
        } else {
            lookup(weights, channel_id)
        }),
    decreases channels.len(),
{
    if channels.len() > 0 {
        let less = channels.drop_last();
        lemma_weights(weights, less, channel_id);
        lemma_lookup_bind(
            crate::notify::with_weights(weights, less),
            channels.last(),
            1u8,
            channel_id,
        );
        assert(channels =~= less.push(channels.last()));
        assert(channels.contains(channel_id) <==> less.contains(channel_id) || channel_id
            == channels.last()) by {
            if less.contains(channel_id) {
                let k = choose|k: int| 0 <= k < less.len() && less[k] == channel_id;
                assert(channels[k] == channel_id);
            }
            assert(channels[channels.len() - 1] == channels.last());
            if channels.contains(channel_id) && channel_id != channels.last() {
                let k = choose|k: int| 0 <= k < channels.len() && channels[k] == channel_id;
                assert(less[k] == channel_id);
            }
        }
    }
}

/// Typing is shown for six seconds after it was noted. A user who types is shown once from then
/// on, up to that time; the others stay as they are.
pub proof fn law_typing_is_noted(
    indicators: Seq<TypingIndicatorModel>,
    user: Seq<char>,
    now: u64,
    other: TypingIndicatorModel,
)
    requires
        now + 6000 <= u64::MAX,
        forall|i: int, j: int|
            0 <= i < j < indicators.len() ==> (#[trigger] indicators[i]).user_id != (
            #[trigger] indicators[j]).user_id,
    ensures
        ({
            let after = noted(indicators, user, typing_expiry(now));
            &&& typing_expiry(now) == now + 6000
            &&& other.user_id == user ==> (after.contains(other) <==> other.expires_at == now
                + 6000)
            &&& other.user_id != user ==> (after.contains(other) <==> indicators.contains(other))
            &&& forall|i: int, j: int|
                0 <= i < j < after.len() ==> (#[trigger] after[i]).user_id != (
                #[trigger] after[j]).user_id
        }),
{
    let entry = TypingIndicatorModel { user_id: user, expires_at: typing_expiry(now) };
    let after = noted(indicators, user, typing_expiry(now));
    lemma_user_from(indicators, user, 0);
    match crate::typing::user_from(indicators, user, 0) {
        Some(at) => {
            assert(after == indicators.update(at, entry));
            assert(after[at] == entry);
            if indicators.contains(other) && other.user_id != user {
                let k = choose|k: int| 0 <= k < indicators.len() && indicators[k] == other;
                assert(after[k] == other);
            }
            if after.contains(other) {
                let k = choose|k: int| 0 <= k < after.len() && after[k] == other;
                if k != at {
                    assert(indicators[k] == other);
                    if k < at {
                        assert(indicators[k].user_id != indicators[at].user_id);
                    } else {
                        assert(indicators[at].user_id != indicators[k].user_id);
                    }
                }
            }
            assert forall|i: int, j: int| 0 <= i < j < after.len() implies (
            #[trigger] after[i]).user_id != (#[trigger] after[j]).user_id by {
                assert(indicators[i].user_id != indicators[j].user_id);
            }
        },
        None => {
            assert(after == indicators.push(entry));
            assert(after[indicators.len() as int] == entry);
            if indicators.contains(other) {
                let k = choose|k: int| 0 <= k < indicators.len() && indicators[k] == other;
                assert(after[k] == other);
            }
            if after.contains(other) {
                let k = choose|k: int| 0 <= k < after.len() && after[k] == other;
                if k < indicators.len() {
                    assert(indicators[k] == other);
                }
            }
            assert forall|i: int, j: int| 0 <= i < j < after.len() implies (
            #[trigger] after[i]).user_id != (#[trigger] after[j]).user_id by {
                if j < indicators.len() {
                    assert(indicators[i].user_id != indicators[j].user_id);
                }
            }
        },
    }
}

proof fn lemma_user_from(indicators: Seq<TypingIndicatorModel>, user: Seq<char>, from: int)
    requires
        0 <= from <= indicators.len(),
    ensures
        match crate::typing::user_from(indicators, user, from) {
            Some(at) => from <= at < indicators.len() && indicators[at].user_id == user,
            None => forall|k: int|
                from <= k < indicators.len() ==> (#[trigger] indicators[k]).user_id != user,
        },
    decreases indicators.len() - from,
{
    if from < indicators.len() && indicators[from].user_id != user {
        lemma_user_from(indicators, user, from + 1);
    }
}

/// Whose time is over is not shown as typing any more, and whose time is not stays; a channel in
/// which nobody types is not listed.
pub proof fn law_typing_ends(
    typing: Typing,
    now: u64,
    channel_id: Seq<char>,
    indicator: TypingIndicatorModel,
)
    ensures
        (exists|i: int|
            0 <= i < unexpired(typing, now).len() && (#[trigger] unexpired(typing, now)[i]).0
                == channel_id && unexpired(typing, now)[i].1.contains(indicator)) <==> (exists|
            i: int,
        |
            0 <= i < typing.len() && (#[trigger] typing[i]).0 == channel_id && typing[i].1.contains(
                indicator,
            )) && now < indicator.expires_at,
        forall|i: int|
            0 <= i < unexpired(typing, now).len() ==> (#[trigger] unexpired(typing, now)[i]).1.len()
                > 0,
    decreases typing.len(),
{
    let after = unexpired(typing, now);
    if typing.len() > 0 {
        let less = typing.drop_last();
        let rest = unexpired(less, now);
        let last = typing.last();
        let left = still_typing(last.1, now);
        law_typing_ends(less, now, channel_id, indicator);
        crate::readings::lemma_filtered(
            last.1,
            |indicator: TypingIndicatorModel| indicator.expires_at > now,
            indicator,
        );
        assert(typing[typing.len() - 1] == last);
        if exists|i: int|
            0 <= i < after.len() && (#[trigger] after[i]).0 == channel_id && after[i].1.contains(
                indicator,
            ) {
            let i = choose|i: int|
                0 <= i < after.len() && (#[trigger] after[i]).0 == channel_id
                    && after[i].1.contains(indicator);
            if i < rest.len() {
                assert(rest[i] == after[i]);
                let j = choose|j: int|
                    0 <= j < less.len() && (#[trigger] less[j]).0 == channel_id
                        && less[j].1.contains(indicator);
                assert(typing[j] == less[j]);
            } else {
                assert(after[i] == (last.0, left));
            }
        }
        if exists|i: int|
            0 <= i < typing.len() && (#[trigger] typing[i]).0 == channel_id
                && typing[i].1.contains(indicator) {
            let i = choose|i: int|
                0 <= i < typing.len() && (#[trigger] typing[i]).0 == channel_id
                    && typing[i].1.contains(indicator);
            if now < indicator.expires_at {
                if i < less.len() {
                    assert(less[i] == typing[i]);
                    let j = choose|j: int|
                        0 <= j < rest.len() && (#[trigger] rest[j]).0 == channel_id
                            && rest[j].1.contains(indicator);
                    assert(after[j] == rest[j]);
                } else {
                    assert(left.contains(indicator));
                    assert(after == rest.push((last.0, left)));
                    assert(after[rest.len() as int] == (last.0, left));
                }
            }
        }
        assert forall|i: int| 0 <= i < after.len() implies (#[trigger] after[i]).1.len() > 0 by {
            if i < rest.len() {
                assert(rest[i] == after[i]);
            }
        }
    }
}

/// The line that says who is typing in a channel names each once, in the order of the names, and
/// not the user; of more than two it names two.
pub proof fn law_typing_lines_name_others(
    state: UiStateModel,
    channel_id: Seq<char>,
    names: Seq<Seq<char>>,
)
    requires
        ascending(names),
        forall|name: Seq<char>| #[trigger]
            names.contains(name) <==> name != "you"@ && exists|i: int|
                0 <= i < crate::typing::typing_in(state.typing_by_channel, channel_id).len() && (
                #[trigger] state.author_name(
                    crate::typing::typing_in(state.typing_by_channel, channel_id)[i].user_id,
                    false,
                )) == name,
    ensures
        state.typing_line(channel_id) == (if names.len() == 0 {
            None
        } else if names.len() == 1 {
            Some(names[0] + " is typing..."@)
        } else if names.len() == 2 {
            Some(names[0] + " and "@ + names[1] + " are typing..."@)
        } else {
            Some(names[0] + ", "@ + names[1] + ", and others are typing..."@)
        }),
{
    let indicators = crate::typing::typing_in(state.typing_by_channel, channel_id);
    let called = |indicator: TypingIndicatorModel| state.author_name(indicator.user_id, false);
    let other = |name: Seq<char>| name != "you"@;
    let all = indicators.map_values(called);
    let given = state.typing_names(indicators);
    let set = with_texts(Seq::empty(), given);
    lemma_with_texts_members(Seq::empty(), given);
    lemma_texts_ascend(Seq::empty(), given);
    assert forall|name: Seq<char>| #[trigger] set.contains(name) <==> names.contains(name) by {
        crate::readings::lemma_filtered(all, other, name);
        assert(!Seq::<Seq<char>>::empty().contains(name));
        if all.contains(name) {
            let i = choose|i: int| 0 <= i < all.len() && all[i] == name;
            assert(state.author_name(indicators[i].user_id, false) == name);
        }
        if names.contains(name) {
            let i = choose|i: int|
                0 <= i < indicators.len() && (#[trigger] state.author_name(
                    indicators[i].user_id,
                    false,
                )) == name;
            assert(all[i] == name);
        }
    }
    lemma_ascending_unique(set, names);
}

proof fn lemma_texts_ascend(texts: Seq<Seq<char>>, more: Seq<Seq<char>>)
    requires
        ascending(texts),
    ensures
        ascending(with_texts(texts, more)),
    decreases more.len(),
{
    if more.len() > 0 {
        lemma_texts_ascend(texts, more.drop_last());
        crate::collections::lemma_with_text_ascending(
            with_texts(texts, more.drop_last()),
            more.last(),
        );
    }
}

/// There is one way to list texts in ascending order.
pub proof fn lemma_ascending_unique(first: Seq<Seq<char>>, second: Seq<Seq<char>>)
    requires
        ascending(first),
        ascending(second),
        forall|t: Seq<char>| #[trigger] first.contains(t) <==> second.contains(t),
    ensures
        first == second,
    decreases first.len() + second.len(),
{
    if first.len() == 0 {
        if second.len() > 0 {
            assert(second.contains(second[0]));
            assert(first.contains(second[0]));
        }
        assert(first =~= second);
    } else if second.len() == 0 {
        assert(first.contains(first[0]));
    } else {
        assert(first.contains(first[0]));
        assert(second.contains(second[0]));
        assert(first.contains(second[0]));
        let i = choose|i: int| 0 <= i < second.len() && second[i] == first[0];
        let j = choose|j: int| 0 <= j < first.len() && first[j] == second[0];
        if i > 0 {
            assert(text_before(second[0], second[i]));
            crate::text::lemma_text_before_asymmetric(first[0], second[0]);
            crate::text::lemma_text_before_irreflexive(first[0]);
            if j > 0 {
                assert(text_before(first[0], first[j]));
            }
        }
        assert(first[0] == second[0]);
        let (a, b) = (first.skip(1), second.skip(1));
        assert(ascending(a)) by {
            assert forall|i: int, j: int| 0 <= i < j < a.len() implies text_before(
                #[trigger] a[i],
                #[trigger] a[j],
            ) by {
                assert(text_before(first[i + 1], first[j + 1]));
            }
        }
        assert(ascending(b)) by {
            assert forall|i: int, j: int| 0 <= i < j < b.len() implies text_before(
                #[trigger] b[i],
                #[trigger] b[j],
            ) by {
                assert(text_before(second[i + 1], second[j + 1]));
            }
        }
        assert forall|t: Seq<char>| #[trigger] a.contains(t) <==> b.contains(t) by {
            lemma_behind_first(first, t);
            lemma_behind_first(second, t);
        }
        lemma_ascending_unique(a, b);
        assert(first =~= seq![first[0]] + a);
        assert(second =~= seq![second[0]] + b);
    }
}

proof fn lemma_behind_first(texts: Seq<Seq<char>>, t: Seq<char>)
    requires
        texts.len() > 0,
        ascending(texts),
    ensures
        texts.skip(1).contains(t) <==> texts.contains(t) && t != texts[0],
{
    let rest = texts.skip(1);
    if rest.contains(t) {
        let k = choose|k: int| 0 <= k < rest.len() && rest[k] == t;
        assert(texts[k + 1] == t);
        assert(text_before(texts[0], texts[k + 1]));
        crate::text::lemma_text_before_asymmetric(texts[0], texts[0]);
    }
    if texts.contains(t) && t != texts[0] {
        let k = choose|k: int| 0 <= k < texts.len() && texts[k] == t;
        assert(rest[k - 1] == t);
    }
}

/// The bubble at a desk shows the words of the message, one space apart, and no more than a
/// hundred and sixty characters of them; without words it tells what is attached.
pub proof fn law_bubbles_show_words(item: TimelineItemModel)
    ensures
        ({
            let said = join(words(crate::emoji::with_emoji(item.body)), seq![' ']);
            &&& 0 < said.len() <= 160 ==> bubble_text(item) == said
            &&& said.len() > 160 ==> bubble_text(item) == said.take(160) + seq!['…']
            &&& said.len() == 0 && item.attachments.len() == 0 ==> bubble_text(item)
                == "is quiet right now"@
            &&& said.len() == 0 && item.attachments.len() > 1 ==> bubble_text(item) == "shared "@
                + decimal(item.attachments.len()) + " attachments"@
            &&& said.len() == 0 && item.attachments.len() == 1 ==> bubble_text(item) == (
            if item.attachments[0].kind == AttachmentKind::Image {
                "shared a new image"@
            } else {
                "shared "@ + item.attachments[0].title
            })
        }),
{
    let said = join(words(crate::emoji::with_emoji(item.body)), seq![' ']);
    if said.len() > 160 {
        assert(said.take(160).push('…') =~= said.take(160) + seq!['…']);
    }
}

/// A desk tells of its channel's latest message: whose channel it is, what was said, and how many
/// messages of the channel were active since a point in time.
pub proof fn law_desks_tell_of_channels(
    state: UiStateModel,
    item: TimelineItemModel,
    listed: Seq<TimelineItemModel>,
    since: crate::time::Timestamp,
)
    requires
        listed.len() <= usize::MAX,
    ensures
        ({
            let desk = state.desk(item, listed, since);
            let speaker = match lookup(state.known_channel_creators, item.channel_id) {
                Some(creator) => creator,
                None => item.author_id,
            };
            &&& desk.thread_ts == item.thread_ts
            &&& desk.latest_body == bubble_text(item)
            &&& desk.speaker_name == (match lookup(state.user_names, speaker) {
                Some(name) if name.len() > 0 => name,
                _ => item.author_name,
            })
            &&& desk.speaker_avatar_path == (match lookup(state.user_avatar_paths, speaker) {
                Some(path) => Some(path),
                None => item.author_avatar_path,
            })
            &&& desk.activity_count == listed.filter(
                |other: TimelineItemModel|
                    other.channel_id == item.channel_id && !other.last_activity_at.before(since),
            ).len()
        }),
{
    let one = crate::office::active_in_channel(item.channel_id, since);
    let other = |other: TimelineItemModel|
        other.channel_id == item.channel_id && !other.last_activity_at.before(since);
    assert(one =~= other);
    listed.lemma_filter_len(one);
}

/// The office looks back eight hours, at the channels that may be read and that its profile lists:
/// each of them with a message has a desk.
pub proof fn law_the_office_looks_back_eight_hours(
    state: UiStateModel,
    profile: crate::settings::ChannelProfileModel,
    now: crate::time::Timestamp,
    item: TimelineItemModel,
)
    requires
        state.office_profile() == Some(profile),
        state.source_items.contains(item),
        state.settings.permission(item.channel_id) != crate::settings::ChannelPermission::Hidden,
        profile.channels.contains(item.channel_id),
    ensures
        exists|newest: TimelineItemModel, listed: Seq<TimelineItemModel>|
            #![trigger state.desk(newest, listed, crate::time::later_by(now, -28800))]
            {
                &&& newest.channel_id == item.channel_id
                &&& state.source_items.contains(newest)
                &&& !text_before(newest.message_ts, item.message_ts)
                &&& state.desks(now).contains(
                    state.desk(newest, listed, crate::time::later_by(now, -28800)),
                )
            },
{
    let test = crate::queries::in_listed_channel(state.settings, profile);
    let listed = state.source_items.filter(test);
    crate::readings::lemma_filtered(state.source_items, test, item);
    crate::office::law_each_channel_has_one_desk(state, profile, now);
    let newest = lookup(crate::office::latest_by_channel(listed), item.channel_id)->0;
    crate::readings::lemma_filtered(state.source_items, test, newest);
    assert(state.desks(now).contains(
        state.desk(newest, listed, crate::time::later_by(now, -28800)),
    ));
}

/// A message is linked to by an address at a host of Slack whose path is `archives`, the channel,
/// and the digits of the timestamp behind a `p`; more may follow.
pub proof fn law_addresses_lead_to_messages(
    host: Seq<char>,
    channel_id: Seq<char>,
    seconds: Seq<char>,
    micros: Seq<char>,
    more: Seq<Seq<char>>,
    address: WebUrlModel,
)
    requires
        seconds.len() > 0,
        micros.len() == 6,
        forall|k: int| 0 <= k < seconds.len() ==> '0' <= #[trigger] seconds[k] <= '9',
        forall|k: int| 0 <= k < micros.len() ==> '0' <= #[trigger] micros[k] <= '9',
        address.domain == Some(host + "slack.com"@),
        address.segments == Some(
            seq!["archives"@, channel_id, "p"@ + seconds + micros] + more,
        ),
    ensures
        linked_message(address) == Some(
            SlackPermalinkTargetModel { channel_id, message_ts: seconds + "."@ + micros },
        ),
{
    crate::permalinks::law_link_tokens_read_back(seconds, micros);
    let domain = host + "slack.com"@;
    assert(domain.skip(domain.len() - "slack.com"@.len()) =~= "slack.com"@);
    assert(crate::text::ends_with(domain, "slack.com"@));
    let segments = seq!["archives"@, channel_id, "p"@ + seconds + micros] + more;
    assert(segments[0] == "archives"@);
    assert(segments[1] == channel_id);
    assert(segments[2] == "p"@ + seconds + micros);
}

/// What does not start with the path `archives` at a host of Slack leads to no message.
pub proof fn law_other_addresses_lead_nowhere(address: WebUrlModel)
    requires
        address.domain is None || address.segments is None || address.segments->0.len() < 3
            || address.segments->0[0] != "archives"@,
    ensures
        linked_message(address) is None,
{
}

/// A message is linked to exactly if a word of the text is an address that leads to it, and is
/// listed once.
pub proof fn law_texts_link_to_messages(text: Seq<char>, target: SlackPermalinkTargetModel)
    ensures
        permalink_targets(text).contains(target) <==> exists|i: int|
            0 <= i < words(text).len() && (parsed_url(link_candidate(#[trigger] words(text)[i]))
                matches Ok(address) && linked_message(address) == Some(target)),
        permalink_targets(text).no_duplicates(),
{
    let parts = words(text);
    let order = crate::collections::order_of::<
        crate::permalinks::SlackPermalinkTarget,
        crate::permalinks::ByChannelThenTs,
    >();
    lemma_word_targets(parts, target);
    lemma_word_targets_once(parts);
    crate::collections::lemma_sorted_multiset(word_targets(parts), order);
    crate::readings::lemma_same_members(permalink_targets(text), word_targets(parts), target);
    let (found, sorted) = (word_targets(parts), permalink_targets(text));
    found.lemma_multiset_has_no_duplicates();
    sorted.lemma_multiset_has_no_duplicates_conv();
}

proof fn lemma_word_targets(parts: Seq<Seq<char>>, target: SlackPermalinkTargetModel)
    ensures
        word_targets(parts).contains(target) <==> exists|i: int|
            0 <= i < parts.len() && (parsed_url(link_candidate(#[trigger] parts[i])) matches Ok(
                address,
            ) && linked_message(address) == Some(target)),
    decreases parts.len(),
{
    if parts.len() > 0 {
        let less = parts.drop_last();
        let found = word_targets(less);
        lemma_word_targets(less, target);
        assert(parts[parts.len() - 1] == parts.last());
        assert(forall|i: int| 0 <= i < less.len() ==> parts[i] == #[trigger] less[i]);
        assert(forall|i: int| 0 <= i < less.len() ==> #[trigger] parts[i] == less[i]);
        if let Some(last) = crate::permalinks::word_target(parts.last()) {
            let all = found.push(last);
            assert(all[found.len() as int] == last);
            if found.contains(target) {
                let k = choose|k: int| 0 <= k < found.len() && found[k] == target;
                assert(all[k] == target);
            }
        }
    }
}

proof fn lemma_word_targets_once(parts: Seq<Seq<char>>)
    ensures
        word_targets(parts).no_duplicates(),
    decreases parts.len(),
{
    if parts.len() > 0 {
        lemma_word_targets_once(parts.drop_last());
    }
}

/// What is read as an address in a word has no marks around it and nothing from a bar on.
pub proof fn law_links_stand_between_marks(before: Seq<char>, link: Seq<char>, behind: Seq<char>)
    requires
        forall|k: int| 0 <= k < before.len() ==> "<>()[],.\"'"@.contains(#[trigger] before[k]),
        forall|k: int| 0 <= k < behind.len() ==> "<>()[],.\"'"@.contains(#[trigger] behind[k]),
        link.len() > 0,
        !link.contains('|'),
        !"<>()[],.\"'"@.contains(link[0]),
        !"<>()[],.\"'"@.contains(link[link.len() - 1]),
    ensures
        link_candidate(before + link + behind) == link,
{
    reveal_strlit("<>()[],.\"'");
    let marks = "<>()[],.\"'"@;
    assert forall|c: char| marks.contains(c) <==> #[trigger] crate::permalinks::is_link_mark(
        c,
    ) by {
        if crate::permalinks::is_link_mark(c) {
            assert(marks[0] == '<' && marks[1] == '>' && marks[2] == '(' && marks[3] == ')'
                && marks[4] == '[' && marks[5] == ']' && marks[6] == ',' && marks[7] == '.'
                && marks[8] == '"' && marks[9] == '\'');
        }
    }
    lemma_marks_before(before, link + behind);
    assert(before + link + behind =~= before + (link + behind));
    lemma_marks_behind(link, behind);
    lemma_unsplit(link);
}

proof fn lemma_marks_before(before: Seq<char>, rest: Seq<char>)
    requires
        forall|k: int|
            0 <= k < before.len() ==> crate::permalinks::is_link_mark(#[trigger] before[k]),
        rest.len() > 0,
        !crate::permalinks::is_link_mark(rest[0]),
    ensures
        crate::permalinks::without_marks_before(before + rest) == rest,
    decreases before.len(),
{
    let all = before + rest;
    if before.len() > 0 {
        assert(all.first() == before[0]);
        assert(all.skip(1) =~= before.skip(1) + rest);
        let less = before.skip(1);
        assert forall|k: int| 0 <= k < less.len() implies crate::permalinks::is_link_mark(
            #[trigger] less[k],
        ) by {
            assert(less[k] == before[k + 1]);
        }
        lemma_marks_before(less, rest);
    } else {
        assert(all =~= rest);
    }
}

proof fn lemma_marks_behind(rest: Seq<char>, behind: Seq<char>)
    requires
        forall|k: int|
            0 <= k < behind.len() ==> crate::permalinks::is_link_mark(#[trigger] behind[k]),
        rest.len() > 0,
        !crate::permalinks::is_link_mark(rest[rest.len() - 1]),
    ensures
        crate::permalinks::without_marks_after(rest + behind) == rest,
    decreases behind.len(),
{
    let all = rest + behind;
    if behind.len() > 0 {
        assert(all.last() == behind[behind.len() - 1]);
        assert(all.drop_last() =~= rest + behind.drop_last());
        lemma_marks_behind(rest, behind.drop_last());
    } else {
        assert(all =~= rest);
    }
}

proof fn lemma_unsplit(text: Seq<char>)
    requires
        !text.contains('|'),
    ensures
        split(text, '|')[0] == text,
{
    let one = seq![text];
    assert(join(one, seq!['|']) =~= text);
    crate::wording::law_splitting_undoes_joining(one, '|');
}

/// Below a message at most two of the messages are shown that it links to: the first that are
/// cached, by channel and timestamp.
pub proof fn law_linked_messages_are_shown(state: UiStateModel, text: Seq<char>, k: int)
    requires
        0 <= k < shown_links(state, text).len(),
    ensures
        shown_links(state, text).len() <= 2,
        state.source_items.contains(shown_links(state, text)[k]),
        exists|i: int|
            0 <= i < permalink_targets(text).len() && (#[trigger] permalink_targets(
                text,
            )[i]).channel_id == shown_links(state, text)[k].channel_id && permalink_targets(
                text,
            )[i].message_ts == shown_links(state, text)[k].message_ts,
        cached_targets(state, permalink_targets(text)).len() <= 2 ==> shown_links(state, text)
            == cached_targets(state, permalink_targets(text)),
{
    lemma_cached_targets(state, permalink_targets(text), k);
}

proof fn lemma_cached_targets(
    state: UiStateModel,
    targets: Seq<SlackPermalinkTargetModel>,
    k: int,
)
    requires
        0 <= k < cached_targets(state, targets).len(),
    ensures
        state.source_items.contains(cached_targets(state, targets)[k]),
        exists|i: int|
            0 <= i < targets.len() && (#[trigger] targets[i]).channel_id == cached_targets(
                state,
                targets,
            )[k].channel_id && targets[i].message_ts == cached_targets(
                state,
                targets,
            )[k].message_ts,
    decreases targets.len(),
{
    let less = targets.drop_last();
    let last = targets.last();
    let found = cached_targets(state, less);
    let is = crate::items::is_message_in(last.channel_id, last.message_ts);
    lemma_first(state.source_items, is);
    if k < found.len() {
        lemma_cached_targets(state, less, k);
        let i = choose|i: int|
            0 <= i < less.len() && (#[trigger] less[i]).channel_id == found[k].channel_id
                && less[i].message_ts == found[k].message_ts;
        assert(targets[i] == less[i]);
    } else {
        assert(targets[targets.len() - 1] == last);
    }
}

/// Every cached message that a text links to is found.
pub proof fn law_cached_links_are_found(
    state: UiStateModel,
    targets: Seq<SlackPermalinkTargetModel>,
    i: int,
    at: int,
)
    requires
        0 <= i < targets.len(),
        0 <= at < state.source_items.len(),
        state.source_items[at].channel_id == targets[i].channel_id,
        state.source_items[at].message_ts == targets[i].message_ts,
        forall|j: int|
            0 <= j < at ==> (#[trigger] state.source_items[j]).channel_id != targets[i].channel_id
                || state.source_items[j].message_ts != targets[i].message_ts,
    ensures
        cached_targets(state, targets).contains(state.source_items[at]),
    decreases targets.len(),
{
    let less = targets.drop_last();
    let last = targets.last();
    let found = cached_targets(state, less);
    let all = cached_targets(state, targets);
    let is = crate::items::is_message_in(last.channel_id, last.message_ts);
    if i < less.len() {
        law_cached_links_are_found(state, less, i, at);
        let k = choose|k: int| 0 <= k < found.len() && found[k] == state.source_items[at];
        assert(all[k] == state.source_items[at]);
    } else {
        assert(is(state.source_items[at]));
        crate::collections::lemma_first_match(state.source_items, is, at);
        assert(all[found.len() as int] == state.source_items[at]);
    }
}

/// A desk with eight messages or more looks busiest, one with four or more busy, and any other
/// calm.
pub proof fn law_busy_desks_look_busy(count: int)
    ensures
        count >= 8 ==> crate::office::activity_tier(count) == "office-desk-hot"@,
        4 <= count < 8 ==> crate::office::activity_tier(count) == "office-desk-warm"@,
        count < 4 ==> crate::office::activity_tier(count) == "office-desk-calm"@,
{
}

} // verus!
