//! When the user is notified of a message, and how.
use vstd::prelude::*;
use vstd::string::*;

use crate::auth::{enclosed, StoredSlackSession, StoredSlackSessionModel};
use crate::collections::{bind_missing, with_texts, TextSet};
use crate::emoji::{render_slack_text, with_emoji};
use crate::matching::SettingsErrorModel;
use crate::models::{TimelineItem, TimelineItemModel};
use crate::platform::{NotificationRequest, NotificationRequestModel};
use crate::settings::{
    AppSettings, AppSettingsModel, NotificationAction, NotificationRule, NotificationRuleModel,
    QuietHours, RuleId, TimelinePolicyModel,
};
use crate::text::{blank, is_blank, owned, same_text};

verus! {

/// Whether an hour is among quiet hours. They go past midnight if they end before they start, and
/// are all day if they end when they start.
pub open spec fn is_quiet(quiet_hours: Option<QuietHours>, hour: u8) -> bool {
    match quiet_hours {
        Some(hours) => if hours.start_hour < hours.end_hour {
            hours.start_hour <= hour < hours.end_hour
        } else if hours.start_hour > hours.end_hour {
            hour >= hours.start_hour || hour < hours.end_hour
        } else {
            true
        },
        None => false,
    }
}

/// Whether an hour is among quiet hours.
pub fn quiet_hours_active(quiet_hours: Option<QuietHours>, hour: u8) -> (r: bool)
    ensures
        r == is_quiet(quiet_hours, hour),
{
    match quiet_hours {
        Some(hours) => if hours.start_hour < hours.end_hour {
            hour >= hours.start_hour && hour < hours.end_hour
        } else if hours.start_hour > hours.end_hour {
            hour >= hours.start_hour || hour < hours.end_hour
        } else {
            true
        },
        None => false,
    }
}

/// Quiet hours and the same hours the other way round share no hour, and leave none out.
pub proof fn law_quiet_hours_complement(start_hour: u8, end_hour: u8, hour: u8)
    requires
        start_hour != end_hour,
    ensures
        is_quiet(Some(QuietHours { start_hour, end_hour }), hour) != is_quiet(
            Some(QuietHours { start_hour: end_hour, end_hour: start_hour }),
            hour,
        ),
{
}

/// How much an action matters.
pub open spec fn priority(action: NotificationAction) -> u8 {
    match action {
        NotificationAction::Silent => 0,
        NotificationAction::Notify => 1,
        NotificationAction::Critical => 2,
    }
}

/// How much an action matters.
pub fn notification_priority(action: NotificationAction) -> (r: u8)
    ensures
        r == priority(action),
{
    match action {
        NotificationAction::Silent => 0,
        NotificationAction::Notify => 1,
        NotificationAction::Critical => 2,
    }
}

/// Whether a rule applies to an item at an hour. A rule that cannot be evaluated does not.
pub open spec fn applies(
    settings: AppSettingsModel,
    rule: NotificationRuleModel,
    item: TimelineItemModel,
    hour: u8,
) -> bool {
    &&& rule.enabled
    &&& !is_quiet(rule.quiet_hours, hour)
    &&& settings.rule_outcome(rule, item) == Ok::<bool, SettingsErrorModel>(true)
}

/// The action that matters most among those of the rules that apply; of equals the first.
pub open spec fn best_action(
    settings: AppSettingsModel,
    rules: Seq<NotificationRuleModel>,
    item: TimelineItemModel,
    hour: u8,
) -> Option<NotificationAction>
    decreases rules.len(),
{
    if rules.len() == 0 {
        None
    } else {
        let before = best_action(settings, rules.drop_last(), item, hour);
        let rule = rules.last();
        if applies(settings, rule, item, hour) && (before matches Some(action) ==> priority(
            rule.action,
        ) > priority(action)) {
            Some(rule.action)
        } else {
            before
        }
    }
}

/// What is told of a rule that cannot be evaluated for an item at an hour.
pub open spec fn rule_failure(
    settings: AppSettingsModel,
    rule: NotificationRuleModel,
    item: TimelineItemModel,
    hour: u8,
) -> Option<Seq<char>> {
    if rule.enabled && !is_quiet(rule.quiet_hours, hour) {
        match settings.rule_outcome(rule, item) {
            Err(error) => Some(
                "notification rule `"@ + rule.label + "` failed: "@ + error.message(),
            ),
            Ok(_) => None,
        }
    } else {
        None
    }
}

/// What is told of the rules that cannot be evaluated for an item at an hour, in their order.
pub open spec fn rule_failures(
    settings: AppSettingsModel,
    item: TimelineItemModel,
    hour: u8,
) -> Seq<Seq<char>> {
    settings.notification_rules.filter(
        |rule: NotificationRuleModel| rule_failure(settings, rule, item, hour) is Some,
    ).map_values(|rule: NotificationRuleModel| rule_failure(settings, rule, item, hour)->0)
}

/// What is told of the rules that cannot be evaluated for an item at an hour, in their order.
pub fn failed_rules(settings: &AppSettings, item: &TimelineItem, hour: u8) -> (r: Vec<String>)
    ensures
        r.deep_view() == rule_failures(settings.deep_view(), item.deep_view(), hour),
{
    let rules = &settings.notification_rules;
    let ghost all = rules.deep_view();
    let ghost (told, shown) = (settings.deep_view(), item.deep_view());
    let ghost fails = |rule: NotificationRuleModel| rule_failure(told, rule, shown, hour) is Some;
    let ghost words = |rule: NotificationRuleModel| rule_failure(told, rule, shown, hour)->0;
    let mut out: Vec<String> = Vec::new();
    let mut i: usize = 0;
    proof {
        reveal(Seq::filter);
        assert(out.deep_view() =~= all.take(0).filter(fails).map_values(words));
    }
    while i < rules.len()
        invariant
            i <= rules.len(),
            rules == &settings.notification_rules,
            all == rules.deep_view(),
            told == settings.deep_view(),
            shown == item.deep_view(),
            fails == (|rule: NotificationRuleModel| rule_failure(told, rule, shown, hour) is Some),
            words == (|rule: NotificationRuleModel| rule_failure(told, rule, shown, hour)->0),
            out.deep_view() == all.take(i as int).filter(fails).map_values(words),
        decreases rules.len() - i,
    {
        let rule = &rules[i];
        let ghost before = all.take(i as int).filter(fails);
        proof {
            reveal(Seq::filter);
            assert(all.take(i + 1).drop_last() =~= all.take(i as int));
            assert(all.take(i + 1).last() == rule.deep_view());
        }
        if rule.enabled && !quiet_hours_active(rule.quiet_hours, hour) {
            if let Err(error) = settings.notification_rule_matches(rule, item) {
                let mut text = enclosed("notification rule `", rule.label.as_str(), "` failed: ");
                text.append(error.message().as_str());
                let ghost line = text@;
                out.push(text);
                assert(line =~= words(rule.deep_view()));
                assert(out.deep_view() =~= before.map_values(words).push(line));
                assert(before.push(rule.deep_view()).map_values(words) =~= before.map_values(
                    words,
                ).push(line));
            }
        }
        i += 1;
    }
    assert(all.take(i as int) =~= all);
    out
}

/// What is done for an item when no rule applies: mentions are critical, and others are notified
/// of if there are no rules or the channel is watched.
pub open spec fn fallback_action(settings: AppSettingsModel, item: TimelineItemModel) -> Option<
    NotificationAction,
> {
    if item.direct_mention {
        Some(NotificationAction::Critical)
    } else if settings.notification_rules.len() == 0
        || settings.timeline.watched_channels.contains(item.channel_id) {
        Some(NotificationAction::Notify)
    } else {
        None
    }
}

/// What is done for an item at an hour.
pub open spec fn action_for(settings: AppSettingsModel, item: TimelineItemModel, hour: u8) -> Option<
    NotificationAction,
> {
    match best_action(settings, settings.notification_rules, item, hour) {
        Some(action) => Some(action),
        None => fallback_action(settings, item),
    }
}

/// What is done for an item at an hour of the local day.
pub fn notification_action_for_item(settings: &AppSettings, item: &TimelineItem, hour: u8) -> (r:
    Option<NotificationAction>)
    ensures
        r == action_for(settings.deep_view(), item.deep_view(), hour),
{
    let rules = &settings.notification_rules;
    let ghost all = rules.deep_view();
    let mut best: Option<NotificationAction> = None;
    let mut i: usize = 0;
    assert(all.take(0) =~= Seq::empty());
    while i < rules.len()
        invariant
            i <= rules.len(),
            all == rules.deep_view(),
            best == best_action(
                settings.deep_view(),
                all.take(i as int),
                item.deep_view(),
                hour,
            ),
        decreases rules.len() - i,
    {
        let rule = &rules[i];
        assert(all.take(i + 1).drop_last() =~= all.take(i as int));
        assert(all.take(i + 1).last() == rule.deep_view());
        if rule.enabled && !quiet_hours_active(rule.quiet_hours, hour) {
            if let Ok(true) = settings.notification_rule_matches(rule, item) {
                let better = match best {
                    Some(action) => notification_priority(rule.action) > notification_priority(
                        action,
                    ),
                    None => true,
                };
                if better {
                    best = Some(rule.action);
                }
            }
        }
        i += 1;
    }
    assert(all.take(i as int) =~= all);
    if best.is_some() {
        return best;
    }
    if item.direct_mention {
        Some(NotificationAction::Critical)
    } else if rules.len() == 0 {
        Some(NotificationAction::Notify)
    } else if settings.timeline.is_watched(item.channel_id.as_str()) {
        Some(NotificationAction::Notify)
    } else {
        None
    }
}

/// The action of the rules is that of a rule that applies, and none that applies matters more. If
/// there is none, no rule applies.
pub proof fn law_best_action_matters_most(
    settings: AppSettingsModel,
    rules: Seq<NotificationRuleModel>,
    item: TimelineItemModel,
    hour: u8,
)
    ensures
        match best_action(settings, rules, item, hour) {
            Some(action) => {
                &&& exists|k: int|
                    0 <= k < rules.len() && applies(settings, #[trigger] rules[k], item, hour)
                        && rules[k].action == action
                &&& forall|k: int|
                    0 <= k < rules.len() && applies(settings, #[trigger] rules[k], item, hour)
                        ==> priority(rules[k].action) <= priority(action)
            },
            None => forall|k: int|
                0 <= k < rules.len() ==> !applies(settings, #[trigger] rules[k], item, hour),
        },
    decreases rules.len(),
{
    if rules.len() > 0 {
        let rest = rules.drop_last();
        law_best_action_matters_most(settings, rest, item, hour);
        let before = best_action(settings, rest, item, hour);
        let best = best_action(settings, rules, item, hour);
        assert forall|k: int| 0 <= k < rules.len() implies rules[k] == if k < rest.len() {
            #[trigger] rest[k]
        } else {
            rules.last()
        } by {}
        if let Some(action) = best {
            if best == before && before is Some {
                let k = choose|k: int|
                    0 <= k < rest.len() && applies(settings, #[trigger] rest[k], item, hour)
                        && rest[k].action == action;
                assert(rules[k] == rest[k]);
            } else {
                assert(applies(settings, rules[rules.len() - 1], item, hour));
            }
            assert forall|k: int|
                0 <= k < rules.len() && applies(
                    settings,
                    #[trigger] rules[k],
                    item,
                    hour,
                ) implies priority(rules[k].action) <= priority(action) by {
                if k < rest.len() {
                    assert(applies(settings, rest[k], item, hour));
                }
            }
        } else {
            assert forall|k: int| 0 <= k < rules.len() implies !applies(
                settings,
                #[trigger] rules[k],
                item,
                hour,
            ) by {
                if k < rest.len() {
                    assert(!applies(settings, rest[k], item, hour));
                }
            }
        }
    }
}

/// Whether the user is notified of an item at all: not of what they, or their bot, wrote.
pub open spec fn is_from_others(session: StoredSlackSessionModel, item: TimelineItemModel) -> bool {
    session.user_id != Some(item.author_id) && session.bot_user_id != Some(item.author_id)
}

/// Whether the user is notified of an item at all.
pub fn should_notify_for_item(session: &StoredSlackSession, item: &TimelineItem) -> (r: bool)
    ensures
        r == is_from_others(session.deep_view(), item.deep_view()),
{
    if let Some(user) = &session.user_id {
        if same_text(user.as_str(), item.author_id.as_str()) {
            return false;
        }
    }
    if let Some(bot) = &session.bot_user_id {
        if same_text(bot.as_str(), item.author_id.as_str()) {
            return false;
        }
    }
    true
}

/// The notification of an item. `avatar_exists` says whether the file of the author's picture is
/// there.
pub open spec fn notification(
    item: TimelineItemModel,
    action: NotificationAction,
    avatar_exists: bool,
) -> NotificationRequestModel {
    NotificationRequestModel {
        summary: item.channel_name + " • "@ + item.author_name,
        body: if is_blank(item.body) {
            if item.attachments.len() > 0 {
                item.attachments[0].title
            } else {
                "New Slack attachment"@
            }
        } else {
            with_emoji(item.body)
        },
        action,
        icon: if avatar_exists {
            item.author_avatar_path
        } else {
            None
        },
        category: Some("Slaxide"@),
        sound_name: if action == NotificationAction::Silent {
            None
        } else {
            Some("message-new-instant"@)
        },
        default_action_target: Some(item.message_ts),
    }
}

/// The notification of an item.
pub fn notify_about_item(item: &TimelineItem, action: NotificationAction, avatar_exists: bool) -> (r:
    NotificationRequest)
    ensures
        r.deep_view() == notification(item.deep_view(), action, avatar_exists),
{
    let mut summary = item.channel_name.clone();
    summary.append(" • ");
    summary.append(item.author_name.as_str());
    let body = if blank(item.body.as_str()) {
        if item.attachments.len() > 0 {
            assert(item.attachments.deep_view()[0] == item.attachments@[0].deep_view());
            item.attachments[0].title.clone()
        } else {
            owned("New Slack attachment")
        }
    } else {
        render_slack_text(item.body.as_str())
    };
    let sound_name = match action {
        NotificationAction::Silent => None,
        _ => Some(owned("message-new-instant")),
    };
    NotificationRequest {
        summary,
        body,
        action,
        icon: if avatar_exists {
            item.author_avatar_path.clone()
        } else {
            None
        },
        category: Some(owned("Slaxide")),
        sound_name,
        default_action_target: Some(item.message_ts.clone()),
    }
}

/// The channels of items, in ascending order.
pub open spec fn channels_of(items: Seq<TimelineItemModel>) -> Seq<Seq<char>> {
    with_texts(Seq::empty(), items.map_values(|item: TimelineItemModel| item.channel_id))
}

/// Weights with 1 for those of the channels that have none.
pub open spec fn with_weights(
    weights: Seq<(Seq<char>, u8)>,
    channels: Seq<Seq<char>>,
) -> Seq<(Seq<char>, u8)>
    decreases channels.len(),
{
    if channels.len() == 0 {
        weights
    } else {
        bind_missing(with_weights(weights, channels.drop_last()), channels.last(), 1)
    }
}

/// A policy that watches the channels of items, if it watched none.
pub open spec fn watching(policy: TimelinePolicyModel, items: Seq<TimelineItemModel>) ->
    TimelinePolicyModel {
    if policy.watched_channels.len() > 0 {
        policy
    } else {
        TimelinePolicyModel {
            watched_channels: with_texts(Seq::empty(), channels_of(items)),
            channel_weights: with_weights(policy.channel_weights, channels_of(items)),
            ..policy
        }
    }
}

/// Watches the channels of items if none are watched, and says how many that are.
pub fn seed_watched_channels(settings: &mut AppSettings, items: &Vec<TimelineItem>) -> (r: usize)
    ensures
        final(settings).deep_view() == (AppSettingsModel {
            timeline: watching(old(settings).deep_view().timeline, items.deep_view()),
            ..old(settings).deep_view()
        }),
        r == (if old(settings).deep_view().timeline.watched_channels.len() > 0 {
            0
        } else {
            channels_of(items.deep_view()).len()
        }),
{
    if !settings.timeline.watched_channels.is_empty() {
        return 0;
    }
    let ghost all = items.deep_view();
    let mut channels = TextSet::new();
    let mut i: usize = 0;
    let ghost ids = all.map_values(|item: TimelineItemModel| item.channel_id);
    assert(ids.take(0) =~= Seq::empty());
    while i < items.len()
        invariant
            i <= items.len(),
            all == items.deep_view(),
            ids == all.map_values(|item: TimelineItemModel| item.channel_id),
            channels.deep_view() == with_texts(Seq::empty(), ids.take(i as int)),
        decreases items.len() - i,
    {
        assert(ids.take(i + 1).drop_last() =~= ids.take(i as int));
        assert(ids.take(i + 1).last() == items@[i as int].deep_view().channel_id);
        channels.insert(items[i].channel_id.clone());
        i += 1;
    }
    assert(ids.take(i as int) =~= ids);
    let members = channels.members();
    let ghost names = members.deep_view();
    let ghost start = settings.deep_view();
    assert(start.timeline.watched_channels =~= Seq::empty());
    let mut k: usize = 0;
    assert(names.take(0) =~= Seq::empty());
    while k < members.len()
        invariant
            k <= members.len(),
            names == members.deep_view(),
            start.timeline.watched_channels == Seq::<Seq<char>>::empty(),
            settings.deep_view() == (AppSettingsModel {
                timeline: TimelinePolicyModel {
                    watched_channels: with_texts(Seq::empty(), names.take(k as int)),
                    channel_weights: with_weights(
                        start.timeline.channel_weights,
                        names.take(k as int),
                    ),
                    ..start.timeline
                },
                ..start
            }),
        decreases members.len() - k,
    {
        assert(names.take(k + 1).drop_last() =~= names.take(k as int));
        assert(names.take(k + 1).last() == members@[k as int]@);
        let ghost before = settings.deep_view();
        settings.timeline.watched_channels.insert(members[k].clone());
        settings.timeline.channel_weights.insert_missing(members[k].clone(), 1);
        k += 1;
    }
    assert(names.take(k as int) =~= names);
    channels.len()
}

/// The rule that notifies of everything.
pub open spec fn notify_of_everything(id: RuleId) -> NotificationRuleModel {
    NotificationRuleModel {
        id,
        label: "All incoming activity"@,
        enabled: true,
        channels: Seq::empty(),
        authors: Seq::empty(),
        includes: Seq::empty(),
        exclude: Seq::empty(),
        keyword_profile_ids: Seq::empty(),
        section_profile_ids: Seq::empty(),
        channel_profile_ids: Seq::empty(),
        author_profile_ids: Seq::empty(),
        search_profile_ids: Seq::empty(),
        thread_participation_only: false,
        quiet_hours: None,
        action: NotificationAction::Notify,
    }
}

/// Whether a rule is the one for watched channels that earlier settings came with, unchanged but
/// for its channels and search profiles.
pub open spec fn is_watched_channel_rule(rule: NotificationRuleModel) -> bool {
    &&& rule.label == "Watched channel activity"@
    &&& rule.enabled
    &&& rule.authors.len() == 0
    &&& rule.includes.len() == 0
    &&& rule.exclude.len() == 0
    &&& rule.keyword_profile_ids.len() == 0
    &&& rule.section_profile_ids.len() == 0
    &&& rule.channel_profile_ids.len() == 0
    &&& rule.author_profile_ids.len() == 0
    &&& !rule.thread_participation_only
    &&& rule.quiet_hours is None
    &&& rule.action == NotificationAction::Notify
}

/// Whether the rules are seeded: there are none, or only the one for watched channels.
pub open spec fn needs_seeding(rules: Seq<NotificationRuleModel>) -> bool {
    rules.len() == 0 || rules.len() == 1 && is_watched_channel_rule(rules[0])
}

/// The rules to start with: without rules one that notifies of everything, and the rule for
/// watched channels alone becomes one for all channels.
pub open spec fn seeded_rules(rules: Seq<NotificationRuleModel>, id: RuleId) -> Seq<
    NotificationRuleModel,
> {
    if rules.len() == 0 {
        seq![notify_of_everything(id)]
    } else if needs_seeding(rules) {
        seq![
            NotificationRuleModel {
                label: "All incoming activity"@,
                channels: Seq::empty(),
                ..rules[0]
            },
        ]
    } else {
        rules
    }
}

/// Whether a rule is the one for watched channels.
fn watched_channel_rule(rule: &NotificationRule) -> (r: bool)
    ensures
        r == is_watched_channel_rule(rule.deep_view()),
{
    same_text(rule.label.as_str(), "Watched channel activity") && rule.enabled
        && rule.authors.is_empty() && rule.includes.len() == 0 && rule.exclude.len() == 0
        && rule.keyword_profile_ids.len() == 0 && rule.section_profile_ids.len() == 0
        && rule.channel_profile_ids.len() == 0 && rule.author_profile_ids.len() == 0
        && !rule.thread_participation_only && rule.quiet_hours.is_none() && rule.action
        == NotificationAction::Notify
}

/// Gives the settings rules to start with, and says whether that changed anything. `id` is a fresh
/// identifier for a new rule.
pub fn seed_default_notification_rules(settings: &mut AppSettings, id: RuleId) -> (r: bool)
    ensures
        r == needs_seeding(old(settings).deep_view().notification_rules),
        final(settings).deep_view() == (AppSettingsModel {
            notification_rules: seeded_rules(old(settings).deep_view().notification_rules, id),
            ..old(settings).deep_view()
        }),
{
    let ghost rules = settings.notification_rules.deep_view();
    if settings.notification_rules.len() == 0 {
        let rule = NotificationRule {
            id,
            label: owned("All incoming activity"),
            enabled: true,
            channels: TextSet::new(),
            authors: TextSet::new(),
            includes: Vec::new(),
            exclude: Vec::new(),
            keyword_profile_ids: Vec::new(),
            section_profile_ids: Vec::new(),
            channel_profile_ids: Vec::new(),
            author_profile_ids: Vec::new(),
            search_profile_ids: Vec::new(),
            thread_participation_only: false,
            quiet_hours: None,
            action: NotificationAction::Notify,
        };
        assert(rule.deep_view() =~= notify_of_everything(id));
        settings.notification_rules.push(rule);
        assert(settings.notification_rules.deep_view() =~= seq![notify_of_everything(id)]);
        return true;
    }
    if settings.notification_rules.len() != 1 {
        return false;
    }
    assert(rules[0] == settings.notification_rules@[0].deep_view());
    if !watched_channel_rule(&settings.notification_rules[0]) {
        return false;
    }
    let mut rule = settings.notification_rules[0].clone();
    rule.label = owned("All incoming activity");
    rule.channels = TextSet::new();
    let mut rules_now: Vec<NotificationRule> = Vec::new();
    rules_now.push(rule);
    assert(rules_now.deep_view() =~= seeded_rules(rules, id));
    settings.notification_rules = rules_now;
    true
}

/// Seeding twice is the same as seeding once, and leaves no settings without a rule.
pub proof fn law_seeding_settles(rules: Seq<NotificationRuleModel>, id: RuleId, other: RuleId)
    ensures
        !needs_seeding(seeded_rules(rules, id)),
        seeded_rules(seeded_rules(rules, id), other) == seeded_rules(rules, id),
        seeded_rules(rules, id).len() > 0,
{
    reveal_strlit("All incoming activity");
    reveal_strlit("Watched channel activity");
    assert("All incoming activity"@.len() != "Watched channel activity"@.len());
}

} // verus!
