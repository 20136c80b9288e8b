//! A small workspace to try the program on.
use vstd::prelude::*;
use vstd::string::*;

use crate::binary64::{whole, Binary64};
use crate::collections::{bind, with_text, TextMap, TextSet};
use crate::models::{
    AttachmentKind, AttachmentSummary, AttachmentSummaryModel, ReplyState, ReplyStateModel,
    TimelineItem, TimelineItemModel,
};
use crate::patterns::{PatternMatcher, PatternMatcherModel};
use crate::settings::{
    default_settings, AppSettings, AppSettingsModel, NotificationAction, NotificationRule,
    NotificationRuleModel, QuietHours, RuleId, TimelinePolicy, TimelinePolicyModel,
};
use crate::text::owned;
use crate::time::{earlier_by, Timestamp};

verus! {

/// A set of one text.
pub open spec fn only(text: Seq<char>) -> Seq<Seq<char>> {
    with_text(Seq::empty(), text)
}

fn set_of(text: &str) -> (r: TextSet)
    ensures
        r.deep_view() == only(text@),
        r.wf(),
{
    let mut set = TextSet::new();
    set.insert(owned(text));
    set
}

/// What the sample asks of the timeline.
pub open spec fn sample_policy() -> TimelinePolicyModel {
    TimelinePolicyModel {
        watched_channels: with_text(with_text(only("C-eng"@), "C-release"@), "C-incident"@),
        muted_channels: only("C-random"@),
        channel_weights: bind(
            bind(bind(Seq::empty(), "C-eng"@, 2u8), "C-release"@, 3u8),
            "C-incident"@,
            4u8,
        ),
        focus_keywords: seq!["ship"@, "incident"@, "prod"@],
        focus_threshold: whole(75),
        recent_window_days: 7,
    }
}

/// A rule of the sample.
pub open spec fn sample_rule(
    id: RuleId,
    label: Seq<char>,
    channel: Seq<char>,
    wanted: PatternMatcherModel,
    unwanted: Seq<PatternMatcherModel>,
    quiet_hours: Option<QuietHours>,
    action: NotificationAction,
) -> NotificationRuleModel {
    NotificationRuleModel {
        id,
        label,
        enabled: true,
        channels: only(channel),
        authors: Seq::empty(),
        includes: seq![wanted],
        exclude: unwanted,
        keyword_profile_ids: Seq::empty(),
        section_profile_ids: Seq::empty(),
        channel_profile_ids: Seq::empty(),
        author_profile_ids: Seq::empty(),
        search_profile_ids: Seq::empty(),
        thread_participation_only: false,
        quiet_hours,
        action,
    }
}

fn make_rule(
    id: RuleId,
    label: &str,
    channel: &str,
    wanted: PatternMatcher,
    unwanted: Vec<PatternMatcher>,
    quiet_hours: Option<QuietHours>,
    action: NotificationAction,
) -> (r: NotificationRule)
    ensures
        r.deep_view() == sample_rule(
            id,
            label@,
            channel@,
            wanted.deep_view(),
            unwanted.deep_view(),
            quiet_hours,
            action,
        ),
{
    let ghost meaning = wanted.deep_view();
    let includes: Vec<PatternMatcher> = vec![wanted];
    let rule = NotificationRule {
        id,
        label: owned(label),
        enabled: true,
        channels: set_of(channel),
        authors: TextSet::new(),
        includes,
        exclude: unwanted,
        keyword_profile_ids: Vec::new(),
        section_profile_ids: Vec::new(),
        channel_profile_ids: Vec::new(),
        author_profile_ids: Vec::new(),
        search_profile_ids: Vec::new(),
        thread_participation_only: false,
        quiet_hours,
        action,
    };
    assert(rule.includes.deep_view() =~= seq![meaning]);
    assert(rule.keyword_profile_ids.deep_view() =~= Seq::empty());
    assert(rule.section_profile_ids.deep_view() =~= Seq::empty());
    assert(rule.channel_profile_ids.deep_view() =~= Seq::empty());
    assert(rule.author_profile_ids.deep_view() =~= Seq::empty());
    assert(rule.search_profile_ids.deep_view() =~= Seq::empty());
    rule
}

/// The settings of the sample, with the ids of its rules; what they do not set is as usual.
pub fn sample_settings(first: RuleId, second: RuleId) -> (r: AppSettings)
    ensures
        r.deep_view() == (AppSettingsModel {
            timeline: sample_policy(),
            notification_rules: seq![
                sample_rule(
                    first,
                    "Incidents"@,
                    "C-incident"@,
                    PatternMatcherModel::Regex("SEV[12]"@),
                    Seq::empty(),
                    None,
                    NotificationAction::Critical,
                ),
                sample_rule(
                    second,
                    "Ship room"@,
                    "C-release"@,
                    PatternMatcherModel::Text("ship"@),
                    seq![PatternMatcherModel::Text("wip"@)],
                    Some(QuietHours { start_hour: 23, end_hour: 7 }),
                    NotificationAction::Notify,
                ),
            ],
            ..default_settings()
        }),
{
    let mut watched = set_of("C-eng");
    watched.insert(owned("C-release"));
    watched.insert(owned("C-incident"));
    let mut weights: TextMap<u8> = TextMap::new();
    weights.insert(owned("C-eng"), 2);
    weights.insert(owned("C-release"), 3);
    weights.insert(owned("C-incident"), 4);
    let keywords: Vec<String> = vec![owned("ship"), owned("incident"), owned("prod")];
    assert(keywords.deep_view() =~= sample_policy().focus_keywords);
    let none: Vec<PatternMatcher> = Vec::new();
    assert(none.deep_view() =~= Seq::empty());
    let unfinished: Vec<PatternMatcher> = vec![PatternMatcher::Text(owned("wip"))];
    assert(unfinished.deep_view() =~= seq![PatternMatcherModel::Text("wip"@)]);
    let incidents = make_rule(
        first,
        "Incidents",
        "C-incident",
        PatternMatcher::Regex(owned("SEV[12]")),
        none,
        None,
        NotificationAction::Critical,
    );
    let ship_room = make_rule(
        second,
        "Ship room",
        "C-release",
        PatternMatcher::Text(owned("ship")),
        unfinished,
        Some(QuietHours { start_hour: 23, end_hour: 7 }),
        NotificationAction::Notify,
    );
    let ghost rules = seq![incidents.deep_view(), ship_room.deep_view()];
    let mut settings = AppSettings::default();
    settings.timeline = TimelinePolicy {
        watched_channels: watched,
        muted_channels: set_of("C-random"),
        channel_weights: weights,
        focus_keywords: keywords,
        focus_threshold: Binary64::of_integer(75),
        recent_window_days: 7,
    };
    assert(settings.timeline.deep_view() =~= sample_policy());
    settings.notification_rules = vec![incidents, ship_room];
    assert(settings.notification_rules.deep_view() =~= rules);
    settings
}

/// An item of the sample: unread, without reactions, in one workspace.
pub open spec fn sample_item(
    channel: (Seq<char>, Seq<char>),
    stamps: (Seq<char>, Seq<char>),
    author: (Seq<char>, Seq<char>),
    body: Seq<char>,
    attachments: Seq<AttachmentSummaryModel>,
    participant: bool,
    direct_mention: bool,
    hits: Seq<Seq<char>>,
    watch_weight: u8,
    last_activity_at: Timestamp,
) -> TimelineItemModel {
    TimelineItemModel {
        workspace_id: "W-dev"@,
        channel_id: channel.0,
        channel_name: channel.1,
        message_ts: stamps.0,
        thread_ts: stamps.1,
        author_id: author.0,
        author_name: author.1,
        author_avatar_path: None,
        body,
        rich_text_blocks: Seq::empty(),
        reactions: Seq::empty(),
        attachments,
        unread: true,
        participant,
        direct_mention,
        focus_keyword_hits: hits,
        watch_weight,
        last_activity_at,
        reply_state: ReplyStateModel::Idle,
    }
}

fn make_item(
    channel: (&str, &str),
    stamps: (&str, &str),
    author: (&str, &str),
    body: &str,
    attachments: Vec<AttachmentSummary>,
    participant: bool,
    direct_mention: bool,
    hits: Vec<String>,
    watch_weight: u8,
    last_activity_at: Timestamp,
) -> (r: TimelineItem)
    ensures
        r.deep_view() == sample_item(
            (channel.0@, channel.1@),
            (stamps.0@, stamps.1@),
            (author.0@, author.1@),
            body@,
            attachments.deep_view(),
            participant,
            direct_mention,
            hits.deep_view(),
            watch_weight,
            last_activity_at,
        ),
{
    let item = TimelineItem {
        workspace_id: owned("W-dev"),
        channel_id: owned(channel.0),
        channel_name: owned(channel.1),
        message_ts: owned(stamps.0),
        thread_ts: owned(stamps.1),
        author_id: owned(author.0),
        author_name: owned(author.1),
        author_avatar_path: None,
        body: owned(body),
        rich_text_blocks: Vec::new(),
        reactions: Vec::new(),
        attachments,
        unread: true,
        participant,
        direct_mention,
        focus_keyword_hits: hits,
        watch_weight,
        last_activity_at,
        reply_state: ReplyState::Idle,
    };
    assert(item.rich_text_blocks.deep_view() =~= Seq::empty());
    assert(item.reactions.deep_view() =~= Seq::empty());
    item
}

/// The items of the sample, seen from a point in time.
pub open spec fn sample_items(now: Timestamp) -> Seq<TimelineItemModel> {
    seq![
        sample_item(
            ("C-incident"@, "#incident"@),
            ("1742010000.001"@, "1742010000.001"@),
            ("U-ops"@, "ops-bot"@),
            "SEV1: prod API latency spike on checkout path"@,
            seq![
                AttachmentSummaryModel {
                    kind: AttachmentKind::Link,
                    title: "Grafana dashboard"@,
                    url: Some("https://grafana.example.internal"@),
                    mime: None,
                },
            ],
            true,
            true,
            seq!["incident"@, "prod"@],
            4,
            earlier_by(now, 240),
        ),
        sample_item(
            ("C-release"@, "#release"@),
            ("1742009000.001"@, "1742009000.001"@),
            ("U-pm"@, "release-pm"@),
            "Can we ship the fix today if the smoke tests stay green?"@,
            Seq::empty(),
            false,
            false,
            seq!["ship"@],
            3,
            earlier_by(now, 540),
        ),
        sample_item(
            ("C-eng"@, "#eng"@),
            ("1742007000.001"@, "1742006000.001"@),
            ("U-lead"@, "eng-lead"@),
            "Posting thread summary: branch is stable, waiting on one final review."@,
            seq![
                AttachmentSummaryModel {
                    kind: AttachmentKind::File,
                    title: "release-checklist.md"@,
                    url: None,
                    mime: Some("text/markdown"@),
                },
            ],
            true,
            false,
            Seq::empty(),
            2,
            earlier_by(now, 1080),
        ),
        sample_item(
            ("C-random"@, "#random"@),
            ("1741999000.001"@, "1741999000.001"@),
            ("U-fun"@, "teammate"@),
            "Lunch poll time"@,
            Seq::empty(),
            false,
            false,
            Seq::empty(),
            1,
            earlier_by(now, 3600),
        ),
    ]
}

/// The items of the sample, seen from a point in time.
pub fn sample_timeline(now: Timestamp) -> (r: Vec<TimelineItem>)
    ensures
        r.deep_view() == sample_items(now),
{
    let link = AttachmentSummary {
        kind: AttachmentKind::Link,
        title: owned("Grafana dashboard"),
        url: Some(owned("https://grafana.example.internal")),
        mime: None,
    };
    let links: Vec<AttachmentSummary> = vec![link];
    assert(links.deep_view() =~= sample_items(now)[0].attachments);
    let hits: Vec<String> = vec![owned("incident"), owned("prod")];
    assert(hits.deep_view() =~= sample_items(now)[0].focus_keyword_hits);
    let incident = make_item(
        ("C-incident", "#incident"),
        ("1742010000.001", "1742010000.001"),
        ("U-ops", "ops-bot"),
        "SEV1: prod API latency spike on checkout path",
        links,
        true,
        true,
        hits,
        4,
        now.minus_seconds(240),
    );
    let none: Vec<AttachmentSummary> = Vec::new();
    assert(none.deep_view() =~= Seq::empty());
    let hits: Vec<String> = vec![owned("ship")];
    assert(hits.deep_view() =~= sample_items(now)[1].focus_keyword_hits);
    let release = make_item(
        ("C-release", "#release"),
        ("1742009000.001", "1742009000.001"),
        ("U-pm", "release-pm"),
        "Can we ship the fix today if the smoke tests stay green?",
        none,
        false,
        false,
        hits,
        3,
        now.minus_seconds(540),
    );
    let file = AttachmentSummary {
        kind: AttachmentKind::File,
        title: owned("release-checklist.md"),
        url: None,
        mime: Some(owned("text/markdown")),
    };
    let files: Vec<AttachmentSummary> = vec![file];
    assert(files.deep_view() =~= sample_items(now)[2].attachments);
    let hits: Vec<String> = Vec::new();
    assert(hits.deep_view() =~= Seq::empty());
    let engineering = make_item(
        ("C-eng", "#eng"),
        ("1742007000.001", "1742006000.001"),
        ("U-lead", "eng-lead"),
        "Posting thread summary: branch is stable, waiting on one final review.",
        files,
        true,
        false,
        hits,
        2,
        now.minus_seconds(1080),
    );
    let none: Vec<AttachmentSummary> = Vec::new();
    assert(none.deep_view() =~= Seq::empty());
    let hits: Vec<String> = Vec::new();
    assert(hits.deep_view() =~= Seq::empty());
    let random = make_item(
        ("C-random", "#random"),
        ("1741999000.001", "1741999000.001"),
        ("U-fun", "teammate"),
        "Lunch poll time",
        none,
        false,
        false,
        hits,
        1,
        now.minus_seconds(3600),
    );
    let items: Vec<TimelineItem> = vec![incident, release, engineering, random];
    assert(items.deep_view() =~= sample_items(now));
    items
}

} // verus!
