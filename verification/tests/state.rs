use slaxide::collections::{TextMap, TextSet};
use slaxide::emoji::normalize_reaction_name;
use slaxide::history::is_syncable_conversation;
use slaxide::models::{ReactionSummary, ReplyState, TimelineItem};
use slaxide::notify::{notification_action_for_item, seed_default_notification_rules};
use slaxide::patterns::PatternMatcher;
use slaxide::permalinks::{extract_slack_permalink_targets, permalink_token_to_slack_ts};
use slaxide::sample::{sample_settings, sample_timeline};
use slaxide::settings::{
    AppSettings, ChannelPermission, ChannelProfile, NotificationAction, NotificationRule,
    ProfileMode, RuleId, SearchProfile,
};
use slaxide::slack::SlackConversation;
use slaxide::state::UiState;
use slaxide::sync::prioritize_initial_sync_conversations;
use slaxide::time::Timestamp;

/// 2026-03-15 12:00:00 UTC.
fn noon() -> Timestamp {
    Timestamp { seconds: 1_773_576_000, nanos: 0 }
}

fn sample() -> AppSettings {
    sample_settings(RuleId { bits: 1 }, RuleId { bits: 2 })
}

fn state_of(settings: AppSettings, items: Vec<TimelineItem>) -> UiState {
    UiState::new(
        settings,
        items,
        TextMap::new(),
        TextMap::new(),
        TextMap::new(),
        TextMap::new(),
        noon(),
    )
}

fn reply_to(selected: &TimelineItem, at: Timestamp) -> TimelineItem {
    TimelineItem {
        workspace_id: selected.workspace_id.clone(),
        channel_id: selected.channel_id.clone(),
        channel_name: selected.channel_name.clone(),
        message_ts: "9999999999.123456".into(),
        thread_ts: selected.thread_ts.clone(),
        author_id: "U-me".into(),
        author_name: "you".into(),
        author_avatar_path: None,
        body: "reply".into(),
        rich_text_blocks: vec![],
        reactions: vec![],
        attachments: vec![],
        unread: false,
        participant: true,
        direct_mention: false,
        focus_keyword_hits: vec![],
        watch_weight: selected.watch_weight,
        last_activity_at: at,
        reply_state: ReplyState::Idle,
    }
}

fn hello(reactions: Vec<ReactionSummary>) -> TimelineItem {
    TimelineItem {
        workspace_id: "W1".into(),
        channel_id: "C1".into(),
        channel_name: "#general".into(),
        message_ts: "1".into(),
        thread_ts: "1".into(),
        author_id: "U-author".into(),
        author_name: "author".into(),
        author_avatar_path: None,
        body: "hello".into(),
        rich_text_blocks: vec![],
        reactions,
        attachments: vec![],
        unread: false,
        participant: false,
        direct_mention: false,
        focus_keyword_hits: vec![],
        watch_weight: 1,
        last_activity_at: noon(),
        reply_state: ReplyState::Idle,
    }
}

fn user(id: &str) -> Option<String> {
    Some(id.to_string())
}

fn set(values: &[&str]) -> TextSet {
    let mut set = TextSet::new();
    for value in values {
        set.insert(value.to_string());
    }
    set
}

fn profile(id: &str, label: &str) -> SearchProfile {
    SearchProfile {
        id: id.into(),
        label: label.into(),
        query: None,
        keyword_profiles: vec![],
        section_profiles: vec![],
        channel_profiles: vec![],
        author_profiles: vec![],
        channels: TextSet::new(),
        authors: TextSet::new(),
    }
}

#[test]
fn ui_state_stays_empty_without_cached_items() {
    let state = state_of(AppSettings::default(), Vec::new());

    assert!(state.visible_items().is_empty());
    assert!(state.selected_message_ts.is_none());
}

#[test]
fn ui_state_selects_the_top_ranked_item() {
    let state = state_of(sample(), sample_timeline(noon()));

    assert!(!state.visible_items().is_empty());
    assert_eq!(
        state.selected_message_ts.as_deref(),
        Some(state.visible_items()[0].item.message_ts.as_str())
    );
}

#[test]
fn applying_reply_item_updates_thread_activity() {
    let mut state = state_of(sample(), sample_timeline(noon()));
    let selected = state.selected_item().unwrap().item;
    let now = noon().plus_seconds(1);

    state.apply_reply_item(reply_to(&selected, now), now);

    assert!(state
        .source_items
        .iter()
        .any(|item| item.message_ts == "9999999999.123456"));
    assert!(state
        .source_items
        .iter()
        .filter(|item| item.thread_ts == selected.thread_ts)
        .all(|item| item.last_activity_at == now && item.participant));
}

#[test]
fn replies_do_not_create_extra_visible_threads() {
    let mut state = state_of(sample(), sample_timeline(noon()));
    let selected = state.selected_item().unwrap().item;
    let visible_before = state.visible_items().len();

    state.apply_reply_item(reply_to(&selected, noon()), noon());

    assert_eq!(state.visible_items().len(), visible_before);
    assert!(state
        .visible_items()
        .iter()
        .all(|item| item.item.message_ts == item.item.thread_ts));
}

#[test]
fn default_notification_rules_seed_global_notify() {
    let mut settings = AppSettings::default();

    assert!(seed_default_notification_rules(&mut settings, RuleId { bits: 5 }));
    assert_eq!(settings.notification_rules.len(), 1);
    assert_eq!(settings.notification_rules[0].label, "All incoming activity");
    assert_eq!(settings.notification_rules[0].action, NotificationAction::Notify);
    assert!(settings.notification_rules[0].channels.is_empty());
}

#[test]
fn legacy_watched_channel_rule_migrates_to_global_notify() {
    let mut settings = AppSettings::default();
    settings.notification_rules.push(NotificationRule {
        id: RuleId { bits: 4 },
        label: "Watched channel activity".into(),
        enabled: true,
        channels: set(&["C-eng", "C-release"]),
        authors: TextSet::new(),
        includes: vec![],
        exclude: vec![],
        keyword_profile_ids: vec![],
        section_profile_ids: vec![],
        channel_profile_ids: vec![],
        author_profile_ids: vec![],
        search_profile_ids: vec![],
        thread_participation_only: false,
        quiet_hours: None,
        action: NotificationAction::Notify,
    });

    assert!(seed_default_notification_rules(&mut settings, RuleId { bits: 5 }));
    assert_eq!(settings.notification_rules.len(), 1);
    assert_eq!(settings.notification_rules[0].label, "All incoming activity");
    assert!(settings.notification_rules[0].channels.is_empty());
}

#[test]
fn incoming_posts_notify_without_rules() {
    let settings = AppSettings::default();
    let item = TimelineItem {
        workspace_id: "W1".into(),
        channel_id: "C-random".into(),
        channel_name: "#random".into(),
        message_ts: "1".into(),
        thread_ts: "1".into(),
        author_id: "U2".into(),
        author_name: "teammate".into(),
        author_avatar_path: None,
        body: "shipping now".into(),
        rich_text_blocks: vec![],
        reactions: vec![],
        attachments: vec![],
        unread: true,
        participant: false,
        direct_mention: false,
        focus_keyword_hits: vec![],
        watch_weight: 1,
        last_activity_at: noon(),
        reply_state: ReplyState::Idle,
    };

    assert_eq!(
        notification_action_for_item(&settings, &item, 12),
        Some(NotificationAction::Notify)
    );
}

#[test]
fn active_search_profile_filters_visible_threads() {
    let mut settings = sample();
    settings.active_search_profile_id = Some("incident-only".into());
    let mut incident_only = profile("incident-only", "Incident only");
    incident_only.channels = set(&["C-incident"]);
    settings.search_profiles = vec![incident_only];

    let state = state_of(settings, sample_timeline(noon()));

    assert!(!state.visible_items().is_empty());
    assert!(state
        .visible_items()
        .iter()
        .all(|ranked| ranked.item.channel_id == "C-incident"));
}

#[test]
fn hidden_and_read_only_channel_permissions_shape_ui_options() {
    let mut settings = sample();
    settings
        .channel_permissions
        .insert("C-incident".into(), ChannelPermission::Hidden);
    settings
        .channel_permissions
        .insert("C-release".into(), ChannelPermission::ReadOnly);

    let state = state_of(settings, sample_timeline(noon()));

    assert!(state
        .visible_items()
        .iter()
        .all(|ranked| ranked.item.channel_id != "C-incident"));
    assert!(state
        .available_post_channels()
        .iter()
        .all(|(channel_id, _)| channel_id != "C-release"));
}

#[test]
fn public_channels_without_membership_still_sync() {
    let public_channel = SlackConversation {
        id: "C-public".into(),
        name: Some("times_alice".into()),
        name_normalized: Some("times_alice".into()),
        creator: None,
        is_member: Some(false),
        is_private: Some(false),
        is_archived: Some(false),
    };
    let private_channel = SlackConversation {
        id: "G-private".into(),
        name: Some("secret".into()),
        name_normalized: Some("secret".into()),
        creator: None,
        is_member: Some(false),
        is_private: Some(true),
        is_archived: Some(false),
    };

    assert!(is_syncable_conversation(&public_channel));
    assert!(!is_syncable_conversation(&private_channel));
}

#[test]
fn active_profile_prioritizes_matching_channels_for_initial_sync() {
    let mut settings = AppSettings::default();
    settings.active_search_profile_id = Some("times".into());
    settings.channel_profiles = vec![ChannelProfile {
        id: "times-only".into(),
        label: "Times only".into(),
        mode: ProfileMode::Allow,
        channels: TextSet::new(),
        channel_name_matchers: vec![PatternMatcher::Regex("^times_".into())],
    }];
    let mut times = profile("times", "Times");
    times.channel_profiles = vec!["times-only".into()];
    settings.search_profiles = vec![times];

    let channels = prioritize_initial_sync_conversations(
        vec![
            SlackConversation {
                id: "C-random".into(),
                name: Some("random".into()),
                name_normalized: Some("random".into()),
                creator: None,
                is_member: Some(true),
                is_private: Some(false),
                is_archived: Some(false),
            },
            SlackConversation {
                id: "C-times".into(),
                name: Some("times_alice".into()),
                name_normalized: Some("times_alice".into()),
                creator: Some("U-alice".into()),
                is_member: Some(false),
                is_private: Some(false),
                is_archived: Some(false),
            },
        ],
        &settings,
    );

    assert_eq!(channels[0].id, "C-times");
}

#[test]
fn normalize_reaction_name_accepts_shortcode_aliases_and_unicode() {
    assert_eq!(normalize_reaction_name(":thumbsup:"), Some("+1".into()));
    assert_eq!(normalize_reaction_name("thumbsup"), Some("+1".into()));
    assert_eq!(normalize_reaction_name("👍"), Some("+1".into()));
    assert_eq!(
        normalize_reaction_name("white-check-mark"),
        Some("white_check_mark".into())
    );
}

#[test]
fn normalize_reaction_name_preserves_custom_workspace_names() {
    assert_eq!(
        normalize_reaction_name(":party-parrot:"),
        Some("party-parrot".into())
    );
    assert_eq!(normalize_reaction_name(""), None);
    assert_eq!(normalize_reaction_name("party parrot"), None);
}

#[test]
fn live_reaction_events_update_counts_without_double_counting_self() {
    let mut state = state_of(
        AppSettings::default(),
        vec![hello(vec![ReactionSummary {
            name: "+1".into(),
            emoji: "👍".into(),
            count: 1,
            me: true,
        }])],
    );

    assert!(state.apply_reaction_added("1", "+1", &user("U-me"), &user("U-me"), noon()));
    assert!(state.apply_reaction_added("1", "+1", &user("U-other"), &user("U-me"), noon()));

    let reactions = &state.source_items[0].reactions;
    assert_eq!(reactions.len(), 1);
    assert_eq!(reactions[0].count, 2);
    assert!(reactions[0].me);
}

#[test]
fn live_reaction_remove_drops_empty_reaction() {
    let mut state = state_of(
        AppSettings::default(),
        vec![hello(vec![ReactionSummary {
            name: "tada".into(),
            emoji: "🎉".into(),
            count: 1,
            me: false,
        }])],
    );

    assert!(state.apply_reaction_removed("1", "tada", &user("U-other"), &user("U-me"), noon()));
    assert!(state.source_items[0].reactions.is_empty());
}

#[test]
fn remote_message_snapshot_overwrites_reactions() {
    let mut state = state_of(AppSettings::default(), vec![hello(vec![])]);

    assert!(state.apply_remote_message_snapshot(
        "1",
        "hello",
        vec![],
        vec![ReactionSummary {
            name: "+1".into(),
            emoji: "👍".into(),
            count: 3,
            me: false,
        }],
        vec![],
        noon(),
    ));

    assert_eq!(state.source_items[0].reactions.len(), 1);
    assert_eq!(state.source_items[0].reactions[0].count, 3);
}

#[test]
fn permalink_token_round_trips_to_slack_timestamp() {
    assert_eq!(
        permalink_token_to_slack_ts("p1710112233445566"),
        Some("1710112233.445566".into())
    );
    assert_eq!(permalink_token_to_slack_ts("not-a-permalink"), None);
}

#[test]
fn shared_message_links_extract_from_plain_and_slack_markup_urls() {
    let text = "plain https://acme.slack.com/archives/C123/p1710112233445566 and <https://acme.slack.com/archives/C999/p1700000000000123|Slack link>";
    let targets = extract_slack_permalink_targets(text);

    assert_eq!(targets.len(), 2);
    assert!(targets.iter().any(|target| {
        target.channel_id == "C123" && target.message_ts == "1710112233.445566"
    }));
    assert!(targets.iter().any(|target| {
        target.channel_id == "C999" && target.message_ts == "1700000000.000123"
    }));
}

#[test]
fn user_directory_names_override_raw_ids() {
    let mut names = TextMap::new();
    names.insert("U-alice".into(), "Alice".to_string());
    let state = UiState::new(
        AppSettings::default(),
        Vec::new(),
        names,
        TextMap::new(),
        TextMap::new(),
        TextMap::new(),
        noon(),
    );

    assert_eq!(state.author_name_for("U-alice", false), "Alice");
    assert_eq!(state.author_name_for("U-me", true), "you");
    assert_eq!(state.author_name_for("U-unknown", false), "U-unknown");
}

#[test]
fn a_message_comes_once() {
    let mut state = state_of(AppSettings::default(), vec![]);

    assert!(state.apply_incoming_item(hello(vec![]), noon()));
    assert!(!state.apply_incoming_item(hello(vec![]), noon()));
    assert_eq!(state.source_items.len(), 1);
}

#[test]
fn a_reply_stirs_its_thread() {
    let mut state = state_of(AppSettings::default(), vec![hello(vec![])]);
    let mut reply = reply_to(&hello(vec![]), noon().plus_seconds(60));
    reply.unread = true;
    reply.direct_mention = true;
    reply.focus_keyword_hits = vec!["ship".into()];

    assert!(state.apply_incoming_item(reply, noon()));

    let root = &state.source_items[0];
    assert_eq!(root.last_activity_at, noon().plus_seconds(60));
    assert!(root.unread && root.direct_mention);
    assert_eq!(root.focus_keyword_hits, vec!["ship".to_string()]);
}

#[test]
fn deleting_a_root_takes_its_thread() {
    let mut state = state_of(AppSettings::default(), vec![hello(vec![])]);
    state.apply_reply_item(reply_to(&hello(vec![]), noon()), noon());

    assert!(state.apply_message_delete("1", noon()));
    assert!(state.source_items.is_empty());
    assert!(!state.apply_message_delete("1", noon()));
}

#[test]
fn deleting_a_reply_leaves_its_thread() {
    let mut state = state_of(AppSettings::default(), vec![hello(vec![])]);
    state.apply_reply_item(reply_to(&hello(vec![]), noon().plus_seconds(60)), noon());

    assert!(state.apply_message_delete("9999999999.123456", noon()));
    assert_eq!(state.source_items.len(), 1);
    assert_eq!(state.source_items[0].message_ts, "1");
}

#[test]
fn an_edit_changes_one_message() {
    let mut other = hello(vec![]);
    other.message_ts = "2".into();
    other.thread_ts = "2".into();
    let mut state = state_of(AppSettings::default(), vec![hello(vec![]), other.clone()]);

    assert!(state.apply_message_edit("1", "goodbye", noon()));

    assert_eq!(state.source_items[0].body, "goodbye");
    assert_eq!(state.source_items[1], other);
    assert!(!state.apply_message_edit("3", "goodbye", noon()));
}

#[test]
fn archiving_a_channel_forgets_it() {
    let mut state = state_of(sample(), sample_timeline(noon()));
    state.set_channel_filter(Some("C-incident".into()));

    state.archive_known_channel("C-incident", noon());

    assert!(state.source_items.iter().all(|item| item.channel_id != "C-incident"));
    assert_eq!(state.channel_filter, None);
    assert!(state.available_channels().iter().all(|(id, _)| id != "C-incident"));
}

#[test]
fn a_search_shows_what_holds_the_query() {
    let mut state = state_of(sample(), sample_timeline(noon()));

    assert!(state.search_changed("SHIP the fix".into()));
    assert!(!state.search_changed("SHIP the fix".into()));

    assert_eq!(state.visible_items().len(), 1);
    assert_eq!(state.visible_items()[0].item.channel_id, "C-release");
    assert_eq!(
        state.selected_message_ts.as_deref(),
        Some(state.visible_items()[0].item.message_ts.as_str())
    );
}

#[test]
fn seeding_rules_again_changes_nothing() {
    let mut settings = AppSettings::default();
    assert!(seed_default_notification_rules(&mut settings, RuleId { bits: 5 }));
    let once = settings.clone();

    assert!(!seed_default_notification_rules(&mut settings, RuleId { bits: 6 }));
    assert_eq!(settings, once);
}
