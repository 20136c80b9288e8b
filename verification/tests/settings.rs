use slaxide::collections::{TextMap, TextSet};
use slaxide::matching::SettingsError;
use slaxide::models::{ReplyState, TimelineItem};
use slaxide::patterns::PatternMatcher;
use slaxide::settings::{
    AppSettings, AppSettingsPatch, AuthorProfile, ChannelPermission, ChannelProfile,
    KeywordProfile, NotificationAction, NotificationRule, ProfileMode, QuietHours, RuleId, SearchProfile,
    SectionProfile, ShortcutBindings, SlackConfigSettings,
};
use slaxide::time::Timestamp;

fn set(values: &[&str]) -> TextSet {
    let mut set = TextSet::new();
    for value in values {
        set.insert(value.to_string());
    }
    set
}

fn texts(values: &[&str]) -> Vec<String> {
    values.iter().map(|value| value.to_string()).collect()
}

fn sample_item() -> TimelineItem {
    TimelineItem {
        workspace_id: "W1".into(),
        channel_id: "C-eng".into(),
        channel_name: "eng".into(),
        message_ts: "1".into(),
        thread_ts: "1".into(),
        author_id: "U1".into(),
        author_name: "A".into(),
        author_avatar_path: None,
        body: "ready to ship this release".into(),
        rich_text_blocks: vec![],
        reactions: vec![],
        attachments: vec![],
        unread: true,
        participant: false,
        direct_mention: false,
        focus_keyword_hits: vec![],
        watch_weight: 1,
        last_activity_at: Timestamp { seconds: 1_773_575_700, nanos: 0 },
        reply_state: ReplyState::Idle,
    }
}

fn rule(label: &str) -> NotificationRule {
    NotificationRule {
        id: RuleId { bits: 7 },
        label: label.into(),
        enabled: true,
        channels: TextSet::new(),
        authors: TextSet::new(),
        includes: vec![],
        exclude: vec![],
        keyword_profile_ids: vec![],
        section_profile_ids: vec![],
        channel_profile_ids: vec![],
        author_profile_ids: vec![],
        search_profile_ids: vec![],
        thread_participation_only: false,
        quiet_hours: None,
        action: NotificationAction::Notify,
    }
}

fn search_profile(id: &str, label: &str) -> SearchProfile {
    SearchProfile {
        id: id.into(),
        label: label.into(),
        query: None,
        keyword_profiles: vec![],
        section_profiles: vec![],
        channel_profiles: vec![],
        author_profiles: vec![],
        channels: TextSet::new(),
        authors: TextSet::new(),
    }
}

#[test]
fn invalid_regex_is_rejected() {
    let mut rule = rule("bad");
    rule.includes = vec![PatternMatcher::Regex("[".into())];

    let error = rule.validate().unwrap_err();
    assert!(matches!(error, SettingsError::InvalidRegex { .. }));
}

#[test]
fn rule_matches_text_filters() {
    let mut rule = rule("ship");
    rule.channels = set(&["C-eng"]);
    rule.includes = vec![PatternMatcher::Text("ship".into())];
    rule.exclude = vec![PatternMatcher::Text("wip".into())];

    assert!(rule.matches(&sample_item()).unwrap());
}

#[test]
fn search_profile_reuses_small_profiles_with_allow_and_deny() {
    let mut settings = AppSettings::default();
    settings.keyword_profiles = vec![
        KeywordProfile {
            id: "shipping".into(),
            label: "Shipping".into(),
            mode: ProfileMode::Allow,
            matchers: vec![PatternMatcher::Text("ship".into())],
        },
        KeywordProfile {
            id: "noise".into(),
            label: "Noise".into(),
            mode: ProfileMode::Deny,
            matchers: vec![PatternMatcher::Text("wip".into())],
        },
    ];
    settings.channel_profiles = vec![
        ChannelProfile {
            id: "eng-only".into(),
            label: "Engineering".into(),
            mode: ProfileMode::Allow,
            channels: set(&["C-eng", "C-release"]),
            channel_name_matchers: Vec::new(),
        },
        ChannelProfile {
            id: "exclude-random".into(),
            label: "Exclude random".into(),
            mode: ProfileMode::Deny,
            channels: set(&["C-random"]),
            channel_name_matchers: Vec::new(),
        },
    ];
    settings.section_profiles = vec![SectionProfile {
        id: "release-rooms".into(),
        label: "Release rooms".into(),
        channels: set(&["C-eng", "C-release"]),
        channel_name_matchers: Vec::new(),
    }];
    settings.author_profiles = vec![AuthorProfile {
        id: "humans".into(),
        label: "Humans".into(),
        mode: ProfileMode::Allow,
        authors: set(&["U1"]),
    }];
    let mut profile = search_profile("release-focus", "Release focus");
    profile.keyword_profiles = texts(&["shipping", "noise"]);
    profile.section_profiles = texts(&["release-rooms"]);
    profile.channel_profiles = texts(&["eng-only", "exclude-random"]);
    profile.author_profiles = texts(&["humans"]);
    settings.search_profiles = vec![profile];

    assert!(settings.search_profile_matches("release-focus", &sample_item()).unwrap());
}

#[test]
fn notification_rules_can_reuse_search_profiles() {
    let mut settings = AppSettings::default();
    settings.keyword_profiles = vec![KeywordProfile {
        id: "shipping".into(),
        label: "Shipping".into(),
        mode: ProfileMode::Allow,
        matchers: vec![PatternMatcher::Text("ship".into())],
    }];
    let mut profile = search_profile("release-focus", "Release focus");
    profile.keyword_profiles = texts(&["shipping"]);
    settings.search_profiles = vec![profile];

    let mut rule = rule("Release profile");
    rule.search_profile_ids = texts(&["release-focus"]);

    assert!(settings.notification_rule_matches(&rule, &sample_item()).unwrap());
}

#[test]
fn notification_rules_can_reuse_profile_refs_without_inline_filters() {
    let mut settings = AppSettings::default();
    settings.keyword_profiles = vec![KeywordProfile {
        id: "shipping".into(),
        label: "Shipping".into(),
        mode: ProfileMode::Allow,
        matchers: vec![PatternMatcher::Text("ship".into())],
    }];
    settings.channel_profiles = vec![ChannelProfile {
        id: "eng-only".into(),
        label: "Engineering".into(),
        mode: ProfileMode::Allow,
        channels: set(&["C-eng"]),
        channel_name_matchers: Vec::new(),
    }];
    settings.author_profiles = vec![AuthorProfile {
        id: "humans".into(),
        label: "Humans".into(),
        mode: ProfileMode::Allow,
        authors: set(&["U1"]),
    }];

    let mut rule = rule("Profile refs");
    rule.keyword_profile_ids = texts(&["shipping"]);
    rule.channel_profile_ids = texts(&["eng-only"]);
    rule.author_profile_ids = texts(&["humans"]);

    assert!(settings.notification_rule_matches(&rule, &sample_item()).unwrap());
}

#[test]
fn search_profile_can_match_channel_name_patterns() {
    let mut settings = AppSettings::default();
    settings.channel_profiles = vec![ChannelProfile {
        id: "times-only".into(),
        label: "Times only".into(),
        mode: ProfileMode::Allow,
        channels: TextSet::new(),
        channel_name_matchers: vec![PatternMatcher::Regex("^times_".into())],
    }];
    let mut profile = search_profile("times", "Times");
    profile.channel_profiles = texts(&["times-only"]);
    settings.search_profiles = vec![profile];

    let mut item = sample_item();
    item.channel_id = "C-times".into();
    item.channel_name = "#times_alice".into();

    assert!(settings.search_profile_matches("times", &item).unwrap());
    assert!(
        settings
            .channel_matches_active_search_profile("C-times", "#times_alice")
            .unwrap_or(false)
            == false
    );

    settings.active_search_profile_id = Some("times".into());
    assert!(settings
        .channel_matches_active_search_profile("C-times", "#times_alice")
        .unwrap());
}

#[test]
fn channel_permissions_default_to_read_write() {
    let mut settings = AppSettings::default();
    settings.default_channel_permission = ChannelPermission::ReadOnly;
    settings
        .channel_permissions
        .insert("C-writable".into(), ChannelPermission::ReadWrite);

    assert!(settings.can_read_channel("C-eng"));
    assert!(!settings.can_write_channel("C-eng"));
    assert!(settings.can_write_channel("C-writable"));
}

#[test]
fn apply_patch_overrides_only_requested_fields() {
    let mut settings = AppSettings::default();
    settings.timeline.focus_keywords = texts(&["incident"]);

    let mut slack = SlackConfigSettings::default();
    slack.app_token = Some("xapp-123".into());
    let mut permissions = TextMap::new();
    permissions.insert("C-eng".into(), ChannelPermission::ReadOnly);
    let mut patch = AppSettingsPatch::default();
    patch.slack = Some(slack);
    patch.active_search_profile_id = Some("focus".into());
    patch.channel_permissions = Some(permissions);
    settings.apply_patch(patch);

    assert_eq!(settings.active_search_profile_id.as_deref(), Some("focus"));
    assert_eq!(settings.channel_permission("C-eng"), ChannelPermission::ReadOnly);
    assert_eq!(settings.slack.app_token.as_deref(), Some("xapp-123"));
    assert_eq!(settings.timeline.focus_keywords, vec!["incident".to_string()]);
}

#[test]
fn shortcut_bindings_have_expected_defaults() {
    let shortcuts = ShortcutBindings::default();

    assert_eq!(shortcuts.open_settings, vec!["<Ctrl>comma".to_string()]);
    assert_eq!(shortcuts.open_admin, vec!["<Ctrl><Shift>a".to_string()]);
    assert_eq!(shortcuts.focus_search, vec!["<Ctrl>k".to_string()]);
    assert_eq!(shortcuts.focus_composer, vec!["<Ctrl>n".to_string()]);
    assert_eq!(
        shortcuts.close_column,
        vec!["<Ctrl>w".to_string(), "Escape".to_string()]
    );
}

#[test]
fn disabled_rules_match_nothing() {
    let mut rule = rule("off");
    rule.enabled = false;

    assert!(!rule.matches(&sample_item()).unwrap());
    assert!(!AppSettings::default().notification_rule_matches(&rule, &sample_item()).unwrap());
}

#[test]
fn exclusions_go_before_inclusions() {
    let mut rule = rule("ship");
    rule.includes = vec![PatternMatcher::Text("ship".into())];
    rule.exclude = vec![PatternMatcher::Regex("rel.*se$".into())];

    assert!(!rule.matches(&sample_item()).unwrap());
}

#[test]
fn unknown_search_profiles_are_an_error() {
    let error = AppSettings::default().search_profile_matches("none", &sample_item()).unwrap_err();

    assert!(matches!(error, SettingsError::MissingProfileReference { .. }));
    assert_eq!(error.message(), "missing search_profile `none`");
}

#[test]
fn an_empty_patch_changes_nothing() {
    let mut settings = AppSettings::default();
    settings.active_workspace_key = Some("T1".into());
    let before = settings.clone();

    settings.apply_patch(AppSettingsPatch::default());

    assert_eq!(settings, before);
}

#[test]
fn patterns_search_text_without_regard_to_case() {
    assert!(PatternMatcher::Text("SHIP".into()).matches("ready to ship").unwrap());
    assert!(!PatternMatcher::Text("wip".into()).matches("ready to ship").unwrap());
    assert!(PatternMatcher::Regex("SEV[12]".into()).matches("SEV1: down").unwrap());
    assert!(!PatternMatcher::Regex("SEV[12]".into()).matches("SEV3: down").unwrap());
    assert!(PatternMatcher::Regex("(".into()).matches("anything").is_err());
}

#[test]
fn quiet_hours_lie_within_a_day() {
    let mut rule = rule("late");
    rule.quiet_hours = Some(QuietHours { start_hour: 23, end_hour: 7 });
    assert!(rule.validate().is_ok());

    rule.quiet_hours = Some(QuietHours { start_hour: 24, end_hour: 7 });
    assert!(matches!(rule.validate().unwrap_err(), SettingsError::InvalidQuietHours));
}
