use slaxide::attachments::{
    attachment_summary, avatar_extension_from_url, cached_image_step, follow_download, next_download,
    image_extension_from_file, looks_like_image_bytes, slack_file_is_image,
    slack_user_display_name, CachedImage, DownloadStep,
};
use slaxide::choices::{
    channel_permission_from_picker, channel_permission_id, hour_from_picker, hour_label,
    hour_picker_id, notification_action_from_picker, notification_action_id, parse_quiet_hours,
    profile_mode_from_picker, profile_mode_id, read_matchers,
};
use slaxide::collections::{TextMap, TextSet};
use slaxide::deck::{DeckColumn, DeckState};
use slaxide::display::{
    avatar_initials, handle_window_shortcuts, picture_height, relative_timestamp_text,
    selected_post_channel, shared_message_preview_text, WindowAction,
};
use slaxide::forms::{listed_profiles, override_summary, RuleForm};
use slaxide::models::{AttachmentKind, ReplyState, TimelineItem};
use slaxide::notify::{
    notification_action_for_item, notify_about_item, quiet_hours_active, seed_watched_channels,
};
use slaxide::office::{office_activity_tier_class, office_message_preview, office_tile_shade};
use slaxide::patterns::PatternMatcher;
use slaxide::previews::{capped_count_label, format_match_summary, keyword_profile_preview_summary};
use slaxide::rule_ids::rule_id_from_picker;
use slaxide::settings::{
    AppSettings, ChannelPermission, ChannelProfile, KeywordProfile, NotificationAction,
    NotificationRule, ProfileMode, QuietHours, RuleId,
};
use slaxide::slack::{SlackFile, SlackUser, SlackUserProfile};
use slaxide::stamps::{slack_ts_from_datetime, slack_ts_to_datetime};
use slaxide::startup::{
    configure_startup_environment, load_development_dotenv, parse_dotenv_line,
    resolved_slack_config_value, sync_settings_env,
};
use slaxide::state::UiState;
use slaxide::surface::{can_send, column_alignment, main_view_title, picked_entry};
use slaxide::time::Timestamp;
use slaxide::auth::SlackAuthStatus;
use slaxide::segments::SlackTableAlignment;
use slaxide::state::MainView;

/// 2026-03-15 12:00:00 UTC.
fn noon() -> Timestamp {
    Timestamp { seconds: 1_773_576_000, nanos: 0 }
}

fn item(ts: &str, channel: &str, body: &str) -> TimelineItem {
    TimelineItem {
        workspace_id: "T1".into(),
        channel_id: channel.into(),
        channel_name: format!("#{channel}"),
        message_ts: ts.into(),
        thread_ts: ts.into(),
        author_id: "U2".into(),
        author_name: "Bo".into(),
        author_avatar_path: Some("/a.png".into()),
        body: body.into(),
        rich_text_blocks: vec![],
        reactions: vec![],
        attachments: vec![],
        unread: true,
        participant: false,
        direct_mention: false,
        focus_keyword_hits: vec![],
        watch_weight: 1,
        last_activity_at: noon(),
        reply_state: ReplyState::Idle,
    }
}

fn state(items: Vec<TimelineItem>) -> UiState {
    UiState::new(
        AppSettings::default(),
        items,
        TextMap::new(),
        TextMap::new(),
        TextMap::new(),
        TextMap::new(),
        noon(),
    )
}

fn file(name: &str, mime: Option<&str>) -> SlackFile {
    SlackFile {
        id: "F1".into(),
        name: Some(name.into()),
        mimetype: mime.map(str::to_string),
        url_private: Some("https://files.slack.com/f".into()),
        url_private_download: None,
        thumb_360: None,
        thumb_720: None,
        permalink: None,
    }
}

fn form(label: &str) -> RuleForm {
    RuleForm {
        label: label.into(),
        enabled: true,
        action: NotificationAction::Critical,
        keyword_profile_ids: vec![],
        section_profile_ids: vec![],
        channel_profile_ids: vec![],
        author_profile_ids: vec![],
        search_profile_ids: vec![],
        thread_participation_only: false,
        quiet_hours_enabled: false,
        quiet_start_hour: None,
        quiet_end_hour: None,
    }
}

#[test]
fn stamps_read_back() {
    let point = Timestamp { seconds: 1_773_576_000, nanos: 123_456_000 };

    assert_eq!(slack_ts_from_datetime(point), "1773576000.123456");
    assert_eq!(slack_ts_to_datetime("1773576000.123456"), Some(point));
    assert_eq!(slack_ts_to_datetime("soon"), None);
    assert_eq!(slack_ts_to_datetime("99999999999999"), None);
}

#[test]
fn rule_ids_read_back() {
    let id = RuleId { bits: 0x0123_4567_89ab_cdef_0123_4567_89ab_cdef };

    assert_eq!(id.text(), "01234567-89ab-cdef-0123-456789abcdef");
    assert_eq!(rule_id_from_picker(Some(id.text().as_str())), Some(id));
    assert_eq!(rule_id_from_picker(Some("none")), None);
    assert_eq!(rule_id_from_picker(None), None);
}

#[test]
fn choices_read_back() {
    for mode in [ProfileMode::Allow, ProfileMode::Deny] {
        assert_eq!(profile_mode_from_picker(Some(profile_mode_id(mode))), mode);
    }
    for action in [
        NotificationAction::Notify,
        NotificationAction::Silent,
        NotificationAction::Critical,
    ] {
        assert_eq!(notification_action_from_picker(Some(notification_action_id(action))), action);
    }
    for permission in [
        ChannelPermission::ReadWrite,
        ChannelPermission::ReadOnly,
        ChannelPermission::Hidden,
    ] {
        assert_eq!(channel_permission_from_picker(Some(channel_permission_id(permission))), permission);
    }
    assert_eq!(hour_from_picker(Some(hour_picker_id(Some(7)).as_str())), Some(7));
    assert_eq!(hour_from_picker(Some(hour_picker_id(None).as_str())), None);
    assert_eq!(hour_label(7), "07:00");
}

#[test]
fn quiet_hours_are_read_from_the_form() {
    assert_eq!(parse_quiet_hours(false, None, None).unwrap(), None);
    assert_eq!(
        parse_quiet_hours(true, Some(23), Some(7)).unwrap(),
        Some(QuietHours { start_hour: 23, end_hour: 7 })
    );
    assert!(parse_quiet_hours(true, Some(23), None).is_err());
}

#[test]
fn quiet_hours_go_round_midnight() {
    let night = Some(QuietHours { start_hour: 23, end_hour: 7 });

    assert!(quiet_hours_active(night, 23));
    assert!(quiet_hours_active(night, 6));
    assert!(!quiet_hours_active(night, 7));
    assert!(!quiet_hours_active(None, 3));
}

#[test]
fn the_most_important_action_wins() {
    let mut settings = AppSettings::default();
    let rule = |action: NotificationAction, quiet_hours: Option<QuietHours>| NotificationRule {
        id: RuleId { bits: 1 },
        label: "r".into(),
        enabled: true,
        channels: TextSet::new(),
        authors: TextSet::new(),
        includes: vec![],
        exclude: vec![],
        keyword_profile_ids: vec![],
        section_profile_ids: vec![],
        channel_profile_ids: vec![],
        author_profile_ids: vec![],
        search_profile_ids: vec![],
        thread_participation_only: false,
        quiet_hours,
        action,
    };
    settings.notification_rules = vec![
        rule(NotificationAction::Silent, None),
        rule(NotificationAction::Critical, Some(QuietHours { start_hour: 0, end_hour: 6 })),
    ];

    let post = item("1", "C1", "x");
    assert_eq!(
        notification_action_for_item(&settings, &post, 12),
        Some(NotificationAction::Critical)
    );
    assert_eq!(
        notification_action_for_item(&settings, &post, 3),
        Some(NotificationAction::Silent)
    );
}

#[test]
fn notifications_carry_their_message() {
    let request = notify_about_item(&item("1", "C1", "hello"), NotificationAction::Notify, true);

    assert!(request.body.contains("hello"));
    assert_eq!(request.icon.as_deref(), Some("/a.png"));
    assert_eq!(request.default_action_target.as_deref(), Some("1"));
    assert_eq!(
        notify_about_item(&item("1", "C1", "hello"), NotificationAction::Notify, false).icon,
        None
    );
}

#[test]
fn channels_are_watched_once_they_are_known() {
    let mut settings = AppSettings::default();

    assert_eq!(seed_watched_channels(&mut settings, &vec![item("1", "C1", ""), item("2", "C1", "")]), 1);
    assert!(settings.timeline.watched_channels.contains("C1"));
    assert_eq!(seed_watched_channels(&mut settings, &vec![item("3", "C2", "")]), 0);
}

#[test]
fn ages_are_told_in_short() {
    let age = |seconds: i64| relative_timestamp_text(noon(), noon().plus_seconds(seconds));

    assert_eq!(age(44).as_deref(), Some("now"));
    assert_eq!(age(45).as_deref(), Some("0m"));
    assert_eq!(age(3_599).as_deref(), Some("59m"));
    assert_eq!(age(3_600).as_deref(), Some("1h"));
    assert_eq!(age(86_400).as_deref(), Some("1d"));
    assert_eq!(age(604_800), None);
    assert_eq!(age(-5).as_deref(), Some("now"));
}

#[test]
fn initials_stand_for_pictures() {
    assert_eq!(avatar_initials("ada lovelace byron"), "AL");
    assert_eq!(avatar_initials("release-pm"), "RP");
    assert_eq!(avatar_initials("straße"), "S");
    assert_eq!(avatar_initials("--"), "--");
    assert_eq!(avatar_initials(""), "?");
}

#[test]
fn pictures_keep_their_shape_within_limits() {
    assert_eq!(picture_height(200, 100, 50, 420), 100);
    assert_eq!(picture_height(200, 100, 1, 420), 96);
    assert_eq!(picture_height(200, 1, 100, 420), 420);
    assert_eq!(picture_height(200, 0, 100, 420), 420);
}

#[test]
fn shortcuts_act_in_order() {
    assert_eq!(
        handle_window_shortcuts(true, true, false, false, false, 0),
        WindowAction::OpenSettings
    );
    assert_eq!(
        handle_window_shortcuts(false, false, false, false, true, 1),
        WindowAction::CloseColumn
    );
    assert_eq!(handle_window_shortcuts(false, false, false, false, true, 0), WindowAction::Pass);
}

#[test]
fn previews_are_cut() {
    let long = "x".repeat(200);
    let text = shared_message_preview_text(&item("1", "C1", &long));
    assert_eq!(text.chars().count(), 181);
    assert!(text.ends_with('…'));
    assert_eq!(shared_message_preview_text(&item("1", "C1", "")), "Shared Slack message");
    assert_eq!(office_message_preview(&item("1", "C1", "")), "is quiet right now");
    assert_eq!(office_message_preview(&item("1", "C1", " a \n b ")), "a b");
}

#[test]
fn offices_show_how_busy_channels_are() {
    assert_eq!(office_activity_tier_class(8), "office-desk-hot");
    assert_eq!(office_activity_tier_class(4), "office-desk-warm");
    assert!(office_tile_shade(3, 5) < 17);

    let mut settings = AppSettings::default();
    let mut channels = TextSet::new();
    channels.insert("C1".into());
    settings.channel_profiles = vec![ChannelProfile {
        id: "times_channels".into(),
        label: "Times".into(),
        mode: ProfileMode::Allow,
        channels,
        channel_name_matchers: vec![],
    }];
    let state = UiState::new(
        settings,
        vec![item("1", "C1", "hello"), item("2", "C2", "elsewhere")],
        TextMap::new(),
        TextMap::new(),
        TextMap::new(),
        TextMap::new(),
        noon(),
    );
    let desks = state.office_presence_items(noon());
    assert_eq!(desks.len(), 1);
    assert_eq!(desks[0].latest_body, "hello");
    assert_eq!(state.office_summary(noon()), "Office source: Times. 1 desks are currently active.");
}

#[test]
fn columns_open_once() {
    let mut deck = DeckState::default();
    deck.open_settings();
    deck.open_thread("1".into());
    deck.open_settings();

    assert_eq!(deck.columns.iter().filter(|column| **column == DeckColumn::Settings).count(), 1);
    assert!(deck.has_settings() && !deck.has_admin());
    assert!(deck.close_last());
    deck.close(7);
    assert!(deck.columns.len() <= 2);
}

#[test]
fn files_are_known_by_their_kind() {
    let picture = file("photo.PNG", Some("image/png"));
    assert!(slack_file_is_image(&picture));
    assert_eq!(image_extension_from_file(&picture, "https://x/y.GIF"), "gif");
    assert_eq!(image_extension_from_file(&picture, "https://x/y"), "png");
    assert!(!slack_file_is_image(&file("notes.txt", Some("text/plain"))));
    assert_eq!(avatar_extension_from_url("https://x/a/b.jpg?s=72"), "jpg");
    assert_eq!(avatar_extension_from_url("not a url"), "img");

    let shown = attachment_summary(&picture, &Some("/cache/f.png".into()));
    assert_eq!(shown.kind, AttachmentKind::Image);
    assert_eq!(shown.url.as_deref(), Some("/cache/f.png"));
}

#[test]
fn cached_pictures_are_checked() {
    let png = vec![0x89, b'P', b'N', b'G', 0x0d, 0x0a, 0x1a, 0x0a];
    assert!(looks_like_image_bytes(&png));
    assert!(!looks_like_image_bytes(&b"<html>".to_vec()));
    assert_eq!(cached_image_step(Some(&png), true), CachedImage::Use);
    assert_eq!(cached_image_step(Some(&b"<html>".to_vec()), true), CachedImage::Replace);
    assert_eq!(cached_image_step(None, false), CachedImage::Download);
}

#[test]
fn downloads_follow_redirects() {
    assert_eq!(follow_download("https://a/b", 200, None), DownloadStep::Take);
    assert_eq!(
        follow_download("https://a/b", 302, Some("/c")),
        DownloadStep::Follow("https://a/c".into())
    );
    assert_eq!(follow_download("https://a/b", 302, None), DownloadStep::Fail);
    assert_eq!(follow_download("https://a/b", 404, None), DownloadStep::Fail);
    assert_eq!(next_download("https://a/b", 4, 200, None), DownloadStep::Take);
    assert_eq!(
        next_download("https://a/b", 3, 302, Some("/c")),
        DownloadStep::Follow("https://a/c".into())
    );
    assert_eq!(next_download("https://a/b", 4, 302, Some("/c")), DownloadStep::Fail);
}

#[test]
fn users_are_called_by_their_display_name() {
    let profile = SlackUserProfile {
        display_name: Some(" ".into()),
        display_name_normalized: None,
        real_name: Some("Ada Lovelace".into()),
        real_name_normalized: None,
        image_48: None,
        image_72: None,
        image_192: None,
    };
    let user = SlackUser {
        id: "U1".into(),
        name: Some("ada".into()),
        deleted: None,
        is_bot: None,
        profile: Some(profile),
    };

    assert_eq!(slack_user_display_name(&user).as_deref(), Some("Ada Lovelace"));
}

#[test]
fn matchers_are_read_from_rows() {
    let rows = vec![(false, " ship ".to_string()), (true, "^a".to_string()), (false, " ".into())];
    assert_eq!(
        read_matchers(&rows).unwrap(),
        vec![PatternMatcher::Text("ship".into()), PatternMatcher::Regex("^a".into())]
    );
    assert!(read_matchers(&vec![(true, "(".to_string())]).is_err());
}

#[test]
fn profiles_are_previewed_and_saved() {
    let mut state = state(vec![item("1", "C1", "ship it"), item("2", "C2", "later")]);
    let matchers = Ok(vec![PatternMatcher::Text("ship".into())]);

    state.save_keyword_profile("shipping", "Shipping", ProfileMode::Allow, matchers).unwrap();
    let profile: KeywordProfile = state.settings.keyword_profiles[0].clone();
    assert_eq!(profile.label, "Shipping");
    assert_eq!(
        keyword_profile_preview_summary(&state, Some(&profile)),
        "Allow profile hits 1 cached messages across 1 threads in 1 channels."
    );
    assert_eq!(format_match_summary(2, 1, 1), "2 cached messages across 1 threads in 1 channels.");
    assert_eq!(capped_count_label(101, 100), "100+");

    let mut referring = form("Ship");
    referring.keyword_profile_ids = vec!["shipping".into()];
    state.save_notification_rule(referring, RuleId { bits: 4 }).unwrap();
    state.delete_keyword_profile(Some("shipping")).unwrap();
    assert!(state.settings.keyword_profiles.is_empty());
    assert!(state.settings.notification_rules[0].keyword_profile_ids.is_empty());

    assert!(state.save_keyword_profile(" ", "", ProfileMode::Allow, Ok(vec![])).is_err());
    assert!(state.delete_keyword_profile(None).is_err());
}

#[test]
fn overrides_decide_over_the_default() {
    let mut state = state(vec![item("1", "C1", "x")]);
    state.save_default_permission(ChannelPermission::ReadOnly);
    state.save_channel_override(Some("C1"), ChannelPermission::Hidden).unwrap();

    assert_eq!(state.settings.channel_permission("C1"), ChannelPermission::Hidden);
    assert_eq!(state.settings.channel_permission("C2"), ChannelPermission::ReadOnly);
    assert!(override_summary(&state).contains("C1"));
    state.clear_channel_override(Some("C1")).unwrap();
    assert_eq!(state.settings.channel_permission("C1"), ChannelPermission::ReadOnly);
    assert!(state.save_channel_override(None, ChannelPermission::Hidden).is_err());
}

#[test]
fn dotenv_lines_set_what_is_unset() {
    assert_eq!(
        parse_dotenv_line(" A = 'b c' "),
        Some(("A".to_string(), "b c".to_string()))
    );
    assert_eq!(parse_dotenv_line("# comment"), None);
    assert_eq!(
        load_development_dotenv("A=1\nB=2\nA=3\n", &vec!["B".to_string()]),
        vec![("A".to_string(), "1".to_string())]
    );
}

#[test]
fn settings_reach_the_environment_unless_it_is_set() {
    let mut settings = AppSettings::default();
    settings.slack.client_id = Some("id".into());
    let changes = sync_settings_env(&settings, &TextSet::new());

    assert!(changes.iter().any(|(_, value)| value.as_deref() == Some("id")));
    assert_eq!(resolved_slack_config_value(Some("env"), &Some("stored".into())), "env");
    assert_eq!(resolved_slack_config_value(None, &Some("stored".into())), "stored");
    assert!(configure_startup_environment(false, false, true, true).is_empty());
}

#[test]
fn pickers_show_what_is_selected() {
    let ids = vec!["a".to_string(), "b".to_string()];
    assert_eq!(picked_entry(&ids, &Some("b".into())), Some(1));
    assert_eq!(picked_entry(&ids, &Some("c".into())), None);
    assert_eq!(picked_entry(&ids, &None), None);
    assert_eq!(
        selected_post_channel(Some(""), &vec![("C1".to_string(), "#c".to_string())]).as_deref(),
        Some("C1")
    );
    assert_eq!(column_alignment(&vec![SlackTableAlignment::Right], 1), SlackTableAlignment::Left);
    assert_eq!(main_view_title(MainView::Office), "Office");
    assert!(!can_send(&SlackAuthStatus::Error("x".into()), &Some("C1".into())));
}

#[test]
fn profiles_are_listed_by_label() {
    let profile = |id: &str, label: &str| KeywordProfile {
        id: id.into(),
        label: label.into(),
        mode: ProfileMode::Allow,
        matchers: vec![],
    };
    let listed = listed_profiles(vec![
        profile("b", "Zoo"),
        profile("z", "Ape"),
        profile("b", "Ape"),
        profile("a", "Zoo"),
    ]);

    let shown: Vec<(&str, &str)> =
        listed.iter().map(|entry| (entry.label.as_str(), entry.id.as_str())).collect();
    assert_eq!(shown, vec![("Ape", "b"), ("Ape", "z"), ("Zoo", "a"), ("Zoo", "b")]);
}
