use slaxide::auth::{SlackOAuthEnvironment, CLIENT_ID_ENV};
use slaxide::blocks::parse_fallback_slack_blocks;
use slaxide::collections::{TextMap, TextSet};
use slaxide::deck::DeckState;
use slaxide::emoji::render_slack_text;
use slaxide::forms::RuleForm;
use slaxide::inline::parse_fallback_inline_segments;
use slaxide::models::{ReactionSummary, ReplyState, TimelineItem};
use slaxide::patterns::PatternMatcher;
use slaxide::previews::keyword_profile_preview_summary;
use slaxide::ranking::TimelineRanker;
use slaxide::reactions::{add_reaction, remove_reaction};
use slaxide::rule_ids::rule_id_label;
use slaxide::sample::sample_settings;
use slaxide::segments::{
    append_segments, escape_markup, plain_text, push_text_segment, SlackRenderBlock, SlackTextStyle,
};
use slaxide::settings::{
    AppSettings, AppSettingsPatch, ChannelPermission, ChannelProfile, NotificationAction,
    ProfileMode, QuietHours, RuleId,
};
use slaxide::slack::SlackConversation;
use slaxide::startup::{load_development_dotenv, sync_settings_env};
use slaxide::state::UiState;
use slaxide::sync::{plan_initial_sync, LiveSync};
use slaxide::theme::{builtin_themes, ThemeId};
use slaxide::time::Timestamp;

/// 2026-03-15 12:00:00 UTC.
fn noon() -> Timestamp {
    Timestamp { seconds: 1_773_576_000, nanos: 0 }
}

fn item(channel_id: &str, ts: &str) -> TimelineItem {
    TimelineItem {
        workspace_id: "T1".into(),
        channel_id: channel_id.into(),
        channel_name: "#general".into(),
        message_ts: ts.into(),
        thread_ts: ts.into(),
        author_id: "U2".into(),
        author_name: "Bo Li".into(),
        author_avatar_path: None,
        body: "ready to ship".into(),
        rich_text_blocks: vec![],
        reactions: vec![],
        attachments: vec![],
        unread: true,
        participant: false,
        direct_mention: false,
        focus_keyword_hits: vec![],
        watch_weight: 1,
        last_activity_at: noon(),
        reply_state: ReplyState::Idle,
    }
}

fn state(settings: AppSettings, items: Vec<TimelineItem>) -> UiState {
    UiState::new(
        settings,
        items,
        TextMap::new(),
        TextMap::new(),
        TextMap::new(),
        TextMap::new(),
        noon(),
    )
}

fn plain() -> SlackTextStyle {
    SlackTextStyle {
        bold: false,
        italic: false,
        underline: false,
        strike: false,
        code: false,
        link: None,
    }
}

fn bold() -> SlackTextStyle {
    SlackTextStyle { bold: true, ..plain() }
}

#[test]
fn blank_lines_have_no_blocks() {
    assert!(parse_fallback_slack_blocks("\n  \n\n").is_empty());
}

#[test]
fn tables_are_rectangular() {
    let blocks = parse_fallback_slack_blocks("| a | b |\n|---|---|\n| 1 |\n| 1 | 2 | 3 |");
    let tables = blocks.iter().filter_map(|block| match block {
        SlackRenderBlock::Table { headers, rows, alignments } => Some((headers, rows, alignments)),
        _ => None,
    });
    for (headers, rows, alignments) in tables {
        assert_eq!(alignments.len(), headers.len());
        assert!(rows.iter().all(|row| row.len() == headers.len()));
    }
}

#[test]
fn text_without_colons_is_unchanged() {
    assert_eq!(render_slack_text("see you at noon"), "see you at noon");
}

#[test]
fn inline_segments_are_tidy() {
    let segments = parse_fallback_inline_segments("so *very* ~much~ `code`", &plain());
    assert!(segments.iter().all(|segment| !segment.text.is_empty()));
    assert!(segments.windows(2).all(|pair| pair[0].style != pair[1].style));
    assert_eq!(plain_text(&segments), "so very much code");
}

#[test]
fn text_without_marks_is_one_segment() {
    let segments = parse_fallback_inline_segments("nothing to see", &bold());
    assert_eq!(segments.len(), 1);
    assert_eq!(segments[0].text, "nothing to see");
    assert_eq!(segments[0].style, bold());
}

#[test]
fn segments_of_one_style_are_joined() {
    let mut segments = vec![];
    push_text_segment(&mut segments, "a", &plain());
    push_text_segment(&mut segments, "b", &plain());
    push_text_segment(&mut segments, "", &bold());
    assert_eq!(segments.len(), 1);
    let mut more = vec![];
    push_text_segment(&mut more, "c", &plain());
    push_text_segment(&mut more, "d", &bold());
    append_segments(&mut segments, &more);
    assert_eq!(segments.len(), 2);
    assert_eq!(plain_text(&segments), "abcd");
}

#[test]
fn escaped_text_holds_no_markup() {
    let escaped = escape_markup("<b>\"tom\" & 'jerry'</b>");
    assert_eq!(escaped, "&lt;b&gt;&quot;tom&quot; &amp; &apos;jerry&apos;&lt;/b&gt;");
}

#[test]
fn hidden_channels_never_show() {
    let mut settings = AppSettings::default();
    settings.channel_permissions.insert("C1".into(), ChannelPermission::Hidden);
    settings.channel_permissions.insert("C2".into(), ChannelPermission::ReadOnly);
    let state = state(settings, vec![item("C1", "1.0"), item("C2", "2.0"), item("C3", "3.0")]);

    let shown = state.visible_items().iter().map(|ranked| ranked.item.channel_id.as_str());
    assert!(shown.clone().all(|id| id != "C1"));
    assert_eq!(shown.count(), 2);
    let offered = state.available_post_channels();
    assert!(offered.iter().all(|(id, _)| id == "C3"));
}

#[test]
fn filtering_again_changes_nothing() {
    let mut state = state(AppSettings::default(), vec![item("C1", "1.0"), item("C2", "2.0")]);
    state.set_search_query("ship".into());
    let before = state.filtered_ranked_items.clone();
    let selected = state.selected_message_ts.clone();
    state.apply_filters(false);
    assert_eq!(state.filtered_ranked_items, before);
    assert_eq!(state.selected_message_ts, selected);
    assert!(before.iter().any(|ranked| Some(&ranked.item.message_ts) == selected.as_ref()));
}

#[test]
fn paging_goes_forward_to_the_end() {
    let items = (0..130).map(|index| item("C1", &format!("{index}.0"))).collect();
    let mut state = state(AppSettings::default(), items);
    let mut loaded = state.loaded_visible_items().len();
    assert_eq!(loaded, 60);
    while state.load_more_timeline_items() {
        assert!(state.loaded_visible_items().len() > loaded);
        loaded = state.loaded_visible_items().len();
    }
    assert_eq!(loaded, 130);
}

#[test]
fn deleted_profiles_are_not_referred_to() {
    let settings = sample_settings(RuleId { bits: 1 }, RuleId { bits: 2 });
    let mut state = state(settings, vec![]);
    assert!(state.save_keyword_profile("ship", "Ship", ProfileMode::Allow, Ok(vec![])).is_ok());
    let kept = state.save_search_profile(
        "focus",
        "Focus",
        "",
        vec!["ship".into()],
        vec![],
        vec![],
        vec![],
    );
    assert_eq!(kept, Ok("Saved search profile."));
    assert_eq!(state.delete_keyword_profile(Some("ship")), Ok("Deleted keyword profile."));
    let settings = &state.settings;
    assert!(settings.search_profile("focus").is_some());
    assert!(settings.search_profiles.iter().all(|profile| profile.keyword_profiles.is_empty()));
}

#[test]
fn unchanged_forms_keep_rules() {
    let settings = sample_settings(RuleId { bits: 1 }, RuleId { bits: 2 });
    let mut rule = settings.notification_rules[0].clone();
    rule.channels = TextSet::new();
    rule.authors = TextSet::new();
    rule.includes = vec![];
    rule.exclude = vec![];
    rule.keyword_profile_ids = vec![];
    rule.search_profile_ids = vec![];
    rule.quiet_hours = Some(QuietHours { start_hour: 22, end_hour: 7 });
    let mut state = state(settings, vec![]);
    let saved = state.save_notification_rule(RuleForm::of(Some(&rule)), rule.id);
    assert_eq!(saved, Ok("Saved notification rule."));
    assert_eq!(state.settings.notification_rules[0], rule);
}

#[test]
fn new_rules_start_enabled() {
    let form = RuleForm::of(None);
    assert!(form.enabled && !form.quiet_hours_enabled && form.label.is_empty());
    assert_eq!(form.action, NotificationAction::Notify);
    assert_eq!(rule_id_label(None), "Rule ID: new");
}

#[test]
fn previews_count_readable_messages() {
    let mut settings = AppSettings::default();
    settings.channel_permissions.insert("C1".into(), ChannelPermission::Hidden);
    let mut state = state(settings, vec![item("C1", "1.0"), item("C2", "2.0")]);
    let matchers = vec![slaxide::patterns::PatternMatcher::Text("ship".into())];
    assert!(state.save_keyword_profile("ship", "Ship", ProfileMode::Allow, Ok(matchers)).is_ok());
    let profile = &state.settings.keyword_profiles[0];
    let summary = keyword_profile_preview_summary(&state, Some(profile));
    assert!(summary.contains('1'), "{summary}");
    assert!(!summary.contains('2'), "{summary}");
}

#[test]
fn more_points_make_a_higher_score_at_one_time() {
    let ranker = TimelineRanker::new(noon());
    let policy = AppSettings::default().timeline;
    let mut heavy = item("C1", "1.0");
    heavy.watch_weight = 9;
    let low = ranker.score_item(&policy, item("C1", "1.0")).unwrap().score;
    let high = ranker.score_item(&policy, heavy).unwrap().score;
    assert!(high.is_above(low));
    assert!(!low.is_above(high));
    assert!(!low.is_above(low));
}

#[test]
fn what_is_ranked_is_what_is_visible() {
    let ranker = TimelineRanker::new(noon());
    let policy = AppSettings::default().timeline;
    let ranked = ranker.rank(&policy, vec![item("C1", "1.0"), item("C2", "2.0")]);
    assert!(ranked.windows(2).all(|pair| !pair[1].score.is_above(pair[0].score)));
}

#[test]
fn unknown_reactions_cannot_be_removed() {
    let tada = ReactionSummary { name: "tada".into(), emoji: "🎉".into(), count: 2, me: true };
    let given = vec![tada];
    assert_eq!(remove_reaction(&given, "eyes", true), given);
}

#[test]
fn taking_back_a_new_reaction_removes_it() {
    let tada = ReactionSummary { name: "tada".into(), emoji: "🎉".into(), count: 2, me: false };
    let given = vec![tada];
    let more = add_reaction(&given, "eyes", true);
    assert_eq!(more.len(), 2);
    assert_eq!(remove_reaction(&more, "eyes", true), given);
}

#[test]
fn a_patch_twice_is_a_patch_once() {
    let patch = || AppSettingsPatch {
        theme_id: Some(ThemeId::Nord),
        active_workspace_key: Some("T1".into()),
        ..AppSettingsPatch::default()
    };
    let mut once = AppSettings::default();
    once.apply_patch(patch());
    let mut twice = once.clone();
    twice.apply_patch(patch());
    assert_eq!(once, twice);
    assert_eq!(once.theme_id, ThemeId::Nord);
}

#[test]
fn dotenv_sets_the_first_of_two_values() {
    let raw = "A=1\nA=2\nB=3\nC=4\n";
    let set = load_development_dotenv(raw, &vec!["B".into()]);
    assert_eq!(set, vec![("A".to_string(), "1".to_string()), ("C".to_string(), "4".to_string())]);
}

#[test]
fn earlier_runs_are_not_current() {
    let mut live = LiveSync::new();
    let first = live.start(true, true).unwrap();
    assert!(live.is_current(first));
    live.stop();
    assert!(!live.is_current(first));
    let second = live.start(true, true).unwrap();
    assert!(live.is_current(second));
    assert!(!live.is_current(first));
}

#[test]
fn slugs_name_one_theme() {
    for (theme, palette) in builtin_themes() {
        assert_eq!(ThemeId::from_slug(theme.slug()), Some(theme));
        assert_eq!(palette.label, theme.label());
    }
    assert_eq!(ThemeId::from_slug("none"), None);
}

#[test]
fn opening_a_thread_again_keeps_one_column_of_it() {
    let mut deck = DeckState::default();
    deck.ensure_thread_open("1.0".into());
    deck.ensure_thread_open("1.0".into());
    assert_eq!(deck.columns.len(), 1);
    assert!(deck.close_last());
    assert!(!deck.close_last());
}

#[test]
fn the_office_shows_the_picked_profile_or_the_times_channels() {
    let mut settings = AppSettings::default();
    let profile = |id: &str| ChannelProfile {
        id: id.into(),
        label: id.into(),
        mode: ProfileMode::Allow,
        channels: TextSet::new(),
        channel_name_matchers: vec![],
    };
    settings.channel_profiles = vec![profile("ops"), profile("times_channels")];
    let mut state = state(settings, vec![]);
    assert_eq!(state.office_channel_profile_id(), Some("times_channels"));
    assert!(state.set_office_source(Some("ops")));
    assert_eq!(state.office_channel_profile_id(), Some("ops"));
    assert!(state.set_office_source(Some("gone")));
    assert_eq!(state.office_channel_profile_id(), Some("times_channels"));
}

#[test]
fn scopes_are_lent_in_order() {
    let environment =
        SlackOAuthEnvironment::from_env(Some("id"), Some("secret"), None, None).unwrap();
    let lent = environment.user_scope_refs();
    assert_eq!(lent.len(), environment.user_scopes().len());
    assert!(lent.iter().zip(environment.user_scopes()).all(|(lent, scope)| *lent == scope));
}

fn times_profile(matchers: Vec<PatternMatcher>) -> ChannelProfile {
    ChannelProfile {
        id: "times_channels".into(),
        label: "Times".into(),
        mode: ProfileMode::Allow,
        channels: TextSet::new(),
        channel_name_matchers: matchers,
    }
}

#[test]
fn valid_rules_answer_on_every_item() {
    let settings = sample_settings(RuleId { bits: 1 }, RuleId { bits: 2 });
    let mut rule = settings.notification_rules[0].clone();
    rule.includes = vec![PatternMatcher::Regex("ship$".into())];
    rule.exclude = vec![PatternMatcher::Regex("(".into())];
    assert!(rule.validate().is_err());
    assert!(rule.matches(&item("C1", "1")).is_err());
    rule.exclude = vec![PatternMatcher::Regex("^not".into())];
    rule.channels = TextSet::new();
    rule.authors = TextSet::new();
    rule.thread_participation_only = false;
    assert_eq!(rule.validate(), Ok(()));
    assert_eq!(rule.matches(&item("C1", "1")), Ok(true));
}

#[test]
fn all_channels_with_priority_are_loaded() {
    let mut settings = AppSettings::default();
    settings.channel_profiles = vec![times_profile(vec![PatternMatcher::Text("times".into())])];
    let conversation = |id: String, name: &str| SlackConversation {
        id,
        name: Some(name.into()),
        name_normalized: Some(name.into()),
        creator: None,
        is_member: Some(true),
        is_private: Some(false),
        is_archived: Some(false),
    };
    let mut listed = vec![];
    for n in 0..30 {
        listed.push(conversation(format!("C-a{n:02}"), "general"));
    }
    for n in 0..40 {
        listed.push(conversation(format!("C-b{n:02}"), "times_of_someone"));
    }
    let plan = plan_initial_sync(listed, &settings);
    assert_eq!(plan.channels.len(), 40);
    assert!(plan.channels.iter().all(|channel| channel.id.starts_with("C-b")));
}

#[test]
fn each_channel_of_the_office_has_one_desk() {
    let mut settings = AppSettings::default();
    settings.channel_profiles = vec![times_profile(vec![PatternMatcher::Text("general".into())])];
    let mut latest = item("C1", "3");
    latest.body = "the latest".into();
    let state = state(settings, vec![item("C2", "1"), latest, item("C1", "2")]);
    let desks = state.office_presence_items(noon());
    assert_eq!(desks.len(), 2);
    assert_eq!((desks[0].activity_count, desks[0].latest_body.as_str()), (2, "the latest"));
    assert_eq!((desks[1].activity_count, desks[1].thread_ts.as_str()), (1, "1"));
}

#[test]
fn variables_set_from_outside_stay() {
    let mut settings = AppSettings::default();
    settings.slack.client_id = Some("saved".into());
    settings.slack.app_token = None;
    let mut locked = TextSet::new();
    locked.insert(CLIENT_ID_ENV.into());
    let changes = sync_settings_env(&settings, &locked);
    assert_eq!(changes.len(), 4);
    assert!(changes.iter().all(|(key, _)| key != CLIENT_ID_ENV));
}
