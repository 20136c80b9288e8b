use slaxide::actions::{
    archived_channel_update, start_add_reaction, start_channel_post, start_delete_message,
    start_edit_message, start_thread_reply,
};
use slaxide::auth::{SlackAuthStatus, StoredSlackSession};
use slaxide::collections::TextMap;
use slaxide::deck::{DeckColumn, DeckState};
use slaxide::events::{InitialHistoryLoad, ReactionUpdate, Work};
use slaxide::json::Json;
use slaxide::live::{live_transition, LiveNews, LivePhase};
use slaxide::loading::{BackgroundRefresh, HistoryContext, HistoryLoading, UserDirectoryLoad};
use slaxide::models::{ReplyState, TimelineItem};
use slaxide::patterns::PatternMatcher;
use slaxide::sample::sample_settings;
use slaxide::settings::{AppSettings, ChannelPermission, NotificationAction, RuleId};
use slaxide::slack::{
    EventCallbackEnvelope, SlackConversation, SlackHistoryMessage, SlackMessageDeletedEvent,
    SlackMessageEvent, SlackReactionEvent, SlackReactionItem, SlackSocketEvent,
    SlackUserTypingEvent, SocketConnectionInfo, SocketModeEnvelope,
};
use slaxide::startup::{AppPaths, DirBase, Startup};
use slaxide::state::UiState;
use slaxide::sync::{plan_initial_sync, LiveSync};
use slaxide::tiles::{can_reply, message_card, thread_cards};
use slaxide::time::Timestamp;

/// 2026-03-15 12:00:00 UTC.
fn noon() -> Timestamp {
    Timestamp { seconds: 1_773_576_000, nanos: 0 }
}

fn item(ts: &str, thread_ts: &str) -> TimelineItem {
    TimelineItem {
        workspace_id: "T1".into(),
        channel_id: "C1".into(),
        channel_name: "#general".into(),
        message_ts: ts.into(),
        thread_ts: thread_ts.into(),
        author_id: "U2".into(),
        author_name: "Bo Li".into(),
        author_avatar_path: None,
        body: "hello :tada:".into(),
        rich_text_blocks: vec![],
        reactions: vec![],
        attachments: vec![],
        unread: true,
        participant: false,
        direct_mention: false,
        focus_keyword_hits: vec![],
        watch_weight: 1,
        last_activity_at: noon(),
        reply_state: ReplyState::Idle,
    }
}

fn state(items: Vec<TimelineItem>) -> UiState {
    UiState::new(
        AppSettings::default(),
        items,
        TextMap::new(),
        TextMap::new(),
        TextMap::new(),
        TextMap::new(),
        noon(),
    )
}

fn session() -> StoredSlackSession {
    StoredSlackSession {
        installed_at: noon(),
        updated_at: noon(),
        app_id: Some("A1".into()),
        team_id: Some("T1".into()),
        team_name: Some("Acme".into()),
        bot_user_id: Some("B1".into()),
        bot_access_token: None,
        bot_refresh_token: None,
        bot_expires_at: None,
        user_id: Some("U1".into()),
        user_access_token: Some("xoxp".into()),
        user_refresh_token: None,
        user_expires_at: None,
    }
}

fn conversation(id: &str, name: &str) -> SlackConversation {
    SlackConversation {
        id: id.into(),
        name: Some(name.into()),
        name_normalized: Some(name.into()),
        creator: None,
        is_member: Some(true),
        is_private: Some(false),
        is_archived: Some(false),
    }
}

fn history_message(ts: &str, text: &str) -> SlackHistoryMessage {
    SlackHistoryMessage {
        kind: Some("message".into()),
        subtype: None,
        user: Some("U2".into()),
        bot_id: None,
        text: Some(text.into()),
        blocks: vec![],
        ts: ts.into(),
        thread_ts: None,
        latest_reply: None,
        reply_count: None,
        files: vec![],
        reactions: vec![],
    }
}

fn message_event(ts: &str, user: &str) -> SlackMessageEvent {
    SlackMessageEvent {
        channel: "C1".into(),
        user: Some(user.into()),
        text: Some("news".into()),
        blocks: vec![],
        ts: ts.into(),
        thread_ts: None,
        subtype: None,
        files: vec![],
        reactions: vec![],
    }
}

fn envelope(kind: &str, payload: Option<EventCallbackEnvelope>) -> SocketModeEnvelope {
    SocketModeEnvelope {
        envelope_id: Some("E1".into()),
        kind: kind.into(),
        connection_info: Some(SocketConnectionInfo { app_id: Some("A2".into()) }),
        payload,
    }
}

#[test]
fn a_login_makes_its_workspace_active() {
    let mut state = state(vec![]);

    let after = state.login_completed("T1", &session(), vec![item("1", "1")], noon());

    assert!(after.stores_settings && after.refreshes);
    assert!(state.is_active_workspace("T1"));
    assert_eq!(state.settings.workspaces[0].label, "Acme");
    assert_eq!(state.visible_items().len(), 1);
}

#[test]
fn a_failed_login_is_told_of_its_workspace() {
    let mut state = state(vec![]);
    state.set_active_workspace("T1".into());

    let (status, after) = state.login_failed("T1", "denied".into());
    assert!(matches!(status, Some(SlackAuthStatus::Error(error)) if error == "denied"));
    assert!(after.refreshes);

    let (status, after) = state.login_failed("T2", "denied".into());
    assert!(status.is_none());
    assert_eq!(after.status.as_deref(), Some("Slack room connect failed."));
}

#[test]
fn a_loaded_history_is_shown_and_seeds_the_settings() {
    let mut state = state(vec![]);
    let key = state.active_workspace_key();
    let load = InitialHistoryLoad {
        items: vec![item("1", "1"), item("2", "2")],
        channel_count: 1,
        user_names: TextMap::new(),
        user_avatar_paths: TextMap::new(),
        known_channels: TextMap::new(),
        known_channel_creators: TextMap::new(),
        missing_user_names_scope: true,
    };

    let after = state.history_loaded(&key, load, RuleId { bits: 3 }, noon());

    assert!(after.stores_settings && after.stores_items && after.refreshes);
    assert_eq!(
        after.status.as_deref(),
        Some(
            "Loaded 2 Slack threads from 1 channels. Default notification rules are now enabled. \
             Reconnect Slack once to grant users:read for display names."
        )
    );
    assert!(state.settings.timeline.watched_channels.contains("C1"));
    assert_eq!(state.source_items.len(), 2);
}

#[test]
fn work_for_another_workspace_changes_nothing_here() {
    let mut state = state(vec![item("1", "1")]);

    let after = state.message_edited("T9", "1", "changed", noon());

    assert_eq!(after.status, None);
    assert!(!after.refreshes && !after.stores_items);
    assert_eq!(state.source_items[0].body, "hello :tada:");
    assert_eq!(state.work_failed("T9", Work::Edit, "no").status, None);
}

#[test]
fn finished_work_is_told() {
    let mut state = state(vec![item("1", "1")]);
    let key = state.active_workspace_key();

    let posted = state.channel_post_sent(&key, item("2", "2"), noon());
    assert_eq!(posted.status.as_deref(), Some("Message sent to Slack."));
    assert!(posted.clears_composer && posted.stores_items);
    assert_eq!(state.selected_message_ts.as_deref(), Some("2"));

    let replied = state.reply_sent(&key, item("3", "1"), noon());
    assert_eq!(replied.status.as_deref(), Some("Reply sent to Slack."));

    let update = ReactionUpdate {
        message_ts: "1".into(),
        reaction_name: "tada".into(),
        reactor_user_id: Some("U1".into()),
    };
    let reacted = state.reaction_sent(&key, &update, &Some("U1".into()), noon());
    assert_eq!(reacted.status.as_deref(), Some("Reaction sent to Slack."));
    assert!(state.source_items[0].reactions[0].me);

    let edited = state.message_edited(&key, "1", "changed", noon());
    assert_eq!(edited.status.as_deref(), Some("Slack message updated."));
    let deleted = state.message_deleted(&key, "2", noon());
    assert_eq!(deleted.status.as_deref(), Some("Slack message deleted."));
    assert!(!state.message_deleted(&key, "2", noon()).stores_items);

    let archived = state.admin_action_finished(&key, archived_channel_update("C1"), noon());
    assert!(archived.status.is_some());
    assert!(state.source_items.is_empty());
}

#[test]
fn failed_work_is_told() {
    let state = state(vec![]);
    let key = state.active_workspace_key();
    let said = |work: Work| state.work_failed(&key, work, "oops").status.unwrap();

    assert_eq!(said(Work::History), "Slack history ingest failed: oops");
    assert_eq!(said(Work::Post), "Slack post failed: oops");
    assert_eq!(said(Work::Reply), "Slack reply failed: oops");
    assert_eq!(said(Work::Reaction), "Slack reaction failed: oops");
    assert_eq!(said(Work::Edit), "Slack edit failed: oops");
    assert_eq!(said(Work::Delete), "Slack delete failed: oops");
    assert_eq!(said(Work::Admin), "Slack admin action failed: oops");
    assert_eq!(said(Work::ShareLink), "Slack share link failed: oops");
    assert!(!state.work_failed(&key, Work::ShareLink, "oops").refreshes);
}

#[test]
fn live_messages_are_shown_and_notify() {
    let mut state = state(vec![]);

    let after = state.take_live_event(
        &session(),
        vec![],
        SlackSocketEvent::Message(message_event("1773576001.000100", "U2")),
        12,
        noon(),
        0,
    );
    assert!(after.changed);
    assert_eq!(after.animated_thread.as_deref(), Some("1773576001.000100"));
    let (notified, action) = after.notification.unwrap();
    assert_eq!(notified.body, "news");
    assert_eq!(action, NotificationAction::Notify);

    let own = state.take_live_event(
        &session(),
        vec![],
        SlackSocketEvent::Message(message_event("1773576002.000100", "U1")),
        12,
        noon(),
        0,
    );
    assert!(own.changed);
    assert!(own.notification.is_none());

    let again = state.take_live_event(
        &session(),
        vec![],
        SlackSocketEvent::Message(message_event("1773576001.000100", "U2")),
        12,
        noon(),
        0,
    );
    assert!(!again.changed);
    assert_eq!(state.source_items.len(), 2);
}

#[test]
fn live_reactions_and_deletions_reach_their_message() {
    let mut state = state(vec![item("1", "1")]);
    let reaction = |kind: &str| SlackReactionEvent {
        user: Some("U2".into()),
        reaction: "tada".into(),
        item: SlackReactionItem {
            kind: kind.into(),
            channel: Some("C1".into()),
            ts: Some("1".into()),
            file: None,
            file_comment: None,
        },
        item_user: None,
        event_ts: None,
    };

    assert!(!state.take_live_reaction(&session(), &reaction("file"), true, noon()).changed);
    assert!(state.take_live_reaction(&session(), &reaction("message"), true, noon()).changed);
    assert_eq!(state.source_items[0].reactions[0].count, 1);
    assert!(state.take_live_reaction(&session(), &reaction("message"), false, noon()).changed);
    assert!(state.source_items[0].reactions.is_empty());

    let deletion = SlackMessageDeletedEvent {
        channel: "C1".into(),
        deleted_ts: Some("1".into()),
        previous_message: None,
        event_ts: None,
    };
    assert!(state.take_live_delete(&deletion, noon()).changed);
    assert!(state.source_items.is_empty());
}

#[test]
fn typing_shows_for_others_and_expires() {
    let mut state = state(vec![item("1", "1")]);
    let typing = |user: &str| SlackUserTypingEvent {
        channel: "C1".into(),
        user: Some(user.into()),
    };

    assert!(!state.take_live_typing(&session(), &typing("U1"), 1_000).redraws);
    assert!(state.take_live_typing(&session(), &typing("U2"), 1_000).redraws);
    assert!(state.typing_summary_for_channel("C1").unwrap().contains("Bo Li"));
    assert!(!state.cleanup_expired_typing(1_001));
    assert!(state.cleanup_expired_typing(1_000_000));
    assert_eq!(state.typing_summary_for_channel("C1"), None);
}

#[test]
fn followed_notifications_open_their_thread() {
    let mut state = state(vec![item("1", "1"), item("2", "1")]);
    let mut deck = DeckState::default();

    let (said, found) = state.focus_message_from_notification(&mut deck, "2");
    assert!(found);
    assert_eq!(said, "Opened the notified thread.");
    assert_eq!(deck.columns, vec![DeckColumn::Thread { thread_ts: "1".into() }]);
    assert_eq!(state.focused_thread_message_ts.as_deref(), Some("2"));

    let (said, _) = state.focus_message_from_notification(&mut deck, "1");
    assert_eq!(said, "Focused the notified Slack post.");
    let (said, found) = state.focus_message_from_notification(&mut deck, "9");
    assert!(!found);
    assert_eq!(said, "The notified message is no longer in the local cache.");
}

#[test]
fn switching_rooms_starts_afresh() {
    let mut state = state(vec![item("1", "1")]);
    state.set_search_query("nothing like it".into());

    let after = state.switch_active_workspace("T2", Ok(vec![item("5", "5")]), noon()).unwrap();
    assert!(after.stores_settings);
    assert_eq!(state.search_query, "");
    assert_eq!(state.visible_items().len(), 1);
    assert!(state.switch_active_workspace("T2", Ok(vec![]), noon()).is_none());

    let after = state.switch_active_workspace("T3", Err("gone".into()), noon()).unwrap();
    assert_eq!(after.status.as_deref(), Some("Failed to load cached room timeline: gone"));
}

#[test]
fn histories_are_loaded_channel_by_channel() {
    let plan = plan_initial_sync(
        vec![conversation("C1", "general"), conversation("C2", "random")],
        &AppSettings::default(),
    );
    let context = HistoryContext::new(
        &session(),
        &AppSettings::default(),
        TextMap::new(),
        TextMap::new(),
    );
    let mut load = HistoryLoading::new(plan.channels);

    assert_eq!(load.next_channel().unwrap().id, "C1");
    let messages = vec![
        (history_message("1773570000.000100", "older"), vec![]),
        (history_message("1773575000.000100", "newer"), vec![]),
    ];
    load.history_arrived(&context, &messages, noon());
    assert_eq!(load.next_channel().unwrap().id, "C2");
    load.history_failed("ratelimited");
    assert!(load.next_channel().is_none());
    assert_eq!(load.failures, vec!["C2: ratelimited".to_string()]);

    let done = load
        .finish(UserDirectoryLoad::new(), plan.known_channels, plan.known_channel_creators, false)
        .unwrap();
    assert_eq!(done.channel_count, 1);
    assert_eq!(done.items[0].body, "newer");
    assert_eq!(done.items[1].body, "older");
    assert_eq!(done.known_channels.len(), 2);
}

#[test]
fn a_load_in_which_every_channel_fails_has_failed() {
    let mut load = HistoryLoading::new(vec![conversation("C1", "general")]);
    load.history_failed("ratelimited");

    let error = load
        .finish(UserDirectoryLoad::new(), TextMap::new(), TextMap::new(), false)
        .unwrap_err();

    assert_eq!(error, "no channel history could be loaded (C1: ratelimited)");
}

#[test]
fn a_refresh_ends_with_the_first_failure() {
    let context = HistoryContext::new(
        &session(),
        &AppSettings::default(),
        TextMap::new(),
        TextMap::new(),
    );
    let messages = vec![
        (history_message("1773570000.000100", "older"), vec![]),
        (history_message("1773575000.000100", "newer"), vec![]),
    ];
    let channels = vec![("C1".to_string(), "#general".to_string()), ("C2".into(), "#b".into())];
    let mut refresh = BackgroundRefresh::new(&channels);
    assert_eq!(refresh.next_channel().unwrap().name.as_deref(), Some("general"));
    refresh.history_arrived(&context, &messages, noon());
    assert_eq!(refresh.items.len(), 2);
    refresh.history_failed();
    assert!(refresh.next_channel().is_none());
    assert_eq!(refresh.finish(), Err("failed to refresh channel C2".to_string()));
}

#[test]
fn live_sync_goes_from_phase_to_phase() {
    let app = Some("A1".to_string());
    assert_eq!(live_transition(LiveNews::Connected, &app).phase, LivePhase::Receive);
    let failed = live_transition(LiveNews::ConnectFailed("refused".into()), &app);
    assert_eq!(failed.phase, LivePhase::Wait);
    assert_eq!(failed.report.as_deref(), Some("refused"));
    assert_eq!(live_transition(LiveNews::Closed, &app).phase, LivePhase::Wait);
    assert_eq!(live_transition(LiveNews::Waited, &app).phase, LivePhase::Connect);

    let hello = live_transition(LiveNews::Received(envelope("hello", None)), &app);
    assert_eq!(hello.phase, LivePhase::Receive);
    assert_eq!(
        hello.report.as_deref(),
        Some("Socket Mode app mismatch: OAuth app A1, app token connected to A2")
    );

    let payload = EventCallbackEnvelope { kind: "event_callback".into(), event: Json::Bool(true), team_id: None };
    let event = live_transition(LiveNews::Received(envelope("events_api", Some(payload))), &app);
    assert_eq!(event.event, Some(Json::Bool(true)));
    assert_eq!(event.report, None);

    assert_eq!(LivePhase::Receive.checked(false), LivePhase::End);
    assert_eq!(LivePhase::Wait.checked(false), LivePhase::Wait);
}

#[test]
fn live_sync_runs_once_at_a_time() {
    let mut sync = LiveSync::new();

    assert_eq!(sync.start(false, true), None);
    assert_eq!(sync.start(true, false), None);
    assert_eq!(sync.start(true, true), Some(1));
    assert_eq!(sync.start(true, true), None);
    assert!(sync.is_current(1));
    sync.stop();
    assert!(!sync.is_current(1));
    assert_eq!(sync.start(true, true), Some(3));
}

#[test]
fn the_start_tells_what_it_found() {
    let mut own = item("1", "1");
    own.author_id = "U-me".into();
    let mut start = Startup::read(Ok(None), Err("no table".into()));
    assert!(start.timeline_read(Ok(vec![own, item("2", "2")])));
    assert!(start.seed_rules(RuleId { bits: 9 }));

    let (state, status) = start.finish("DB: x", Some("/x"), Some("/c"), noon());

    assert_eq!(state.source_items.len(), 1);
    assert_eq!(
        status,
        "Seeded default notification rules.\nRemoved 1 legacy local replies.\nStore fallback: \
         config.toml read failed: no table\nDB: x"
    );
}

#[test]
fn directories_follow_the_environment() {
    let paths = AppPaths::discover(true, false, false, true).unwrap();

    assert_eq!(paths.config_dir.base, DirBase::Given);
    assert_eq!(paths.config_dir.path, "slaxide");
    assert_eq!(paths.data_dir.base, DirBase::Home);
    assert_eq!(paths.data_dir.path, ".local/share/slaxide");
    assert_eq!(AppPaths::discover(true, true, false, false).unwrap_err(), "HOME is not set");
}

#[test]
fn cards_show_messages() {
    let mut state = state(vec![item("1", "1"), item("2", "1")]);
    let status = SlackAuthStatus::Connected(session());

    let card = message_card(&state, &item("1", "1"), &status, noon(), noon().plus_seconds(120));
    assert_eq!(card.title, "Bo Li \u{2022} #general");
    assert_eq!(card.initials, "BL");
    assert_eq!(card.age.as_deref(), Some("2m"));
    assert_eq!(card.reply_count, 1);
    assert_eq!(card.copy_text, "hello 🎉");
    assert!(card.can_copy && !card.can_manage);

    state.focus_message("2");
    let cards = thread_cards(&state, "1", &status, noon());
    assert_eq!(cards.len(), 2);
    assert!(cards[0].is_root && !cards[0].is_focused);
    assert!(!cards[1].is_root && cards[1].is_focused);

    assert!(can_reply(&state, "1", &status));
    state.settings.default_channel_permission = ChannelPermission::ReadOnly;
    assert!(!can_reply(&state, "1", &status));
}

#[test]
fn requests_are_checked_before_they_are_sent() {
    let mut state = state(vec![item("1", "1")]);
    let status = SlackAuthStatus::Connected(session());
    let offline = SlackAuthStatus::Error("gone".into());

    assert!(start_channel_post(&state, "hi", Some("C1"), &status).is_ok());
    assert!(start_channel_post(&state, "  ", Some("C1"), &status).is_err());
    assert!(start_channel_post(&state, "hi", None, &status).is_err());
    assert_eq!(
        start_channel_post(&state, "hi", Some("C1"), &offline).unwrap_err(),
        "Connect Slack before sending a message."
    );
    assert_eq!(
        start_thread_reply(&state, "9", "hi", &status).unwrap_err(),
        "The thread is no longer available in the cache."
    );
    assert_eq!(
        start_thread_reply(&state, "1", " ", &status).unwrap_err(),
        "Reply body is empty."
    );
    state.settings.default_channel_permission = ChannelPermission::ReadOnly;
    assert_eq!(
        start_thread_reply(&state, "1", "hi", &status).unwrap_err(),
        "This channel is configured as read-only. Replies are disabled."
    );
    assert!(start_channel_post(&state, "hi", Some("C1"), &status).is_err());

    assert_eq!(start_add_reaction(&item("1", "1"), ":thumbsup:", &status).unwrap(), "+1");
    assert!(start_add_reaction(&item("1", "1"), "not a name", &status).is_err());
    assert!(start_edit_message(&item("1", "1"), "x", &status).is_err());
    assert!(start_delete_message(&item("1", "1"), &status).is_err());
    let mut own = item("1", "1");
    own.author_id = "U1".into();
    assert!(start_edit_message(&own, "x", &status).is_ok());
    assert!(start_delete_message(&own, &status).is_ok());
}

#[test]
fn rules_that_cannot_be_evaluated_are_told_of() {
    let mut state = state(vec![]);
    let mut rules = sample_settings(RuleId { bits: 1 }, RuleId { bits: 2 }).notification_rules;
    rules[0].label = "Broken".into();
    rules[0].includes = vec![PatternMatcher::Regex("(".into())];
    rules[0].quiet_hours = None;
    rules[1].quiet_hours = None;
    state.settings.notification_rules = rules;
    let mut take = |author: &str| {
        let event = SlackSocketEvent::Message(message_event("1773576001.000100", author));
        state.take_live_event(&session(), vec![], event, 12, noon(), 0)
    };
    let told = vec!["notification rule `Broken` failed: invalid regex `(`".to_string()];

    assert_eq!(take("U2").warnings, told);
    let again = take("U2");
    assert!(!again.changed);
    assert_eq!(again.warnings, told);
    assert!(take("U1").warnings.is_empty());
}
