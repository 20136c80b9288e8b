//! What the state becomes when work that was started elsewhere is done, and when Slack tells of
//! something live.
use vstd::prelude::*;
use vstd::string::*;

use crate::actions::{AdminActionUpdate, AdminActionUpdateModel};
use crate::api::labelled;
use crate::auth::{
    SlackAuthStatus, SlackAuthStatusModel, StoredSlackSession, StoredSlackSessionModel,
};
use crate::attachments::first_given;
use crate::collections::{bind, first_match, upserted, with_id, TextMap};
use crate::deck::{with_column, DeckColumnModel, DeckState};
use crate::history::{
    live_item, live_message_changed_snapshot, live_message_deleted_ts,
    live_message_to_timeline_item, message_body, shown_reactions,
};
use crate::items::{any_item, is_message};
use crate::models::{AttachmentSummary, AttachmentSummaryModel, TimelineItem, TimelineItemModel};
use crate::notify::{
    action_for, failed_rules, is_from_others, needs_seeding, notification_action_for_item,
    rule_failures,
    seed_default_notification_rules, seed_watched_channels, seeded_rules, should_notify_for_item,
    watching,
};
use crate::reactions::normal_reaction;
use crate::rich_text::SlackRenderLookupModel;
use crate::settings::{
    AppSettingsModel, NotificationAction, RuleId, WorkspaceProfile, WorkspaceProfileModel,
};
use crate::slack::{
    SlackMessageChangedEvent, SlackMessageChangedEventModel, SlackMessageDeletedEvent,
    SlackMessageDeletedEventModel, SlackMessageEvent, SlackMessageEventModel, SlackReactionEvent,
    SlackReactionEventModel, SlackSocketEvent, SlackSocketEventModel, SlackUserTypingEvent,
    SlackUserTypingEventModel,
};
use crate::startup::workspace_profile_from_session;
use crate::state::{UiState, UiStateModel};
use crate::text::{decimal, owned, same_text, to_decimal};
use crate::time::Timestamp;
use crate::typing::{noted, typing_expiry, typing_in, user_from};
use crate::updates::{
    as_on_server, edited_body, is_current_user, learned_channel, reacted, refreshed, unreacted,
};

verus! {

/// What follows a change of the state outside of it.
#[derive(Debug, PartialEq, Eq)]
pub struct Effects {
    /// Whether the items of the active workspace are written to disk.
    pub stores_items: bool,
    /// Whether the settings are written to disk.
    pub stores_settings: bool,
    /// What the status line says, if it changes.
    pub status: Option<String>,
    /// Whether the window is drawn again.
    pub refreshes: bool,
    /// Whether the composer is emptied.
    pub clears_composer: bool,
}

/// What a [`Effects`] says: its texts as sequences of characters.
#[verifier::ext_equal]
pub struct EffectsModel {
    pub stores_items: bool,
    pub stores_settings: bool,
    pub status: Option<Seq<char>>,
    pub refreshes: bool,
    pub clears_composer: bool,
}

impl DeepView for Effects {
    type V = EffectsModel;

    open spec fn deep_view(&self) -> EffectsModel {
        EffectsModel {
            stores_items: self.stores_items,
            stores_settings: self.stores_settings,
            status: self.status.deep_view(),
            refreshes: self.refreshes,
            clears_composer: self.clears_composer,
        }
    }
}

impl Clone for Effects {
    fn clone(&self) -> (copy: Self)
        ensures
            copy.deep_view() == self.deep_view(),
    {
        let copy = Effects {
            stores_items: self.stores_items,
            stores_settings: self.stores_settings,
            status: self.status.clone(),
            refreshes: self.refreshes,
            clears_composer: self.clears_composer,
        };
        assert(copy.status.deep_view() =~= self.status.deep_view());
        copy
    }
}

/// What the first load of the history brought.
#[derive(Debug, PartialEq, Eq)]
pub struct InitialHistoryLoad {
    pub items: Vec<TimelineItem>,
    pub channel_count: usize,
    pub user_names: TextMap<String>,
    pub user_avatar_paths: TextMap<String>,
    pub known_channels: TextMap<String>,
    pub known_channel_creators: TextMap<String>,
    /// Whether Slack refused to name users.
    pub missing_user_names_scope: bool,
}

/// What a [`InitialHistoryLoad`] says: its texts as sequences of characters.
#[verifier::ext_equal]
pub struct InitialHistoryLoadModel {
    pub items: Seq<TimelineItemModel>,
    pub channel_count: usize,
    pub user_names: Seq<(Seq<char>, Seq<char>)>,
    pub user_avatar_paths: Seq<(Seq<char>, Seq<char>)>,
    pub known_channels: Seq<(Seq<char>, Seq<char>)>,
    pub known_channel_creators: Seq<(Seq<char>, Seq<char>)>,
    pub missing_user_names_scope: bool,
}

impl DeepView for InitialHistoryLoad {
    type V = InitialHistoryLoadModel;

    open spec fn deep_view(&self) -> InitialHistoryLoadModel {
        InitialHistoryLoadModel {
            items: self.items.deep_view(),
            channel_count: self.channel_count,
            user_names: self.user_names.deep_view(),
            user_avatar_paths: self.user_avatar_paths.deep_view(),
            known_channels: self.known_channels.deep_view(),
            known_channel_creators: self.known_channel_creators.deep_view(),
            missing_user_names_scope: self.missing_user_names_scope,
        }
    }
}

impl Clone for InitialHistoryLoad {
    fn clone(&self) -> (copy: Self)
        ensures
            copy.deep_view() == self.deep_view(),
    {
        let copy = InitialHistoryLoad {
            items: self.items.clone(),
            channel_count: self.channel_count,
            user_names: self.user_names.clone(),
            user_avatar_paths: self.user_avatar_paths.clone(),
            known_channels: self.known_channels.clone(),
            known_channel_creators: self.known_channel_creators.clone(),
            missing_user_names_scope: self.missing_user_names_scope,
        };
        assert(copy.items.deep_view() =~= self.items.deep_view());
        copy
    }
}

/// A reaction that Slack took.
#[derive(Debug, PartialEq, Eq)]
pub struct ReactionUpdate {
    pub message_ts: String,
    pub reaction_name: String,
    pub reactor_user_id: Option<String>,
}

/// What a [`ReactionUpdate`] says: its texts as sequences of characters.
#[verifier::ext_equal]
pub struct ReactionUpdateModel {
    pub message_ts: Seq<char>,
    pub reaction_name: Seq<char>,
    pub reactor_user_id: Option<Seq<char>>,
}

impl DeepView for ReactionUpdate {
    type V = ReactionUpdateModel;

    open spec fn deep_view(&self) -> ReactionUpdateModel {
        ReactionUpdateModel {
            message_ts: self.message_ts@,
            reaction_name: self.reaction_name@,
            reactor_user_id: self.reactor_user_id.deep_view(),
        }
    }
}

impl Clone for ReactionUpdate {
    fn clone(&self) -> (copy: Self)
        ensures
            copy.deep_view() == self.deep_view(),
    {
        let copy = ReactionUpdate {
            message_ts: self.message_ts.clone(),
            reaction_name: self.reaction_name.clone(),
            reactor_user_id: self.reactor_user_id.clone(),
        };
        assert(copy.reactor_user_id.deep_view() =~= self.reactor_user_id.deep_view());
        copy
    }
}

/// What follows an event of live sync.
#[derive(Debug, PartialEq, Eq)]
pub struct LiveEffects {
    /// Whether the items changed: they are written to disk and the window is drawn again.
    pub changed: bool,
    /// Whether the window is drawn again though no item changed.
    pub redraws: bool,
    /// The thread whose arrival is animated.
    pub animated_thread: Option<String>,
    /// The item that the user is notified of, and how.
    pub notification: Option<(TimelineItem, NotificationAction)>,
    /// What is logged of notification rules that cannot be evaluated.
    pub warnings: Vec<String>,
}

/// What a [`LiveEffects`] says: its texts as sequences of characters.
#[verifier::ext_equal]
pub struct LiveEffectsModel {
    pub changed: bool,
    pub redraws: bool,
    pub animated_thread: Option<Seq<char>>,
    pub notification: Option<(TimelineItemModel, NotificationAction)>,
    pub warnings: Seq<Seq<char>>,
}

impl DeepView for LiveEffects {
    type V = LiveEffectsModel;

    open spec fn deep_view(&self) -> LiveEffectsModel {
        LiveEffectsModel {
            changed: self.changed,
            redraws: self.redraws,
            animated_thread: self.animated_thread.deep_view(),
            notification: self.notification.deep_view(),
            warnings: self.warnings.deep_view(),
        }
    }
}

/// Work whose end changes nothing here but the status line when it failed.
#[derive(Clone, Copy, Debug, PartialEq, Eq, Structural)]
pub enum Work {
    History,
    Post,
    Reply,
    Reaction,
    Edit,
    Delete,
    Admin,
    ShareLink,
}

impl Work {
    /// How the status line begins when the work failed.
    pub open spec fn failure(self) -> Seq<char> {
        match self {
            Work::History => "Slack history ingest failed: "@,
            Work::Post => "Slack post failed: "@,
            Work::Reply => "Slack reply failed: "@,
            Work::Reaction => "Slack reaction failed: "@,
            Work::Edit => "Slack edit failed: "@,
            Work::Delete => "Slack delete failed: "@,
            Work::Admin => "Slack admin action failed: "@,
            Work::ShareLink => "Slack share link failed: "@,
        }
    }

    /// How the status line begins when the work failed.
    pub fn failure_label(self) -> (r: &'static str)
        ensures
            r@ == self.failure(),
    {
        match self {
            Work::History => "Slack history ingest failed: ",
            Work::Post => "Slack post failed: ",
            Work::Reply => "Slack reply failed: ",
            Work::Reaction => "Slack reaction failed: ",
            Work::Edit => "Slack edit failed: ",
            Work::Delete => "Slack delete failed: ",
            Work::Admin => "Slack admin action failed: ",
            Work::ShareLink => "Slack share link failed: ",
        }
    }
}

/// No effect at all.
pub open spec fn nothing() -> EffectsModel {
    EffectsModel {
        stores_items: false,
        stores_settings: false,
        status: None,
        refreshes: false,
        clears_composer: false,
    }
}

/// The effects of work that ended for a workspace: none unless it is the active one.
pub open spec fn told_if(active: bool, stores_items: bool, said: Seq<char>) -> EffectsModel {
    if active {
        EffectsModel { stores_items, status: Some(said), refreshes: true, ..nothing() }
    } else {
        nothing()
    }
}

fn no_effects() -> (r: Effects)
    ensures
        r.deep_view() == nothing(),
{
    Effects {
        stores_items: false,
        stores_settings: false,
        status: None,
        refreshes: false,
        clears_composer: false,
    }
}

fn effects(stores_items: bool, said: String) -> (r: Effects)
    ensures
        r.deep_view() == told_if(true, stores_items, said@),
{
    Effects {
        stores_items,
        stores_settings: false,
        status: Some(said),
        refreshes: true,
        clears_composer: false,
    }
}

impl UiStateModel {
    /// Whether a workspace is the active one.
    pub open spec fn is_active(self, workspace_key: Seq<char>) -> bool {
        self.workspace_key() == workspace_key
    }

    /// Whether a message is cached.
    pub open spec fn has_message(self, message_ts: Seq<char>) -> bool {
        any_item(self.source_items, is_message(message_ts))
    }

    /// The state after a message came: the same if it is cached already.
    pub open spec fn taking(self, item: TimelineItemModel, now: Timestamp) -> Self {
        if self.has_message(item.message_ts) {
            self
        } else {
            self.with_incoming(item).reranked(now, false)
        }
    }

    /// The state after a message changed its text: the same if it is not cached.
    pub open spec fn editing(self, ts: Seq<char>, body: Seq<char>, now: Timestamp) -> Self {
        if self.has_message(ts) {
            self.with_changed_items(edited_body(ts, body)).reranked(now, false)
        } else {
            self
        }
    }

    /// The state after a message was deleted: the same if it is not cached.
    pub open spec fn deleting(self, ts: Seq<char>, now: Timestamp) -> Self {
        match first_match(self.source_items, is_message(ts)) {
            Some(target) => self.without_message(target).reranked(now, true),
            None => self,
        }
    }

    /// The state after someone reacted to a message: the same if it is not cached.
    pub open spec fn reacting(
        self,
        ts: Seq<char>,
        name: Seq<char>,
        user: Option<Seq<char>>,
        current: Option<Seq<char>>,
        now: Timestamp,
    ) -> Self {
        if self.has_message(ts) {
            self.with_changed_items(
                reacted(
                    ts,
                    normal_reaction(name),
                    is_current_user(user, current),
                ),
            ).reranked(now, false)
        } else {
            self
        }
    }

    /// Whether a cached message has a reaction.
    pub open spec fn has_reaction(self, ts: Seq<char>, name: Seq<char>) -> bool {
        any_item(
            self.source_items,
            crate::updates::has_reaction(ts, normal_reaction(name)),
        )
    }

    /// The state after someone took a reaction back: the same if no cached message has it.
    pub open spec fn unreacting(
        self,
        ts: Seq<char>,
        name: Seq<char>,
        user: Option<Seq<char>>,
        current: Option<Seq<char>>,
        now: Timestamp,
    ) -> Self {
        if self.has_reaction(ts, name) {
            self.with_changed_items(
                unreacted(
                    ts,
                    normal_reaction(name),
                    is_current_user(user, current),
                ),
            ).reranked(now, false)
        } else {
            self
        }
    }

    /// The state with the active workspace among the known ones.
    pub open spec fn with_active_profile(self, profile: WorkspaceProfileModel) -> Self {
        UiStateModel {
            settings: AppSettingsModel {
                workspaces: upserted::<WorkspaceProfile>(
                    self.settings.workspaces,
                    profile,
                ),
                active_workspace_key: Some(profile.key),
                ..self.settings
            },
            ..self
        }
    }

    /// The state with another workspace active: the same if it is active already.
    pub open spec fn switched(self, workspace_key: Seq<char>) -> Self {
        if self.is_active(workspace_key) {
            self
        } else {
            self.with_workspace(workspace_key)
        }
    }

    /// The state with the items that are on disk, and nothing else known.
    pub open spec fn with_cached(self, items: Seq<TimelineItemModel>, now: Timestamp) -> Self {
        self.with_items(items, Seq::empty(), Seq::empty(), Seq::empty(), Seq::empty()).reranked(
            now,
            true,
        )
    }

    /// The settings after a load of the history, which fills them where they are empty.
    pub open spec fn seeded(self, items: Seq<TimelineItemModel>, id: RuleId) -> Self {
        UiStateModel {
            settings: AppSettingsModel {
                timeline: watching(self.settings.timeline, items),
                notification_rules: seeded_rules(self.settings.notification_rules, id),
                ..self.settings
            },
            ..self
        }
    }

    /// The state with what the history brought.
    pub open spec fn with_history(self, load: InitialHistoryLoadModel, now: Timestamp) -> Self {
        self.with_items(
            load.items,
            load.user_names,
            load.user_avatar_paths,
            load.known_channels,
            load.known_channel_creators,
        ).reranked(now, true)
    }

    /// The state after channels were created, renamed or archived.
    pub open spec fn administered(self, update: AdminActionUpdateModel, now: Timestamp) -> Self {
        let created = match update.created_channel {
            Some((id, name)) => UiStateModel {
                known_channels: learned_channel(self.known_channels, id, name),
                ..self
            },
            None => self,
        };
        let renamed = match update.renamed_channel {
            Some((id, name)) if !crate::text::is_blank(name) => created.with_renamed_channel(
                id,
                name,
            ).reranked(now, false),
            _ => created,
        };
        match update.archived_channel_id {
            Some(id) => renamed.without_channel(id).reranked(now, true),
            None => renamed,
        }
    }
}

/// What the status line says after the history was loaded.
pub open spec fn loaded_words(load: InitialHistoryLoadModel, seeded: bool) -> Seq<char> {
    "Loaded "@ + decimal(load.items.len()) + " Slack threads from "@ + decimal(
        load.channel_count as nat,
    ) + " channels."@ + (if seeded {
        " Default notification rules are now enabled."@
    } else {
        Seq::empty()
    }) + (if load.missing_user_names_scope {
        " Reconnect Slack once to grant users:read for display names."@
    } else {
        Seq::empty()
    })
}

/// The workspace that a session belongs to.
pub open spec fn profile_of(key: Seq<char>, session: StoredSlackSessionModel) -> WorkspaceProfileModel {
    WorkspaceProfileModel {
        key,
        label: match (session.team_name, session.team_id) {
            (Some(name), _) => name,
            (None, Some(id)) => id,
            (None, None) => "Slack room"@,
        },
        team_id: session.team_id,
        team_name: session.team_name,
        app_id: session.app_id,
    }
}

impl UiState {
    /// Whether a workspace is the active one.
    pub fn is_active_workspace(&self, workspace_key: &str) -> (r: bool)
        ensures
            r == self.deep_view().is_active(workspace_key@),
    {
        let active = crate::state::normalized_active_workspace_key(&self.settings);
        same_text(active.as_str(), workspace_key)
    }

    /// A login ended well: its workspace becomes the active one, with what is on disk of it.
    pub fn login_completed(
        &mut self,
        workspace_key: &str,
        session: &StoredSlackSession,
        cached_items: Vec<TimelineItem>,
        now: Timestamp,
    ) -> (r: Effects)
        ensures
            final(self).deep_view() == old(self).deep_view().switched(
                workspace_key@,
            ).with_active_profile(profile_of(workspace_key@, session.deep_view())).with_cached(
                cached_items.deep_view(),
                now,
            ),
            final(self).deep_view().wf(),
            r.deep_view() == (EffectsModel { stores_settings: true, refreshes: true, ..nothing() }),
    {
        self.set_active_workspace(owned(workspace_key));
        self.upsert_workspace_profile(workspace_profile_from_session(workspace_key, session), true);
        self.replace_items(
            cached_items,
            TextMap::new(),
            TextMap::new(),
            TextMap::new(),
            TextMap::new(),
            now,
        );
        Effects {
            stores_items: false,
            stores_settings: true,
            status: None,
            refreshes: true,
            clears_composer: false,
        }
    }

    /// A login failed: what becomes of the connection if its workspace is the active one, and
    /// what follows.
    pub fn login_failed(&self, workspace_key: &str, error: String) -> (r: (
        Option<SlackAuthStatus>,
        Effects,
    ))
        ensures
            r.0.deep_view() == (if self.deep_view().is_active(workspace_key@) {
                Some(SlackAuthStatusModel::Error(error@))
            } else {
                None
            }),
            r.1.deep_view() == (if self.deep_view().is_active(workspace_key@) {
                EffectsModel { refreshes: true, ..nothing() }
            } else {
                EffectsModel { status: Some("Slack room connect failed."@), ..nothing() }
            }),
    {
        let mut after = no_effects();
        if self.is_active_workspace(workspace_key) {
            after.refreshes = true;
            (Some(SlackAuthStatus::Error(error)), after)
        } else {
            after.status = Some(owned("Slack room connect failed."));
            (None, after)
        }
    }

    /// Another workspace is chosen, of which `cached` is on disk; `None` if it is the active one.
    pub fn switch_active_workspace(
        &mut self,
        workspace_key: &str,
        cached: Result<Vec<TimelineItem>, String>,
        now: Timestamp,
    ) -> (r: Option<Effects>)
        ensures
            r is None <==> old(self).deep_view().is_active(workspace_key@),
            final(self).deep_view() == ({
                let chosen = old(self).deep_view().switched(workspace_key@);
                match cached {
                    Ok(items) if r is Some => chosen.with_cached(items.deep_view(), now),
                    _ => chosen,
                }
            }),
            r matches Some(after) ==> after.deep_view() == (match cached {
                Ok(_) => EffectsModel { stores_settings: true, refreshes: true, ..nothing() },
                Err(error) => EffectsModel {
                    status: Some("Failed to load cached room timeline: "@ + error@),
                    refreshes: true,
                    ..nothing()
                },
            }),
    {
        if !self.set_active_workspace(owned(workspace_key)) {
            return None;
        }
        let mut after = no_effects();
        after.refreshes = true;
        match cached {
            Ok(items) => {
                self.replace_items(
                    items,
                    TextMap::new(),
                    TextMap::new(),
                    TextMap::new(),
                    TextMap::new(),
                    now,
                );
                after.stores_settings = true;
            },
            Err(error) => {
                after.status = Some(
                    labelled("Failed to load cached room timeline: ", error.as_str()),
                );
            },
        }
        Some(after)
    }

    /// A workspace was forgotten: the one that became active is shown with what `cached` holds of
    /// it. What the status line says, if it changes.
    pub fn show_next_workspace(
        &mut self,
        cached: Result<Vec<TimelineItem>, String>,
        now: Timestamp,
    ) -> (r: Option<String>)
        ensures
            final(self).deep_view() == (match cached {
                Ok(items) => old(self).deep_view().with_cached(items.deep_view(), now),
                Err(_) => old(self).deep_view(),
            }),
            r.deep_view() == (match cached {
                Ok(_) => None,
                Err(error) => Some("Failed to load next room cache: "@ + error@),
            }),
    {
        match cached {
            Ok(items) => {
                self.replace_items(
                    items,
                    TextMap::new(),
                    TextMap::new(),
                    TextMap::new(),
                    TextMap::new(),
                    now,
                );
                None
            },
            Err(error) => Some(labelled("Failed to load next room cache: ", error.as_str())),
        }
    }

    /// The workspace of the session that the program starts with is a known one; true if that is
    /// news, which is written to disk.
    pub fn ensure_active_workspace_profile(
        &mut self,
        workspace_key: &str,
        session: &StoredSlackSession,
    ) -> (changed: bool)
        ensures
            final(self).deep_view() == old(self).deep_view().with_active_profile(
                profile_of(workspace_key@, session.deep_view()),
            ),
            changed == (with_id::<WorkspaceProfile>(
                old(self).deep_view().settings.workspaces,
                workspace_key@,
            ) != Some(profile_of(workspace_key@, session.deep_view())) || old(
                self,
            ).deep_view().settings.active_workspace_key != Some(workspace_key@)),
    {
        let profile = workspace_profile_from_session(workspace_key, session);
        assert(profile.deep_view() == profile_of(workspace_key@, session.deep_view()));
        self.upsert_workspace_profile(profile, true)
    }

    /// The first load of the history ended: the settings are filled where they are empty, and the
    /// items are shown if their workspace is the active one. The effects ask for a write of the
    /// items of the active workspace alone: those of a load are written, under the workspace that
    /// they belong to, when it ends.
    pub fn history_loaded(
        &mut self,
        workspace_key: &str,
        load: InitialHistoryLoad,
        id: RuleId,
        now: Timestamp,
    ) -> (r: Effects)
        ensures
            ({
                let before = old(self).deep_view();
                let active = before.is_active(workspace_key@);
                let told = load.deep_view();
                let ruled = needs_seeding(before.settings.notification_rules);
                &&& final(self).deep_view() == (if active {
                    before.seeded(told.items, id).with_history(told, now)
                } else {
                    before.seeded(told.items, id)
                })
                &&& r.deep_view() == (EffectsModel {
                    stores_settings: ruled || (before.settings.timeline.watched_channels.len() == 0
                        && crate::notify::channels_of(told.items).len() > 0),
                    ..told_if(active, true, loaded_words(told, ruled))
                })
            }),
            old(self).deep_view().wf() ==> final(self).deep_view().wf(),
    {
        let ghost before = self.deep_view();
        let ghost told = load.deep_view();
        let active = self.is_active_workspace(workspace_key);
        let seeded = seed_watched_channels(&mut self.settings, &load.items);
        let ruled = seed_default_notification_rules(&mut self.settings, id);
        assert(self.deep_view() =~= before.seeded(told.items, id));
        if !active {
            let mut after = no_effects();
            after.stores_settings = seeded > 0 || ruled;
            return after;
        }
        let mut said = owned("Loaded ");
        said.append(to_decimal(load.items.len() as u64).as_str());
        said.append(" Slack threads from ");
        said.append(to_decimal(load.channel_count as u64).as_str());
        said.append(" channels.");
        if ruled {
            said.append(" Default notification rules are now enabled.");
        }
        if load.missing_user_names_scope {
            said.append(" Reconnect Slack once to grant users:read for display names.");
        }
        assert(said@ =~= loaded_words(told, ruled));
        self.replace_items(
            load.items,
            load.user_names,
            load.user_avatar_paths,
            load.known_channels,
            load.known_channel_creators,
            now,
        );
        let mut after = effects(true, said);
        after.stores_settings = seeded > 0 || ruled;
        after
    }

    /// Work failed: the status line says so if its workspace is the active one.
    pub fn work_failed(&self, workspace_key: &str, work: Work, error: &str) -> (r: Effects)
        ensures
            r.deep_view() == (EffectsModel {
                refreshes: self.deep_view().is_active(workspace_key@) && work != Work::ShareLink,
                ..told_if(self.deep_view().is_active(workspace_key@), false, work.failure() + error@)
            }),
    {
        if !self.is_active_workspace(workspace_key) {
            return no_effects();
        }
        let mut after = effects(false, labelled(work.failure_label(), error));
        after.refreshes = work != Work::ShareLink;
        after
    }

    /// A message was posted: it is shown and selected.
    pub fn channel_post_sent(&mut self, workspace_key: &str, item: TimelineItem, now: Timestamp) -> (r:
        Effects)
        ensures
            ({
                let before = old(self).deep_view();
                let active = before.is_active(workspace_key@);
                let fresh = active && !before.has_message(item.deep_view().message_ts);
                &&& final(self).deep_view() == (if fresh {
                    before.taking(item.deep_view(), now).selecting(
                        Some(item.deep_view().message_ts),
                    )
                } else {
                    before
                })
                &&& r.deep_view() == (EffectsModel {
                    clears_composer: active,
                    ..told_if(active, fresh, "Message sent to Slack."@)
                })
            }),
            old(self).deep_view().wf() ==> final(self).deep_view().wf(),
    {
        if !self.is_active_workspace(workspace_key) {
            return no_effects();
        }
        let ts = item.message_ts.clone();
        let fresh = self.apply_incoming_item(item, now);
        if fresh {
            self.select(Some(ts));
        }
        let mut after = effects(fresh, owned("Message sent to Slack."));
        after.clears_composer = true;
        after
    }

    /// A reply was posted.
    pub fn reply_sent(&mut self, workspace_key: &str, item: TimelineItem, now: Timestamp) -> (r:
        Effects)
        ensures
            ({
                let before = old(self).deep_view();
                let active = before.is_active(workspace_key@);
                &&& final(self).deep_view() == (if active {
                    before.with_reply(item.deep_view()).reranked(now, false)
                } else {
                    before
                })
                &&& r.deep_view() == told_if(active, true, "Reply sent to Slack."@)
            }),
            old(self).deep_view().wf() ==> final(self).deep_view().wf(),
    {
        if !self.is_active_workspace(workspace_key) {
            return no_effects();
        }
        self.apply_reply_item(item, now);
        effects(true, owned("Reply sent to Slack."))
    }

    /// A reaction was sent.
    pub fn reaction_sent(
        &mut self,
        workspace_key: &str,
        update: &ReactionUpdate,
        current_user_id: &Option<String>,
        now: Timestamp,
    ) -> (r: Effects)
        ensures
            ({
                let before = old(self).deep_view();
                let active = before.is_active(workspace_key@);
                let sent = update.deep_view();
                &&& final(self).deep_view() == (if active {
                    before.reacting(
                        sent.message_ts,
                        sent.reaction_name,
                        sent.reactor_user_id,
                        current_user_id.deep_view(),
                        now,
                    )
                } else {
                    before
                })
                &&& r.deep_view() == told_if(
                    active,
                    before.has_message(sent.message_ts),
                    "Reaction sent to Slack."@,
                )
            }),
            old(self).deep_view().wf() ==> final(self).deep_view().wf(),
    {
        if !self.is_active_workspace(workspace_key) {
            return no_effects();
        }
        let known = self.apply_reaction_added(
            update.message_ts.as_str(),
            update.reaction_name.as_str(),
            &update.reactor_user_id,
            current_user_id,
            now,
        );
        effects(known, owned("Reaction sent to Slack."))
    }

    /// A message was edited.
    pub fn message_edited(
        &mut self,
        workspace_key: &str,
        message_ts: &str,
        body: &str,
        now: Timestamp,
    ) -> (r: Effects)
        ensures
            ({
                let before = old(self).deep_view();
                let active = before.is_active(workspace_key@);
                &&& final(self).deep_view() == (if active {
                    before.editing(message_ts@, body@, now)
                } else {
                    before
                })
                &&& r.deep_view() == told_if(
                    active,
                    before.has_message(message_ts@),
                    "Slack message updated."@,
                )
            }),
            old(self).deep_view().wf() ==> final(self).deep_view().wf(),
    {
        if !self.is_active_workspace(workspace_key) {
            return no_effects();
        }
        let known = self.apply_message_edit(message_ts, body, now);
        effects(known, owned("Slack message updated."))
    }

    /// A message was deleted.
    pub fn message_deleted(&mut self, workspace_key: &str, message_ts: &str, now: Timestamp) -> (r:
        Effects)
        ensures
            ({
                let before = old(self).deep_view();
                let active = before.is_active(workspace_key@);
                &&& final(self).deep_view() == (if active {
                    before.deleting(message_ts@, now)
                } else {
                    before
                })
                &&& r.deep_view() == told_if(
                    active,
                    first_match(before.source_items, is_message(message_ts@)) is Some,
                    "Slack message deleted."@,
                )
            }),
            old(self).deep_view().wf() ==> final(self).deep_view().wf(),
    {
        if !self.is_active_workspace(workspace_key) {
            return no_effects();
        }
        let known = self.apply_message_delete(message_ts, now);
        effects(known, owned("Slack message deleted."))
    }

    /// Channels were created, renamed or archived.
    pub fn admin_action_finished(
        &mut self,
        workspace_key: &str,
        update: AdminActionUpdate,
        now: Timestamp,
    ) -> (r: Effects)
        ensures
            ({
                let before = old(self).deep_view();
                let active = before.is_active(workspace_key@);
                &&& final(self).deep_view() == (if active {
                    before.administered(update.deep_view(), now)
                } else {
                    before
                })
                &&& r.deep_view() == told_if(active, false, update.deep_view().message)
            }),
            old(self).deep_view().wf() ==> final(self).deep_view().wf(),
    {
        if !self.is_active_workspace(workspace_key) {
            return no_effects();
        }
        if let Some((id, name)) = update.created_channel {
            self.upsert_known_channel(id, name);
        }
        if let Some((id, name)) = &update.renamed_channel {
            self.rename_known_channel(id.as_str(), name.as_str(), now);
        }
        if let Some(id) = &update.archived_channel_id {
            self.archive_known_channel(id.as_str(), now);
        }
        effects(false, update.message)
    }

    /// A link to a message was found: the text to put on the clipboard, if its workspace is the
    /// active one, and what the status line says once it is there.
    pub fn share_link_resolved(&self, workspace_key: &str, permalink: &str) -> (r: Option<
        (String, String),
    >)
        ensures
            r.deep_view() == (if self.deep_view().is_active(workspace_key@) {
                Some((permalink@, "Copied Slack message URL to clipboard."@))
            } else {
                None
            }),
    {
        if self.is_active_workspace(workspace_key) {
            Some((owned(permalink), owned("Copied Slack message URL to clipboard.")))
        } else {
            None
        }
    }

    /// Messages came in the background; true if they are written to disk and shown.
    pub fn background_refresh_loaded(
        &mut self,
        workspace_key: &str,
        items: Vec<TimelineItem>,
        now: Timestamp,
    ) -> (r: bool)
        ensures
            r == (old(self).deep_view().is_active(workspace_key@) && items.len() > 0),
            final(self).deep_view() == (if old(self).deep_view().is_active(workspace_key@) {
                refreshed(old(self).deep_view(), items.deep_view(), now)
            } else {
                old(self).deep_view()
            }),
            old(self).deep_view().wf() ==> final(self).deep_view().wf(),
    {
        self.is_active_workspace(workspace_key) && self.apply_background_refresh_items(items, now)
    }

    /// The user followed a notification: its message is focused, in its thread if it is a reply.
    /// What the status line says, and whether the message was found: the window is then drawn
    /// again and brought to the front.
    pub fn focus_message_from_notification(&mut self, deck: &mut DeckState, message_ts: &str) -> (r: (
        String,
        bool,
    ))
        ensures
            ({
                let before = old(self).deep_view();
                let columns = old(deck).deep_view().columns;
                match first_match(before.source_items, is_message(message_ts@)) {
                    Some(target) => {
                        let replies = target.message_ts != target.thread_ts;
                        &&& r.0@ == (if replies {
                            "Opened the notified thread."@
                        } else {
                            "Focused the notified Slack post."@
                        })
                        &&& r.1
                        &&& final(self).deep_view() == before.focusing(target)
                        &&& final(deck).deep_view().columns == (if replies {
                            with_column(
                                columns,
                                DeckColumnModel::Thread { thread_ts: target.thread_ts },
                            )
                        } else {
                            columns
                        })
                    },
                    None => {
                        &&& r.0@ == "The notified message is no longer in the local cache."@
                        &&& !r.1
                        &&& final(self).deep_view() == before
                        &&& final(deck).deep_view().columns == columns
                    },
                }
            }),
            old(self).deep_view().wf() ==> final(self).deep_view().wf(),
    {
        match self.focus_message(message_ts) {
            Some(target) => {
                if same_text(target.message_ts.as_str(), target.thread_ts.as_str()) {
                    (owned("Focused the notified Slack post."), true)
                } else {
                    deck.ensure_thread_open(target.thread_ts);
                    (owned("Opened the notified thread."), true)
                }
            },
            None => (owned("The notified message is no longer in the local cache."), false),
        }
    }
}

/// What the status line says while live sync connects again.
pub fn live_sync_failed(error: &str) -> (r: String)
    ensures
        r@ == "Live sync reconnecting: "@ + error@,
{
    labelled("Live sync reconnecting: ", error)
}

/// No effect at all.
pub open spec fn unmoved() -> LiveEffectsModel {
    LiveEffectsModel {
        changed: false,
        redraws: false,
        animated_thread: None,
        notification: None,
        warnings: Seq::empty(),
    }
}

/// The effects of an event that changed the items, or did not.
pub open spec fn changed_if(changed: bool) -> LiveEffectsModel {
    LiveEffectsModel { changed, ..unmoved() }
}

fn change_effects(changed: bool) -> (r: LiveEffects)
    ensures
        r.deep_view() == changed_if(changed),
{
    let r = LiveEffects {
        changed,
        redraws: false,
        animated_thread: None,
        notification: None,
        warnings: Vec::new(),
    };
    assert(r.warnings.deep_view() =~= Seq::empty());
    r
}

/// Whether a user is the one who is connected, or their bot.
pub open spec fn is_own(session: StoredSlackSessionModel, user: Seq<char>) -> bool {
    session.user_id == Some(user) || session.bot_user_id == Some(user)
}

/// What a live message does: the state it leaves, and what follows.
pub open spec fn message_step(
    before: UiStateModel,
    session: StoredSlackSessionModel,
    attachments: Seq<AttachmentSummaryModel>,
    event: SlackMessageEventModel,
    hour: u8,
    now: Timestamp,
) -> (UiStateModel, LiveEffectsModel) {
    match live_item(before, session, attachments, event, now) {
        Some(item) => {
            let notifies = is_from_others(session, item);
            let warned = LiveEffectsModel {
                warnings: if notifies {
                    rule_failures(before.settings, item, hour)
                } else {
                    Seq::empty()
                },
                ..unmoved()
            };
            if before.has_message(item.message_ts) {
                (before, warned)
            } else {
                (
                    before.taking(item, now),
                    LiveEffectsModel {
                        changed: true,
                        animated_thread: Some(item.thread_ts),
                        notification: match action_for(before.settings, item, hour) {
                            Some(action) if notifies => Some((item, action)),
                            _ => None,
                        },
                        ..warned
                    },
                )
            }
        },
        None => (before, unmoved()),
    }
}

/// What a live change of a message does. Names of users and channels in blocks are not looked up.
pub open spec fn change_step(
    before: UiStateModel,
    session: StoredSlackSessionModel,
    attachments: Seq<AttachmentSummaryModel>,
    event: SlackMessageChangedEventModel,
    now: Timestamp,
) -> (UiStateModel, LiveEffectsModel) {
    let message = event.message;
    let names = SlackRenderLookupModel { user_names: Seq::empty(), channel_names: Seq::empty() };
    if before.has_message(message.ts) {
        (
            before.with_changed_items(
                as_on_server(
                    message.ts,
                    message_body(message.text, message.blocks, names),
                    message.blocks,
                    shown_reactions(message.reactions, session.user_id),
                    attachments,
                ),
            ).reranked(now, false),
            changed_if(true),
        )
    } else {
        (before, unmoved())
    }
}

/// The message that an event says is gone.
pub open spec fn deleted_ts(event: SlackMessageDeletedEventModel) -> Option<Seq<char>> {
    first_given(
        event.deleted_ts,
        match event.previous_message {
            Some(message) => Some(message.ts),
            None => None,
        },
    )
}

/// What a live deletion does.
pub open spec fn delete_step(
    before: UiStateModel,
    event: SlackMessageDeletedEventModel,
    now: Timestamp,
) -> (UiStateModel, LiveEffectsModel) {
    match deleted_ts(event) {
        Some(ts) => (
            before.deleting(ts, now),
            changed_if(first_match(before.source_items, is_message(ts)) is Some),
        ),
        None => (before, unmoved()),
    }
}

/// The message that a reaction is to; `None` if it is to something else.
pub open spec fn reacted_message(event: SlackReactionEventModel) -> Option<Seq<char>> {
    match event.item.ts {
        Some(ts) if event.item.kind == "message"@ => Some(ts),
        _ => None,
    }
}

/// What a live reaction does, added or taken back.
pub open spec fn reaction_step(
    before: UiStateModel,
    session: StoredSlackSessionModel,
    event: SlackReactionEventModel,
    added: bool,
    now: Timestamp,
) -> (UiStateModel, LiveEffectsModel) {
    let me = session.user_id;
    match reacted_message(event) {
        Some(ts) => if added {
            (
                before.reacting(ts, event.reaction, event.user, me, now),
                changed_if(before.has_message(ts)),
            )
        } else {
            (
                before.unreacting(ts, event.reaction, event.user, me, now),
                changed_if(before.has_reaction(ts, event.reaction)),
            )
        },
        None => (before, unmoved()),
    }
}

/// What live typing does: the user's own is not shown.
pub open spec fn typing_step(
    before: UiStateModel,
    session: StoredSlackSessionModel,
    event: SlackUserTypingEventModel,
    now_ms: u64,
) -> (UiStateModel, LiveEffectsModel) {
    match event.user {
        Some(user) if !is_own(session, user) => {
            let typing = typing_in(before.typing_by_channel, event.channel);
            let expires_at = typing_expiry(now_ms);
            (
                UiStateModel {
                    typing_by_channel: bind(
                        before.typing_by_channel,
                        event.channel,
                        noted(typing, user, expires_at),
                    ),
                    ..before
                },
                LiveEffectsModel {
                    redraws: match user_from(typing, user, 0) {
                        Some(at) => typing[at].expires_at < expires_at,
                        None => true,
                    },
                    ..unmoved()
                },
            )
        },
        _ => (before, unmoved()),
    }
}

/// What an event of live sync does.
pub open spec fn live_event_step(
    before: UiStateModel,
    session: StoredSlackSessionModel,
    attachments: Seq<AttachmentSummaryModel>,
    event: SlackSocketEventModel,
    hour: u8,
    now: Timestamp,
    now_ms: u64,
) -> (UiStateModel, LiveEffectsModel) {
    match event {
        SlackSocketEventModel::Message(told) => message_step(
            before,
            session,
            attachments,
            told,
            hour,
            now,
        ),
        SlackSocketEventModel::MessageChanged(told) => change_step(
            before,
            session,
            attachments,
            told,
            now,
        ),
        SlackSocketEventModel::MessageDeleted(told) => delete_step(before, told, now),
        SlackSocketEventModel::ReactionAdded(told) => reaction_step(
            before,
            session,
            told,
            true,
            now,
        ),
        SlackSocketEventModel::ReactionRemoved(told) => reaction_step(
            before,
            session,
            told,
            false,
            now,
        ),
        SlackSocketEventModel::UserTyping(told) => typing_step(before, session, told, now_ms),
        SlackSocketEventModel::Unsupported { .. } => (before, unmoved()),
    }
}

impl UiState {
    /// A message came live: it is shown unless it is a service message or cached already, and the
    /// user is notified of it as their rules say.
    pub fn take_live_message(
        &mut self,
        session: &StoredSlackSession,
        attachments: Vec<AttachmentSummary>,
        event: SlackMessageEvent,
        hour: u8,
        now: Timestamp,
    ) -> (r: LiveEffects)
        ensures
            (final(self).deep_view(), r.deep_view()) == message_step(
                old(self).deep_view(),
                session.deep_view(),
                attachments.deep_view(),
                event.deep_view(),
                hour,
                now,
            ),
            old(self).deep_view().wf() ==> final(self).deep_view().wf(),
    {
        let incoming = match live_message_to_timeline_item(self, session, attachments, event, now) {
            Some(item) => item,
            None => {
                return change_effects(false);
            },
        };
        let thread_ts = incoming.thread_ts.clone();
        let mut after = change_effects(false);
        let mut action: Option<NotificationAction> = None;
        if should_notify_for_item(session, &incoming) {
            action = notification_action_for_item(&self.settings, &incoming, hour);
            after.warnings = failed_rules(&self.settings, &incoming, hour);
        }
        let shown = incoming.clone();
        if !self.apply_incoming_item(incoming, now) {
            return after;
        }
        after.changed = true;
        after.animated_thread = Some(thread_ts);
        after.notification = match action {
            Some(action) => Some((shown, action)),
            None => None,
        };
        after
    }

    /// A message changed on the server.
    pub fn take_live_change(
        &mut self,
        session: &StoredSlackSession,
        attachments: Vec<AttachmentSummary>,
        event: &SlackMessageChangedEvent,
        now: Timestamp,
    ) -> (r: LiveEffects)
        ensures
            (final(self).deep_view(), r.deep_view()) == change_step(
                old(self).deep_view(),
                session.deep_view(),
                attachments.deep_view(),
                event.deep_view(),
                now,
            ),
            old(self).deep_view().wf() ==> final(self).deep_view().wf(),
    {
        let snapshot = live_message_changed_snapshot(session, attachments, event);
        let known = self.apply_remote_message_snapshot(
            snapshot.message_ts.as_str(),
            snapshot.body.as_str(),
            snapshot.rich_text_blocks,
            snapshot.reactions,
            snapshot.attachments,
            now,
        );
        change_effects(known)
    }

    /// A message was deleted on the server.
    pub fn take_live_delete(&mut self, event: &SlackMessageDeletedEvent, now: Timestamp) -> (r:
        LiveEffects)
        ensures
            (final(self).deep_view(), r.deep_view()) == delete_step(
                old(self).deep_view(),
                event.deep_view(),
                now,
            ),
            old(self).deep_view().wf() ==> final(self).deep_view().wf(),
    {
        match live_message_deleted_ts(event) {
            Some(ts) => {
                let known = self.apply_message_delete(ts.as_str(), now);
                change_effects(known)
            },
            None => change_effects(false),
        }
    }

    /// Someone reacted to a message, or took a reaction back.
    pub fn take_live_reaction(
        &mut self,
        session: &StoredSlackSession,
        event: &SlackReactionEvent,
        added: bool,
        now: Timestamp,
    ) -> (r: LiveEffects)
        ensures
            (final(self).deep_view(), r.deep_view()) == reaction_step(
                old(self).deep_view(),
                session.deep_view(),
                event.deep_view(),
                added,
                now,
            ),
            old(self).deep_view().wf() ==> final(self).deep_view().wf(),
    {
        let ts = match &event.item.ts {
            Some(ts) => ts,
            None => {
                return change_effects(false);
            },
        };
        if !same_text(event.item.kind.as_str(), "message") {
            return change_effects(false);
        }
        let known = if added {
            self.apply_reaction_added(
                ts.as_str(),
                event.reaction.as_str(),
                &event.user,
                &session.user_id,
                now,
            )
        } else {
            self.apply_reaction_removed(
                ts.as_str(),
                event.reaction.as_str(),
                &event.user,
                &session.user_id,
                now,
            )
        };
        change_effects(known)
    }

    /// Someone is typing; the user's own typing is not shown.
    pub fn take_live_typing(
        &mut self,
        session: &StoredSlackSession,
        event: &SlackUserTypingEvent,
        now_ms: u64,
    ) -> (r: LiveEffects)
        ensures
            (final(self).deep_view(), r.deep_view()) == typing_step(
                old(self).deep_view(),
                session.deep_view(),
                event.deep_view(),
                now_ms,
            ),
            old(self).deep_view().wf() ==> final(self).deep_view().wf(),
    {
        let mut after = change_effects(false);
        if let Some(user) = &event.user {
            let own = is_text(&session.user_id, user.as_str()) || is_text(
                &session.bot_user_id,
                user.as_str(),
            );
            if !own {
                after.redraws = self.note_user_typing(event.channel.as_str(), user.as_str(), now_ms);
            }
        }
        after
    }

    /// Slack told of something live, while a session is connected.
    pub fn take_live_event(
        &mut self,
        session: &StoredSlackSession,
        attachments: Vec<AttachmentSummary>,
        event: SlackSocketEvent,
        hour: u8,
        now: Timestamp,
        now_ms: u64,
    ) -> (r: LiveEffects)
        ensures
            (final(self).deep_view(), r.deep_view()) == live_event_step(
                old(self).deep_view(),
                session.deep_view(),
                attachments.deep_view(),
                event.deep_view(),
                hour,
                now,
                now_ms,
            ),
            old(self).deep_view().wf() ==> final(self).deep_view().wf(),
    {
        match event {
            SlackSocketEvent::Message(event) => self.take_live_message(
                session,
                attachments,
                event,
                hour,
                now,
            ),
            SlackSocketEvent::MessageChanged(event) => self.take_live_change(
                session,
                attachments,
                &event,
                now,
            ),
            SlackSocketEvent::MessageDeleted(event) => self.take_live_delete(&event, now),
            SlackSocketEvent::ReactionAdded(event) => self.take_live_reaction(
                session,
                &event,
                true,
                now,
            ),
            SlackSocketEvent::ReactionRemoved(event) => self.take_live_reaction(
                session,
                &event,
                false,
                now,
            ),
            SlackSocketEvent::UserTyping(event) => self.take_live_typing(session, &event, now_ms),
            SlackSocketEvent::Unsupported { .. } => change_effects(false),
        }
    }
}

fn is_text(option: &Option<String>, text: &str) -> (r: bool)
    ensures
        r == (option.deep_view() == Some(text@)),
{
    match option {
        Some(value) => same_text(value.as_str(), text),
        None => false,
    }
}

} // verus!
