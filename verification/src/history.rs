//! Messages of Slack as items of the timeline: those of a channel's history, those that arrive
//! live and those that the user sends.
use vstd::prelude::*;
use vstd::string::*;

use crate::api::labelled;
use crate::attachments::first_given;
use crate::auth::{enclosed, StoredSlackSession, StoredSlackSessionModel};
use crate::collections::{contains_text, lookup, TextMap};
use crate::emoji::{reaction_display, reaction_emoji};
use crate::json::Json;
use crate::models::{
    AttachmentSummary, AttachmentSummaryModel, ReactionSummary, ReactionSummaryModel, ReplyState,
    ReplyStateModel, TimelineItem, TimelineItemModel,
};
use crate::reactions::{by_count, sort_by_count};
use crate::rich_text::{
    rich_plain_text, slack_plain_text_from_blocks, SlackRenderLookup, SlackRenderLookupModel,
};
use crate::settings::{AppSettings, AppSettingsModel, TimelinePolicy, TimelinePolicyModel};
use crate::slack::{
    SlackConversation, SlackConversationModel, SlackHistoryMessage, SlackHistoryMessageModel,
    SlackMessageChangedEvent, SlackMessageDeletedEvent, SlackMessageEvent, SlackMessageEventModel,
    SlackReaction, SlackReactionModel,
};
use crate::stamps::{slack_ts_from_datetime, slack_ts_to_datetime, stamp, stamped_point};
use crate::state::{Names, UiState, UiStateModel};
use crate::text::{holds, occurs, owned, same_text, trim, trimmed};
use crate::time::{earlier_by, Timestamp};

verus! {

/// How many channels are asked for at the start.
pub const INITIAL_CHANNEL_PAGE_LIMIT: usize = 200;

/// Of how many channels the history is loaded at the start, if no more are of special interest.
pub const INITIAL_CHANNEL_SYNC_LIMIT: usize = 24;

/// How many messages of each channel are loaded at the start.
pub const INITIAL_MESSAGES_PER_CHANNEL: usize = 25;

/// How many channels are refreshed in the background.
pub const LIVE_RECONCILE_CHANNEL_LIMIT: usize = 8;

/// How many messages of each channel are refreshed in the background.
pub const LIVE_RECONCILE_MESSAGES_PER_CHANNEL: usize = 50;

/// How many users are asked for at a time.
pub const USER_PAGE_LIMIT: usize = 500;

impl StoredSlackSessionModel {
    /// The token for requests: the user's, else the bot's.
    pub open spec fn token(self) -> Option<Seq<char>> {
        first_given(self.user_access_token, self.bot_access_token)
    }

    /// Who posts with the session: the user, else the bot.
    pub open spec fn poster(self) -> Option<Seq<char>> {
        first_given(self.user_id, self.bot_user_id)
    }

    /// The identifier of the workspace.
    pub open spec fn workspace_id(self) -> Seq<char> {
        match self.team_id {
            Some(id) => id,
            None => "workspace"@,
        }
    }
}

/// A text that is given, or the fallback.
fn given_or(value: &Option<String>, fallback: &str) -> (r: String)
    ensures
        r@ == match value.deep_view() {
            Some(value) => value,
            None => fallback@,
        },
{
    match value {
        Some(value) => value.clone(),
        None => owned(fallback),
    }
}

impl StoredSlackSession {
    /// The token for requests; why there is none.
    pub fn api_token(&self) -> (r: Result<String, String>)
        ensures
            match self.deep_view().token() {
                Some(token) => r matches Ok(text) && text@ == token,
                None => r matches Err(message) && message@ == "no Slack access token is stored"@,
            },
    {
        if let Some(token) = &self.user_access_token {
            return Ok(token.clone());
        }
        match &self.bot_access_token {
            Some(token) => Ok(token.clone()),
            None => Err(owned("no Slack access token is stored")),
        }
    }

    /// Who posts with the session: the user, else the bot.
    pub fn poster_id(&self) -> (r: Option<String>)
        ensures
            r.deep_view() == self.deep_view().poster(),
    {
        match &self.user_id {
            Some(user) => Some(user.clone()),
            None => self.bot_user_id.clone(),
        }
    }

    /// The identifier of the workspace.
    pub fn workspace_id(&self) -> (r: String)
        ensures
            r@ == self.deep_view().workspace_id(),
    {
        given_or(&self.team_id, "workspace")
    }
}

/// How a reaction is shown to a user.
pub open spec fn shown_reaction(reaction: SlackReactionModel, user: Option<Seq<char>>) ->
    ReactionSummaryModel {
    ReactionSummaryModel {
        name: reaction.name,
        emoji: reaction_display(reaction.name),
        count: reaction.count,
        me: user matches Some(user) && reaction.users.contains(user),
    }
}

/// How reactions are shown to a user: those given most often first.
pub open spec fn shown_reactions(reactions: Seq<SlackReactionModel>, user: Option<Seq<char>>) ->
    Seq<ReactionSummaryModel> {
    by_count(reactions.map_values(|reaction: SlackReactionModel| shown_reaction(reaction, user)))
}

/// How reactions are shown to a user.
pub fn reaction_summaries(reactions: &Vec<SlackReaction>, current_user_id: &Option<String>) -> (r:
    Vec<ReactionSummary>)
    ensures
        r.deep_view() == shown_reactions(reactions.deep_view(), current_user_id.deep_view()),
{
    let ghost user = current_user_id.deep_view();
    let mut out: Vec<ReactionSummary> = Vec::new();
    let mut i: usize = 0;
    while i < reactions.len()
        invariant
            i <= reactions.len(),
            out.len() == i,
            user == current_user_id.deep_view(),
            forall|k: int|
                0 <= k < i ==> (#[trigger] out.deep_view()[k]) == shown_reaction(
                    reactions.deep_view()[k],
                    user,
                ),
        decreases reactions.len() - i,
    {
        let ghost before = out.deep_view();
        let reaction = &reactions[i];
        assert(reactions.deep_view()[i as int] == reaction.deep_view());
        let me = match current_user_id {
            Some(user) => contains_text(&reaction.users, user.as_str()),
            None => false,
        };
        let summary = ReactionSummary {
            name: reaction.name.clone(),
            emoji: reaction_emoji(reaction.name.as_str()),
            count: reaction.count,
            me,
        };
        out.push(summary);
        assert(out.deep_view() =~= before.push(summary.deep_view()));
        i += 1;
    }
    assert(out.deep_view() =~= reactions.deep_view().map_values(
        |reaction: SlackReactionModel| shown_reaction(reaction, user),
    ));
    sort_by_count(out)
}

/// Whether a message is of a kind that is not shown: changes, deletions, joining and leaving.
pub open spec fn is_service_message(subtype: Option<Seq<char>>) -> bool {
    &&& subtype matches Some(kind)
    &&& kind == "message_changed"@ || kind == "message_deleted"@ || kind == "channel_join"@ || kind
        == "channel_leave"@
}

/// Whether a message is of a kind that is not shown.
fn is_service(subtype: &Option<String>) -> (r: bool)
    ensures
        r == is_service_message(subtype.deep_view()),
{
    match subtype {
        Some(kind) => same_text(kind.as_str(), "message_changed") || same_text(
            kind.as_str(),
            "message_deleted",
        ) || same_text(kind.as_str(), "channel_join") || same_text(kind.as_str(), "channel_leave"),
        None => false,
    }
}

/// The body of a message: its text without white space around it, or the text of its blocks if
/// there is none.
pub open spec fn message_body(
    text: Option<Seq<char>>,
    blocks: Seq<Json>,
    names: SlackRenderLookupModel,
) -> Seq<char> {
    let body = match text {
        Some(text) => trim(text),
        None => Seq::empty(),
    };
    if body.len() == 0 && blocks.len() > 0 {
        trim(rich_plain_text(blocks, names))
    } else {
        body
    }
}

/// The body of a message.
pub fn body_of_message(text: &Option<String>, blocks: &Vec<Json>, names: &SlackRenderLookup) -> (r:
    String)
    ensures
        r@ == message_body(text.deep_view(), blocks@, names.deep_view()),
{
    let body = match text {
        Some(text) => trimmed(text.as_str()),
        None => String::new(),
    };
    if body.as_str().is_empty() && blocks.len() > 0 {
        trimmed(slack_plain_text_from_blocks(blocks, names).as_str())
    } else {
        body
    }
}

/// Whether a body mentions a user.
pub open spec fn mentions(body: Seq<char>, user: Option<Seq<char>>) -> bool {
    user matches Some(user) && occurs(body, "<@"@ + user + ">"@)
}

/// Whether a body mentions a user.
fn mentions_user(body: &str, user: &Option<String>) -> (r: bool)
    ensures
        r == mentions(body@, user.deep_view()),
{
    match user {
        Some(user) => holds(body, enclosed("<@", user.as_str(), ">").as_str()),
        None => false,
    }
}

/// How much a channel counts, where nothing is set: 1.
pub open spec fn set_weight(policy: TimelinePolicyModel, channel_id: Seq<char>) -> u8 {
    match lookup(policy.channel_weights, channel_id) {
        Some(weight) => weight,
        None => 1,
    }
}

/// How much a channel counts.
fn weight_of(policy: &TimelinePolicy, channel_id: &str) -> (r: u8)
    ensures
        r == set_weight(policy.deep_view(), channel_id@),
{
    match policy.channel_weights.get(channel_id) {
        Some(weight) => *weight,
        None => 1,
    }
}

impl SlackConversationModel {
    /// How the channel is called in the timeline: its name behind a `#`, else its identifier.
    pub open spec fn title(self) -> Seq<char> {
        match self.shown_name() {
            Some(name) => "#"@ + name,
            None => self.id,
        }
    }

    /// Whether the history of the channel can be loaded: it is not archived, and not private
    /// without the user being a member.
    pub open spec fn syncable(self) -> bool {
        &&& self.is_archived != Some(true)
        &&& !(self.is_private == Some(true) && self.is_member == Some(false))
    }
}

/// How a channel is called in the timeline.
fn title_of(channel: &SlackConversation) -> (r: String)
    ensures
        r@ == channel.deep_view().title(),
{
    match channel.display_name() {
        Some(name) => labelled("#", name),
        None => channel.id.clone(),
    }
}

/// Whether the history of a channel can be loaded.
pub fn is_syncable_conversation(channel: &SlackConversation) -> (r: bool)
    ensures
        r == channel.deep_view().syncable(),
{
    let archived = match channel.is_archived {
        Some(archived) => archived,
        None => false,
    };
    if archived {
        return false;
    }
    let private = match channel.is_private {
        Some(private) => private,
        None => false,
    };
    if private {
        match channel.is_member {
            Some(member) => member,
            None => true,
        }
    } else {
        true
    }
}

impl SlackHistoryMessageModel {
    /// The thread of the message; a message without one starts its own.
    pub open spec fn thread(self) -> Seq<char> {
        match self.thread_ts {
            Some(thread) => thread,
            None => self.ts,
        }
    }

    /// Whether the message starts a thread and is of a kind that is shown.
    pub open spec fn is_listed(self) -> bool {
        self.thread() == self.ts && !is_service_message(self.subtype)
    }

    /// Who wrote the message: a user, else a bot.
    pub open spec fn author(self) -> Seq<char> {
        match first_given(self.user, self.bot_id) {
            Some(author) => author,
            None => "unknown"@,
        }
    }

    /// When there was last activity in the thread: at the latest reply, else at the message, else
    /// now.
    pub open spec fn last_activity(self, now: Timestamp) -> Timestamp {
        let latest = match self.latest_reply {
            Some(latest) => stamped_point(latest),
            None => None,
        };
        match (latest, stamped_point(self.ts)) {
            (Some(point), _) => point,
            (None, Some(point)) => point,
            (None, None) => now,
        }
    }
}

/// Whether a message of a history is shown, as far as its place and kind go.
pub fn is_listed_history_message(message: &SlackHistoryMessage) -> (r: bool)
    ensures
        r == message.deep_view().is_listed(),
{
    if let Some(thread) = &message.thread_ts {
        if !same_text(thread.as_str(), message.ts.as_str()) {
            return false;
        }
    }
    !is_service(&message.subtype)
}

/// The item of the timeline for a message of a channel's history, if it is shown.
pub open spec fn history_item(
    workspace_id: Seq<char>,
    channel: SlackConversationModel,
    user: Option<Seq<char>>,
    settings: AppSettingsModel,
    user_names: Names,
    user_avatar_paths: Names,
    attachments: Seq<AttachmentSummaryModel>,
    message: SlackHistoryMessageModel,
    now: Timestamp,
) -> Option<TimelineItemModel> {
    let body = message_body(
        message.text,
        message.blocks,
        SlackRenderLookupModel { user_names, channel_names: Seq::empty() },
    );
    let participant = user == Some(message.author());
    if !message.is_listed() || body.len() == 0 && attachments.len() == 0 {
        None
    } else {
        Some(
            TimelineItemModel {
                workspace_id,
                channel_id: channel.id,
                channel_name: channel.title(),
                message_ts: message.ts,
                thread_ts: message.thread(),
                author_id: message.author(),
                author_name: if participant {
                    "you"@
                } else {
                    match lookup(user_names, message.author()) {
                        Some(name) => name,
                        None => message.author(),
                    }
                },
                author_avatar_path: lookup(user_avatar_paths, message.author()),
                body,
                rich_text_blocks: message.blocks,
                reactions: shown_reactions(message.reactions, user),
                attachments,
                unread: true,
                participant,
                direct_mention: mentions(body, user),
                focus_keyword_hits: settings.timeline.keywords_in(body),
                watch_weight: set_weight(settings.timeline, channel.id),
                last_activity_at: message.last_activity(now),
                reply_state: ReplyStateModel::Idle,
            },
        )
    }
}

/// When there was last activity in the thread of a message.
fn last_activity_of(message: &SlackHistoryMessage, now: Timestamp) -> (r: Timestamp)
    ensures
        r == message.deep_view().last_activity(now),
{
    if let Some(latest) = &message.latest_reply {
        if let Some(point) = slack_ts_to_datetime(latest.as_str()) {
            return point;
        }
    }
    match slack_ts_to_datetime(message.ts.as_str()) {
        Some(point) => point,
        None => now,
    }
}

/// A copy of the text under a key.
fn text_under(map: &TextMap<String>, key: &str) -> (r: Option<String>)
    ensures
        r.deep_view() == lookup(map.deep_view(), key@),
{
    match map.get(key) {
        Some(value) => Some(value.clone()),
        None => None,
    }
}

/// Whether the text is the one that is given.
fn is_given(value: &Option<String>, text: &str) -> (r: bool)
    ensures
        r == (value.deep_view() == Some(text@)),
{
    match value {
        Some(value) => same_text(value.as_str(), text),
        None => false,
    }
}

/// The item of the timeline for a message of a channel's history, if it is shown. `attachments`
/// are its files as they are listed.
pub fn history_message_to_timeline_item(
    workspace_id: &str,
    channel: &SlackConversation,
    current_user_id: &Option<String>,
    settings: &AppSettings,
    user_names: &TextMap<String>,
    user_avatar_paths: &TextMap<String>,
    attachments: Vec<AttachmentSummary>,
    message: SlackHistoryMessage,
    now: Timestamp,
) -> (r: Option<TimelineItem>)
    ensures
        r.deep_view() == history_item(
            workspace_id@,
            channel.deep_view(),
            current_user_id.deep_view(),
            settings.deep_view(),
            user_names.deep_view(),
            user_avatar_paths.deep_view(),
            attachments.deep_view(),
            message.deep_view(),
            now,
        ),
{
    if !is_listed_history_message(&message) {
        return None;
    }
    let lookup_names = SlackRenderLookup {
        user_names: user_names.clone(),
        channel_names: TextMap::new(),
    };
    assert(message.blocks.deep_view() =~= message.blocks@);
    let body = body_of_message(&message.text, &message.blocks, &lookup_names);
    if body.as_str().is_empty() && attachments.len() == 0 {
        return None;
    }
    let author_id = match (&message.user, &message.bot_id) {
        (Some(user), _) => user.clone(),
        (None, Some(bot)) => bot.clone(),
        (None, None) => owned("unknown"),
    };
    let participant = is_given(current_user_id, author_id.as_str());
    let author_name = if participant {
        owned("you")
    } else {
        match user_names.get(author_id.as_str()) {
            Some(name) => name.clone(),
            None => author_id.clone(),
        }
    };
    let thread_ts = given_or(&message.thread_ts, message.ts.as_str());
    let last_activity_at = last_activity_of(&message, now);
    let reactions = reaction_summaries(&message.reactions, current_user_id);
    let ghost blocks = message.blocks@;
    let item = TimelineItem {
        workspace_id: owned(workspace_id),
        channel_id: channel.id.clone(),
        channel_name: title_of(channel),
        message_ts: message.ts,
        thread_ts,
        author_avatar_path: text_under(user_avatar_paths, author_id.as_str()),
        author_id,
        author_name,
        direct_mention: mentions_user(body.as_str(), current_user_id),
        focus_keyword_hits: settings.timeline.matching_keywords(body.as_str()),
        watch_weight: weight_of(&settings.timeline, channel.id.as_str()),
        body,
        rich_text_blocks: message.blocks,
        reactions,
        attachments,
        unread: true,
        participant,
        last_activity_at,
        reply_state: ReplyState::Idle,
    };
    assert(item.rich_text_blocks.deep_view() =~= blocks);
    Some(item)
}

/// The names that a window knows.
pub open spec fn known_names(state: UiStateModel) -> SlackRenderLookupModel {
    SlackRenderLookupModel { user_names: state.user_names, channel_names: state.known_channels }
}

impl SlackMessageEventModel {
    /// Who wrote the message.
    pub open spec fn author(self) -> Seq<char> {
        match self.user {
            Some(user) => user,
            None => "unknown"@,
        }
    }
}

/// The item of the timeline for a message that arrives live, if it is shown.
pub open spec fn live_item(
    state: UiStateModel,
    session: StoredSlackSessionModel,
    attachments: Seq<AttachmentSummaryModel>,
    event: SlackMessageEventModel,
    now: Timestamp,
) -> Option<TimelineItemModel> {
    let body = message_body(event.text, event.blocks, known_names(state));
    let participant = session.user_id == Some(event.author());
    if is_service_message(event.subtype) || body.len() == 0 && attachments.len() == 0 {
        None
    } else {
        Some(
            TimelineItemModel {
                workspace_id: session.workspace_id(),
                channel_id: event.channel,
                channel_name: match state.channel_name(event.channel) {
                    Some(name) => name,
                    None => event.channel,
                },
                message_ts: event.ts,
                thread_ts: match event.thread_ts {
                    Some(thread) => thread,
                    None => event.ts,
                },
                author_id: event.author(),
                author_name: state.author_name(event.author(), participant),
                author_avatar_path: state.author_avatar(event.author()),
                body,
                rich_text_blocks: event.blocks,
                reactions: shown_reactions(event.reactions, session.user_id),
                attachments,
                unread: true,
                participant,
                direct_mention: mentions(body, session.user_id),
                focus_keyword_hits: state.settings.timeline.keywords_in(body),
                watch_weight: set_weight(state.settings.timeline, event.channel),
                last_activity_at: match stamped_point(event.ts) {
                    Some(point) => point,
                    None => now,
                },
                reply_state: ReplyStateModel::Idle,
            },
        )
    }
}

/// Whether a message that arrives live is of a kind that is shown.
pub fn is_listed_live_message(event: &SlackMessageEvent) -> (r: bool)
    ensures
        r == !is_service_message(event.deep_view().subtype),
{
    !is_service(&event.subtype)
}

/// The item of the timeline for a message that arrives live, if it is shown. `attachments` are its
/// files as they are listed.
pub fn live_message_to_timeline_item(
    state: &UiState,
    session: &StoredSlackSession,
    attachments: Vec<AttachmentSummary>,
    event: SlackMessageEvent,
    now: Timestamp,
) -> (r: Option<TimelineItem>)
    ensures
        r.deep_view() == live_item(
            state.deep_view(),
            session.deep_view(),
            attachments.deep_view(),
            event.deep_view(),
            now,
        ),
{
    if is_service(&event.subtype) {
        return None;
    }
    let names = SlackRenderLookup {
        user_names: state.user_names.clone(),
        channel_names: state.known_channels.clone(),
    };
    assert(event.blocks.deep_view() =~= event.blocks@);
    let body = body_of_message(&event.text, &event.blocks, &names);
    if body.as_str().is_empty() && attachments.len() == 0 {
        return None;
    }
    let author_id = given_or(&event.user, "unknown");
    let participant = is_given(&session.user_id, author_id.as_str());
    let channel_name = match state.channel_name_for(event.channel.as_str()) {
        Some(name) => name,
        None => event.channel.clone(),
    };
    let thread_ts = given_or(&event.thread_ts, event.ts.as_str());
    let last_activity_at = match slack_ts_to_datetime(event.ts.as_str()) {
        Some(point) => point,
        None => now,
    };
    let reactions = reaction_summaries(&event.reactions, &session.user_id);
    let ghost blocks = event.blocks@;
    let item = TimelineItem {
        workspace_id: session.workspace_id(),
        watch_weight: weight_of(&state.settings.timeline, event.channel.as_str()),
        channel_id: event.channel,
        channel_name,
        message_ts: event.ts,
        thread_ts,
        author_name: state.author_name_for(author_id.as_str(), participant),
        author_avatar_path: state.author_avatar_path_for(author_id.as_str()),
        author_id,
        direct_mention: mentions_user(body.as_str(), &session.user_id),
        focus_keyword_hits: state.settings.timeline.matching_keywords(body.as_str()),
        body,
        rich_text_blocks: event.blocks,
        reactions,
        attachments,
        unread: true,
        participant,
        last_activity_at,
        reply_state: ReplyState::Idle,
    };
    assert(item.rich_text_blocks.deep_view() =~= blocks);
    Some(item)
}

/// A message as it is on the server after a change.
#[derive(Debug)]
pub struct MessageSnapshot {
    pub message_ts: String,
    pub body: String,
    pub rich_text_blocks: Vec<Json>,
    pub reactions: Vec<ReactionSummary>,
    pub attachments: Vec<AttachmentSummary>,
}

/// A message as it is on the server after a change. Names of users and channels in blocks are not
/// looked up.
pub fn live_message_changed_snapshot(
    session: &StoredSlackSession,
    attachments: Vec<AttachmentSummary>,
    event: &SlackMessageChangedEvent,
) -> (r: MessageSnapshot)
    ensures
        r.message_ts@ == event.deep_view().message.ts,
        r.body@ == message_body(
            event.deep_view().message.text,
            event.deep_view().message.blocks,
            SlackRenderLookupModel { user_names: Seq::empty(), channel_names: Seq::empty() },
        ),
        r.rich_text_blocks.deep_view() == event.deep_view().message.blocks,
        r.reactions.deep_view() == shown_reactions(
            event.deep_view().message.reactions,
            session.deep_view().user_id,
        ),
        r.attachments == attachments,
{
    let message = event.message.clone();
    let ghost said = event.deep_view().message;
    assert(event.message.blocks.deep_view() =~= event.message.blocks@);
    let body = body_of_message(
        &event.message.text,
        &event.message.blocks,
        &SlackRenderLookup::default(),
    );
    MessageSnapshot {
        message_ts: message.ts,
        body,
        rich_text_blocks: message.blocks,
        reactions: reaction_summaries(&event.message.reactions, &session.user_id),
        attachments,
    }
}

/// Which message was deleted: the one that is named, else the one that was there before.
pub fn live_message_deleted_ts(event: &SlackMessageDeletedEvent) -> (r: Option<String>)
    ensures
        r.deep_view() == first_given(
            event.deep_view().deleted_ts,
            match event.deep_view().previous_message {
                Some(message) => Some(message.ts),
                None => None,
            },
        ),
{
    match &event.deleted_ts {
        Some(ts) => Some(ts.clone()),
        None => match &event.previous_message {
            Some(message) => Some(message.ts.clone()),
            None => None,
        },
    }
}

/// The item for a message that the user sent.
pub open spec fn sent_item(
    session: StoredSlackSessionModel,
    workspace_id: Seq<char>,
    channel_id: Seq<char>,
    channel_name: Seq<char>,
    message_ts: Seq<char>,
    thread_ts: Seq<char>,
    body: Seq<char>,
    settings: AppSettingsModel,
    watch_weight: u8,
    avatar: Option<Seq<char>>,
    now: Timestamp,
) -> TimelineItemModel {
    TimelineItemModel {
        workspace_id,
        channel_id,
        channel_name,
        message_ts,
        thread_ts,
        author_id: match session.poster() {
            Some(poster) => poster,
            None => "U-me"@,
        },
        author_name: "you"@,
        author_avatar_path: avatar,
        body,
        rich_text_blocks: Seq::empty(),
        reactions: Seq::empty(),
        attachments: Seq::empty(),
        unread: false,
        participant: true,
        direct_mention: false,
        focus_keyword_hits: settings.timeline.keywords_in(body),
        watch_weight,
        last_activity_at: now,
        reply_state: ReplyStateModel::Idle,
    }
}

/// The item for a message that the user sent.
fn item_sent(
    session: &StoredSlackSession,
    workspace_id: String,
    channel_id: String,
    channel_name: String,
    message_ts: String,
    thread_ts: String,
    body: &str,
    settings: &AppSettings,
    watch_weight: u8,
    avatar: Option<String>,
    now: Timestamp,
) -> (r: TimelineItem)
    ensures
        r.deep_view() == sent_item(
            session.deep_view(),
            workspace_id@,
            channel_id@,
            channel_name@,
            message_ts@,
            thread_ts@,
            body@,
            settings.deep_view(),
            watch_weight,
            avatar.deep_view(),
            now,
        ),
{
    let author_id = match session.poster_id() {
        Some(poster) => poster,
        None => owned("U-me"),
    };
    let item = TimelineItem {
        workspace_id,
        channel_id,
        channel_name,
        message_ts,
        thread_ts,
        author_id,
        author_name: owned("you"),
        author_avatar_path: avatar,
        body: owned(body),
        rich_text_blocks: Vec::new(),
        reactions: Vec::new(),
        attachments: Vec::new(),
        unread: false,
        participant: true,
        direct_mention: false,
        focus_keyword_hits: settings.timeline.matching_keywords(body),
        watch_weight,
        last_activity_at: now,
        reply_state: ReplyState::Idle,
    };
    assert(item.rich_text_blocks.deep_view() =~= Seq::empty());
    assert(item.reactions.deep_view() =~= Seq::empty());
    assert(item.attachments.deep_view() =~= Seq::empty());
    item
}

/// The item for a message that the user posted in a channel. `response_channel` and `response_ts`
/// are what Slack answered.
pub fn sent_channel_message(
    session: &StoredSlackSession,
    channel_id: &str,
    channel_name: &str,
    body: &str,
    settings: &AppSettings,
    self_avatar_path: Option<String>,
    response_channel: String,
    response_ts: String,
    now: Timestamp,
) -> (r: TimelineItem)
    ensures
        r.deep_view() == sent_item(
            session.deep_view(),
            session.deep_view().workspace_id(),
            response_channel@,
            channel_name@,
            response_ts@,
            response_ts@,
            body@,
            settings.deep_view(),
            set_weight(settings.deep_view().timeline, channel_id@),
            self_avatar_path.deep_view(),
            now,
        ),
{
    let thread_ts = response_ts.clone();
    item_sent(
        session,
        session.workspace_id(),
        response_channel,
        owned(channel_name),
        response_ts,
        thread_ts,
        body,
        settings,
        weight_of(&settings.timeline, channel_id),
        self_avatar_path,
        now,
    )
}

/// The item for a reply that the user posted in the thread of an item. `response_channel` and
/// `response_ts` are what Slack answered.
pub fn sent_thread_reply(
    session: &StoredSlackSession,
    selected: &TimelineItem,
    body: &str,
    settings: &AppSettings,
    self_avatar_path: Option<String>,
    response_channel: String,
    response_ts: String,
    now: Timestamp,
) -> (r: TimelineItem)
    ensures
        r.deep_view() == sent_item(
            session.deep_view(),
            selected.workspace_id@,
            response_channel@,
            selected.channel_name@,
            response_ts@,
            selected.thread_ts@,
            body@,
            settings.deep_view(),
            selected.watch_weight,
            self_avatar_path.deep_view(),
            now,
        ),
{
    item_sent(
        session,
        selected.workspace_id.clone(),
        response_channel,
        selected.channel_name.clone(),
        response_ts,
        selected.thread_ts.clone(),
        body,
        settings,
        selected.watch_weight,
        self_avatar_path,
        now,
    )
}

/// Since when the history is loaded: some days ago, as Slack's timestamp.
pub fn history_start(now: Timestamp, days: u16) -> (r: String)
    ensures
        r@ == stamp(earlier_by(now, days as int * 86_400)),
{
    slack_ts_from_datetime(now.minus_seconds(days as u64 * 86_400))
}

/// How many days a refresh in the background looks back.
pub const REFRESH_DAYS: u16 = 2;

/// Since when a refresh in the background asks for messages, as Slack's timestamp.
pub fn refresh_start(now: Timestamp) -> (r: String)
    ensures
        r@ == stamp(earlier_by(now, 172_800)),
{
    history_start(now, REFRESH_DAYS)
}

} // verus!
