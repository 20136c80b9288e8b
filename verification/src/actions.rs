//! What the user asks of Slack: what is checked before a request, and what its answer changes.
use vstd::prelude::*;
use vstd::string::*;

use crate::api::labelled;
use crate::auth::{
    enclosed, SlackAuthStatus, SlackAuthStatusModel, StoredSlackSession, StoredSlackSessionModel,
};
use crate::collections::first_match;
use crate::display::{is_principal, item_owned_by_connected_user};
use crate::emoji::{normalize_reaction_name, reaction_name};
use crate::items::is_message;
use crate::models::{
    ReactionSummary, ReactionSummaryModel, TimelineItem, TimelineItemModel,
};
use crate::settings::{
    OfficeSettings, OfficeSettingsModel, SlackConfigSettings, SlackConfigSettingsModel,
};
use crate::slack::{SlackConversation, SlackConversationModel};
use crate::startup::{normalized_entry_value, SLACK_APP_TOKEN_ENV};
use crate::state::{Names, UiState, UiStateModel};
use crate::text::{
    blank, decimal, is_blank, non_blank, owned, same_option, same_text, to_decimal, trim, trimmed,
    trimmed_non_blank,
};

verus! {

impl SlackAuthStatusModel {
    /// Whether Slack is connected.
    pub open spec fn connected(self) -> bool {
        self is Connected
    }
}

impl SlackAuthStatus {
    /// Whether Slack is connected.
    pub fn is_connected(&self) -> (r: bool)
        ensures
            r == self.deep_view().connected(),
    {
        match self {
            SlackAuthStatus::Connected(_) => true,
            _ => false,
        }
    }
}

/// What a check says: what to go on with, or what the user is told.
pub open spec fn checked<T: DeepView>(r: Result<T, String>) -> Result<T::V, Seq<char>> {
    match r {
        Ok(value) => Ok(value.deep_view()),
        Err(message) => Err(message@),
    }
}

/// Whether Slack is connected, or what the user is told if it is not.
pub open spec fn need_connection(status: SlackAuthStatusModel, message: Seq<char>) -> Result<
    (),
    Seq<char>,
> {
    if status.connected() {
        Ok(())
    } else {
        Err(message)
    }
}

/// Whether the user reacted with an emoji already.
pub open spec fn reacted_with(reactions: Seq<ReactionSummaryModel>, name: Seq<char>) -> bool {
    exists|k: int|
        0 <= k < reactions.len() && (#[trigger] reactions[k]).me && reaction_name(reactions[k].name)
            == Some(name)
}

/// Whether the user reacted with an emoji already.
fn has_reacted(reactions: &Vec<ReactionSummary>, name: &str) -> (r: bool)
    ensures
        r == reacted_with(reactions.deep_view(), name@),
{
    let mut i: usize = 0;
    while i < reactions.len()
        invariant
            i <= reactions.len(),
            forall|k: int|
                0 <= k < i ==> !((#[trigger] reactions.deep_view()[k]).me && reaction_name(
                    reactions.deep_view()[k].name,
                ) == Some(name@)),
        decreases reactions.len() - i,
    {
        assert(reactions.deep_view()[i as int] == reactions@[i as int].deep_view());
        if reactions[i].me {
            if let Some(known) = normalize_reaction_name(reactions[i].name.as_str()) {
                if same_text(known.as_str(), name) {
                    return true;
                }
            }
        }
        i += 1;
    }
    false
}

/// The reaction that is added to an item, or why none is.
pub open spec fn reaction_to_add(
    reactions: Seq<ReactionSummaryModel>,
    name: Option<Seq<char>>,
    status: SlackAuthStatusModel,
) -> Result<Seq<char>, Seq<char>> {
    match name {
        None => Err("Reaction must be like :thumbsup:, party-parrot, or 👍."@),
        Some(name) => if reacted_with(reactions, name) {
            Err("You already reacted with that emoji."@)
        } else if !status.connected() {
            Err("Connect Slack before adding a reaction."@)
        } else {
            Ok(name)
        },
    }
}

/// The reaction that is added to an item, given the name that the user's text stands for.
pub fn check_reaction(item: &TimelineItem, name: Option<String>, auth_state: &SlackAuthStatus) -> (r:
    Result<String, String>)
    ensures
        checked(r) == reaction_to_add(
            item.deep_view().reactions,
            name.deep_view(),
            auth_state.deep_view(),
        ),
{
    match name {
        None => Err(owned("Reaction must be like :thumbsup:, party-parrot, or 👍.")),
        Some(name) => if has_reacted(&item.reactions, name.as_str()) {
            Err(owned("You already reacted with that emoji."))
        } else if !auth_state.is_connected() {
            Err(owned("Connect Slack before adding a reaction."))
        } else {
            Ok(name)
        },
    }
}

/// The reaction that is added to an item when the user typed a text.
pub fn start_add_reaction(
    item: &TimelineItem,
    raw_reaction_name: &str,
    auth_state: &SlackAuthStatus,
) -> (r: Result<String, String>)
    ensures
        checked(r) == reaction_to_add(
            item.deep_view().reactions,
            reaction_name(raw_reaction_name@),
            auth_state.deep_view(),
        ),
{
    check_reaction(item, normalize_reaction_name(raw_reaction_name), auth_state)
}

/// What the user is told while a reaction is added.
pub fn adding_reaction_status(name: &str) -> (r: String)
    ensures
        r@ == "Adding :"@ + name@ + ": to Slack..."@,
{
    enclosed("Adding :", name, ": to Slack...")
}

/// Whether the link to a message can be fetched.
pub fn start_share_link_copy(auth_state: &SlackAuthStatus) -> (r: Result<(), String>)
    ensures
        checked(r) == need_connection(
            auth_state.deep_view(),
            "Connect Slack before copying a share link."@,
        ),
{
    if auth_state.is_connected() {
        Ok(())
    } else {
        Err(owned("Connect Slack before copying a share link."))
    }
}

/// The text that a message gets by an edit, or why it is not edited.
pub fn start_edit_message(item: &TimelineItem, body: &str, auth_state: &SlackAuthStatus) -> (r:
    Result<String, String>)
    ensures
        checked(r) == (if is_blank(body@) {
            Err("Edited message body is empty."@)
        } else if !is_principal(auth_state.deep_view(), item.author_id@) {
            Err("Only your own Slack messages can be edited."@)
        } else {
            Ok(trim(body@))
        }),
{
    let body = trimmed(body);
    if body.as_str().is_empty() {
        return Err(owned("Edited message body is empty."));
    }
    if !item_owned_by_connected_user(item, auth_state) {
        return Err(owned("Only your own Slack messages can be edited."));
    }
    Ok(body)
}

/// Whether a message is deleted, or why it is not.
pub fn start_delete_message(item: &TimelineItem, auth_state: &SlackAuthStatus) -> (r: Result<
    (),
    String,
>)
    ensures
        checked(r) == (if !is_principal(auth_state.deep_view(), item.author_id@) {
            Err("Only your own Slack messages can be deleted."@)
        } else {
            Ok(())
        }),
{
    if !item_owned_by_connected_user(item, auth_state) {
        return Err(owned("Only your own Slack messages can be deleted."));
    }
    Ok(())
}

/// A choice that was made: one that is not empty.
pub open spec fn chosen(id: Option<Seq<char>>, message: Seq<char>) -> Result<Seq<char>, Seq<char>> {
    match id {
        Some(id) if id.len() > 0 => Ok(id),
        _ => Err(message),
    }
}

/// A choice that was made.
fn require_choice(id: Option<&str>, message: &str) -> (r: Result<String, String>)
    ensures
        checked(r) == chosen(id.deep_view(), message@),
{
    match id {
        Some(id) => if id.is_empty() {
            Err(owned(message))
        } else {
            Ok(owned(id))
        },
        None => Err(owned(message)),
    }
}

/// A name that was typed: without white space around it, and not empty.
pub open spec fn typed(name: Seq<char>, message: Seq<char>) -> Result<Seq<char>, Seq<char>> {
    match trimmed_non_blank(name) {
        Some(name) => Ok(name),
        None => Err(message),
    }
}

/// A name that was typed.
fn require_name(name: &str, message: &str) -> (r: Result<String, String>)
    ensures
        checked(r) == typed(name@, message@),
{
    match non_blank(name) {
        Some(name) => Ok(name),
        None => Err(owned(message)),
    }
}

/// The name of a channel to be created, or why none is.
pub fn start_create_channel(raw_name: &str, auth_state: &SlackAuthStatus) -> (r: Result<
    String,
    String,
>)
    ensures
        checked(r) == (match typed(raw_name@, "Enter a channel name first."@) {
            Ok(name) => match need_connection(
                auth_state.deep_view(),
                "Connect Slack before creating a channel."@,
            ) {
                Ok(_) => Ok(name),
                Err(message) => Err(message),
            },
            Err(message) => Err(message),
        }),
{
    match require_name(raw_name, "Enter a channel name first.") {
        Ok(name) => if auth_state.is_connected() {
            Ok(name)
        } else {
            Err(owned("Connect Slack before creating a channel."))
        },
        Err(message) => Err(message),
    }
}

/// The channel to be renamed and its new name, or why none is.
pub fn start_rename_channel(
    channel_id: Option<&str>,
    raw_name: &str,
    auth_state: &SlackAuthStatus,
) -> (r: Result<(String, String), String>)
    ensures
        checked(r) == (match (
            chosen(channel_id.deep_view(), "Select a channel first."@),
            typed(raw_name@, "Enter a new channel name first."@),
        ) {
            (Err(message), _) => Err(message),
            (_, Err(message)) => Err(message),
            (Ok(channel), Ok(name)) => match need_connection(
                auth_state.deep_view(),
                "Connect Slack before renaming a channel."@,
            ) {
                Ok(_) => Ok((channel, name)),
                Err(message) => Err(message),
            },
        }),
{
    let channel = match require_choice(channel_id, "Select a channel first.") {
        Ok(channel) => channel,
        Err(message) => return Err(message),
    };
    let name = match require_name(raw_name, "Enter a new channel name first.") {
        Ok(name) => name,
        Err(message) => return Err(message),
    };
    if auth_state.is_connected() {
        Ok((channel, name))
    } else {
        Err(owned("Connect Slack before renaming a channel."))
    }
}

/// The channel to be archived, or why none is.
pub fn start_archive_channel(channel_id: Option<&str>, auth_state: &SlackAuthStatus) -> (r: Result<
    String,
    String,
>)
    ensures
        checked(r) == (match chosen(channel_id.deep_view(), "Select a channel first."@) {
            Ok(channel) => match need_connection(
                auth_state.deep_view(),
                "Connect Slack before archiving a channel."@,
            ) {
                Ok(_) => Ok(channel),
                Err(message) => Err(message),
            },
            Err(message) => Err(message),
        }),
{
    match require_choice(channel_id, "Select a channel first.") {
        Ok(channel) => if auth_state.is_connected() {
            Ok(channel)
        } else {
            Err(owned("Connect Slack before archiving a channel."))
        },
        Err(message) => Err(message),
    }
}

/// The channel and the member that a change of membership is about, or why there is none.
pub open spec fn membership_change(
    channel_id: Option<Seq<char>>,
    user_id: Option<Seq<char>>,
    status: SlackAuthStatusModel,
    unconnected: Seq<char>,
) -> Result<(Seq<char>, Seq<char>), Seq<char>> {
    match (
        chosen(channel_id, "Select a channel first."@),
        chosen(user_id, "Select a member first."@),
    ) {
        (Err(message), _) => Err(message),
        (_, Err(message)) => Err(message),
        (Ok(channel), Ok(user)) => match need_connection(status, unconnected) {
            Ok(_) => Ok((channel, user)),
            Err(message) => Err(message),
        },
    }
}

/// The channel and the member that a change of membership is about.
fn check_membership(
    channel_id: Option<&str>,
    user_id: Option<&str>,
    auth_state: &SlackAuthStatus,
    unconnected: &str,
) -> (r: Result<(String, String), String>)
    ensures
        checked(r) == membership_change(
            channel_id.deep_view(),
            user_id.deep_view(),
            auth_state.deep_view(),
            unconnected@,
        ),
{
    let channel = match require_choice(channel_id, "Select a channel first.") {
        Ok(channel) => channel,
        Err(message) => return Err(message),
    };
    let user = match require_choice(user_id, "Select a member first.") {
        Ok(user) => user,
        Err(message) => return Err(message),
    };
    if auth_state.is_connected() {
        Ok((channel, user))
    } else {
        Err(owned(unconnected))
    }
}

/// The channel and the member to be invited, or why none is.
pub fn start_invite_member(
    channel_id: Option<&str>,
    user_id: Option<&str>,
    auth_state: &SlackAuthStatus,
) -> (r: Result<(String, String), String>)
    ensures
        checked(r) == membership_change(
            channel_id.deep_view(),
            user_id.deep_view(),
            auth_state.deep_view(),
            "Connect Slack before inviting a member."@,
        ),
{
    check_membership(channel_id, user_id, auth_state, "Connect Slack before inviting a member.")
}

/// The channel and the member to be removed, or why none is.
pub fn start_kick_member(
    channel_id: Option<&str>,
    user_id: Option<&str>,
    auth_state: &SlackAuthStatus,
) -> (r: Result<(String, String), String>)
    ensures
        checked(r) == membership_change(
            channel_id.deep_view(),
            user_id.deep_view(),
            auth_state.deep_view(),
            "Connect Slack before removing a member."@,
        ),
{
    check_membership(channel_id, user_id, auth_state, "Connect Slack before removing a member.")
}

/// What an action on channels changed, and what the user is told of it.
#[derive(Debug, PartialEq, Eq)]
pub struct AdminActionUpdate {
    pub message: String,
    pub created_channel: Option<(String, String)>,
    pub renamed_channel: Option<(String, String)>,
    pub archived_channel_id: Option<String>,
}

/// What a [`AdminActionUpdate`] says: its texts as sequences of characters.
#[verifier::ext_equal]
pub struct AdminActionUpdateModel {
    pub message: Seq<char>,
    pub created_channel: Option<(Seq<char>, Seq<char>)>,
    pub renamed_channel: Option<(Seq<char>, Seq<char>)>,
    pub archived_channel_id: Option<Seq<char>>,
}

impl DeepView for AdminActionUpdate {
    type V = AdminActionUpdateModel;

    open spec fn deep_view(&self) -> AdminActionUpdateModel {
        AdminActionUpdateModel {
            message: self.message@,
            created_channel: self.created_channel.deep_view(),
            renamed_channel: self.renamed_channel.deep_view(),
            archived_channel_id: self.archived_channel_id.deep_view(),
        }
    }
}

impl Clone for AdminActionUpdate {
    fn clone(&self) -> (copy: Self)
        ensures
            copy.deep_view() == self.deep_view(),
    {
        let copy = AdminActionUpdate {
            message: self.message.clone(),
            created_channel: copy_pair(&self.created_channel),
            renamed_channel: copy_pair(&self.renamed_channel),
            archived_channel_id: self.archived_channel_id.clone(),
        };
        assert(copy.archived_channel_id.deep_view() =~= self.archived_channel_id.deep_view());
        copy
    }
}

/// A copy of a pair of texts.
fn copy_pair(pair: &Option<(String, String)>) -> (copy: Option<(String, String)>)
    ensures
        copy.deep_view() == pair.deep_view(),
{
    match pair {
        Some(pair) => Some((pair.0.clone(), pair.1.clone())),
        None => None,
    }
}

impl SlackConversationModel {
    /// The name of the channel, else its identifier.
    pub open spec fn plain_name(self) -> Seq<char> {
        match self.shown_name() {
            Some(name) => name,
            None => self.id,
        }
    }
}

/// The name of a channel, else its identifier.
fn plain_name_of(channel: &SlackConversation) -> (r: String)
    ensures
        r@ == channel.deep_view().plain_name(),
{
    match channel.display_name() {
        Some(name) => owned(name),
        None => channel.id.clone(),
    }
}

/// What changes when Slack created a channel.
pub fn created_channel_update(channel: SlackConversation) -> (r: AdminActionUpdate)
    ensures
        r.deep_view() == (AdminActionUpdateModel {
            message: "Created Slack channel #"@ + channel.deep_view().plain_name() + "."@,
            created_channel: Some((channel.id@, channel.deep_view().plain_name())),
            renamed_channel: None,
            archived_channel_id: None,
        }),
{
    let name = plain_name_of(&channel);
    AdminActionUpdate {
        message: enclosed("Created Slack channel #", name.as_str(), "."),
        created_channel: Some((channel.id, name)),
        renamed_channel: None,
        archived_channel_id: None,
    }
}

/// What changes when Slack renamed a channel.
pub fn renamed_channel_update(channel: SlackConversation) -> (r: AdminActionUpdate)
    ensures
        r.deep_view() == (AdminActionUpdateModel {
            message: "Renamed Slack channel to #"@ + channel.deep_view().plain_name() + "."@,
            created_channel: None,
            renamed_channel: Some((channel.id@, channel.deep_view().plain_name())),
            archived_channel_id: None,
        }),
{
    let name = plain_name_of(&channel);
    AdminActionUpdate {
        message: enclosed("Renamed Slack channel to #", name.as_str(), "."),
        created_channel: None,
        renamed_channel: Some((channel.id, name)),
        archived_channel_id: None,
    }
}

/// What changes when Slack archived a channel.
pub fn archived_channel_update(channel_id: &str) -> (r: AdminActionUpdate)
    ensures
        r.deep_view() == (AdminActionUpdateModel {
            message: "Archived Slack channel."@,
            created_channel: None,
            renamed_channel: None,
            archived_channel_id: Some(channel_id@),
        }),
{
    AdminActionUpdate {
        message: owned("Archived Slack channel."),
        created_channel: None,
        renamed_channel: None,
        archived_channel_id: Some(owned(channel_id)),
    }
}

/// What the user is told when a member was invited.
pub fn invited_member_update(user_id: &str) -> (r: AdminActionUpdate)
    ensures
        r.deep_view() == (AdminActionUpdateModel {
            message: "Invited "@ + user_id@ + " to the Slack channel."@,
            created_channel: None,
            renamed_channel: None,
            archived_channel_id: None,
        }),
{
    AdminActionUpdate {
        message: enclosed("Invited ", user_id, " to the Slack channel."),
        created_channel: None,
        renamed_channel: None,
        archived_channel_id: None,
    }
}

/// What the user is told when a member was removed.
pub fn removed_member_update(user_id: &str) -> (r: AdminActionUpdate)
    ensures
        r.deep_view() == (AdminActionUpdateModel {
            message: "Removed "@ + user_id@ + " from the Slack channel."@,
            created_channel: None,
            renamed_channel: None,
            archived_channel_id: None,
        }),
{
    AdminActionUpdate {
        message: enclosed("Removed ", user_id, " from the Slack channel."),
        created_channel: None,
        renamed_channel: None,
        archived_channel_id: None,
    }
}

/// A message to be posted in a channel.
#[derive(Debug, PartialEq, Eq)]
pub struct ChannelPost {
    pub channel_id: String,
    pub channel_name: String,
    /// The picture of who posts.
    pub self_avatar_path: Option<String>,
}

/// What a [`ChannelPost`] says: its texts as sequences of characters.
#[verifier::ext_equal]
pub struct ChannelPostModel {
    pub channel_id: Seq<char>,
    pub channel_name: Seq<char>,
    pub self_avatar_path: Option<Seq<char>>,
}

impl DeepView for ChannelPost {
    type V = ChannelPostModel;

    open spec fn deep_view(&self) -> ChannelPostModel {
        ChannelPostModel {
            channel_id: self.channel_id@,
            channel_name: self.channel_name@,
            self_avatar_path: self.self_avatar_path.deep_view(),
        }
    }
}

impl Clone for ChannelPost {
    fn clone(&self) -> (copy: Self)
        ensures
            copy.deep_view() == self.deep_view(),
    {
        let copy = ChannelPost {
            channel_id: self.channel_id.clone(),
            channel_name: self.channel_name.clone(),
            self_avatar_path: self.self_avatar_path.clone(),
        };
        assert(copy.self_avatar_path.deep_view() =~= self.self_avatar_path.deep_view());
        copy
    }
}

/// The picture of who posts with a session.
pub open spec fn poster_avatar(state: UiStateModel, session: StoredSlackSessionModel) -> Option<
    Seq<char>,
> {
    match session.poster() {
        Some(poster) => state.author_avatar(poster),
        None => None,
    }
}

/// The picture of who posts with a session.
fn avatar_of_poster(state: &UiState, session: &StoredSlackSession) -> (r: Option<String>)
    ensures
        r.deep_view() == poster_avatar(state.deep_view(), session.deep_view()),
{
    match session.poster_id() {
        Some(poster) => state.author_avatar_path_for(poster.as_str()),
        None => None,
    }
}

/// The message to be posted, or why none is: it needs a text, a channel that may be written to
/// and a connection.
pub open spec fn channel_post(
    state: UiStateModel,
    body: Seq<char>,
    channel_id: Option<Seq<char>>,
    status: SlackAuthStatusModel,
) -> Result<ChannelPostModel, Seq<char>> {
    if is_blank(body) {
        Err("Message body is empty."@)
    } else {
        match (chosen(channel_id, "Choose a channel before sending."@), status) {
            (Err(message), _) => Err(message),
            (Ok(channel), SlackAuthStatusModel::Connected(session)) => if !state.settings.permission(
                channel,
            ).writable() {
                Err(
                    "This channel is configured as read-only. Change channel permissions before posting."@,
                )
            } else {
                Ok(
                    ChannelPostModel {
                        channel_id: channel,
                        channel_name: match state.channel_name(channel) {
                            Some(name) => name,
                            None => channel,
                        },
                        self_avatar_path: poster_avatar(state, session),
                    },
                )
            },
            _ => Err("Connect Slack before sending a message."@),
        }
    }
}

/// The message to be posted, or why none is.
pub fn start_channel_post(
    state: &UiState,
    body: &str,
    channel_id: Option<&str>,
    auth_state: &SlackAuthStatus,
) -> (r: Result<ChannelPost, String>)
    ensures
        checked(r) == channel_post(
            state.deep_view(),
            body@,
            channel_id.deep_view(),
            auth_state.deep_view(),
        ),
{
    if blank(body) {
        return Err(owned("Message body is empty."));
    }
    let channel_id = match require_choice(channel_id, "Choose a channel before sending.") {
        Ok(channel_id) => channel_id,
        Err(message) => return Err(message),
    };
    match auth_state {
        SlackAuthStatus::Connected(session) => {
            if !state.settings.can_write_channel(channel_id.as_str()) {
                return Err(
                    owned(
                        "This channel is configured as read-only. Change channel permissions before posting.",
                    ),
                );
            }
            let channel_name = match state.channel_name_for(channel_id.as_str()) {
                Some(name) => name,
                None => channel_id.clone(),
            };
            let self_avatar_path = avatar_of_poster(state, session);
            let post = ChannelPost { channel_id, channel_name, self_avatar_path };
            Ok(post)
        },
        _ => Err(owned("Connect Slack before sending a message.")),
    }
}

/// A message is only ever posted to a channel that may be written to, and hence read.
pub proof fn law_posts_go_to_writable_channels(
    state: UiStateModel,
    body: Seq<char>,
    channel_id: Option<Seq<char>>,
    status: SlackAuthStatusModel,
)
    ensures
        channel_post(state, body, channel_id, status) matches Ok(post) ==> {
            &&& state.settings.permission(post.channel_id).writable()
            &&& state.settings.permission(post.channel_id).readable()
            &&& !is_blank(body)
            &&& status.connected()
        },
{
}

/// The item that a reply goes to and the picture of who posts it, or why none is posted.
pub open spec fn thread_reply(
    state: UiStateModel,
    thread_ts: Seq<char>,
    body: Seq<char>,
    status: SlackAuthStatusModel,
) -> Result<(TimelineItemModel, Option<Seq<char>>), Seq<char>> {
    if is_blank(body) {
        Err("Reply body is empty."@)
    } else {
        match first_match(state.source_items, is_message(thread_ts)) {
            None => Err("The thread is no longer available in the cache."@),
            Some(root) => if !state.settings.permission(root.channel_id).writable() {
                Err("This channel is configured as read-only. Replies are disabled."@)
            } else {
                match status {
                    SlackAuthStatusModel::Connected(session) => Ok(
                        (root, poster_avatar(state, session)),
                    ),
                    _ => Err("Connect Slack before sending a reply."@),
                }
            },
        }
    }
}

/// The item that a reply goes to and the picture of who posts it, or why none is posted.
pub fn start_thread_reply(
    state: &UiState,
    thread_ts: &str,
    body: &str,
    auth_state: &SlackAuthStatus,
) -> (r: Result<(TimelineItem, Option<String>), String>)
    ensures
        checked(r) == thread_reply(state.deep_view(), thread_ts@, body@, auth_state.deep_view()),
{
    if blank(body) {
        return Err(owned("Reply body is empty."));
    }
    let root = match state.root_item(thread_ts) {
        Some(root) => root,
        None => return Err(owned("The thread is no longer available in the cache.")),
    };
    if !state.settings.can_write_channel(root.channel_id.as_str()) {
        return Err(owned("This channel is configured as read-only. Replies are disabled."));
    }
    match auth_state {
        SlackAuthStatus::Connected(session) => {
            let avatar = avatar_of_poster(state, session);
            Ok((root, avatar))
        },
        _ => Err(owned("Connect Slack before sending a reply.")),
    }
}

/// The title and the subtitle of a thread's column.
pub open spec fn thread_titles(state: UiStateModel, thread_ts: Seq<char>) -> (Seq<char>, Seq<char>) {
    (
        match first_match(state.source_items, is_message(thread_ts)) {
            Some(root) => root.channel_name,
            None => "Thread"@,
        },
        if first_match(
            state.ranked_items,
            |ranked: crate::models::RankedTimelineItemModel| ranked.item.thread_ts == thread_ts,
        ) is None && state.thread(thread_ts).len() == 0 {
            "Thread is no longer cached."@
        } else {
            decimal(state.thread(thread_ts).len()) + " messages"@
        },
    )
}

/// The title and the subtitle of a thread's column.
pub fn thread_column_titles(state: &UiState, thread_ts: &str) -> (r: (String, String))
    ensures
        r.deep_view() == thread_titles(state.deep_view(), thread_ts@),
{
    let title = match state.root_item(thread_ts) {
        Some(root) => root.channel_name,
        None => owned("Thread"),
    };
    let items = state.thread_items(thread_ts);
    let ranked = state.ranked_item_for_thread(thread_ts);
    let subtitle = if ranked.is_none() && items.len() == 0 {
        owned("Thread is no longer cached.")
    } else {
        labelled(to_decimal(items.len() as u64).as_str(), " messages")
    };
    (title, subtitle)
}

/// The rooms to choose from: those that are known, and before them the active one if it is not.
pub open spec fn room_options(state: UiStateModel) -> Names {
    let known = state.settings.workspaces.map_values(
        |profile: crate::settings::WorkspaceProfileModel| (profile.key, profile.label),
    );
    if exists|k: int| 0 <= k < known.len() && (#[trigger] known[k]).0 == state.workspace_key() {
        known
    } else {
        seq![(state.workspace_key(), "Default room"@)] + known
    }
}

/// The rooms to choose from.
pub fn workspace_options(state: &UiState) -> (r: Vec<(String, String)>)
    ensures
        r.deep_view() == room_options(state.deep_view()),
{
    let active = state.active_workspace_key();
    let workspaces = &state.settings.workspaces;
    let ghost known = state.deep_view().settings.workspaces.map_values(
        |profile: crate::settings::WorkspaceProfileModel| (profile.key, profile.label),
    );
    let mut listed = false;
    let mut i: usize = 0;
    while i < workspaces.len()
        invariant
            i <= workspaces.len(),
            workspaces.deep_view() == state.deep_view().settings.workspaces,
            known == workspaces.deep_view().map_values(
                |profile: crate::settings::WorkspaceProfileModel| (profile.key, profile.label),
            ),
            listed == (exists|k: int| 0 <= k < i && (#[trigger] known[k]).0 == active@),
        decreases workspaces.len() - i,
    {
        assert(known[i as int].0 == workspaces@[i as int].deep_view().key);
        if same_text(workspaces[i].key.as_str(), active.as_str()) {
            listed = true;
        }
        i += 1;
    }
    let mut options: Vec<(String, String)> = Vec::new();
    if !listed {
        options.push((active, owned("Default room")));
    }
    let ghost head = options.deep_view();
    let mut k: usize = 0;
    assert(head + known.take(0) =~= head);
    while k < workspaces.len()
        invariant
            k <= workspaces.len(),
            workspaces.deep_view() == state.deep_view().settings.workspaces,
            known == workspaces.deep_view().map_values(
                |profile: crate::settings::WorkspaceProfileModel| (profile.key, profile.label),
            ),
            options.deep_view() == head + known.take(k as int),
        decreases workspaces.len() - k,
    {
        let ghost before = options.deep_view();
        let option = (workspaces[k].key.clone(), workspaces[k].label.clone());
        assert(known[k as int] == (
            workspaces@[k as int].deep_view().key,
            workspaces@[k as int].deep_view().label,
        ));
        options.push(option);
        assert(options.deep_view() =~= before.push(option.deep_view()));
        k += 1;
        assert(head + known.take(k as int) =~= before.push(option.deep_view()));
    }
    assert(known.take(k as int) =~= known);
    proof {
        if listed {
            assert(head + known =~= known);
        } else {
            assert(head =~= seq![(state.deep_view().workspace_key(), "Default room"@)]);
        }
    }
    options
}

impl UiState {
    /// Sets the channel profile of the office view, and says whether that changed anything.
    pub fn set_office_source(&mut self, selected: Option<&str>) -> (changed: bool)
        ensures
            ({
                let choice = match selected.deep_view() {
                    Some(id) if id.len() > 0 => Some(id),
                    _ => None,
                };
                &&& changed == (old(self).deep_view().settings.office.channel_profile_id != choice)
                &&& final(self).deep_view().settings.office.channel_profile_id == choice
                &&& final(self).deep_view() == (UiStateModel {
                    settings: crate::settings::AppSettingsModel {
                        office: OfficeSettingsModel { channel_profile_id: choice },
                        ..old(self).deep_view().settings
                    },
                    ..old(self).deep_view()
                })
            }),
    {
        let choice = match selected {
            Some(id) => if id.is_empty() {
                None
            } else {
                Some(owned(id))
            },
            None => None,
        };
        if same_option(&self.settings.office.channel_profile_id, &choice) {
            assert(self.deep_view().settings.office =~= (OfficeSettingsModel {
                channel_profile_id: choice.deep_view(),
            }));
            return false;
        }
        self.settings.office = OfficeSettings { channel_profile_id: choice };
        true
    }

    /// Sets how the app is known to Slack to what the user typed.
    pub fn set_slack_config(
        &mut self,
        client_id: &str,
        client_secret: &str,
        redirect_uri: &str,
        user_scopes: &str,
        app_token: &str,
    )
        ensures
            final(self).deep_view() == (UiStateModel {
                settings: crate::settings::AppSettingsModel {
                    slack: SlackConfigSettingsModel {
                        client_id: trimmed_non_blank(client_id@),
                        client_secret: trimmed_non_blank(client_secret@),
                        redirect_uri: trimmed_non_blank(redirect_uri@),
                        user_scopes: trimmed_non_blank(user_scopes@),
                        app_token: trimmed_non_blank(app_token@),
                    },
                    ..old(self).deep_view().settings
                },
                ..old(self).deep_view()
            }),
    {
        self.settings.slack = SlackConfigSettings {
            client_id: normalized_entry_value(client_id),
            client_secret: normalized_entry_value(client_secret),
            redirect_uri: normalized_entry_value(redirect_uri),
            user_scopes: normalized_entry_value(user_scopes),
            app_token: normalized_entry_value(app_token),
        };
    }
}

/// What the settings say of live notifications.
pub fn live_sync_summary(has_token: bool, started: bool) -> (r: String)
    ensures
        r@ == (if !has_token {
            "Live notifications are disabled. Set "@ + SLACK_APP_TOKEN_ENV@
                + " to receive other people's posts while the app is open."@
        } else if started {
            "Live notifications are enabled via Socket Mode."@
        } else {
            "Live notifications are configured and will start after Slack auth is connected."@
        }),
{
    if !has_token {
        enclosed(
            "Live notifications are disabled. Set ",
            SLACK_APP_TOKEN_ENV,
            " to receive other people's posts while the app is open.",
        )
    } else if started {
        owned("Live notifications are enabled via Socket Mode.")
    } else {
        owned("Live notifications are configured and will start after Slack auth is connected.")
    }
}

/// The status while the user authorizes the app: what they are to do with the page they are sent
/// back to. `new_room` says whether that adds a room.
pub fn waiting_for_login(redirect_uri: &str, new_room: bool) -> (r: SlackAuthStatus)
    ensures
        r.deep_view() == SlackAuthStatusModel::Connecting(
            "Browser opened. After Slack redirects to "@ + redirect_uri@ + if new_room {
                ", copy the full URL from the address bar and paste it below to add a new room."@
            } else {
                ", copy the full URL from the address bar and paste it below."@
            },
        ),
{
    SlackAuthStatus::Connecting(
        enclosed(
            "Browser opened. After Slack redirects to ",
            redirect_uri,
            if new_room {
                ", copy the full URL from the address bar and paste it below to add a new room."
            } else {
                ", copy the full URL from the address bar and paste it below."
            },
        ),
    )
}

/// The answer that the user pasted, and the status while it is exchanged; the status alone if
/// nothing was pasted.
pub fn accept_pasted_callback(pasted: &str) -> (r: (Option<String>, SlackAuthStatus))
    ensures
        r.0.deep_view() == trimmed_non_blank(pasted@),
        r.1.deep_view() == (if is_blank(pasted@) {
            SlackAuthStatusModel::Error("Paste the full redirected Slack URL first."@)
        } else {
            SlackAuthStatusModel::Connecting("Exchanging Slack OAuth code."@)
        }),
{
    match non_blank(pasted) {
        Some(callback) => (
            Some(callback),
            SlackAuthStatus::Connecting(owned("Exchanging Slack OAuth code.")),
        ),
        None => (
            None,
            SlackAuthStatus::Error(owned("Paste the full redirected Slack URL first.")),
        ),
    }
}

} // verus!
