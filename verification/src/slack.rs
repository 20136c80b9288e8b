//! What the Slack Web API and its socket mode exchange.
use vstd::prelude::*;

use crate::json::Json;
use crate::urls::{WebUrl, WebUrlModel};

verus! {

/// The workspace of an authorization.
#[derive(Debug, PartialEq, Eq)]
pub struct OAuthTeam {
    pub id: Option<String>,
    pub name: Option<String>,
}

/// What a [`OAuthTeam`] says: its texts as sequences of characters.
#[verifier::ext_equal]
pub struct OAuthTeamModel {
    pub id: Option<Seq<char>>,
    pub name: Option<Seq<char>>,
}

impl DeepView for OAuthTeam {
    type V = OAuthTeamModel;

    open spec fn deep_view(&self) -> OAuthTeamModel {
        OAuthTeamModel {
            id: self.id.deep_view(),
            name: self.name.deep_view(),
        }
    }
}

impl Clone for OAuthTeam {
    fn clone(&self) -> (copy: Self)
        ensures
            copy.deep_view() == self.deep_view(),
    {
        let copy = OAuthTeam {
            id: self.id.clone(),
            name: self.name.clone(),
        };
        assert(copy.id.deep_view() =~= self.id.deep_view());
        assert(copy.name.deep_view() =~= self.name.deep_view());
        copy
    }
}

/// The organization of an authorization.
#[derive(Debug, PartialEq, Eq)]
pub struct OAuthEnterprise {
    pub id: Option<String>,
    pub name: Option<String>,
}

/// What a [`OAuthEnterprise`] says: its texts as sequences of characters.
#[verifier::ext_equal]
pub struct OAuthEnterpriseModel {
    pub id: Option<Seq<char>>,
    pub name: Option<Seq<char>>,
}

impl DeepView for OAuthEnterprise {
    type V = OAuthEnterpriseModel;

    open spec fn deep_view(&self) -> OAuthEnterpriseModel {
        OAuthEnterpriseModel {
            id: self.id.deep_view(),
            name: self.name.deep_view(),
        }
    }
}

impl Clone for OAuthEnterprise {
    fn clone(&self) -> (copy: Self)
        ensures
            copy.deep_view() == self.deep_view(),
    {
        let copy = OAuthEnterprise {
            id: self.id.clone(),
            name: self.name.clone(),
        };
        assert(copy.id.deep_view() =~= self.id.deep_view());
        assert(copy.name.deep_view() =~= self.name.deep_view());
        copy
    }
}

/// The user of an authorization.
#[derive(Debug, PartialEq, Eq)]
pub struct AuthedUser {
    pub id: Option<String>,
    pub access_token: Option<String>,
    pub scope: Option<String>,
    pub refresh_token: Option<String>,
    pub expires_in: Option<i64>,
    pub token_type: Option<String>,
}

/// What a [`AuthedUser`] says: its texts as sequences of characters.
#[verifier::ext_equal]
pub struct AuthedUserModel {
    pub id: Option<Seq<char>>,
    pub access_token: Option<Seq<char>>,
    pub scope: Option<Seq<char>>,
    pub refresh_token: Option<Seq<char>>,
    pub expires_in: Option<i64>,
    pub token_type: Option<Seq<char>>,
}

impl DeepView for AuthedUser {
    type V = AuthedUserModel;

    open spec fn deep_view(&self) -> AuthedUserModel {
        AuthedUserModel {
            id: self.id.deep_view(),
            access_token: self.access_token.deep_view(),
            scope: self.scope.deep_view(),
            refresh_token: self.refresh_token.deep_view(),
            expires_in: self.expires_in,
            token_type: self.token_type.deep_view(),
        }
    }
}

impl Clone for AuthedUser {
    fn clone(&self) -> (copy: Self)
        ensures
            copy.deep_view() == self.deep_view(),
    {
        let copy = AuthedUser {
            id: self.id.clone(),
            access_token: self.access_token.clone(),
            scope: self.scope.clone(),
            refresh_token: self.refresh_token.clone(),
            expires_in: self.expires_in,
            token_type: self.token_type.clone(),
        };
        assert(copy.id.deep_view() =~= self.id.deep_view());
        assert(copy.access_token.deep_view() =~= self.access_token.deep_view());
        assert(copy.scope.deep_view() =~= self.scope.deep_view());
        assert(copy.refresh_token.deep_view() =~= self.refresh_token.deep_view());
        assert(copy.token_type.deep_view() =~= self.token_type.deep_view());
        copy
    }
}

/// The reply to `oauth.v2.access`.
#[derive(Debug, PartialEq, Eq)]
pub struct OAuthAccessResponse {
    pub access_token: Option<String>,
    pub token_type: Option<String>,
    pub scope: Option<String>,
    pub refresh_token: Option<String>,
    pub expires_in: Option<i64>,
    pub bot_user_id: Option<String>,
    pub app_id: Option<String>,
    pub team: Option<OAuthTeam>,
    pub enterprise: Option<OAuthEnterprise>,
    pub is_enterprise_install: Option<bool>,
    pub authed_user: Option<AuthedUser>,
}

/// What a [`OAuthAccessResponse`] says: its texts as sequences of characters.
#[verifier::ext_equal]
pub struct OAuthAccessResponseModel {
    pub access_token: Option<Seq<char>>,
    pub token_type: Option<Seq<char>>,
    pub scope: Option<Seq<char>>,
    pub refresh_token: Option<Seq<char>>,
    pub expires_in: Option<i64>,
    pub bot_user_id: Option<Seq<char>>,
    pub app_id: Option<Seq<char>>,
    pub team: Option<OAuthTeamModel>,
    pub enterprise: Option<OAuthEnterpriseModel>,
    pub is_enterprise_install: Option<bool>,
    pub authed_user: Option<AuthedUserModel>,
}

impl DeepView for OAuthAccessResponse {
    type V = OAuthAccessResponseModel;

    open spec fn deep_view(&self) -> OAuthAccessResponseModel {
        OAuthAccessResponseModel {
            access_token: self.access_token.deep_view(),
            token_type: self.token_type.deep_view(),
            scope: self.scope.deep_view(),
            refresh_token: self.refresh_token.deep_view(),
            expires_in: self.expires_in,
            bot_user_id: self.bot_user_id.deep_view(),
            app_id: self.app_id.deep_view(),
            team: self.team.deep_view(),
            enterprise: self.enterprise.deep_view(),
            is_enterprise_install: self.is_enterprise_install,
            authed_user: self.authed_user.deep_view(),
        }
    }
}

impl Clone for OAuthAccessResponse {
    fn clone(&self) -> (copy: Self)
        ensures
            copy.deep_view() == self.deep_view(),
    {
        let copy = OAuthAccessResponse {
            access_token: self.access_token.clone(),
            token_type: self.token_type.clone(),
            scope: self.scope.clone(),
            refresh_token: self.refresh_token.clone(),
            expires_in: self.expires_in,
            bot_user_id: self.bot_user_id.clone(),
            app_id: self.app_id.clone(),
            team: self.team.clone(),
            enterprise: self.enterprise.clone(),
            is_enterprise_install: self.is_enterprise_install,
            authed_user: self.authed_user.clone(),
        };
        assert(copy.access_token.deep_view() =~= self.access_token.deep_view());
        assert(copy.token_type.deep_view() =~= self.token_type.deep_view());
        assert(copy.scope.deep_view() =~= self.scope.deep_view());
        assert(copy.refresh_token.deep_view() =~= self.refresh_token.deep_view());
        assert(copy.bot_user_id.deep_view() =~= self.bot_user_id.deep_view());
        assert(copy.app_id.deep_view() =~= self.app_id.deep_view());
        assert(copy.team.deep_view() =~= self.team.deep_view());
        assert(copy.enterprise.deep_view() =~= self.enterprise.deep_view());
        assert(copy.authed_user.deep_view() =~= self.authed_user.deep_view());
        copy
    }
}

/// The reply to `apps.connections.open`.
#[derive(Debug, PartialEq, Eq)]
pub struct SocketConnectionResponse {
    pub url: WebUrl,
}

/// What a [`SocketConnectionResponse`] says: its texts as sequences of characters.
#[verifier::ext_equal]
pub struct SocketConnectionResponseModel {
    pub url: WebUrlModel,
}

impl DeepView for SocketConnectionResponse {
    type V = SocketConnectionResponseModel;

    open spec fn deep_view(&self) -> SocketConnectionResponseModel {
        SocketConnectionResponseModel {
            url: self.url.deep_view(),
        }
    }
}

impl Clone for SocketConnectionResponse {
    fn clone(&self) -> (copy: Self)
        ensures
            copy.deep_view() == self.deep_view(),
    {
        let copy = SocketConnectionResponse {
            url: self.url.clone(),
        };
        copy
    }
}

/// Where the next page of a reply starts.
#[derive(Debug, PartialEq, Eq)]
pub struct ResponseMetadata {
    pub next_cursor: Option<String>,
}

/// What a [`ResponseMetadata`] says: its texts as sequences of characters.
#[verifier::ext_equal]
pub struct ResponseMetadataModel {
    pub next_cursor: Option<Seq<char>>,
}

impl DeepView for ResponseMetadata {
    type V = ResponseMetadataModel;

    open spec fn deep_view(&self) -> ResponseMetadataModel {
        ResponseMetadataModel {
            next_cursor: self.next_cursor.deep_view(),
        }
    }
}

impl Clone for ResponseMetadata {
    fn clone(&self) -> (copy: Self)
        ensures
            copy.deep_view() == self.deep_view(),
    {
        let copy = ResponseMetadata {
            next_cursor: self.next_cursor.clone(),
        };
        assert(copy.next_cursor.deep_view() =~= self.next_cursor.deep_view());
        copy
    }
}

/// A channel as Slack lists it.
#[derive(Debug, PartialEq, Eq)]
pub struct SlackConversation {
    pub id: String,
    pub name: Option<String>,
    pub name_normalized: Option<String>,
    pub creator: Option<String>,
    pub is_member: Option<bool>,
    pub is_private: Option<bool>,
    pub is_archived: Option<bool>,
}

/// What a [`SlackConversation`] says: its texts as sequences of characters.
#[verifier::ext_equal]
pub struct SlackConversationModel {
    pub id: Seq<char>,
    pub name: Option<Seq<char>>,
    pub name_normalized: Option<Seq<char>>,
    pub creator: Option<Seq<char>>,
    pub is_member: Option<bool>,
    pub is_private: Option<bool>,
    pub is_archived: Option<bool>,
}

impl DeepView for SlackConversation {
    type V = SlackConversationModel;

    open spec fn deep_view(&self) -> SlackConversationModel {
        SlackConversationModel {
            id: self.id@,
            name: self.name.deep_view(),
            name_normalized: self.name_normalized.deep_view(),
            creator: self.creator.deep_view(),
            is_member: self.is_member,
            is_private: self.is_private,
            is_archived: self.is_archived,
        }
    }
}

impl Clone for SlackConversation {
    fn clone(&self) -> (copy: Self)
        ensures
            copy.deep_view() == self.deep_view(),
    {
        let copy = SlackConversation {
            id: self.id.clone(),
            name: self.name.clone(),
            name_normalized: self.name_normalized.clone(),
            creator: self.creator.clone(),
            is_member: self.is_member,
            is_private: self.is_private,
            is_archived: self.is_archived,
        };
        assert(copy.name.deep_view() =~= self.name.deep_view());
        assert(copy.name_normalized.deep_view() =~= self.name_normalized.deep_view());
        assert(copy.creator.deep_view() =~= self.creator.deep_view());
        copy
    }
}

/// The reply to `conversations.list`.
#[derive(Debug, PartialEq, Eq)]
pub struct ConversationsListResponse {
    pub channels: Vec<SlackConversation>,
    pub response_metadata: Option<ResponseMetadata>,
}

/// What a [`ConversationsListResponse`] says: its texts as sequences of characters.
#[verifier::ext_equal]
pub struct ConversationsListResponseModel {
    pub channels: Seq<SlackConversationModel>,
    pub response_metadata: Option<ResponseMetadataModel>,
}

impl DeepView for ConversationsListResponse {
    type V = ConversationsListResponseModel;

    open spec fn deep_view(&self) -> ConversationsListResponseModel {
        ConversationsListResponseModel {
            channels: self.channels.deep_view(),
            response_metadata: self.response_metadata.deep_view(),
        }
    }
}

impl Clone for ConversationsListResponse {
    fn clone(&self) -> (copy: Self)
        ensures
            copy.deep_view() == self.deep_view(),
    {
        let copy = ConversationsListResponse {
            channels: self.channels.clone(),
            response_metadata: self.response_metadata.clone(),
        };
        assert(copy.channels.deep_view() =~= self.channels.deep_view());
        assert(copy.response_metadata.deep_view() =~= self.response_metadata.deep_view());
        copy
    }
}

/// A file that is shared in a message.
#[derive(Debug, PartialEq, Eq)]
pub struct SlackFile {
    pub id: String,
    pub name: Option<String>,
    pub mimetype: Option<String>,
    pub url_private: Option<String>,
    pub url_private_download: Option<String>,
    pub thumb_360: Option<String>,
    pub thumb_720: Option<String>,
    pub permalink: Option<String>,
}

/// What a [`SlackFile`] says: its texts as sequences of characters.
#[verifier::ext_equal]
pub struct SlackFileModel {
    pub id: Seq<char>,
    pub name: Option<Seq<char>>,
    pub mimetype: Option<Seq<char>>,
    pub url_private: Option<Seq<char>>,
    pub url_private_download: Option<Seq<char>>,
    pub thumb_360: Option<Seq<char>>,
    pub thumb_720: Option<Seq<char>>,
    pub permalink: Option<Seq<char>>,
}

impl DeepView for SlackFile {
    type V = SlackFileModel;

    open spec fn deep_view(&self) -> SlackFileModel {
        SlackFileModel {
            id: self.id@,
            name: self.name.deep_view(),
            mimetype: self.mimetype.deep_view(),
            url_private: self.url_private.deep_view(),
            url_private_download: self.url_private_download.deep_view(),
            thumb_360: self.thumb_360.deep_view(),
            thumb_720: self.thumb_720.deep_view(),
            permalink: self.permalink.deep_view(),
        }
    }
}

impl Clone for SlackFile {
    fn clone(&self) -> (copy: Self)
        ensures
            copy.deep_view() == self.deep_view(),
    {
        let copy = SlackFile {
            id: self.id.clone(),
            name: self.name.clone(),
            mimetype: self.mimetype.clone(),
            url_private: self.url_private.clone(),
            url_private_download: self.url_private_download.clone(),
            thumb_360: self.thumb_360.clone(),
            thumb_720: self.thumb_720.clone(),
            permalink: self.permalink.clone(),
        };
        assert(copy.name.deep_view() =~= self.name.deep_view());
        assert(copy.mimetype.deep_view() =~= self.mimetype.deep_view());
        assert(copy.url_private.deep_view() =~= self.url_private.deep_view());
        assert(copy.url_private_download.deep_view() =~= self.url_private_download.deep_view());
        assert(copy.thumb_360.deep_view() =~= self.thumb_360.deep_view());
        assert(copy.thumb_720.deep_view() =~= self.thumb_720.deep_view());
        assert(copy.permalink.deep_view() =~= self.permalink.deep_view());
        copy
    }
}

/// The reactions with one emoji to a message.
#[derive(Debug, PartialEq, Eq)]
pub struct SlackReaction {
    pub name: String,
    pub count: u32,
    pub users: Vec<String>,
}

/// What a [`SlackReaction`] says: its texts as sequences of characters.
#[verifier::ext_equal]
pub struct SlackReactionModel {
    pub name: Seq<char>,
    pub count: u32,
    pub users: Seq<Seq<char>>,
}

impl DeepView for SlackReaction {
    type V = SlackReactionModel;

    open spec fn deep_view(&self) -> SlackReactionModel {
        SlackReactionModel {
            name: self.name@,
            count: self.count,
            users: self.users.deep_view(),
        }
    }
}

impl Clone for SlackReaction {
    fn clone(&self) -> (copy: Self)
        ensures
            copy.deep_view() == self.deep_view(),
    {
        let copy = SlackReaction {
            name: self.name.clone(),
            count: self.count,
            users: self.users.clone(),
        };
        assert(copy.users.deep_view() =~= self.users.deep_view());
        copy
    }
}

/// A message in the history of a channel.
#[derive(Debug, PartialEq, Eq)]
pub struct SlackHistoryMessage {
    pub kind: Option<String>,
    pub subtype: Option<String>,
    pub user: Option<String>,
    pub bot_id: Option<String>,
    pub text: Option<String>,
    pub blocks: Vec<Json>,
    pub ts: String,
    pub thread_ts: Option<String>,
    pub reply_count: Option<u32>,
    pub latest_reply: Option<String>,
    pub files: Vec<SlackFile>,
    pub reactions: Vec<SlackReaction>,
}

/// What a [`SlackHistoryMessage`] says: its texts as sequences of characters.
#[verifier::ext_equal]
pub struct SlackHistoryMessageModel {
    pub kind: Option<Seq<char>>,
    pub subtype: Option<Seq<char>>,
    pub user: Option<Seq<char>>,
    pub bot_id: Option<Seq<char>>,
    pub text: Option<Seq<char>>,
    pub blocks: Seq<Json>,
    pub ts: Seq<char>,
    pub thread_ts: Option<Seq<char>>,
    pub reply_count: Option<u32>,
    pub latest_reply: Option<Seq<char>>,
    pub files: Seq<SlackFileModel>,
    pub reactions: Seq<SlackReactionModel>,
}

impl DeepView for SlackHistoryMessage {
    type V = SlackHistoryMessageModel;

    open spec fn deep_view(&self) -> SlackHistoryMessageModel {
        SlackHistoryMessageModel {
            kind: self.kind.deep_view(),
            subtype: self.subtype.deep_view(),
            user: self.user.deep_view(),
            bot_id: self.bot_id.deep_view(),
            text: self.text.deep_view(),
            blocks: self.blocks.deep_view(),
            ts: self.ts@,
            thread_ts: self.thread_ts.deep_view(),
            reply_count: self.reply_count,
            latest_reply: self.latest_reply.deep_view(),
            files: self.files.deep_view(),
            reactions: self.reactions.deep_view(),
        }
    }
}

impl Clone for SlackHistoryMessage {
    fn clone(&self) -> (copy: Self)
        ensures
            copy.deep_view() == self.deep_view(),
    {
        let copy = SlackHistoryMessage {
            kind: self.kind.clone(),
            subtype: self.subtype.clone(),
            user: self.user.clone(),
            bot_id: self.bot_id.clone(),
            text: self.text.clone(),
            blocks: self.blocks.clone(),
            ts: self.ts.clone(),
            thread_ts: self.thread_ts.clone(),
            reply_count: self.reply_count,
            latest_reply: self.latest_reply.clone(),
            files: self.files.clone(),
            reactions: self.reactions.clone(),
        };
        assert(copy.kind.deep_view() =~= self.kind.deep_view());
        assert(copy.subtype.deep_view() =~= self.subtype.deep_view());
        assert(copy.user.deep_view() =~= self.user.deep_view());
        assert(copy.bot_id.deep_view() =~= self.bot_id.deep_view());
        assert(copy.text.deep_view() =~= self.text.deep_view());
        assert(copy.blocks.deep_view() =~= self.blocks.deep_view());
        assert(copy.thread_ts.deep_view() =~= self.thread_ts.deep_view());
        assert(copy.latest_reply.deep_view() =~= self.latest_reply.deep_view());
        assert(copy.files.deep_view() =~= self.files.deep_view());
        assert(copy.reactions.deep_view() =~= self.reactions.deep_view());
        copy
    }
}

/// The reply to `conversations.history`.
#[derive(Debug, PartialEq, Eq)]
pub struct ConversationsHistoryResponse {
    pub messages: Vec<SlackHistoryMessage>,
    pub has_more: Option<bool>,
    pub response_metadata: Option<ResponseMetadata>,
}

/// What a [`ConversationsHistoryResponse`] says: its texts as sequences of characters.
#[verifier::ext_equal]
pub struct ConversationsHistoryResponseModel {
    pub messages: Seq<SlackHistoryMessageModel>,
    pub has_more: Option<bool>,
    pub response_metadata: Option<ResponseMetadataModel>,
}

impl DeepView for ConversationsHistoryResponse {
    type V = ConversationsHistoryResponseModel;

    open spec fn deep_view(&self) -> ConversationsHistoryResponseModel {
        ConversationsHistoryResponseModel {
            messages: self.messages.deep_view(),
            has_more: self.has_more,
            response_metadata: self.response_metadata.deep_view(),
        }
    }
}

impl Clone for ConversationsHistoryResponse {
    fn clone(&self) -> (copy: Self)
        ensures
            copy.deep_view() == self.deep_view(),
    {
        let copy = ConversationsHistoryResponse {
            messages: self.messages.clone(),
            has_more: self.has_more,
            response_metadata: self.response_metadata.clone(),
        };
        assert(copy.messages.deep_view() =~= self.messages.deep_view());
        assert(copy.response_metadata.deep_view() =~= self.response_metadata.deep_view());
        copy
    }
}

/// What a user says of themself.
#[derive(Debug, PartialEq, Eq)]
pub struct SlackUserProfile {
    pub display_name: Option<String>,
    pub display_name_normalized: Option<String>,
    pub real_name: Option<String>,
    pub real_name_normalized: Option<String>,
    pub image_48: Option<String>,
    pub image_72: Option<String>,
    pub image_192: Option<String>,
}

/// What a [`SlackUserProfile`] says: its texts as sequences of characters.
#[verifier::ext_equal]
pub struct SlackUserProfileModel {
    pub display_name: Option<Seq<char>>,
    pub display_name_normalized: Option<Seq<char>>,
    pub real_name: Option<Seq<char>>,
    pub real_name_normalized: Option<Seq<char>>,
    pub image_48: Option<Seq<char>>,
    pub image_72: Option<Seq<char>>,
    pub image_192: Option<Seq<char>>,
}

impl DeepView for SlackUserProfile {
    type V = SlackUserProfileModel;

    open spec fn deep_view(&self) -> SlackUserProfileModel {
        SlackUserProfileModel {
            display_name: self.display_name.deep_view(),
            display_name_normalized: self.display_name_normalized.deep_view(),
            real_name: self.real_name.deep_view(),
            real_name_normalized: self.real_name_normalized.deep_view(),
            image_48: self.image_48.deep_view(),
            image_72: self.image_72.deep_view(),
            image_192: self.image_192.deep_view(),
        }
    }
}

impl Clone for SlackUserProfile {
    fn clone(&self) -> (copy: Self)
        ensures
            copy.deep_view() == self.deep_view(),
    {
        let copy = SlackUserProfile {
            display_name: self.display_name.clone(),
            display_name_normalized: self.display_name_normalized.clone(),
            real_name: self.real_name.clone(),
            real_name_normalized: self.real_name_normalized.clone(),
            image_48: self.image_48.clone(),
            image_72: self.image_72.clone(),
            image_192: self.image_192.clone(),
        };
        assert(copy.display_name.deep_view() =~= self.display_name.deep_view());
        assert(copy.display_name_normalized.deep_view() =~= self.display_name_normalized.deep_view());
        assert(copy.real_name.deep_view() =~= self.real_name.deep_view());
        assert(copy.real_name_normalized.deep_view() =~= self.real_name_normalized.deep_view());
        assert(copy.image_48.deep_view() =~= self.image_48.deep_view());
        assert(copy.image_72.deep_view() =~= self.image_72.deep_view());
        assert(copy.image_192.deep_view() =~= self.image_192.deep_view());
        copy
    }
}

/// A user as Slack lists them.
#[derive(Debug, PartialEq, Eq)]
pub struct SlackUser {
    pub id: String,
    pub name: Option<String>,
    pub deleted: Option<bool>,
    pub is_bot: Option<bool>,
    pub profile: Option<SlackUserProfile>,
}

/// What a [`SlackUser`] says: its texts as sequences of characters.
#[verifier::ext_equal]
pub struct SlackUserModel {
    pub id: Seq<char>,
    pub name: Option<Seq<char>>,
    pub deleted: Option<bool>,
    pub is_bot: Option<bool>,
    pub profile: Option<SlackUserProfileModel>,
}

impl DeepView for SlackUser {
    type V = SlackUserModel;

    open spec fn deep_view(&self) -> SlackUserModel {
        SlackUserModel {
            id: self.id@,
            name: self.name.deep_view(),
            deleted: self.deleted,
            is_bot: self.is_bot,
            profile: self.profile.deep_view(),
        }
    }
}

impl Clone for SlackUser {
    fn clone(&self) -> (copy: Self)
        ensures
            copy.deep_view() == self.deep_view(),
    {
        let copy = SlackUser {
            id: self.id.clone(),
            name: self.name.clone(),
            deleted: self.deleted,
            is_bot: self.is_bot,
            profile: self.profile.clone(),
        };
        assert(copy.name.deep_view() =~= self.name.deep_view());
        assert(copy.profile.deep_view() =~= self.profile.deep_view());
        copy
    }
}

/// The reply to `users.list`.
#[derive(Debug, PartialEq, Eq)]
pub struct UsersListResponse {
    pub members: Vec<SlackUser>,
    pub response_metadata: Option<ResponseMetadata>,
}

/// What a [`UsersListResponse`] says: its texts as sequences of characters.
#[verifier::ext_equal]
pub struct UsersListResponseModel {
    pub members: Seq<SlackUserModel>,
    pub response_metadata: Option<ResponseMetadataModel>,
}

impl DeepView for UsersListResponse {
    type V = UsersListResponseModel;

    open spec fn deep_view(&self) -> UsersListResponseModel {
        UsersListResponseModel {
            members: self.members.deep_view(),
            response_metadata: self.response_metadata.deep_view(),
        }
    }
}

impl Clone for UsersListResponse {
    fn clone(&self) -> (copy: Self)
        ensures
            copy.deep_view() == self.deep_view(),
    {
        let copy = UsersListResponse {
            members: self.members.clone(),
            response_metadata: self.response_metadata.clone(),
        };
        assert(copy.members.deep_view() =~= self.members.deep_view());
        assert(copy.response_metadata.deep_view() =~= self.response_metadata.deep_view());
        copy
    }
}

/// The reply to `chat.postMessage`.
#[derive(Debug, PartialEq, Eq)]
pub struct ChatPostMessageResponse {
    pub channel: String,
    pub ts: String,
    pub message: Json,
}

/// What a [`ChatPostMessageResponse`] says: its texts as sequences of characters.
#[verifier::ext_equal]
pub struct ChatPostMessageResponseModel {
    pub channel: Seq<char>,
    pub ts: Seq<char>,
    pub message: Json,
}

impl DeepView for ChatPostMessageResponse {
    type V = ChatPostMessageResponseModel;

    open spec fn deep_view(&self) -> ChatPostMessageResponseModel {
        ChatPostMessageResponseModel {
            channel: self.channel@,
            ts: self.ts@,
            message: self.message,
        }
    }
}

impl Clone for ChatPostMessageResponse {
    fn clone(&self) -> (copy: Self)
        ensures
            copy.deep_view() == self.deep_view(),
    {
        let copy = ChatPostMessageResponse {
            channel: self.channel.clone(),
            ts: self.ts.clone(),
            message: self.message.clone(),
        };
        copy
    }
}

/// The reply to `chat.update`.
#[derive(Debug, PartialEq, Eq)]
pub struct ChatUpdateResponse {
    pub channel: String,
    pub ts: String,
    pub text: Option<String>,
    pub message: Option<Json>,
}

/// What a [`ChatUpdateResponse`] says: its texts as sequences of characters.
#[verifier::ext_equal]
pub struct ChatUpdateResponseModel {
    pub channel: Seq<char>,
    pub ts: Seq<char>,
    pub text: Option<Seq<char>>,
    pub message: Option<Json>,
}

impl DeepView for ChatUpdateResponse {
    type V = ChatUpdateResponseModel;

    open spec fn deep_view(&self) -> ChatUpdateResponseModel {
        ChatUpdateResponseModel {
            channel: self.channel@,
            ts: self.ts@,
            text: self.text.deep_view(),
            message: self.message.deep_view(),
        }
    }
}

impl Clone for ChatUpdateResponse {
    fn clone(&self) -> (copy: Self)
        ensures
            copy.deep_view() == self.deep_view(),
    {
        let copy = ChatUpdateResponse {
            channel: self.channel.clone(),
            ts: self.ts.clone(),
            text: self.text.clone(),
            message: self.message.clone(),
        };
        assert(copy.text.deep_view() =~= self.text.deep_view());
        assert(copy.message.deep_view() =~= self.message.deep_view());
        copy
    }
}

/// The reply to `chat.delete`.
#[derive(Debug, PartialEq, Eq)]
pub struct ChatDeleteResponse {
    pub channel: String,
    pub ts: String,
}

/// What a [`ChatDeleteResponse`] says: its texts as sequences of characters.
#[verifier::ext_equal]
pub struct ChatDeleteResponseModel {
    pub channel: Seq<char>,
    pub ts: Seq<char>,
}

impl DeepView for ChatDeleteResponse {
    type V = ChatDeleteResponseModel;

    open spec fn deep_view(&self) -> ChatDeleteResponseModel {
        ChatDeleteResponseModel {
            channel: self.channel@,
            ts: self.ts@,
        }
    }
}

impl Clone for ChatDeleteResponse {
    fn clone(&self) -> (copy: Self)
        ensures
            copy.deep_view() == self.deep_view(),
    {
        let copy = ChatDeleteResponse {
            channel: self.channel.clone(),
            ts: self.ts.clone(),
        };
        copy
    }
}

/// The reply to `chat.getPermalink`.
#[derive(Debug, PartialEq, Eq)]
pub struct ChatGetPermalinkResponse {
    pub permalink: String,
}

/// What a [`ChatGetPermalinkResponse`] says: its texts as sequences of characters.
#[verifier::ext_equal]
pub struct ChatGetPermalinkResponseModel {
    pub permalink: Seq<char>,
}

impl DeepView for ChatGetPermalinkResponse {
    type V = ChatGetPermalinkResponseModel;

    open spec fn deep_view(&self) -> ChatGetPermalinkResponseModel {
        ChatGetPermalinkResponseModel {
            permalink: self.permalink@,
        }
    }
}

impl Clone for ChatGetPermalinkResponse {
    fn clone(&self) -> (copy: Self)
        ensures
            copy.deep_view() == self.deep_view(),
    {
        let copy = ChatGetPermalinkResponse {
            permalink: self.permalink.clone(),
        };
        copy
    }
}

/// The reply to a change of a channel.
#[derive(Debug, PartialEq, Eq)]
pub struct ConversationsMutateResponse {
    pub channel: SlackConversation,
}

/// What a [`ConversationsMutateResponse`] says: its texts as sequences of characters.
#[verifier::ext_equal]
pub struct ConversationsMutateResponseModel {
    pub channel: SlackConversationModel,
}

impl DeepView for ConversationsMutateResponse {
    type V = ConversationsMutateResponseModel;

    open spec fn deep_view(&self) -> ConversationsMutateResponseModel {
        ConversationsMutateResponseModel {
            channel: self.channel.deep_view(),
        }
    }
}

impl Clone for ConversationsMutateResponse {
    fn clone(&self) -> (copy: Self)
        ensures
            copy.deep_view() == self.deep_view(),
    {
        let copy = ConversationsMutateResponse {
            channel: self.channel.clone(),
        };
        copy
    }
}

/// The reply to `files.getUploadURLExternal`.
#[derive(Debug, PartialEq, Eq)]
pub struct GetUploadUrlExternalResponse {
    pub upload_url: WebUrl,
    pub file_id: String,
}

/// What a [`GetUploadUrlExternalResponse`] says: its texts as sequences of characters.
#[verifier::ext_equal]
pub struct GetUploadUrlExternalResponseModel {
    pub upload_url: WebUrlModel,
    pub file_id: Seq<char>,
}

impl DeepView for GetUploadUrlExternalResponse {
    type V = GetUploadUrlExternalResponseModel;

    open spec fn deep_view(&self) -> GetUploadUrlExternalResponseModel {
        GetUploadUrlExternalResponseModel {
            upload_url: self.upload_url.deep_view(),
            file_id: self.file_id@,
        }
    }
}

impl Clone for GetUploadUrlExternalResponse {
    fn clone(&self) -> (copy: Self)
        ensures
            copy.deep_view() == self.deep_view(),
    {
        let copy = GetUploadUrlExternalResponse {
            upload_url: self.upload_url.clone(),
            file_id: self.file_id.clone(),
        };
        copy
    }
}

/// The reply to `files.completeUploadExternal`.
#[derive(Debug, PartialEq, Eq)]
pub struct CompleteUploadResponse {
    pub files: Vec<Json>,
}

/// What a [`CompleteUploadResponse`] says: its texts as sequences of characters.
#[verifier::ext_equal]
pub struct CompleteUploadResponseModel {
    pub files: Seq<Json>,
}

impl DeepView for CompleteUploadResponse {
    type V = CompleteUploadResponseModel;

    open spec fn deep_view(&self) -> CompleteUploadResponseModel {
        CompleteUploadResponseModel {
            files: self.files.deep_view(),
        }
    }
}

impl Clone for CompleteUploadResponse {
    fn clone(&self) -> (copy: Self)
        ensures
            copy.deep_view() == self.deep_view(),
    {
        let copy = CompleteUploadResponse {
            files: self.files.clone(),
        };
        assert(copy.files.deep_view() =~= self.files.deep_view());
        copy
    }
}

/// Which app a socket belongs to.
#[derive(Debug, PartialEq, Eq)]
pub struct SocketConnectionInfo {
    pub app_id: Option<String>,
}

/// What a [`SocketConnectionInfo`] says: its texts as sequences of characters.
#[verifier::ext_equal]
pub struct SocketConnectionInfoModel {
    pub app_id: Option<Seq<char>>,
}

impl DeepView for SocketConnectionInfo {
    type V = SocketConnectionInfoModel;

    open spec fn deep_view(&self) -> SocketConnectionInfoModel {
        SocketConnectionInfoModel {
            app_id: self.app_id.deep_view(),
        }
    }
}

impl Clone for SocketConnectionInfo {
    fn clone(&self) -> (copy: Self)
        ensures
            copy.deep_view() == self.deep_view(),
    {
        let copy = SocketConnectionInfo {
            app_id: self.app_id.clone(),
        };
        assert(copy.app_id.deep_view() =~= self.app_id.deep_view());
        copy
    }
}

/// An event as the socket delivers it.
#[derive(Debug, PartialEq, Eq)]
pub struct EventCallbackEnvelope {
    pub kind: String,
    pub event: Json,
    pub team_id: Option<String>,
}

/// What a [`EventCallbackEnvelope`] says: its texts as sequences of characters.
#[verifier::ext_equal]
pub struct EventCallbackEnvelopeModel {
    pub kind: Seq<char>,
    pub event: Json,
    pub team_id: Option<Seq<char>>,
}

impl DeepView for EventCallbackEnvelope {
    type V = EventCallbackEnvelopeModel;

    open spec fn deep_view(&self) -> EventCallbackEnvelopeModel {
        EventCallbackEnvelopeModel {
            kind: self.kind@,
            event: self.event,
            team_id: self.team_id.deep_view(),
        }
    }
}

impl Clone for EventCallbackEnvelope {
    fn clone(&self) -> (copy: Self)
        ensures
            copy.deep_view() == self.deep_view(),
    {
        let copy = EventCallbackEnvelope {
            kind: self.kind.clone(),
            event: self.event.clone(),
            team_id: self.team_id.clone(),
        };
        assert(copy.team_id.deep_view() =~= self.team_id.deep_view());
        copy
    }
}

/// A message of the socket.
#[derive(Debug, PartialEq, Eq)]
pub struct SocketModeEnvelope {
    pub envelope_id: Option<String>,
    pub kind: String,
    pub connection_info: Option<SocketConnectionInfo>,
    pub payload: Option<EventCallbackEnvelope>,
}

/// What a [`SocketModeEnvelope`] says: its texts as sequences of characters.
#[verifier::ext_equal]
pub struct SocketModeEnvelopeModel {
    pub envelope_id: Option<Seq<char>>,
    pub kind: Seq<char>,
    pub connection_info: Option<SocketConnectionInfoModel>,
    pub payload: Option<EventCallbackEnvelopeModel>,
}

impl DeepView for SocketModeEnvelope {
    type V = SocketModeEnvelopeModel;

    open spec fn deep_view(&self) -> SocketModeEnvelopeModel {
        SocketModeEnvelopeModel {
            envelope_id: self.envelope_id.deep_view(),
            kind: self.kind@,
            connection_info: self.connection_info.deep_view(),
            payload: self.payload.deep_view(),
        }
    }
}

impl Clone for SocketModeEnvelope {
    fn clone(&self) -> (copy: Self)
        ensures
            copy.deep_view() == self.deep_view(),
    {
        let copy = SocketModeEnvelope {
            envelope_id: self.envelope_id.clone(),
            kind: self.kind.clone(),
            connection_info: self.connection_info.clone(),
            payload: self.payload.clone(),
        };
        assert(copy.envelope_id.deep_view() =~= self.envelope_id.deep_view());
        assert(copy.connection_info.deep_view() =~= self.connection_info.deep_view());
        assert(copy.payload.deep_view() =~= self.payload.deep_view());
        copy
    }
}

/// A message that was posted.
#[derive(Debug, PartialEq, Eq)]
pub struct SlackMessageEvent {
    pub channel: String,
    pub user: Option<String>,
    pub text: Option<String>,
    pub blocks: Vec<Json>,
    pub ts: String,
    pub thread_ts: Option<String>,
    pub subtype: Option<String>,
    pub files: Vec<SlackFile>,
    pub reactions: Vec<SlackReaction>,
}

/// What a [`SlackMessageEvent`] says: its texts as sequences of characters.
#[verifier::ext_equal]
pub struct SlackMessageEventModel {
    pub channel: Seq<char>,
    pub user: Option<Seq<char>>,
    pub text: Option<Seq<char>>,
    pub blocks: Seq<Json>,
    pub ts: Seq<char>,
    pub thread_ts: Option<Seq<char>>,
    pub subtype: Option<Seq<char>>,
    pub files: Seq<SlackFileModel>,
    pub reactions: Seq<SlackReactionModel>,
}

impl DeepView for SlackMessageEvent {
    type V = SlackMessageEventModel;

    open spec fn deep_view(&self) -> SlackMessageEventModel {
        SlackMessageEventModel {
            channel: self.channel@,
            user: self.user.deep_view(),
            text: self.text.deep_view(),
            blocks: self.blocks.deep_view(),
            ts: self.ts@,
            thread_ts: self.thread_ts.deep_view(),
            subtype: self.subtype.deep_view(),
            files: self.files.deep_view(),
            reactions: self.reactions.deep_view(),
        }
    }
}

impl Clone for SlackMessageEvent {
    fn clone(&self) -> (copy: Self)
        ensures
            copy.deep_view() == self.deep_view(),
    {
        let copy = SlackMessageEvent {
            channel: self.channel.clone(),
            user: self.user.clone(),
            text: self.text.clone(),
            blocks: self.blocks.clone(),
            ts: self.ts.clone(),
            thread_ts: self.thread_ts.clone(),
            subtype: self.subtype.clone(),
            files: self.files.clone(),
            reactions: self.reactions.clone(),
        };
        assert(copy.user.deep_view() =~= self.user.deep_view());
        assert(copy.text.deep_view() =~= self.text.deep_view());
        assert(copy.blocks.deep_view() =~= self.blocks.deep_view());
        assert(copy.thread_ts.deep_view() =~= self.thread_ts.deep_view());
        assert(copy.subtype.deep_view() =~= self.subtype.deep_view());
        assert(copy.files.deep_view() =~= self.files.deep_view());
        assert(copy.reactions.deep_view() =~= self.reactions.deep_view());
        copy
    }
}

/// What a reaction is to.
#[derive(Debug, PartialEq, Eq)]
pub struct SlackReactionItem {
    pub kind: String,
    pub channel: Option<String>,
    pub ts: Option<String>,
    pub file: Option<String>,
    pub file_comment: Option<String>,
}

/// What a [`SlackReactionItem`] says: its texts as sequences of characters.
#[verifier::ext_equal]
pub struct SlackReactionItemModel {
    pub kind: Seq<char>,
    pub channel: Option<Seq<char>>,
    pub ts: Option<Seq<char>>,
    pub file: Option<Seq<char>>,
    pub file_comment: Option<Seq<char>>,
}

impl DeepView for SlackReactionItem {
    type V = SlackReactionItemModel;

    open spec fn deep_view(&self) -> SlackReactionItemModel {
        SlackReactionItemModel {
            kind: self.kind@,
            channel: self.channel.deep_view(),
            ts: self.ts.deep_view(),
            file: self.file.deep_view(),
            file_comment: self.file_comment.deep_view(),
        }
    }
}

impl Clone for SlackReactionItem {
    fn clone(&self) -> (copy: Self)
        ensures
            copy.deep_view() == self.deep_view(),
    {
        let copy = SlackReactionItem {
            kind: self.kind.clone(),
            channel: self.channel.clone(),
            ts: self.ts.clone(),
            file: self.file.clone(),
            file_comment: self.file_comment.clone(),
        };
        assert(copy.channel.deep_view() =~= self.channel.deep_view());
        assert(copy.ts.deep_view() =~= self.ts.deep_view());
        assert(copy.file.deep_view() =~= self.file.deep_view());
        assert(copy.file_comment.deep_view() =~= self.file_comment.deep_view());
        copy
    }
}

/// A reaction that was added or taken back.
#[derive(Debug, PartialEq, Eq)]
pub struct SlackReactionEvent {
    pub user: Option<String>,
    pub reaction: String,
    pub item: SlackReactionItem,
    pub item_user: Option<String>,
    pub event_ts: Option<String>,
}

/// What a [`SlackReactionEvent`] says: its texts as sequences of characters.
#[verifier::ext_equal]
pub struct SlackReactionEventModel {
    pub user: Option<Seq<char>>,
    pub reaction: Seq<char>,
    pub item: SlackReactionItemModel,
    pub item_user: Option<Seq<char>>,
    pub event_ts: Option<Seq<char>>,
}

impl DeepView for SlackReactionEvent {
    type V = SlackReactionEventModel;

    open spec fn deep_view(&self) -> SlackReactionEventModel {
        SlackReactionEventModel {
            user: self.user.deep_view(),
            reaction: self.reaction@,
            item: self.item.deep_view(),
            item_user: self.item_user.deep_view(),
            event_ts: self.event_ts.deep_view(),
        }
    }
}

impl Clone for SlackReactionEvent {
    fn clone(&self) -> (copy: Self)
        ensures
            copy.deep_view() == self.deep_view(),
    {
        let copy = SlackReactionEvent {
            user: self.user.clone(),
            reaction: self.reaction.clone(),
            item: self.item.clone(),
            item_user: self.item_user.clone(),
            event_ts: self.event_ts.clone(),
        };
        assert(copy.user.deep_view() =~= self.user.deep_view());
        assert(copy.item_user.deep_view() =~= self.item_user.deep_view());
        assert(copy.event_ts.deep_view() =~= self.event_ts.deep_view());
        copy
    }
}

/// A message as it is after a change, or was before it.
#[derive(Debug, PartialEq, Eq)]
pub struct SlackUpdatedMessage {
    pub user: Option<String>,
    pub bot_id: Option<String>,
    pub text: Option<String>,
    pub blocks: Vec<Json>,
    pub ts: String,
    pub thread_ts: Option<String>,
    pub subtype: Option<String>,
    pub files: Vec<SlackFile>,
    pub reactions: Vec<SlackReaction>,
}

/// What a [`SlackUpdatedMessage`] says: its texts as sequences of characters.
#[verifier::ext_equal]
pub struct SlackUpdatedMessageModel {
    pub user: Option<Seq<char>>,
    pub bot_id: Option<Seq<char>>,
    pub text: Option<Seq<char>>,
    pub blocks: Seq<Json>,
    pub ts: Seq<char>,
    pub thread_ts: Option<Seq<char>>,
    pub subtype: Option<Seq<char>>,
    pub files: Seq<SlackFileModel>,
    pub reactions: Seq<SlackReactionModel>,
}

impl DeepView for SlackUpdatedMessage {
    type V = SlackUpdatedMessageModel;

    open spec fn deep_view(&self) -> SlackUpdatedMessageModel {
        SlackUpdatedMessageModel {
            user: self.user.deep_view(),
            bot_id: self.bot_id.deep_view(),
            text: self.text.deep_view(),
            blocks: self.blocks.deep_view(),
            ts: self.ts@,
            thread_ts: self.thread_ts.deep_view(),
            subtype: self.subtype.deep_view(),
            files: self.files.deep_view(),
            reactions: self.reactions.deep_view(),
        }
    }
}

impl Clone for SlackUpdatedMessage {
    fn clone(&self) -> (copy: Self)
        ensures
            copy.deep_view() == self.deep_view(),
    {
        let copy = SlackUpdatedMessage {
            user: self.user.clone(),
            bot_id: self.bot_id.clone(),
            text: self.text.clone(),
            blocks: self.blocks.clone(),
            ts: self.ts.clone(),
            thread_ts: self.thread_ts.clone(),
            subtype: self.subtype.clone(),
            files: self.files.clone(),
            reactions: self.reactions.clone(),
        };
        assert(copy.user.deep_view() =~= self.user.deep_view());
        assert(copy.bot_id.deep_view() =~= self.bot_id.deep_view());
        assert(copy.text.deep_view() =~= self.text.deep_view());
        assert(copy.blocks.deep_view() =~= self.blocks.deep_view());
        assert(copy.thread_ts.deep_view() =~= self.thread_ts.deep_view());
        assert(copy.subtype.deep_view() =~= self.subtype.deep_view());
        assert(copy.files.deep_view() =~= self.files.deep_view());
        assert(copy.reactions.deep_view() =~= self.reactions.deep_view());
        copy
    }
}

/// A message that was changed.
#[derive(Debug, PartialEq, Eq)]
pub struct SlackMessageChangedEvent {
    pub channel: String,
    pub message: SlackUpdatedMessage,
    pub previous_message: Option<SlackUpdatedMessage>,
    pub event_ts: Option<String>,
}

/// What a [`SlackMessageChangedEvent`] says: its texts as sequences of characters.
#[verifier::ext_equal]
pub struct SlackMessageChangedEventModel {
    pub channel: Seq<char>,
    pub message: SlackUpdatedMessageModel,
    pub previous_message: Option<SlackUpdatedMessageModel>,
    pub event_ts: Option<Seq<char>>,
}

impl DeepView for SlackMessageChangedEvent {
    type V = SlackMessageChangedEventModel;

    open spec fn deep_view(&self) -> SlackMessageChangedEventModel {
        SlackMessageChangedEventModel {
            channel: self.channel@,
            message: self.message.deep_view(),
            previous_message: self.previous_message.deep_view(),
            event_ts: self.event_ts.deep_view(),
        }
    }
}

impl Clone for SlackMessageChangedEvent {
    fn clone(&self) -> (copy: Self)
        ensures
            copy.deep_view() == self.deep_view(),
    {
        let copy = SlackMessageChangedEvent {
            channel: self.channel.clone(),
            message: self.message.clone(),
            previous_message: self.previous_message.clone(),
            event_ts: self.event_ts.clone(),
        };
        assert(copy.previous_message.deep_view() =~= self.previous_message.deep_view());
        assert(copy.event_ts.deep_view() =~= self.event_ts.deep_view());
        copy
    }
}

/// A message that was deleted.
#[derive(Debug, PartialEq, Eq)]
pub struct SlackMessageDeletedEvent {
    pub channel: String,
    pub deleted_ts: Option<String>,
    pub previous_message: Option<SlackUpdatedMessage>,
    pub event_ts: Option<String>,
}

/// What a [`SlackMessageDeletedEvent`] says: its texts as sequences of characters.
#[verifier::ext_equal]
pub struct SlackMessageDeletedEventModel {
    pub channel: Seq<char>,
    pub deleted_ts: Option<Seq<char>>,
    pub previous_message: Option<SlackUpdatedMessageModel>,
    pub event_ts: Option<Seq<char>>,
}

impl DeepView for SlackMessageDeletedEvent {
    type V = SlackMessageDeletedEventModel;

    open spec fn deep_view(&self) -> SlackMessageDeletedEventModel {
        SlackMessageDeletedEventModel {
            channel: self.channel@,
            deleted_ts: self.deleted_ts.deep_view(),
            previous_message: self.previous_message.deep_view(),
            event_ts: self.event_ts.deep_view(),
        }
    }
}

impl Clone for SlackMessageDeletedEvent {
    fn clone(&self) -> (copy: Self)
        ensures
            copy.deep_view() == self.deep_view(),
    {
        let copy = SlackMessageDeletedEvent {
            channel: self.channel.clone(),
            deleted_ts: self.deleted_ts.clone(),
            previous_message: self.previous_message.clone(),
            event_ts: self.event_ts.clone(),
        };
        assert(copy.deleted_ts.deep_view() =~= self.deleted_ts.deep_view());
        assert(copy.previous_message.deep_view() =~= self.previous_message.deep_view());
        assert(copy.event_ts.deep_view() =~= self.event_ts.deep_view());
        copy
    }
}

/// A user who is typing.
#[derive(Debug, PartialEq, Eq)]
pub struct SlackUserTypingEvent {
    pub channel: String,
    pub user: Option<String>,
}

/// What a [`SlackUserTypingEvent`] says: its texts as sequences of characters.
#[verifier::ext_equal]
pub struct SlackUserTypingEventModel {
    pub channel: Seq<char>,
    pub user: Option<Seq<char>>,
}

impl DeepView for SlackUserTypingEvent {
    type V = SlackUserTypingEventModel;

    open spec fn deep_view(&self) -> SlackUserTypingEventModel {
        SlackUserTypingEventModel {
            channel: self.channel@,
            user: self.user.deep_view(),
        }
    }
}

impl Clone for SlackUserTypingEvent {
    fn clone(&self) -> (copy: Self)
        ensures
            copy.deep_view() == self.deep_view(),
    {
        let copy = SlackUserTypingEvent {
            channel: self.channel.clone(),
            user: self.user.clone(),
        };
        assert(copy.user.deep_view() =~= self.user.deep_view());
        copy
    }
}

/// An event of the socket.
#[derive(Debug, PartialEq, Eq)]
pub enum SlackSocketEvent {
    Message(SlackMessageEvent),
    MessageChanged(SlackMessageChangedEvent),
    MessageDeleted(SlackMessageDeletedEvent),
    ReactionAdded(SlackReactionEvent),
    ReactionRemoved(SlackReactionEvent),
    UserTyping(SlackUserTypingEvent),
    Unsupported { kind: Option<String> },
}

/// What a [`SlackSocketEvent`] says: its texts as sequences of characters.
#[verifier::ext_equal]
pub enum SlackSocketEventModel {
    Message(SlackMessageEventModel),
    MessageChanged(SlackMessageChangedEventModel),
    MessageDeleted(SlackMessageDeletedEventModel),
    ReactionAdded(SlackReactionEventModel),
    ReactionRemoved(SlackReactionEventModel),
    UserTyping(SlackUserTypingEventModel),
    Unsupported { kind: Option<Seq<char>> },
}

impl DeepView for SlackSocketEvent {
    type V = SlackSocketEventModel;

    open spec fn deep_view(&self) -> SlackSocketEventModel {
        match self {
            SlackSocketEvent::Message(a) => SlackSocketEventModel::Message(a.deep_view()),
            SlackSocketEvent::MessageChanged(a) => SlackSocketEventModel::MessageChanged(a.deep_view()),
            SlackSocketEvent::MessageDeleted(a) => SlackSocketEventModel::MessageDeleted(a.deep_view()),
            SlackSocketEvent::ReactionAdded(a) => SlackSocketEventModel::ReactionAdded(a.deep_view()),
            SlackSocketEvent::ReactionRemoved(a) => SlackSocketEventModel::ReactionRemoved(a.deep_view()),
            SlackSocketEvent::UserTyping(a) => SlackSocketEventModel::UserTyping(a.deep_view()),
            SlackSocketEvent::Unsupported { kind } => SlackSocketEventModel::Unsupported { kind: kind.deep_view() },
        }
    }
}

impl Clone for SlackSocketEvent {
    fn clone(&self) -> (copy: Self)
        ensures
            copy.deep_view() == self.deep_view(),
    {
        match self {
            SlackSocketEvent::Message(a) => {
                let copy = SlackSocketEvent::Message(a.clone());
                assert(copy.deep_view() =~= self.deep_view());
                copy
            },
            SlackSocketEvent::MessageChanged(a) => {
                let copy = SlackSocketEvent::MessageChanged(a.clone());
                assert(copy.deep_view() =~= self.deep_view());
                copy
            },
            SlackSocketEvent::MessageDeleted(a) => {
                let copy = SlackSocketEvent::MessageDeleted(a.clone());
                assert(copy.deep_view() =~= self.deep_view());
                copy
            },
            SlackSocketEvent::ReactionAdded(a) => {
                let copy = SlackSocketEvent::ReactionAdded(a.clone());
                assert(copy.deep_view() =~= self.deep_view());
                copy
            },
            SlackSocketEvent::ReactionRemoved(a) => {
                let copy = SlackSocketEvent::ReactionRemoved(a.clone());
                assert(copy.deep_view() =~= self.deep_view());
                copy
            },
            SlackSocketEvent::UserTyping(a) => {
                let copy = SlackSocketEvent::UserTyping(a.clone());
                assert(copy.deep_view() =~= self.deep_view());
                copy
            },
            SlackSocketEvent::Unsupported { kind } => {
                let copy = SlackSocketEvent::Unsupported { kind: kind.clone() };
                assert(copy.deep_view() =~= self.deep_view());
                copy
            },
        }
    }
}

/// A name that is given and not empty.
pub open spec fn given(name: Option<Seq<char>>) -> Option<Seq<char>> {
    match name {
        Some(name) => if name.len() > 0 {
            Some(name)
        } else {
            None
        },
        None => None,
    }
}

impl SlackConversationModel {
    /// The name to show: the channel's own, else its normalized one.
    pub open spec fn shown_name(self) -> Option<Seq<char>> {
        match given(self.name) {
            Some(name) => Some(name),
            None => given(self.name_normalized),
        }
    }
}

impl SlackConversation {
    /// The name to show: the channel's own, else its normalized one.
    pub fn display_name(&self) -> (r: Option<&str>)
        ensures
            match r {
                Some(name) => self.deep_view().shown_name() == Some(name@),
                None => self.deep_view().shown_name() is None,
            },
    {
        if let Some(name) = &self.name {
            if !name.as_str().is_empty() {
                return Some(name.as_str());
            }
        }
        if let Some(name) = &self.name_normalized {
            if !name.as_str().is_empty() {
                return Some(name.as_str());
            }
        }
        None
    }
}

} // verus!
