//! What the user has set: profiles, notification rules, channel permissions, the timeline policy.
use vstd::prelude::*;

use crate::binary64::{whole, Binary64};
use crate::collections::{Identified, TextMap, TextSet};
use crate::patterns::{PatternMatcher, PatternMatcherModel};
use crate::text::{non_blank, owned, trimmed_non_blank};
use crate::theme::ThemeId;

verus! {

/// What to do about an item that a rule matches.
#[derive(Clone, Copy, Debug, PartialEq, Eq, Structural)]
pub enum NotificationAction {
    Notify,
    Silent,
    Critical,
}

impl DeepView for NotificationAction {
    type V = NotificationAction;

    open spec fn deep_view(&self) -> NotificationAction {
        *self
    }
}

/// The hours, from the first up to the second, in which a rule stays quiet.
#[derive(Clone, Copy, Debug, PartialEq, Eq, Structural)]
pub struct QuietHours {
    pub start_hour: u8,
    pub end_hour: u8,
}

impl DeepView for QuietHours {
    type V = QuietHours;

    open spec fn deep_view(&self) -> QuietHours {
        *self
    }
}

/// Whether what a profile matches is let through or kept out.
#[derive(Clone, Copy, Debug, PartialEq, Eq, Structural)]
pub enum ProfileMode {
    Allow,
    Deny,
}

impl DeepView for ProfileMode {
    type V = ProfileMode;

    open spec fn deep_view(&self) -> ProfileMode {
        *self
    }
}

impl Default for ProfileMode {
    fn default() -> (value: Self)
        ensures
            value == ProfileMode::Allow,
    {
        ProfileMode::Allow
    }
}

/// What the user may do in a channel.
#[derive(Clone, Copy, Debug, PartialEq, Eq, Structural)]
pub enum ChannelPermission {
    ReadWrite,
    ReadOnly,
    Hidden,
}

impl DeepView for ChannelPermission {
    type V = ChannelPermission;

    open spec fn deep_view(&self) -> ChannelPermission {
        *self
    }
}

impl Default for ChannelPermission {
    fn default() -> (value: Self)
        ensures
            value == ChannelPermission::ReadWrite,
    {
        ChannelPermission::ReadWrite
    }
}

impl ChannelPermission {
    /// Whether the channel may be read.
    pub open spec fn readable(self) -> bool {
        self != ChannelPermission::Hidden
    }

    /// Whether the channel may be written to.
    pub open spec fn writable(self) -> bool {
        self == ChannelPermission::ReadWrite
    }

    /// Whether the channel may be read.
    pub fn can_read(self) -> (r: bool)
        ensures
            r == self.readable(),
    {
        !matches!(self, ChannelPermission::Hidden)
    }

    /// Whether the channel may be written to.
    pub fn can_write(self) -> (r: bool)
        ensures
            r == self.writable(),
    {
        matches!(self, ChannelPermission::ReadWrite)
    }
}

impl Clone for TextMap<ChannelPermission> {
    fn clone(&self) -> (copy: Self)
        ensures
            copy.deep_view() == self.deep_view(),
    {
        self.copy()
    }
}

/// Matchers for what messages say.
#[derive(Debug, PartialEq, Eq)]
pub struct KeywordProfile {
    pub id: String,
    pub label: String,
    pub mode: ProfileMode,
    pub matchers: Vec<PatternMatcher>,
}

/// What a [`KeywordProfile`] says: its texts as sequences of characters.
#[verifier::ext_equal]
pub struct KeywordProfileModel {
    pub id: Seq<char>,
    pub label: Seq<char>,
    pub mode: ProfileMode,
    pub matchers: Seq<PatternMatcherModel>,
}

impl DeepView for KeywordProfile {
    type V = KeywordProfileModel;

    open spec fn deep_view(&self) -> KeywordProfileModel {
        KeywordProfileModel {
            id: self.id@,
            label: self.label@,
            mode: self.mode,
            matchers: self.matchers.deep_view(),
        }
    }
}

impl Clone for KeywordProfile {
    fn clone(&self) -> (copy: Self)
        ensures
            copy.deep_view() == self.deep_view(),
    {
        let copy = KeywordProfile {
            id: self.id.clone(),
            label: self.label.clone(),
            mode: self.mode,
            matchers: self.matchers.clone(),
        };
        assert(copy.matchers.deep_view() =~= self.matchers.deep_view());
        copy
    }
}

impl Default for KeywordProfile {
    fn default() -> (value: Self)
        ensures
            value.deep_view() == (KeywordProfileModel {
                id: Seq::empty(),
                label: Seq::empty(),
                mode: ProfileMode::Allow,
                matchers: Seq::empty(),
            }),
    {
        let value = KeywordProfile {
            id: String::new(),
            label: String::new(),
            mode: ProfileMode::default(),
            matchers: Vec::new(),
        };
        assert(value.deep_view() =~= (KeywordProfileModel {
            id: Seq::empty(),
            label: Seq::empty(),
            mode: ProfileMode::Allow,
            matchers: Seq::empty(),
        }));
        value
    }
}

impl Identified for KeywordProfile {
    open spec fn identity(value: KeywordProfileModel) -> Seq<char> {
        value.id
    }

    fn identifier(&self) -> &str {
        self.id.as_str()
    }
}

/// Channels, by identifier and by name.
#[derive(Debug, PartialEq, Eq)]
pub struct ChannelProfile {
    pub id: String,
    pub label: String,
    pub mode: ProfileMode,
    pub channels: TextSet,
    pub channel_name_matchers: Vec<PatternMatcher>,
}

/// What a [`ChannelProfile`] says: its texts as sequences of characters.
#[verifier::ext_equal]
pub struct ChannelProfileModel {
    pub id: Seq<char>,
    pub label: Seq<char>,
    pub mode: ProfileMode,
    pub channels: Seq<Seq<char>>,
    pub channel_name_matchers: Seq<PatternMatcherModel>,
}

impl DeepView for ChannelProfile {
    type V = ChannelProfileModel;

    open spec fn deep_view(&self) -> ChannelProfileModel {
        ChannelProfileModel {
            id: self.id@,
            label: self.label@,
            mode: self.mode,
            channels: self.channels.deep_view(),
            channel_name_matchers: self.channel_name_matchers.deep_view(),
        }
    }
}

impl Clone for ChannelProfile {
    fn clone(&self) -> (copy: Self)
        ensures
            copy.deep_view() == self.deep_view(),
    {
        let copy = ChannelProfile {
            id: self.id.clone(),
            label: self.label.clone(),
            mode: self.mode,
            channels: self.channels.clone(),
            channel_name_matchers: self.channel_name_matchers.clone(),
        };
        assert(copy.channel_name_matchers.deep_view() =~= self.channel_name_matchers.deep_view());
        copy
    }
}

impl Default for ChannelProfile {
    fn default() -> (value: Self)
        ensures
            value.deep_view() == (ChannelProfileModel {
                id: Seq::empty(),
                label: Seq::empty(),
                mode: ProfileMode::Allow,
                channels: Seq::empty(),
                channel_name_matchers: Seq::empty(),
            }),
    {
        let value = ChannelProfile {
            id: String::new(),
            label: String::new(),
            mode: ProfileMode::default(),
            channels: TextSet::new(),
            channel_name_matchers: Vec::new(),
        };
        assert(value.deep_view() =~= (ChannelProfileModel {
            id: Seq::empty(),
            label: Seq::empty(),
            mode: ProfileMode::Allow,
            channels: Seq::empty(),
            channel_name_matchers: Seq::empty(),
        }));
        value
    }
}

impl Identified for ChannelProfile {
    open spec fn identity(value: ChannelProfileModel) -> Seq<char> {
        value.id
    }

    fn identifier(&self) -> &str {
        self.id.as_str()
    }
}

/// A named group of channels.
#[derive(Debug, PartialEq, Eq)]
pub struct SectionProfile {
    pub id: String,
    pub label: String,
    pub channels: TextSet,
    pub channel_name_matchers: Vec<PatternMatcher>,
}

/// What a [`SectionProfile`] says: its texts as sequences of characters.
#[verifier::ext_equal]
pub struct SectionProfileModel {
    pub id: Seq<char>,
    pub label: Seq<char>,
    pub channels: Seq<Seq<char>>,
    pub channel_name_matchers: Seq<PatternMatcherModel>,
}

impl DeepView for SectionProfile {
    type V = SectionProfileModel;

    open spec fn deep_view(&self) -> SectionProfileModel {
        SectionProfileModel {
            id: self.id@,
            label: self.label@,
            channels: self.channels.deep_view(),
            channel_name_matchers: self.channel_name_matchers.deep_view(),
        }
    }
}

impl Clone for SectionProfile {
    fn clone(&self) -> (copy: Self)
        ensures
            copy.deep_view() == self.deep_view(),
    {
        let copy = SectionProfile {
            id: self.id.clone(),
            label: self.label.clone(),
            channels: self.channels.clone(),
            channel_name_matchers: self.channel_name_matchers.clone(),
        };
        assert(copy.channel_name_matchers.deep_view() =~= self.channel_name_matchers.deep_view());
        copy
    }
}

impl Default for SectionProfile {
    fn default() -> (value: Self)
        ensures
            value.deep_view() == (SectionProfileModel {
                id: Seq::empty(),
                label: Seq::empty(),
                channels: Seq::empty(),
                channel_name_matchers: Seq::empty(),
            }),
    {
        let value = SectionProfile {
            id: String::new(),
            label: String::new(),
            channels: TextSet::new(),
            channel_name_matchers: Vec::new(),
        };
        assert(value.deep_view() =~= (SectionProfileModel {
            id: Seq::empty(),
            label: Seq::empty(),
            channels: Seq::empty(),
            channel_name_matchers: Seq::empty(),
        }));
        value
    }
}

impl Identified for SectionProfile {
    open spec fn identity(value: SectionProfileModel) -> Seq<char> {
        value.id
    }

    fn identifier(&self) -> &str {
        self.id.as_str()
    }
}

/// Authors, by identifier.
#[derive(Debug, PartialEq, Eq)]
pub struct AuthorProfile {
    pub id: String,
    pub label: String,
    pub mode: ProfileMode,
    pub authors: TextSet,
}

/// What a [`AuthorProfile`] says: its texts as sequences of characters.
#[verifier::ext_equal]
pub struct AuthorProfileModel {
    pub id: Seq<char>,
    pub label: Seq<char>,
    pub mode: ProfileMode,
    pub authors: Seq<Seq<char>>,
}

impl DeepView for AuthorProfile {
    type V = AuthorProfileModel;

    open spec fn deep_view(&self) -> AuthorProfileModel {
        AuthorProfileModel {
            id: self.id@,
            label: self.label@,
            mode: self.mode,
            authors: self.authors.deep_view(),
        }
    }
}

impl Clone for AuthorProfile {
    fn clone(&self) -> (copy: Self)
        ensures
            copy.deep_view() == self.deep_view(),
    {
        let copy = AuthorProfile {
            id: self.id.clone(),
            label: self.label.clone(),
            mode: self.mode,
            authors: self.authors.clone(),
        };
        copy
    }
}

impl Default for AuthorProfile {
    fn default() -> (value: Self)
        ensures
            value.deep_view() == (AuthorProfileModel {
                id: Seq::empty(),
                label: Seq::empty(),
                mode: ProfileMode::Allow,
                authors: Seq::empty(),
            }),
    {
        let value = AuthorProfile {
            id: String::new(),
            label: String::new(),
            mode: ProfileMode::default(),
            authors: TextSet::new(),
        };
        assert(value.deep_view() =~= (AuthorProfileModel {
            id: Seq::empty(),
            label: Seq::empty(),
            mode: ProfileMode::Allow,
            authors: Seq::empty(),
        }));
        value
    }
}

impl Identified for AuthorProfile {
    open spec fn identity(value: AuthorProfileModel) -> Seq<char> {
        value.id
    }

    fn identifier(&self) -> &str {
        self.id.as_str()
    }
}

/// A search made of a query, of other profiles, and of channels and authors.
#[derive(Debug, PartialEq, Eq)]
pub struct SearchProfile {
    pub id: String,
    pub label: String,
    pub query: Option<String>,
    pub keyword_profiles: Vec<String>,
    pub section_profiles: Vec<String>,
    pub channel_profiles: Vec<String>,
    pub author_profiles: Vec<String>,
    pub channels: TextSet,
    pub authors: TextSet,
}

/// What a [`SearchProfile`] says: its texts as sequences of characters.
#[verifier::ext_equal]
pub struct SearchProfileModel {
    pub id: Seq<char>,
    pub label: Seq<char>,
    pub query: Option<Seq<char>>,
    pub keyword_profiles: Seq<Seq<char>>,
    pub section_profiles: Seq<Seq<char>>,
    pub channel_profiles: Seq<Seq<char>>,
    pub author_profiles: Seq<Seq<char>>,
    pub channels: Seq<Seq<char>>,
    pub authors: Seq<Seq<char>>,
}

impl DeepView for SearchProfile {
    type V = SearchProfileModel;

    open spec fn deep_view(&self) -> SearchProfileModel {
        SearchProfileModel {
            id: self.id@,
            label: self.label@,
            query: self.query.deep_view(),
            keyword_profiles: self.keyword_profiles.deep_view(),
            section_profiles: self.section_profiles.deep_view(),
            channel_profiles: self.channel_profiles.deep_view(),
            author_profiles: self.author_profiles.deep_view(),
            channels: self.channels.deep_view(),
            authors: self.authors.deep_view(),
        }
    }
}

impl Clone for SearchProfile {
    fn clone(&self) -> (copy: Self)
        ensures
            copy.deep_view() == self.deep_view(),
    {
        let copy = SearchProfile {
            id: self.id.clone(),
            label: self.label.clone(),
            query: self.query.clone(),
            keyword_profiles: self.keyword_profiles.clone(),
            section_profiles: self.section_profiles.clone(),
            channel_profiles: self.channel_profiles.clone(),
            author_profiles: self.author_profiles.clone(),
            channels: self.channels.clone(),
            authors: self.authors.clone(),
        };
        assert(copy.query.deep_view() =~= self.query.deep_view());
        assert(copy.keyword_profiles.deep_view() =~= self.keyword_profiles.deep_view());
        assert(copy.section_profiles.deep_view() =~= self.section_profiles.deep_view());
        assert(copy.channel_profiles.deep_view() =~= self.channel_profiles.deep_view());
        assert(copy.author_profiles.deep_view() =~= self.author_profiles.deep_view());
        copy
    }
}

impl Default for SearchProfile {
    fn default() -> (value: Self)
        ensures
            value.deep_view() == (SearchProfileModel {
                id: Seq::empty(),
                label: Seq::empty(),
                query: None,
                keyword_profiles: Seq::empty(),
                section_profiles: Seq::empty(),
                channel_profiles: Seq::empty(),
                author_profiles: Seq::empty(),
                channels: Seq::empty(),
                authors: Seq::empty(),
            }),
    {
        let value = SearchProfile {
            id: String::new(),
            label: String::new(),
            query: None,
            keyword_profiles: Vec::new(),
            section_profiles: Vec::new(),
            channel_profiles: Vec::new(),
            author_profiles: Vec::new(),
            channels: TextSet::new(),
            authors: TextSet::new(),
        };
        assert(value.deep_view() =~= (SearchProfileModel {
            id: Seq::empty(),
            label: Seq::empty(),
            query: None,
            keyword_profiles: Seq::empty(),
            section_profiles: Seq::empty(),
            channel_profiles: Seq::empty(),
            author_profiles: Seq::empty(),
            channels: Seq::empty(),
            authors: Seq::empty(),
        }));
        value
    }
}

impl Identified for SearchProfile {
    open spec fn identity(value: SearchProfileModel) -> Seq<char> {
        value.id
    }

    fn identifier(&self) -> &str {
        self.id.as_str()
    }
}

/// The identifier of a notification rule.
#[derive(Clone, Copy, Debug, PartialEq, Eq, Structural)]
pub struct RuleId {
    pub bits: u128,
}

impl DeepView for RuleId {
    type V = RuleId;

    open spec fn deep_view(&self) -> RuleId {
        *self
    }
}

/// When to notify of an item. A rule without filters matches every item.
#[derive(Debug, PartialEq, Eq)]
pub struct NotificationRule {
    pub id: RuleId,
    pub label: String,
    pub enabled: bool,
    pub channels: TextSet,
    pub authors: TextSet,
    /// Of these at least one must match, if there are any.
    pub includes: Vec<PatternMatcher>,
    /// Of these none may match.
    pub exclude: Vec<PatternMatcher>,
    pub keyword_profile_ids: Vec<String>,
    pub section_profile_ids: Vec<String>,
    pub channel_profile_ids: Vec<String>,
    pub author_profile_ids: Vec<String>,
    pub search_profile_ids: Vec<String>,
    pub thread_participation_only: bool,
    pub quiet_hours: Option<QuietHours>,
    pub action: NotificationAction,
}

/// What a [`NotificationRule`] says: its texts as sequences of characters.
#[verifier::ext_equal]
pub struct NotificationRuleModel {
    pub id: RuleId,
    pub label: Seq<char>,
    pub enabled: bool,
    pub channels: Seq<Seq<char>>,
    pub authors: Seq<Seq<char>>,
    pub includes: Seq<PatternMatcherModel>,
    pub exclude: Seq<PatternMatcherModel>,
    pub keyword_profile_ids: Seq<Seq<char>>,
    pub section_profile_ids: Seq<Seq<char>>,
    pub channel_profile_ids: Seq<Seq<char>>,
    pub author_profile_ids: Seq<Seq<char>>,
    pub search_profile_ids: Seq<Seq<char>>,
    pub thread_participation_only: bool,
    pub quiet_hours: Option<QuietHours>,
    pub action: NotificationAction,
}

impl DeepView for NotificationRule {
    type V = NotificationRuleModel;

    open spec fn deep_view(&self) -> NotificationRuleModel {
        NotificationRuleModel {
            id: self.id,
            label: self.label@,
            enabled: self.enabled,
            channels: self.channels.deep_view(),
            authors: self.authors.deep_view(),
            includes: self.includes.deep_view(),
            exclude: self.exclude.deep_view(),
            keyword_profile_ids: self.keyword_profile_ids.deep_view(),
            section_profile_ids: self.section_profile_ids.deep_view(),
            channel_profile_ids: self.channel_profile_ids.deep_view(),
            author_profile_ids: self.author_profile_ids.deep_view(),
            search_profile_ids: self.search_profile_ids.deep_view(),
            thread_participation_only: self.thread_participation_only,
            quiet_hours: self.quiet_hours,
            action: self.action,
        }
    }
}

impl Clone for NotificationRule {
    fn clone(&self) -> (copy: Self)
        ensures
            copy.deep_view() == self.deep_view(),
    {
        let copy = NotificationRule {
            id: self.id,
            label: self.label.clone(),
            enabled: self.enabled,
            channels: self.channels.clone(),
            authors: self.authors.clone(),
            includes: self.includes.clone(),
            exclude: self.exclude.clone(),
            keyword_profile_ids: self.keyword_profile_ids.clone(),
            section_profile_ids: self.section_profile_ids.clone(),
            channel_profile_ids: self.channel_profile_ids.clone(),
            author_profile_ids: self.author_profile_ids.clone(),
            search_profile_ids: self.search_profile_ids.clone(),
            thread_participation_only: self.thread_participation_only,
            quiet_hours: self.quiet_hours,
            action: self.action,
        };
        assert(copy.includes.deep_view() =~= self.includes.deep_view());
        assert(copy.exclude.deep_view() =~= self.exclude.deep_view());
        assert(copy.keyword_profile_ids.deep_view() =~= self.keyword_profile_ids.deep_view());
        assert(copy.section_profile_ids.deep_view() =~= self.section_profile_ids.deep_view());
        assert(copy.channel_profile_ids.deep_view() =~= self.channel_profile_ids.deep_view());
        assert(copy.author_profile_ids.deep_view() =~= self.author_profile_ids.deep_view());
        assert(copy.search_profile_ids.deep_view() =~= self.search_profile_ids.deep_view());
        copy
    }
}

/// A workspace that the user has connected.
#[derive(Debug, PartialEq, Eq)]
pub struct WorkspaceProfile {
    pub key: String,
    pub label: String,
    pub team_id: Option<String>,
    pub team_name: Option<String>,
    pub app_id: Option<String>,
}

/// What a [`WorkspaceProfile`] says: its texts as sequences of characters.
#[verifier::ext_equal]
pub struct WorkspaceProfileModel {
    pub key: Seq<char>,
    pub label: Seq<char>,
    pub team_id: Option<Seq<char>>,
    pub team_name: Option<Seq<char>>,
    pub app_id: Option<Seq<char>>,
}

impl DeepView for WorkspaceProfile {
    type V = WorkspaceProfileModel;

    open spec fn deep_view(&self) -> WorkspaceProfileModel {
        WorkspaceProfileModel {
            key: self.key@,
            label: self.label@,
            team_id: self.team_id.deep_view(),
            team_name: self.team_name.deep_view(),
            app_id: self.app_id.deep_view(),
        }
    }
}

impl Clone for WorkspaceProfile {
    fn clone(&self) -> (copy: Self)
        ensures
            copy.deep_view() == self.deep_view(),
    {
        let copy = WorkspaceProfile {
            key: self.key.clone(),
            label: self.label.clone(),
            team_id: self.team_id.clone(),
            team_name: self.team_name.clone(),
            app_id: self.app_id.clone(),
        };
        assert(copy.team_id.deep_view() =~= self.team_id.deep_view());
        assert(copy.team_name.deep_view() =~= self.team_name.deep_view());
        assert(copy.app_id.deep_view() =~= self.app_id.deep_view());
        copy
    }
}

impl Identified for WorkspaceProfile {
    open spec fn identity(value: WorkspaceProfileModel) -> Seq<char> {
        value.key
    }

    fn identifier(&self) -> &str {
        self.key.as_str()
    }
}

/// How to reach the Slack app.
#[derive(Debug, PartialEq, Eq)]
pub struct SlackConfigSettings {
    pub client_id: Option<String>,
    pub client_secret: Option<String>,
    pub redirect_uri: Option<String>,
    pub user_scopes: Option<String>,
    pub app_token: Option<String>,
}

/// What a [`SlackConfigSettings`] says: its texts as sequences of characters.
#[verifier::ext_equal]
pub struct SlackConfigSettingsModel {
    pub client_id: Option<Seq<char>>,
    pub client_secret: Option<Seq<char>>,
    pub redirect_uri: Option<Seq<char>>,
    pub user_scopes: Option<Seq<char>>,
    pub app_token: Option<Seq<char>>,
}

impl DeepView for SlackConfigSettings {
    type V = SlackConfigSettingsModel;

    open spec fn deep_view(&self) -> SlackConfigSettingsModel {
        SlackConfigSettingsModel {
            client_id: self.client_id.deep_view(),
            client_secret: self.client_secret.deep_view(),
            redirect_uri: self.redirect_uri.deep_view(),
            user_scopes: self.user_scopes.deep_view(),
            app_token: self.app_token.deep_view(),
        }
    }
}

impl Clone for SlackConfigSettings {
    fn clone(&self) -> (copy: Self)
        ensures
            copy.deep_view() == self.deep_view(),
    {
        let copy = SlackConfigSettings {
            client_id: self.client_id.clone(),
            client_secret: self.client_secret.clone(),
            redirect_uri: self.redirect_uri.clone(),
            user_scopes: self.user_scopes.clone(),
            app_token: self.app_token.clone(),
        };
        assert(copy.client_id.deep_view() =~= self.client_id.deep_view());
        assert(copy.client_secret.deep_view() =~= self.client_secret.deep_view());
        assert(copy.redirect_uri.deep_view() =~= self.redirect_uri.deep_view());
        assert(copy.user_scopes.deep_view() =~= self.user_scopes.deep_view());
        assert(copy.app_token.deep_view() =~= self.app_token.deep_view());
        copy
    }
}

impl Default for SlackConfigSettings {
    fn default() -> (value: Self)
        ensures
            value.deep_view() == (SlackConfigSettingsModel {
                client_id: None,
                client_secret: None,
                redirect_uri: None,
                user_scopes: None,
                app_token: None,
            }),
    {
        let value = SlackConfigSettings {
            client_id: None,
            client_secret: None,
            redirect_uri: None,
            user_scopes: None,
            app_token: None,
        };
        assert(value.deep_view() =~= (SlackConfigSettingsModel {
            client_id: None,
            client_secret: None,
            redirect_uri: None,
            user_scopes: None,
            app_token: None,
        }));
        value
    }
}

/// An optional text after a patch: kept if the patch names none, else the patch's text trimmed,
/// and none if that is blank.
pub open spec fn patched_id(current: Option<Seq<char>>, patch: Option<Seq<char>>) -> Option<
    Seq<char>,
> {
    match patch {
        Some(value) => trimmed_non_blank(value),
        None => current,
    }
}

/// A text without white space at its ends, or none if that leaves nothing.
pub fn normalize_optional_id(value: String) -> (r: Option<String>)
    ensures
        r.deep_view() == trimmed_non_blank(value@),
{
    non_blank(value.as_str())
}

impl SlackConfigSettingsModel {
    /// The settings after a patch: each field that the patch names is set, the others stay.
    pub open spec fn patched(self, patch: Self) -> Self {
        SlackConfigSettingsModel {
            client_id: patched_id(self.client_id, patch.client_id),
            client_secret: patched_id(self.client_secret, patch.client_secret),
            redirect_uri: patched_id(self.redirect_uri, patch.redirect_uri),
            user_scopes: patched_id(self.user_scopes, patch.user_scopes),
            app_token: patched_id(self.app_token, patch.app_token),
        }
    }
}

impl SlackConfigSettings {
    /// Sets the fields that the patch names.
    pub fn apply_patch(&mut self, patch: Self)
        ensures
            final(self).deep_view() == old(self).deep_view().patched(patch.deep_view()),
    {
        if let Some(client_id) = patch.client_id {
            self.client_id = normalize_optional_id(client_id);
        }
        if let Some(client_secret) = patch.client_secret {
            self.client_secret = normalize_optional_id(client_secret);
        }
        if let Some(redirect_uri) = patch.redirect_uri {
            self.redirect_uri = normalize_optional_id(redirect_uri);
        }
        if let Some(user_scopes) = patch.user_scopes {
            self.user_scopes = normalize_optional_id(user_scopes);
        }
        if let Some(app_token) = patch.app_token {
            self.app_token = normalize_optional_id(app_token);
        }
    }
}

/// Which channels the office view shows.
#[derive(Debug, PartialEq, Eq)]
pub struct OfficeSettings {
    pub channel_profile_id: Option<String>,
}

/// What a [`OfficeSettings`] says: its texts as sequences of characters.
#[verifier::ext_equal]
pub struct OfficeSettingsModel {
    pub channel_profile_id: Option<Seq<char>>,
}

impl DeepView for OfficeSettings {
    type V = OfficeSettingsModel;

    open spec fn deep_view(&self) -> OfficeSettingsModel {
        OfficeSettingsModel {
            channel_profile_id: self.channel_profile_id.deep_view(),
        }
    }
}

impl Clone for OfficeSettings {
    fn clone(&self) -> (copy: Self)
        ensures
            copy.deep_view() == self.deep_view(),
    {
        let copy = OfficeSettings {
            channel_profile_id: self.channel_profile_id.clone(),
        };
        assert(copy.channel_profile_id.deep_view() =~= self.channel_profile_id.deep_view());
        copy
    }
}

impl Default for OfficeSettings {
    fn default() -> (value: Self)
        ensures
            value.deep_view() == (OfficeSettingsModel {
                channel_profile_id: None,
            }),
    {
        let value = OfficeSettings {
            channel_profile_id: None,
        };
        assert(value.deep_view() =~= (OfficeSettingsModel {
            channel_profile_id: None,
        }));
        value
    }
}

impl OfficeSettingsModel {
    /// The settings after a patch.
    pub open spec fn patched(self, patch: Self) -> Self {
        OfficeSettingsModel {
            channel_profile_id: patched_id(self.channel_profile_id, patch.channel_profile_id),
        }
    }
}

impl OfficeSettings {
    /// Sets the fields that the patch names.
    pub fn apply_patch(&mut self, patch: Self)
        ensures
            final(self).deep_view() == old(self).deep_view().patched(patch.deep_view()),
    {
        if let Some(channel_profile_id) = patch.channel_profile_id {
            self.channel_profile_id = normalize_optional_id(channel_profile_id);
        }
    }
}

/// The keys for each action of the window.
#[derive(Debug, PartialEq, Eq)]
pub struct ShortcutBindings {
    pub open_settings: Vec<String>,
    pub open_admin: Vec<String>,
    pub focus_search: Vec<String>,
    pub focus_composer: Vec<String>,
    pub close_column: Vec<String>,
}

/// What a [`ShortcutBindings`] says: its texts as sequences of characters.
#[verifier::ext_equal]
pub struct ShortcutBindingsModel {
    pub open_settings: Seq<Seq<char>>,
    pub open_admin: Seq<Seq<char>>,
    pub focus_search: Seq<Seq<char>>,
    pub focus_composer: Seq<Seq<char>>,
    pub close_column: Seq<Seq<char>>,
}

impl DeepView for ShortcutBindings {
    type V = ShortcutBindingsModel;

    open spec fn deep_view(&self) -> ShortcutBindingsModel {
        ShortcutBindingsModel {
            open_settings: self.open_settings.deep_view(),
            open_admin: self.open_admin.deep_view(),
            focus_search: self.focus_search.deep_view(),
            focus_composer: self.focus_composer.deep_view(),
            close_column: self.close_column.deep_view(),
        }
    }
}

impl Clone for ShortcutBindings {
    fn clone(&self) -> (copy: Self)
        ensures
            copy.deep_view() == self.deep_view(),
    {
        let copy = ShortcutBindings {
            open_settings: self.open_settings.clone(),
            open_admin: self.open_admin.clone(),
            focus_search: self.focus_search.clone(),
            focus_composer: self.focus_composer.clone(),
            close_column: self.close_column.clone(),
        };
        assert(copy.open_settings.deep_view() =~= self.open_settings.deep_view());
        assert(copy.open_admin.deep_view() =~= self.open_admin.deep_view());
        assert(copy.focus_search.deep_view() =~= self.focus_search.deep_view());
        assert(copy.focus_composer.deep_view() =~= self.focus_composer.deep_view());
        assert(copy.close_column.deep_view() =~= self.close_column.deep_view());
        copy
    }
}

impl Default for ShortcutBindings {
    fn default() -> (bindings: Self)
        ensures
            bindings.deep_view() == (ShortcutBindingsModel {
                open_settings: seq!["<Ctrl>comma"@],
                open_admin: seq!["<Ctrl><Shift>a"@],
                focus_search: seq!["<Ctrl>k"@],
                focus_composer: seq!["<Ctrl>n"@],
                close_column: seq!["<Ctrl>w"@, "Escape"@],
            }),
    {
        let bindings = ShortcutBindings {
            open_settings: vec![owned("<Ctrl>comma")],
            open_admin: vec![owned("<Ctrl><Shift>a")],
            focus_search: vec![owned("<Ctrl>k")],
            focus_composer: vec![owned("<Ctrl>n")],
            close_column: vec![owned("<Ctrl>w"), owned("Escape")],
        };
        assert(bindings.open_settings.deep_view() =~= seq!["<Ctrl>comma"@]);
        assert(bindings.open_admin.deep_view() =~= seq!["<Ctrl><Shift>a"@]);
        assert(bindings.focus_search.deep_view() =~= seq!["<Ctrl>k"@]);
        assert(bindings.focus_composer.deep_view() =~= seq!["<Ctrl>n"@]);
        assert(bindings.close_column.deep_view() =~= seq!["<Ctrl>w"@, "Escape"@]);
        bindings
    }
}

/// What the timeline watches, mutes and looks for.
#[derive(Debug, PartialEq, Eq)]
pub struct TimelinePolicy {
    /// None watched means that all are.
    pub watched_channels: TextSet,
    pub muted_channels: TextSet,
    pub channel_weights: TextMap<u8>,
    pub focus_keywords: Vec<String>,
    /// The score that the focus view asks for.
    pub focus_threshold: Binary64,
    pub recent_window_days: u16,
}

/// What a [`TimelinePolicy`] says: its texts as sequences of characters.
#[verifier::ext_equal]
pub struct TimelinePolicyModel {
    pub watched_channels: Seq<Seq<char>>,
    pub muted_channels: Seq<Seq<char>>,
    pub channel_weights: Seq<(Seq<char>, u8)>,
    pub focus_keywords: Seq<Seq<char>>,
    pub focus_threshold: Binary64,
    pub recent_window_days: u16,
}

impl DeepView for TimelinePolicy {
    type V = TimelinePolicyModel;

    open spec fn deep_view(&self) -> TimelinePolicyModel {
        TimelinePolicyModel {
            watched_channels: self.watched_channels.deep_view(),
            muted_channels: self.muted_channels.deep_view(),
            channel_weights: self.channel_weights.deep_view(),
            focus_keywords: self.focus_keywords.deep_view(),
            focus_threshold: self.focus_threshold,
            recent_window_days: self.recent_window_days,
        }
    }
}

impl Clone for TimelinePolicy {
    fn clone(&self) -> (copy: Self)
        ensures
            copy.deep_view() == self.deep_view(),
    {
        let copy = TimelinePolicy {
            watched_channels: self.watched_channels.clone(),
            muted_channels: self.muted_channels.clone(),
            channel_weights: self.channel_weights.clone(),
            focus_keywords: self.focus_keywords.clone(),
            focus_threshold: self.focus_threshold,
            recent_window_days: self.recent_window_days,
        };
        assert(copy.focus_keywords.deep_view() =~= self.focus_keywords.deep_view());
        copy
    }
}

impl Default for TimelinePolicy {
    fn default() -> (policy: Self)
        ensures
            policy.deep_view() == (TimelinePolicyModel {
                watched_channels: Seq::empty(),
                muted_channels: Seq::empty(),
                channel_weights: Seq::empty(),
                focus_keywords: Seq::empty(),
                focus_threshold: whole(75),
                recent_window_days: 7,
            }),
    {
        let policy = TimelinePolicy {
            watched_channels: TextSet::new(),
            muted_channels: TextSet::new(),
            channel_weights: TextMap::new(),
            focus_keywords: Vec::new(),
            focus_threshold: Binary64::of_integer(75),
            recent_window_days: 7,
        };
        assert(policy.focus_keywords.deep_view() =~= Seq::empty());
        policy
    }
}

/// Changes to the settings: what is none stays as it is.
#[derive(Debug, PartialEq, Eq)]
pub struct AppSettingsPatch {
    pub theme_id: Option<ThemeId>,
    pub timeline: Option<TimelinePolicy>,
    pub notification_rules: Option<Vec<NotificationRule>>,
    pub slack: Option<SlackConfigSettings>,
    pub office: Option<OfficeSettings>,
    pub shortcuts: Option<ShortcutBindings>,
    pub active_workspace_key: Option<String>,
    pub workspaces: Option<Vec<WorkspaceProfile>>,
    pub active_search_profile_id: Option<String>,
    pub keyword_profiles: Option<Vec<KeywordProfile>>,
    pub section_profiles: Option<Vec<SectionProfile>>,
    pub channel_profiles: Option<Vec<ChannelProfile>>,
    pub author_profiles: Option<Vec<AuthorProfile>>,
    pub search_profiles: Option<Vec<SearchProfile>>,
    pub default_channel_permission: Option<ChannelPermission>,
    pub channel_permissions: Option<TextMap<ChannelPermission>>,
}

/// What a [`AppSettingsPatch`] says: its texts as sequences of characters.
#[verifier::ext_equal]
pub struct AppSettingsPatchModel {
    pub theme_id: Option<ThemeId>,
    pub timeline: Option<TimelinePolicyModel>,
    pub notification_rules: Option<Seq<NotificationRuleModel>>,
    pub slack: Option<SlackConfigSettingsModel>,
    pub office: Option<OfficeSettingsModel>,
    pub shortcuts: Option<ShortcutBindingsModel>,
    pub active_workspace_key: Option<Seq<char>>,
    pub workspaces: Option<Seq<WorkspaceProfileModel>>,
    pub active_search_profile_id: Option<Seq<char>>,
    pub keyword_profiles: Option<Seq<KeywordProfileModel>>,
    pub section_profiles: Option<Seq<SectionProfileModel>>,
    pub channel_profiles: Option<Seq<ChannelProfileModel>>,
    pub author_profiles: Option<Seq<AuthorProfileModel>>,
    pub search_profiles: Option<Seq<SearchProfileModel>>,
    pub default_channel_permission: Option<ChannelPermission>,
    pub channel_permissions: Option<Seq<(Seq<char>, ChannelPermission)>>,
}

impl DeepView for AppSettingsPatch {
    type V = AppSettingsPatchModel;

    open spec fn deep_view(&self) -> AppSettingsPatchModel {
        AppSettingsPatchModel {
            theme_id: self.theme_id,
            timeline: self.timeline.deep_view(),
            notification_rules: self.notification_rules.deep_view(),
            slack: self.slack.deep_view(),
            office: self.office.deep_view(),
            shortcuts: self.shortcuts.deep_view(),
            active_workspace_key: self.active_workspace_key.deep_view(),
            workspaces: self.workspaces.deep_view(),
            active_search_profile_id: self.active_search_profile_id.deep_view(),
            keyword_profiles: self.keyword_profiles.deep_view(),
            section_profiles: self.section_profiles.deep_view(),
            channel_profiles: self.channel_profiles.deep_view(),
            author_profiles: self.author_profiles.deep_view(),
            search_profiles: self.search_profiles.deep_view(),
            default_channel_permission: self.default_channel_permission,
            channel_permissions: self.channel_permissions.deep_view(),
        }
    }
}

impl Clone for AppSettingsPatch {
    fn clone(&self) -> (copy: Self)
        ensures
            copy.deep_view() == self.deep_view(),
    {
        let copy = AppSettingsPatch {
            theme_id: self.theme_id,
            timeline: self.timeline.clone(),
            notification_rules: self.notification_rules.clone(),
            slack: self.slack.clone(),
            office: self.office.clone(),
            shortcuts: self.shortcuts.clone(),
            active_workspace_key: self.active_workspace_key.clone(),
            workspaces: self.workspaces.clone(),
            active_search_profile_id: self.active_search_profile_id.clone(),
            keyword_profiles: self.keyword_profiles.clone(),
            section_profiles: self.section_profiles.clone(),
            channel_profiles: self.channel_profiles.clone(),
            author_profiles: self.author_profiles.clone(),
            search_profiles: self.search_profiles.clone(),
            default_channel_permission: self.default_channel_permission,
            channel_permissions: self.channel_permissions.clone(),
        };
        assert(copy.timeline.deep_view() =~= self.timeline.deep_view());
        assert(copy.notification_rules.deep_view() =~= self.notification_rules.deep_view());
        assert(copy.slack.deep_view() =~= self.slack.deep_view());
        assert(copy.office.deep_view() =~= self.office.deep_view());
        assert(copy.shortcuts.deep_view() =~= self.shortcuts.deep_view());
        assert(copy.active_workspace_key.deep_view() =~= self.active_workspace_key.deep_view());
        assert(copy.workspaces.deep_view() =~= self.workspaces.deep_view());
        assert(copy.active_search_profile_id.deep_view() =~= self.active_search_profile_id.deep_view());
        assert(copy.keyword_profiles.deep_view() =~= self.keyword_profiles.deep_view());
        assert(copy.section_profiles.deep_view() =~= self.section_profiles.deep_view());
        assert(copy.channel_profiles.deep_view() =~= self.channel_profiles.deep_view());
        assert(copy.author_profiles.deep_view() =~= self.author_profiles.deep_view());
        assert(copy.search_profiles.deep_view() =~= self.search_profiles.deep_view());
        assert(copy.channel_permissions.deep_view() =~= self.channel_permissions.deep_view());
        copy
    }
}

impl Default for AppSettingsPatch {
    fn default() -> (value: Self)
        ensures
            value.deep_view() == (AppSettingsPatchModel {
                theme_id: None,
                timeline: None,
                notification_rules: None,
                slack: None,
                office: None,
                shortcuts: None,
                active_workspace_key: None,
                workspaces: None,
                active_search_profile_id: None,
                keyword_profiles: None,
                section_profiles: None,
                channel_profiles: None,
                author_profiles: None,
                search_profiles: None,
                default_channel_permission: None,
                channel_permissions: None,
            }),
    {
        let value = AppSettingsPatch {
            theme_id: None,
            timeline: None,
            notification_rules: None,
            slack: None,
            office: None,
            shortcuts: None,
            active_workspace_key: None,
            workspaces: None,
            active_search_profile_id: None,
            keyword_profiles: None,
            section_profiles: None,
            channel_profiles: None,
            author_profiles: None,
            search_profiles: None,
            default_channel_permission: None,
            channel_permissions: None,
        };
        assert(value.deep_view() =~= (AppSettingsPatchModel {
            theme_id: None,
            timeline: None,
            notification_rules: None,
            slack: None,
            office: None,
            shortcuts: None,
            active_workspace_key: None,
            workspaces: None,
            active_search_profile_id: None,
            keyword_profiles: None,
            section_profiles: None,
            channel_profiles: None,
            author_profiles: None,
            search_profiles: None,
            default_channel_permission: None,
            channel_permissions: None,
        }));
        value
    }
}

/// All settings of the application.
#[derive(Debug, PartialEq, Eq)]
pub struct AppSettings {
    pub theme_id: ThemeId,
    pub timeline: TimelinePolicy,
    pub notification_rules: Vec<NotificationRule>,
    pub slack: SlackConfigSettings,
    pub office: OfficeSettings,
    pub shortcuts: ShortcutBindings,
    pub active_workspace_key: Option<String>,
    pub workspaces: Vec<WorkspaceProfile>,
    pub active_search_profile_id: Option<String>,
    pub keyword_profiles: Vec<KeywordProfile>,
    pub section_profiles: Vec<SectionProfile>,
    pub channel_profiles: Vec<ChannelProfile>,
    pub author_profiles: Vec<AuthorProfile>,
    pub search_profiles: Vec<SearchProfile>,
    pub default_channel_permission: ChannelPermission,
    pub channel_permissions: TextMap<ChannelPermission>,
}

/// What a [`AppSettings`] says: its texts as sequences of characters.
#[verifier::ext_equal]
pub struct AppSettingsModel {
    pub theme_id: ThemeId,
    pub timeline: TimelinePolicyModel,
    pub notification_rules: Seq<NotificationRuleModel>,
    pub slack: SlackConfigSettingsModel,
    pub office: OfficeSettingsModel,
    pub shortcuts: ShortcutBindingsModel,
    pub active_workspace_key: Option<Seq<char>>,
    pub workspaces: Seq<WorkspaceProfileModel>,
    pub active_search_profile_id: Option<Seq<char>>,
    pub keyword_profiles: Seq<KeywordProfileModel>,
    pub section_profiles: Seq<SectionProfileModel>,
    pub channel_profiles: Seq<ChannelProfileModel>,
    pub author_profiles: Seq<AuthorProfileModel>,
    pub search_profiles: Seq<SearchProfileModel>,
    pub default_channel_permission: ChannelPermission,
    pub channel_permissions: Seq<(Seq<char>, ChannelPermission)>,
}

impl DeepView for AppSettings {
    type V = AppSettingsModel;

    open spec fn deep_view(&self) -> AppSettingsModel {
        AppSettingsModel {
            theme_id: self.theme_id,
            timeline: self.timeline.deep_view(),
            notification_rules: self.notification_rules.deep_view(),
            slack: self.slack.deep_view(),
            office: self.office.deep_view(),
            shortcuts: self.shortcuts.deep_view(),
            active_workspace_key: self.active_workspace_key.deep_view(),
            workspaces: self.workspaces.deep_view(),
            active_search_profile_id: self.active_search_profile_id.deep_view(),
            keyword_profiles: self.keyword_profiles.deep_view(),
            section_profiles: self.section_profiles.deep_view(),
            channel_profiles: self.channel_profiles.deep_view(),
            author_profiles: self.author_profiles.deep_view(),
            search_profiles: self.search_profiles.deep_view(),
            default_channel_permission: self.default_channel_permission,
            channel_permissions: self.channel_permissions.deep_view(),
        }
    }
}

impl Clone for AppSettings {
    fn clone(&self) -> (copy: Self)
        ensures
            copy.deep_view() == self.deep_view(),
    {
        let copy = AppSettings {
            theme_id: self.theme_id,
            timeline: self.timeline.clone(),
            notification_rules: self.notification_rules.clone(),
            slack: self.slack.clone(),
            office: self.office.clone(),
            shortcuts: self.shortcuts.clone(),
            active_workspace_key: self.active_workspace_key.clone(),
            workspaces: self.workspaces.clone(),
            active_search_profile_id: self.active_search_profile_id.clone(),
            keyword_profiles: self.keyword_profiles.clone(),
            section_profiles: self.section_profiles.clone(),
            channel_profiles: self.channel_profiles.clone(),
            author_profiles: self.author_profiles.clone(),
            search_profiles: self.search_profiles.clone(),
            default_channel_permission: self.default_channel_permission,
            channel_permissions: self.channel_permissions.clone(),
        };
        assert(copy.notification_rules.deep_view() =~= self.notification_rules.deep_view());
        assert(copy.active_workspace_key.deep_view() =~= self.active_workspace_key.deep_view());
        assert(copy.workspaces.deep_view() =~= self.workspaces.deep_view());
        assert(copy.active_search_profile_id.deep_view() =~= self.active_search_profile_id.deep_view());
        assert(copy.keyword_profiles.deep_view() =~= self.keyword_profiles.deep_view());
        assert(copy.section_profiles.deep_view() =~= self.section_profiles.deep_view());
        assert(copy.channel_profiles.deep_view() =~= self.channel_profiles.deep_view());
        assert(copy.author_profiles.deep_view() =~= self.author_profiles.deep_view());
        assert(copy.search_profiles.deep_view() =~= self.search_profiles.deep_view());
        copy
    }
}

/// A field after a patch.
pub open spec fn patched_field<T>(current: T, patch: Option<T>) -> T {
    match patch {
        Some(value) => value,
        None => current,
    }
}

impl AppSettingsModel {
    /// The settings after a patch: each field that the patch names is set, the others stay.
    pub open spec fn patched(self, patch: AppSettingsPatchModel) -> Self {
        AppSettingsModel {
            theme_id: patched_field(self.theme_id, patch.theme_id),
            timeline: patched_field(self.timeline, patch.timeline),
            notification_rules: patched_field(self.notification_rules, patch.notification_rules),
            slack: match patch.slack {
                Some(change) => self.slack.patched(change),
                None => self.slack,
            },
            office: match patch.office {
                Some(change) => self.office.patched(change),
                None => self.office,
            },
            shortcuts: patched_field(self.shortcuts, patch.shortcuts),
            active_workspace_key: patched_id(self.active_workspace_key, patch.active_workspace_key),
            workspaces: patched_field(self.workspaces, patch.workspaces),
            active_search_profile_id: patched_id(self.active_search_profile_id, patch.active_search_profile_id),
            keyword_profiles: patched_field(self.keyword_profiles, patch.keyword_profiles),
            section_profiles: patched_field(self.section_profiles, patch.section_profiles),
            channel_profiles: patched_field(self.channel_profiles, patch.channel_profiles),
            author_profiles: patched_field(self.author_profiles, patch.author_profiles),
            search_profiles: patched_field(self.search_profiles, patch.search_profiles),
            default_channel_permission: patched_field(self.default_channel_permission, patch.default_channel_permission),
            channel_permissions: patched_field(self.channel_permissions, patch.channel_permissions),
        }
    }
}

impl Default for AppSettings {
    fn default() -> (settings: Self)
        ensures
            settings.deep_view() == default_settings(),
    {
        let settings = AppSettings {
            theme_id: ThemeId::TokyoNightStorm,
            timeline: TimelinePolicy::default(),
            notification_rules: Vec::new(),
            slack: SlackConfigSettings::default(),
            office: OfficeSettings::default(),
            shortcuts: ShortcutBindings::default(),
            active_workspace_key: None,
            workspaces: Vec::new(),
            active_search_profile_id: None,
            keyword_profiles: Vec::new(),
            section_profiles: Vec::new(),
            channel_profiles: Vec::new(),
            author_profiles: Vec::new(),
            search_profiles: Vec::new(),
            default_channel_permission: ChannelPermission::ReadWrite,
            channel_permissions: TextMap::new(),
        };
        assert(settings.notification_rules.deep_view() =~= Seq::empty());
        assert(settings.workspaces.deep_view() =~= Seq::empty());
        assert(settings.keyword_profiles.deep_view() =~= Seq::empty());
        assert(settings.section_profiles.deep_view() =~= Seq::empty());
        assert(settings.channel_profiles.deep_view() =~= Seq::empty());
        assert(settings.author_profiles.deep_view() =~= Seq::empty());
        assert(settings.search_profiles.deep_view() =~= Seq::empty());
        settings
    }
}

/// The settings before anything is set.
pub open spec fn default_settings() -> AppSettingsModel {
    AppSettingsModel {
        theme_id: ThemeId::TokyoNightStorm,
        timeline: TimelinePolicyModel {
            watched_channels: Seq::empty(),
            muted_channels: Seq::empty(),
            channel_weights: Seq::empty(),
            focus_keywords: Seq::empty(),
            focus_threshold: whole(75),
            recent_window_days: 7,
        },
        notification_rules: Seq::empty(),
        slack: SlackConfigSettingsModel {
            client_id: None,
            client_secret: None,
            redirect_uri: None,
            user_scopes: None,
            app_token: None,
        },
        office: OfficeSettingsModel { channel_profile_id: None },
        shortcuts: ShortcutBindingsModel {
            open_settings: seq!["<Ctrl>comma"@],
            open_admin: seq!["<Ctrl><Shift>a"@],
            focus_search: seq!["<Ctrl>k"@],
            focus_composer: seq!["<Ctrl>n"@],
            close_column: seq!["<Ctrl>w"@, "Escape"@],
        },
        active_workspace_key: None,
        workspaces: Seq::empty(),
        active_search_profile_id: None,
        keyword_profiles: Seq::empty(),
        section_profiles: Seq::empty(),
        channel_profiles: Seq::empty(),
        author_profiles: Seq::empty(),
        search_profiles: Seq::empty(),
        default_channel_permission: ChannelPermission::ReadWrite,
        channel_permissions: Seq::empty(),
    }
}

/// Sets a field to what the patch names, if it names anything.
fn set_field<T: DeepView>(field: &mut T, patch: Option<T>)
    ensures
        final(field).deep_view() == patched_field(old(field).deep_view(), patch.deep_view()),
{
    if let Some(value) = patch {
        *field = value;
    }
}

/// Sets an optional text to what the patch names, if it names anything.
fn set_id(field: &mut Option<String>, patch: Option<String>)
    ensures
        final(field).deep_view() == patched_id(old(field).deep_view(), patch.deep_view()),
{
    if let Some(value) = patch {
        *field = normalize_optional_id(value);
    }
}

impl AppSettings {
    /// Sets the fields that the patch names.
    pub fn apply_patch(&mut self, patch: AppSettingsPatch)
        ensures
            final(self).deep_view() == old(self).deep_view().patched(patch.deep_view()),
    {
        set_field(&mut self.theme_id, patch.theme_id);
        set_field(&mut self.timeline, patch.timeline);
        set_field(&mut self.notification_rules, patch.notification_rules);
        if let Some(slack) = patch.slack {
            self.slack.apply_patch(slack);
        }
        if let Some(office) = patch.office {
            self.office.apply_patch(office);
        }
        set_field(&mut self.shortcuts, patch.shortcuts);
        set_id(&mut self.active_workspace_key, patch.active_workspace_key);
        set_field(&mut self.workspaces, patch.workspaces);
        set_id(&mut self.active_search_profile_id, patch.active_search_profile_id);
        set_field(&mut self.keyword_profiles, patch.keyword_profiles);
        set_field(&mut self.section_profiles, patch.section_profiles);
        set_field(&mut self.channel_profiles, patch.channel_profiles);
        set_field(&mut self.author_profiles, patch.author_profiles);
        set_field(&mut self.search_profiles, patch.search_profiles);
        set_field(&mut self.default_channel_permission, patch.default_channel_permission);
        set_field(&mut self.channel_permissions, patch.channel_permissions);
    }
}

/// A patch that names nothing.
pub open spec fn empty_patch() -> AppSettingsPatchModel {
    AppSettingsPatchModel {
        theme_id: None,
        timeline: None,
        notification_rules: None,
        slack: None,
        office: None,
        shortcuts: None,
        active_workspace_key: None,
        workspaces: None,
        active_search_profile_id: None,
        keyword_profiles: None,
        section_profiles: None,
        channel_profiles: None,
        author_profiles: None,
        search_profiles: None,
        default_channel_permission: None,
        channel_permissions: None,
    }
}

/// A patch that names nothing changes nothing.
pub proof fn law_empty_patch_changes_nothing(settings: AppSettingsModel)
    ensures
        settings.patched(empty_patch()) == settings,
{
}

/// A patch changes only the fields that it names.
pub proof fn law_patch_changes_only_named_fields(
    settings: AppSettingsModel,
    patch: AppSettingsPatchModel,
)
    ensures
        patch.theme_id is None ==> settings.patched(patch).theme_id == settings.theme_id,
        patch.timeline is None ==> settings.patched(patch).timeline == settings.timeline,
        patch.notification_rules is None ==> settings.patched(patch).notification_rules == settings.notification_rules,
        patch.slack is None ==> settings.patched(patch).slack == settings.slack,
        patch.office is None ==> settings.patched(patch).office == settings.office,
        patch.shortcuts is None ==> settings.patched(patch).shortcuts == settings.shortcuts,
        patch.active_workspace_key is None ==> settings.patched(patch).active_workspace_key == settings.active_workspace_key,
        patch.workspaces is None ==> settings.patched(patch).workspaces == settings.workspaces,
        patch.active_search_profile_id is None ==> settings.patched(patch).active_search_profile_id == settings.active_search_profile_id,
        patch.keyword_profiles is None ==> settings.patched(patch).keyword_profiles == settings.keyword_profiles,
        patch.section_profiles is None ==> settings.patched(patch).section_profiles == settings.section_profiles,
        patch.channel_profiles is None ==> settings.patched(patch).channel_profiles == settings.channel_profiles,
        patch.author_profiles is None ==> settings.patched(patch).author_profiles == settings.author_profiles,
        patch.search_profiles is None ==> settings.patched(patch).search_profiles == settings.search_profiles,
        patch.default_channel_permission is None ==> settings.patched(patch).default_channel_permission == settings.default_channel_permission,
        patch.channel_permissions is None ==> settings.patched(patch).channel_permissions == settings.channel_permissions,
{
}

/// Applying a patch a second time changes nothing more.
pub proof fn law_patch_twice_is_patch_once(
    settings: AppSettingsModel,
    patch: AppSettingsPatchModel,
)
    ensures
        settings.patched(patch).patched(patch) == settings.patched(patch),
{
    if let Some(change) = patch.slack {
        assert(settings.slack.patched(change).patched(change) == settings.slack.patched(change));
    }
    if let Some(change) = patch.office {
        assert(settings.office.patched(change).patched(change) == settings.office.patched(
            change,
        ));
    }
}

} // verus!
