//! Signing in to Slack: the app's configuration, the authorization's answer, the stored session
//! and what the user is told of it.
use vstd::prelude::*;
use vstd::string::*;

use crate::api::{
    labelled, slack_config, SlackClient, SlackError, SlackErrorModel, SlackOAuthConfig,
    SlackOAuthConfigModel,
};
use crate::collections::contains_text;
use crate::slack::{OAuthAccessResponse, OAuthAccessResponseModel};
use crate::state::DEFAULT_WORKSPACE_KEY;
use crate::text::{
    begins_with, finishes_with, ends_with, join, join_texts, owned, same_option, same_text, split,
    split_text, starts_with, trim, trimmed,
};
use crate::time::{in_calendar, later_by, Timestamp};
use crate::urls::{join_url, joined_url, parse_url, parsed_url, url_with_query, WebUrl, WebUrlModel};

verus! {

/// The variable with the client's identifier.
pub const CLIENT_ID_ENV: &'static str = "SLAXIDE_SLACK_CLIENT_ID";

/// The variable with the client's secret.
pub const CLIENT_SECRET_ENV: &'static str = "SLAXIDE_SLACK_CLIENT_SECRET";

/// The variable with the address that Slack sends the user back to.
pub const REDIRECT_URI_ENV: &'static str = "SLAXIDE_SLACK_REDIRECT_URI";

/// The variable with the scopes to ask for.
pub const USER_SCOPES_ENV: &'static str = "SLAXIDE_SLACK_USER_SCOPES";

/// The account under which the session of the default workspace is stored.
pub const KEYRING_ACCOUNT: &'static str = "slack.oauth.default";

/// What the accounts of the other workspaces start with.
pub const WORKSPACE_ACCOUNT_PREFIX: &'static str = "slack.oauth.workspace.";

/// The address that Slack sends the user back to, unless another is given.
pub const DEFAULT_REDIRECT_URI: &'static str = "https://127.0.0.1/slack/callback";

/// The scopes that the app needs, and asks for unless it is configured otherwise.
pub open spec fn required_scopes() -> Seq<Seq<char>> {
    seq![
        "channels:history"@,
        "channels:read"@,
        "channels:write"@,
        "channels:write.invites"@,
        "groups:history"@,
        "groups:read"@,
        "groups:write"@,
        "groups:write.invites"@,
        "chat:write"@,
        "files:read"@,
        "files:write"@,
        "reactions:read"@,
        "reactions:write"@,
        "users:read"@,
    ]
}

/// The scopes that the app needs, and asks for unless it is configured otherwise.
pub fn default_user_scopes() -> (r: Vec<String>)
    ensures
        r.deep_view() == required_scopes(),
{
    let scopes = vec![
        owned("channels:history"),
        owned("channels:read"),
        owned("channels:write"),
        owned("channels:write.invites"),
        owned("groups:history"),
        owned("groups:read"),
        owned("groups:write"),
        owned("groups:write.invites"),
        owned("chat:write"),
        owned("files:read"),
        owned("files:write"),
        owned("reactions:read"),
        owned("reactions:write"),
        owned("users:read"),
    ];
    assert(scopes.deep_view() =~= required_scopes());
    scopes
}

/// Why signing in failed.
#[derive(Debug, PartialEq, Eq)]
pub enum AuthError {
    /// A variable of the environment is not set.
    MissingVariable(String),
    /// The redirect URL cannot be read.
    InvalidRedirect(String),
    /// The redirect URL is no HTTPS URL.
    InsecureRedirect,
    /// The list of scopes is empty.
    NoScopes,
    NoUsableToken,
    NoRotatedUserToken,
    NoRotatedBotToken,
    /// Nothing was pasted.
    NoCallback,
    InvalidCallbackPath(String),
    /// What was pasted is no URL.
    CodeOnly,
    UnexpectedScheme(String),
    /// The page was pasted on which the user authorizes the app.
    AuthorizePage(String),
    HostMismatch(String),
    UnexpectedPath(String),
    /// Slack answered with an error.
    Refused(String),
    MissingState,
    StateMismatch,
    MissingCode,
    Slack(SlackError),
}

/// What a [`AuthError`] says: its texts as sequences of characters.
#[verifier::ext_equal]
pub enum AuthErrorModel {
    MissingVariable(Seq<char>),
    InvalidRedirect(Seq<char>),
    InsecureRedirect,
    NoScopes,
    NoUsableToken,
    NoRotatedUserToken,
    NoRotatedBotToken,
    NoCallback,
    InvalidCallbackPath(Seq<char>),
    CodeOnly,
    UnexpectedScheme(Seq<char>),
    AuthorizePage(Seq<char>),
    HostMismatch(Seq<char>),
    UnexpectedPath(Seq<char>),
    Refused(Seq<char>),
    MissingState,
    StateMismatch,
    MissingCode,
    Slack(SlackErrorModel),
}

impl DeepView for AuthError {
    type V = AuthErrorModel;

    open spec fn deep_view(&self) -> AuthErrorModel {
        match self {
            AuthError::MissingVariable(a) => AuthErrorModel::MissingVariable(a@),
            AuthError::InvalidRedirect(a) => AuthErrorModel::InvalidRedirect(a@),
            AuthError::InsecureRedirect => AuthErrorModel::InsecureRedirect,
            AuthError::NoScopes => AuthErrorModel::NoScopes,
            AuthError::NoUsableToken => AuthErrorModel::NoUsableToken,
            AuthError::NoRotatedUserToken => AuthErrorModel::NoRotatedUserToken,
            AuthError::NoRotatedBotToken => AuthErrorModel::NoRotatedBotToken,
            AuthError::NoCallback => AuthErrorModel::NoCallback,
            AuthError::InvalidCallbackPath(a) => AuthErrorModel::InvalidCallbackPath(a@),
            AuthError::CodeOnly => AuthErrorModel::CodeOnly,
            AuthError::UnexpectedScheme(a) => AuthErrorModel::UnexpectedScheme(a@),
            AuthError::AuthorizePage(a) => AuthErrorModel::AuthorizePage(a@),
            AuthError::HostMismatch(a) => AuthErrorModel::HostMismatch(a@),
            AuthError::UnexpectedPath(a) => AuthErrorModel::UnexpectedPath(a@),
            AuthError::Refused(a) => AuthErrorModel::Refused(a@),
            AuthError::MissingState => AuthErrorModel::MissingState,
            AuthError::StateMismatch => AuthErrorModel::StateMismatch,
            AuthError::MissingCode => AuthErrorModel::MissingCode,
            AuthError::Slack(a) => AuthErrorModel::Slack(a.deep_view()),
        }
    }
}

impl Clone for AuthError {
    fn clone(&self) -> (copy: Self)
        ensures
            copy.deep_view() == self.deep_view(),
    {
        match self {
            AuthError::MissingVariable(a) => {
                let copy = AuthError::MissingVariable(a.clone());
                assert(copy.deep_view() =~= self.deep_view());
                copy
            },
            AuthError::InvalidRedirect(a) => {
                let copy = AuthError::InvalidRedirect(a.clone());
                assert(copy.deep_view() =~= self.deep_view());
                copy
            },
            AuthError::InsecureRedirect => AuthError::InsecureRedirect,
            AuthError::NoScopes => AuthError::NoScopes,
            AuthError::NoUsableToken => AuthError::NoUsableToken,
            AuthError::NoRotatedUserToken => AuthError::NoRotatedUserToken,
            AuthError::NoRotatedBotToken => AuthError::NoRotatedBotToken,
            AuthError::NoCallback => AuthError::NoCallback,
            AuthError::InvalidCallbackPath(a) => {
                let copy = AuthError::InvalidCallbackPath(a.clone());
                assert(copy.deep_view() =~= self.deep_view());
                copy
            },
            AuthError::CodeOnly => AuthError::CodeOnly,
            AuthError::UnexpectedScheme(a) => {
                let copy = AuthError::UnexpectedScheme(a.clone());
                assert(copy.deep_view() =~= self.deep_view());
                copy
            },
            AuthError::AuthorizePage(a) => {
                let copy = AuthError::AuthorizePage(a.clone());
                assert(copy.deep_view() =~= self.deep_view());
                copy
            },
            AuthError::HostMismatch(a) => {
                let copy = AuthError::HostMismatch(a.clone());
                assert(copy.deep_view() =~= self.deep_view());
                copy
            },
            AuthError::UnexpectedPath(a) => {
                let copy = AuthError::UnexpectedPath(a.clone());
                assert(copy.deep_view() =~= self.deep_view());
                copy
            },
            AuthError::Refused(a) => {
                let copy = AuthError::Refused(a.clone());
                assert(copy.deep_view() =~= self.deep_view());
                copy
            },
            AuthError::MissingState => AuthError::MissingState,
            AuthError::StateMismatch => AuthError::StateMismatch,
            AuthError::MissingCode => AuthError::MissingCode,
            AuthError::Slack(a) => {
                let copy = AuthError::Slack(a.clone());
                assert(copy.deep_view() =~= self.deep_view());
                copy
            },
        }
    }
}

impl AuthErrorModel {
    /// The error in words.
    pub open spec fn words(self) -> Seq<char> {
        match self {
            AuthErrorModel::MissingVariable(detail) => "set `"@ + detail + "` to enable Slack OAuth"@,
            AuthErrorModel::InvalidRedirect(detail) => "invalid `SLAXIDE_SLACK_REDIRECT_URI` value `"@ + detail + "`"@,
            AuthErrorModel::InsecureRedirect => "`SLAXIDE_SLACK_REDIRECT_URI` must be an HTTPS URL configured in Slack OAuth settings"@,
            AuthErrorModel::NoScopes => "`SLAXIDE_SLACK_USER_SCOPES` must contain at least one scope"@,
            AuthErrorModel::NoUsableToken => "OAuth response did not contain any usable token"@,
            AuthErrorModel::NoRotatedUserToken => "refresh response did not include a rotated user token"@,
            AuthErrorModel::NoRotatedBotToken => "refresh response did not include a rotated bot token"@,
            AuthErrorModel::NoCallback => "paste the full redirected Slack URL"@,
            AuthErrorModel::InvalidCallbackPath(detail) => "invalid callback URL path `"@ + detail + "`"@,
            AuthErrorModel::CodeOnly => "paste the full redirected Slack URL, not just the code"@,
            AuthErrorModel::UnexpectedScheme(detail) => "OAuth callback used unexpected scheme `"@ + detail + "`"@,
            AuthErrorModel::AuthorizePage(detail) => "you pasted the Slack authorize page URL; click Allow first, then paste the redirected URL that starts with `"@ + detail + "`"@,
            AuthErrorModel::HostMismatch(detail) => "OAuth callback host did not match the configured redirect URL `"@ + detail + "`"@,
            AuthErrorModel::UnexpectedPath(detail) => "OAuth callback hit unexpected path `"@ + detail + "`"@,
            AuthErrorModel::Refused(detail) => "Slack returned OAuth error `"@ + detail + "`"@,
            AuthErrorModel::MissingState => "OAuth callback was missing `state`"@,
            AuthErrorModel::StateMismatch => "OAuth callback `state` did not match the login attempt"@,
            AuthErrorModel::MissingCode => "OAuth callback was missing `code`"@,
            AuthErrorModel::Slack(error) => error.words(),
        }
    }
}

/// A text between two others.
pub fn enclosed(before: &str, text: &str, after: &str) -> (r: String)
    ensures
        r@ == before@ + text@ + after@,
{
    let mut out = owned(before);
    out.append(text);
    out.append(after);
    out
}

impl AuthError {
    /// The error in words.
    pub fn message(&self) -> (r: String)
        ensures
            r@ == self.deep_view().words(),
    {
        match self {
            AuthError::MissingVariable(detail) => enclosed("set `", detail.as_str(), "` to enable Slack OAuth"),
            AuthError::InvalidRedirect(detail) => enclosed("invalid `SLAXIDE_SLACK_REDIRECT_URI` value `", detail.as_str(), "`"),
            AuthError::InsecureRedirect => owned("`SLAXIDE_SLACK_REDIRECT_URI` must be an HTTPS URL configured in Slack OAuth settings"),
            AuthError::NoScopes => owned("`SLAXIDE_SLACK_USER_SCOPES` must contain at least one scope"),
            AuthError::NoUsableToken => owned("OAuth response did not contain any usable token"),
            AuthError::NoRotatedUserToken => owned("refresh response did not include a rotated user token"),
            AuthError::NoRotatedBotToken => owned("refresh response did not include a rotated bot token"),
            AuthError::NoCallback => owned("paste the full redirected Slack URL"),
            AuthError::InvalidCallbackPath(detail) => enclosed("invalid callback URL path `", detail.as_str(), "`"),
            AuthError::CodeOnly => owned("paste the full redirected Slack URL, not just the code"),
            AuthError::UnexpectedScheme(detail) => enclosed("OAuth callback used unexpected scheme `", detail.as_str(), "`"),
            AuthError::AuthorizePage(detail) => enclosed("you pasted the Slack authorize page URL; click Allow first, then paste the redirected URL that starts with `", detail.as_str(), "`"),
            AuthError::HostMismatch(detail) => enclosed("OAuth callback host did not match the configured redirect URL `", detail.as_str(), "`"),
            AuthError::UnexpectedPath(detail) => enclosed("OAuth callback hit unexpected path `", detail.as_str(), "`"),
            AuthError::Refused(detail) => enclosed("Slack returned OAuth error `", detail.as_str(), "`"),
            AuthError::MissingState => owned("OAuth callback was missing `state`"),
            AuthError::StateMismatch => owned("OAuth callback `state` did not match the login attempt"),
            AuthError::MissingCode => owned("OAuth callback was missing `code`"),
            AuthError::Slack(error) => error.message(),
        }
    }
}

/// What a result says.
pub open spec fn told<T: DeepView>(r: Result<T, AuthError>) -> Result<T::V, AuthErrorModel> {
    match r {
        Ok(value) => Ok(value.deep_view()),
        Err(error) => Err(error.deep_view()),
    }
}

/// The parts without the white space around them, those that are blank left out.
pub open spec fn trimmed_parts(parts: Seq<Seq<char>>) -> Seq<Seq<char>> {
    parts.map_values(|part: Seq<char>| trim(part)).filter(|part: Seq<char>| part.len() > 0)
}

/// The parts of a text between a separator, without the white space around them, those that are
/// blank left out.
pub fn split_trimmed(raw: &str, separator: char) -> (r: Vec<String>)
    ensures
        r.deep_view() == trimmed_parts(split(raw@, separator)),
{
    let parts = split_text(raw, separator);
    let ghost all = parts.deep_view().map_values(|part: Seq<char>| trim(part));
    let ghost keep = |part: Seq<char>| part.len() > 0;
    let mut kept: Vec<String> = Vec::new();
    let mut i: usize = 0;
    proof {
        reveal(Seq::filter);
        assert(kept.deep_view() =~= all.take(0).filter(keep));
    }
    while i < parts.len()
        invariant
            i <= parts.len(),
            all == parts.deep_view().map_values(|part: Seq<char>| trim(part)),
            keep == (|part: Seq<char>| part.len() > 0),
            kept.deep_view() == all.take(i as int).filter(keep),
        decreases parts.len() - i,
    {
        let part = trimmed(parts[i].as_str());
        proof {
            reveal(Seq::filter);
            assert(all.take(i + 1).drop_last() =~= all.take(i as int));
            assert(parts.deep_view()[i as int] == parts@[i as int]@);
            assert(all.take(i + 1).last() == part@);
        }
        let ghost before = kept.deep_view();
        if !part.as_str().is_empty() {
            kept.push(part);
            assert(kept.deep_view() =~= before.push(part@));
        }
        i += 1;
    }
    assert(all.take(i as int) =~= all);
    kept
}

/// The scopes that a list names, or that it names none.
pub open spec fn scope_list(raw: Seq<char>) -> Result<Seq<Seq<char>>, AuthErrorModel> {
    let scopes = trimmed_parts(split(raw, ','));
    if scopes.len() == 0 {
        Err(AuthErrorModel::NoScopes)
    } else {
        Ok(scopes)
    }
}

/// The scopes that a list names.
pub fn parse_scope_list(raw: &str) -> (r: Result<Vec<String>, AuthError>)
    ensures
        told(r) == scope_list(raw@),
{
    let scopes = split_trimmed(raw, ',');
    if scopes.len() == 0 {
        Err(AuthError::NoScopes)
    } else {
        Ok(scopes)
    }
}

/// The scopes, and after them those of `required` that are missing.
pub open spec fn with_scopes(scopes: Seq<Seq<char>>, required: Seq<Seq<char>>) -> Seq<Seq<char>> {
    scopes + required.filter(|scope: Seq<char>| !scopes.contains(scope))
}

/// The scopes, and after them those the app needs that are missing.
pub fn ensure_required_user_scopes(scopes: Vec<String>) -> (r: Vec<String>)
    ensures
        r.deep_view() == with_scopes(scopes.deep_view(), required_scopes()),
{
    let required = default_user_scopes();
    let ghost all = required.deep_view();
    let ghost given = scopes.deep_view();
    let ghost lacks = |scope: Seq<char>| !given.contains(scope);
    let mut kept = scopes.clone();
    let mut i: usize = 0;
    proof {
        reveal(Seq::filter);
        assert(kept.deep_view() =~= given);
        assert(given =~= given + all.take(0).filter(lacks));
    }
    while i < required.len()
        invariant
            i <= required.len(),
            all == required.deep_view(),
            given == scopes.deep_view(),
            lacks == (|scope: Seq<char>| !given.contains(scope)),
            kept.deep_view() == given + all.take(i as int).filter(lacks),
        decreases required.len() - i,
    {
        proof {
            reveal(Seq::filter);
            assert(all.take(i + 1).drop_last() =~= all.take(i as int));
            assert(all.take(i + 1).last() == required@[i as int]@);
        }
        let ghost before = kept.deep_view();
        if !contains_text(&scopes, required[i].as_str()) {
            kept.push(required[i].clone());
            assert(kept.deep_view() =~= before.push(required@[i as int]@));
            assert(kept.deep_view() =~= given + all.take(i + 1).filter(lacks));
        }
        i += 1;
    }
    assert(all.take(i as int) =~= all);
    kept
}

/// What a filter keeps comes from what is filtered.
proof fn lemma_kept_scopes(scopes: Seq<Seq<char>>, keep: spec_fn(Seq<char>) -> bool, i: int)
    requires
        0 <= i < scopes.filter(keep).len(),
    ensures
        scopes.contains(scopes.filter(keep)[i]),
        keep(scopes.filter(keep)[i]),
    decreases scopes.len(),
{
    reveal(Seq::filter);
    let rest = scopes.drop_last();
    if i < rest.filter(keep).len() {
        lemma_kept_scopes(rest, keep, i);
        let scope = rest.filter(keep)[i];
        let k = choose|k: int| 0 <= k < rest.len() && rest[k] == scope;
        assert(scopes[k] == scope);
    } else {
        assert(scopes[scopes.len() - 1] == scopes.filter(keep)[i]);
    }
}

/// Scopes that are kept keep their place, every required scope is there, and nothing else comes in.
pub proof fn law_required_scopes_are_added(scopes: Seq<Seq<char>>, required: Seq<Seq<char>>)
    ensures
        scopes.len() <= with_scopes(scopes, required).len(),
        with_scopes(scopes, required).take(scopes.len() as int) == scopes,
        forall|scope: Seq<char>|
            with_scopes(scopes, required).contains(scope) <==> scopes.contains(scope)
                || required.contains(scope),
{
    broadcast use vstd::seq_lib::group_filter_ensures;

    let lacks = |scope: Seq<char>| !scopes.contains(scope);
    let added = required.filter(lacks);
    let after = with_scopes(scopes, required);
    assert(after.take(scopes.len() as int) =~= scopes);
    assert forall|scope: Seq<char>|
        after.contains(scope) <==> scopes.contains(scope) || required.contains(scope) by {
        if scopes.contains(scope) {
            let k = choose|k: int| 0 <= k < scopes.len() && scopes[k] == scope;
            assert(after[k] == scope);
        } else if required.contains(scope) {
            let j = choose|j: int| 0 <= j < required.len() && required[j] == scope;
            assert(added.contains(required[j]));
            let k = choose|k: int| 0 <= k < added.len() && added[k] == scope;
            assert(after[scopes.len() + k] == scope);
        }
        if after.contains(scope) && !scopes.contains(scope) {
            let k = choose|k: int| 0 <= k < after.len() && after[k] == scope;
            if k < scopes.len() {
                assert(scopes[k] == scope);
            }
            lemma_kept_scopes(required, lacks, k - scopes.len());
        }
    }
}

/// Scopes that hold every required scope stay as they are.
pub proof fn law_complete_scopes_are_kept(scopes: Seq<Seq<char>>, required: Seq<Seq<char>>)
    requires
        forall|k: int| 0 <= k < required.len() ==> scopes.contains(#[trigger] required[k]),
    ensures
        with_scopes(scopes, required) == scopes,
{
    let lacks = |scope: Seq<char>| !scopes.contains(scope);
    if required.filter(lacks).len() > 0 {
        lemma_kept_scopes(required, lacks, 0);
    }
    assert(with_scopes(scopes, required) =~= scopes);
}

/// How the app is configured for signing in.
#[derive(Debug, PartialEq, Eq)]
pub struct SlackOAuthEnvironment {
    pub client_id: String,
    pub client_secret: String,
    pub redirect_uri: WebUrl,
    pub user_scopes: Vec<String>,
}

/// What a [`SlackOAuthEnvironment`] says: its texts as sequences of characters.
#[verifier::ext_equal]
pub struct SlackOAuthEnvironmentModel {
    pub client_id: Seq<char>,
    pub client_secret: Seq<char>,
    pub redirect_uri: WebUrlModel,
    pub user_scopes: Seq<Seq<char>>,
}

impl DeepView for SlackOAuthEnvironment {
    type V = SlackOAuthEnvironmentModel;

    open spec fn deep_view(&self) -> SlackOAuthEnvironmentModel {
        SlackOAuthEnvironmentModel {
            client_id: self.client_id@,
            client_secret: self.client_secret@,
            redirect_uri: self.redirect_uri.deep_view(),
            user_scopes: self.user_scopes.deep_view(),
        }
    }
}

impl Clone for SlackOAuthEnvironment {
    fn clone(&self) -> (copy: Self)
        ensures
            copy.deep_view() == self.deep_view(),
    {
        let copy = SlackOAuthEnvironment {
            client_id: self.client_id.clone(),
            client_secret: self.client_secret.clone(),
            redirect_uri: self.redirect_uri.clone(),
            user_scopes: self.user_scopes.clone(),
        };
        assert(copy.user_scopes.deep_view() =~= self.user_scopes.deep_view());
        copy
    }
}

/// The configuration that the variables give, or what is wrong with it. `redirect` is what the
/// redirect URL is read as.
pub open spec fn environment_with(
    client_id: Option<Seq<char>>,
    client_secret: Option<Seq<char>>,
    redirect_raw: Seq<char>,
    redirect: Result<WebUrlModel, Seq<char>>,
    user_scopes: Option<Seq<char>>,
) -> Result<SlackOAuthEnvironmentModel, AuthErrorModel> {
    match (client_id, client_secret, redirect) {
        (None, _, _) => Err(AuthErrorModel::MissingVariable(CLIENT_ID_ENV@)),
        (_, None, _) => Err(AuthErrorModel::MissingVariable(CLIENT_SECRET_ENV@)),
        (_, _, Err(_)) => Err(AuthErrorModel::InvalidRedirect(redirect_raw)),
        (Some(client_id), Some(client_secret), Ok(redirect_uri)) => {
            if redirect_uri.scheme != "https"@ {
                Err(AuthErrorModel::InsecureRedirect)
            } else {
                let scopes = match user_scopes {
                    Some(raw) => match scope_list(raw) {
                        Ok(scopes) => Ok(with_scopes(scopes, required_scopes())),
                        Err(error) => Err(error),
                    },
                    None => Ok(required_scopes()),
                };
                match scopes {
                    Ok(user_scopes) => Ok(
                        SlackOAuthEnvironmentModel {
                            client_id,
                            client_secret,
                            redirect_uri,
                            user_scopes,
                        },
                    ),
                    Err(error) => Err(error),
                }
            }
        },
    }
}

/// The redirect URL that is configured, or the default one.
pub open spec fn redirect_or_default(redirect_uri: Option<Seq<char>>) -> Seq<char> {
    match redirect_uri {
        Some(raw) => raw,
        None => DEFAULT_REDIRECT_URI@,
    }
}

impl SlackOAuthEnvironment {
    /// The configuration that the values of the environment's variables give.
    pub fn from_env(
        client_id: Option<&str>,
        client_secret: Option<&str>,
        redirect_uri: Option<&str>,
        user_scopes: Option<&str>,
    ) -> (r: Result<Self, AuthError>)
        ensures
            told(r) == environment_with(
                client_id.deep_view(),
                client_secret.deep_view(),
                redirect_or_default(redirect_uri.deep_view()),
                parsed_url(redirect_or_default(redirect_uri.deep_view())),
                user_scopes.deep_view(),
            ),
    {
        let raw = match redirect_uri {
            Some(raw) => raw,
            None => DEFAULT_REDIRECT_URI,
        };
        SlackOAuthEnvironment::with_redirect(
            client_id,
            client_secret,
            raw,
            parse_url(raw),
            user_scopes,
        )
    }

    /// The configuration that the variables give when the redirect URL is read as `redirect`.
    pub fn with_redirect(
        client_id: Option<&str>,
        client_secret: Option<&str>,
        redirect_raw: &str,
        redirect: Result<WebUrl, String>,
        user_scopes: Option<&str>,
    ) -> (r: Result<Self, AuthError>)
        ensures
            told(r) == environment_with(
                client_id.deep_view(),
                client_secret.deep_view(),
                redirect_raw@,
                crate::urls::outcome(redirect),
                user_scopes.deep_view(),
            ),
    {
        let client_id = match client_id {
            Some(client_id) => client_id,
            None => return Err(AuthError::MissingVariable(owned(CLIENT_ID_ENV))),
        };
        let client_secret = match client_secret {
            Some(client_secret) => client_secret,
            None => return Err(AuthError::MissingVariable(owned(CLIENT_SECRET_ENV))),
        };
        let redirect_uri = match redirect {
            Ok(address) => address,
            Err(_) => return Err(AuthError::InvalidRedirect(owned(redirect_raw))),
        };
        if !same_text(redirect_uri.scheme.as_str(), "https") {
            return Err(AuthError::InsecureRedirect);
        }
        let user_scopes = match user_scopes {
            Some(raw) => match parse_scope_list(raw) {
                Ok(scopes) => ensure_required_user_scopes(scopes),
                Err(error) => return Err(error),
            },
            None => default_user_scopes(),
        };
        let environment = SlackOAuthEnvironment {
            client_id: owned(client_id),
            client_secret: owned(client_secret),
            redirect_uri,
            user_scopes,
        };
        Ok(environment)
    }

    /// The scopes to ask for.
    pub fn user_scopes(&self) -> (r: &Vec<String>)
        ensures
            *r == self.user_scopes,
    {
        &self.user_scopes
    }

    /// The scopes, each borrowed.
    pub fn user_scope_refs(&self) -> (r: Vec<&str>)
        ensures
            r.len() == self.user_scopes.len(),
            forall|i: int| 0 <= i < r.len() ==> (#[trigger] r[i])@ == self.user_scopes[i]@,
    {
        let mut out: Vec<&str> = Vec::new();
        let mut i: usize = 0;
        while i < self.user_scopes.len()
            invariant
                i <= self.user_scopes.len(),
                out.len() == i,
                forall|k: int| 0 <= k < i ==> (#[trigger] out[k])@ == self.user_scopes[k]@,
            decreases self.user_scopes.len() - i,
        {
            out.push(self.user_scopes[i].as_str());
            i += 1;
        }
        out
    }

    /// Where Slack sends the user back.
    pub fn redirect_uri(&self) -> (r: &WebUrl)
        ensures
            *r == self.redirect_uri,
    {
        &self.redirect_uri
    }

    /// The client with this configuration.
    pub fn client(&self) -> (r: Result<SlackClient, SlackError>)
        ensures
            match slack_config(self.client_id@, self.client_secret@) {
                Ok(config) => r matches Ok(client) && client.config.deep_view() == (
                SlackOAuthConfigModel { redirect_uri: self.redirect_uri.deep_view(), ..config }),
                Err(error) => r matches Err(e) && e.deep_view() == error,
            },
    {
        match SlackOAuthConfig::new(self.client_id.as_str(), self.client_secret.as_str()) {
            Ok(config) => {
                let mut config = config;
                config.redirect_uri = self.redirect_uri.clone();
                Ok(SlackClient::new(config))
            },
            Err(error) => Err(error),
        }
    }
}

/// A sign-in that waits for the answer of the user.
#[derive(Debug, PartialEq, Eq)]
pub struct PendingSlackLogin {
    pub state: String,
    pub redirect_uri: WebUrl,
}

/// What a [`PendingSlackLogin`] says: its texts as sequences of characters.
#[verifier::ext_equal]
pub struct PendingSlackLoginModel {
    pub state: Seq<char>,
    pub redirect_uri: WebUrlModel,
}

impl DeepView for PendingSlackLogin {
    type V = PendingSlackLoginModel;

    open spec fn deep_view(&self) -> PendingSlackLoginModel {
        PendingSlackLoginModel {
            state: self.state@,
            redirect_uri: self.redirect_uri.deep_view(),
        }
    }
}

impl Clone for PendingSlackLogin {
    fn clone(&self) -> (copy: Self)
        ensures
            copy.deep_view() == self.deep_view(),
    {
        let copy = PendingSlackLogin {
            state: self.state.clone(),
            redirect_uri: self.redirect_uri.clone(),
        };
        copy
    }
}

/// Starts to sign in: what to remember until the answer comes, and the page to open. `state` is to
/// be a fresh random text.
pub fn begin_login(environment: &SlackOAuthEnvironment, state: &str) -> (r: Result<
    (PendingSlackLogin, String),
    SlackError,
>)
    ensures
        match slack_config(environment.client_id@, environment.client_secret@) {
            Ok(config) => match url_with_query(
                config.authorize_base.text,
                seq![
                    ("client_id"@, environment.client_id@),
                    ("redirect_uri"@, environment.redirect_uri.text@),
                    ("user_scope"@, join(environment.user_scopes.deep_view(), ","@)),
                    ("state"@, state@),
                ],
            ) {
                Ok(page) => r matches Ok(login) && login.0.deep_view() == (PendingSlackLoginModel {
                    state: state@,
                    redirect_uri: environment.redirect_uri.deep_view(),
                }) && login.1@ == page,
                Err(reason) => r matches Err(error) && error.deep_view() == SlackErrorModel::Url(
                    reason,
                ),
            },
            Err(reason) => r matches Err(error) && error.deep_view() == reason,
        },
{
    let client = match environment.client() {
        Ok(client) => client,
        Err(error) => return Err(error),
    };
    let ghost config = slack_config(environment.client_id@, environment.client_secret@)->Ok_0;
    assert(client.config.deep_view().client_id == client.config.client_id@);
    assert(client.config.deep_view().redirect_uri.text == client.config.redirect_uri.text@);
    assert(client.config.deep_view().authorize_base.text == client.config.authorize_base.text@);
    match client.authorize_url(&environment.user_scopes, state) {
        Ok(page) => Ok(
            (
                PendingSlackLogin {
                    state: owned(state),
                    redirect_uri: environment.redirect_uri.clone(),
                },
                page,
            ),
        ),
        Err(error) => Err(error),
    }
}

/// The tokens of a workspace, as they are stored.
#[derive(Debug, PartialEq, Eq)]
pub struct StoredSlackSession {
    pub installed_at: Timestamp,
    pub updated_at: Timestamp,
    pub app_id: Option<String>,
    pub team_id: Option<String>,
    pub team_name: Option<String>,
    pub bot_user_id: Option<String>,
    pub bot_access_token: Option<String>,
    pub bot_refresh_token: Option<String>,
    pub bot_expires_at: Option<Timestamp>,
    pub user_id: Option<String>,
    pub user_access_token: Option<String>,
    pub user_refresh_token: Option<String>,
    pub user_expires_at: Option<Timestamp>,
}

/// What a [`StoredSlackSession`] says: its texts as sequences of characters.
#[verifier::ext_equal]
pub struct StoredSlackSessionModel {
    pub installed_at: Timestamp,
    pub updated_at: Timestamp,
    pub app_id: Option<Seq<char>>,
    pub team_id: Option<Seq<char>>,
    pub team_name: Option<Seq<char>>,
    pub bot_user_id: Option<Seq<char>>,
    pub bot_access_token: Option<Seq<char>>,
    pub bot_refresh_token: Option<Seq<char>>,
    pub bot_expires_at: Option<Timestamp>,
    pub user_id: Option<Seq<char>>,
    pub user_access_token: Option<Seq<char>>,
    pub user_refresh_token: Option<Seq<char>>,
    pub user_expires_at: Option<Timestamp>,
}

impl DeepView for StoredSlackSession {
    type V = StoredSlackSessionModel;

    open spec fn deep_view(&self) -> StoredSlackSessionModel {
        StoredSlackSessionModel {
            installed_at: self.installed_at,
            updated_at: self.updated_at,
            app_id: self.app_id.deep_view(),
            team_id: self.team_id.deep_view(),
            team_name: self.team_name.deep_view(),
            bot_user_id: self.bot_user_id.deep_view(),
            bot_access_token: self.bot_access_token.deep_view(),
            bot_refresh_token: self.bot_refresh_token.deep_view(),
            bot_expires_at: self.bot_expires_at,
            user_id: self.user_id.deep_view(),
            user_access_token: self.user_access_token.deep_view(),
            user_refresh_token: self.user_refresh_token.deep_view(),
            user_expires_at: self.user_expires_at,
        }
    }
}

impl Clone for StoredSlackSession {
    fn clone(&self) -> (copy: Self)
        ensures
            copy.deep_view() == self.deep_view(),
    {
        let copy = StoredSlackSession {
            installed_at: self.installed_at,
            updated_at: self.updated_at,
            app_id: self.app_id.clone(),
            team_id: self.team_id.clone(),
            team_name: self.team_name.clone(),
            bot_user_id: self.bot_user_id.clone(),
            bot_access_token: self.bot_access_token.clone(),
            bot_refresh_token: self.bot_refresh_token.clone(),
            bot_expires_at: self.bot_expires_at,
            user_id: self.user_id.clone(),
            user_access_token: self.user_access_token.clone(),
            user_refresh_token: self.user_refresh_token.clone(),
            user_expires_at: self.user_expires_at,
        };
        assert(copy.app_id.deep_view() =~= self.app_id.deep_view());
        assert(copy.team_id.deep_view() =~= self.team_id.deep_view());
        assert(copy.team_name.deep_view() =~= self.team_name.deep_view());
        assert(copy.bot_user_id.deep_view() =~= self.bot_user_id.deep_view());
        assert(copy.bot_access_token.deep_view() =~= self.bot_access_token.deep_view());
        assert(copy.bot_refresh_token.deep_view() =~= self.bot_refresh_token.deep_view());
        assert(copy.user_id.deep_view() =~= self.user_id.deep_view());
        assert(copy.user_access_token.deep_view() =~= self.user_access_token.deep_view());
        assert(copy.user_refresh_token.deep_view() =~= self.user_refresh_token.deep_view());
        copy
    }
}

/// The tokens of a user.
#[derive(Debug, PartialEq, Eq)]
pub struct UserBundle {
    pub id: Option<String>,
    pub access_token: String,
    pub refresh_token: Option<String>,
    pub expires_at: Option<Timestamp>,
}

/// What a [`UserBundle`] says: its texts as sequences of characters.
#[verifier::ext_equal]
pub struct UserBundleModel {
    pub id: Option<Seq<char>>,
    pub access_token: Seq<char>,
    pub refresh_token: Option<Seq<char>>,
    pub expires_at: Option<Timestamp>,
}

impl DeepView for UserBundle {
    type V = UserBundleModel;

    open spec fn deep_view(&self) -> UserBundleModel {
        UserBundleModel {
            id: self.id.deep_view(),
            access_token: self.access_token@,
            refresh_token: self.refresh_token.deep_view(),
            expires_at: self.expires_at,
        }
    }
}

impl Clone for UserBundle {
    fn clone(&self) -> (copy: Self)
        ensures
            copy.deep_view() == self.deep_view(),
    {
        let copy = UserBundle {
            id: self.id.clone(),
            access_token: self.access_token.clone(),
            refresh_token: self.refresh_token.clone(),
            expires_at: self.expires_at,
        };
        assert(copy.id.deep_view() =~= self.id.deep_view());
        assert(copy.refresh_token.deep_view() =~= self.refresh_token.deep_view());
        copy
    }
}

/// Whether a token that expires in so many seconds expires within the calendar.
pub open spec fn expiry_in_calendar(expires_in: Option<i64>, now: Timestamp) -> bool {
    expires_in matches Some(seconds) ==> in_calendar(
        later_by(now, seconds as int).seconds as int,
    )
}

/// When a token expires that does so in so many seconds.
pub open spec fn expiry(expires_in: Option<i64>, now: Timestamp) -> Option<Timestamp> {
    match expires_in {
        Some(seconds) => Some(later_by(now, seconds as int)),
        None => None,
    }
}

/// When a token expires that does so in so many seconds.
pub fn expires_at(expires_in: Option<i64>, now: Timestamp) -> (r: Option<Timestamp>)
    requires
        expiry_in_calendar(expires_in, now),
    ensures
        r == expiry(expires_in, now),
{
    match expires_in {
        Some(seconds) => Some(now.plus_seconds(seconds)),
        None => None,
    }
}

/// Whether the user's token of an answer, if it has one, expires within the calendar.
pub open spec fn user_expiry_in_calendar(
    response: OAuthAccessResponseModel,
    now: Timestamp,
) -> bool {
    match response.authed_user {
        Some(user) if user.access_token is Some => expiry_in_calendar(user.expires_in, now),
        _ => response.token_type == Some("user"@) ==> own_expiry_in_calendar(response, now),
    }
}

/// Whether an answer's own token, if it has one, expires within the calendar.
pub open spec fn own_expiry_in_calendar(
    response: OAuthAccessResponseModel,
    now: Timestamp,
) -> bool {
    response.access_token is Some ==> expiry_in_calendar(response.expires_in, now)
}

/// The tokens of the user in an answer: those that it names as the user's, else its own if they
/// are a user's.
pub open spec fn user_bundle(response: OAuthAccessResponseModel, now: Timestamp) -> Option<
    UserBundleModel,
> {
    match response.authed_user {
        Some(user) if user.access_token is Some => Some(
            UserBundleModel {
                id: user.id,
                access_token: user.access_token->0,
                refresh_token: user.refresh_token,
                expires_at: expiry(user.expires_in, now),
            },
        ),
        _ => match response.access_token {
            Some(access_token) if response.token_type == Some("user"@) => Some(
                UserBundleModel {
                    id: None,
                    access_token,
                    refresh_token: response.refresh_token,
                    expires_at: expiry(response.expires_in, now),
                },
            ),
            _ => None,
        },
    }
}

/// The tokens of the user in an answer.
pub fn user_bundle_from_response(response: &OAuthAccessResponse, now: Timestamp) -> (r: Option<
    UserBundle,
>)
    requires
        user_expiry_in_calendar(response.deep_view(), now),
    ensures
        r.deep_view() == user_bundle(response.deep_view(), now),
{
    if let Some(user) = &response.authed_user {
        if let Some(access_token) = &user.access_token {
            let bundle = UserBundle {
                id: user.id.clone(),
                access_token: access_token.clone(),
                refresh_token: user.refresh_token.clone(),
                expires_at: expires_at(user.expires_in, now),
            };
            return Some(bundle);
        }
    }
    if let Some(kind) = &response.token_type {
        if same_text(kind.as_str(), "user") {
            if let Some(access_token) = &response.access_token {
                let bundle = UserBundle {
                    id: None,
                    access_token: access_token.clone(),
                    refresh_token: response.refresh_token.clone(),
                    expires_at: expires_at(response.expires_in, now),
                };
                return Some(bundle);
            }
        }
    }
    None
}

/// Whether a token is to be refreshed: it can be, and it expires within five minutes.
pub open spec fn refresh_due(
    expires_at: Option<Timestamp>,
    refresh_token: Option<Seq<char>>,
    now: Timestamp,
) -> bool {
    &&& refresh_token matches Some(token)
    &&& token.len() > 0
    &&& expires_at matches Some(expiry)
    &&& !later_by(now, 300).before(expiry)
}

/// Whether a token is to be refreshed.
pub fn token_needs_refresh(
    expires_at: Option<Timestamp>,
    refresh_token: Option<&str>,
    now: Timestamp,
) -> (r: bool)
    ensures
        r == refresh_due(expires_at, refresh_token.deep_view(), now),
{
    match refresh_token {
        Some(token) => {
            if token.is_empty() {
                return false;
            }
            match expires_at {
                Some(expiry) => !now.plus_seconds(300).is_before(expiry),
                None => false,
            }
        },
        None => false,
    }
}

/// The session that an answer gives.
pub open spec fn initial_session(response: OAuthAccessResponseModel, now: Timestamp) -> Result<
    StoredSlackSessionModel,
    AuthErrorModel,
> {
    let user = user_bundle(response, now);
    if user is None && response.access_token is None {
        Err(AuthErrorModel::NoUsableToken)
    } else {
        Ok(
            StoredSlackSessionModel {
                installed_at: now,
                updated_at: now,
                app_id: response.app_id,
                team_id: match response.team {
                    Some(team) => team.id,
                    None => None,
                },
                team_name: match response.team {
                    Some(team) => team.name,
                    None => None,
                },
                bot_user_id: if response.access_token is Some {
                    response.bot_user_id
                } else {
                    None
                },
                bot_access_token: response.access_token,
                bot_refresh_token: if response.access_token is Some {
                    response.refresh_token
                } else {
                    None
                },
                bot_expires_at: if response.access_token is Some {
                    expiry(response.expires_in, now)
                } else {
                    None
                },
                user_id: match user {
                    Some(user) => user.id,
                    None => None,
                },
                user_access_token: match user {
                    Some(user) => Some(user.access_token),
                    None => None,
                },
                user_refresh_token: match user {
                    Some(user) => user.refresh_token,
                    None => None,
                },
                user_expires_at: match user {
                    Some(user) => user.expires_at,
                    None => None,
                },
            },
        )
    }
}

impl StoredSlackSessionModel {
    /// The workspace's name, else its id, else what stands for it.
    pub open spec fn workspace(self) -> Seq<char> {
        match (self.team_name, self.team_id) {
            (Some(name), _) => name,
            (None, Some(id)) => id,
            (None, None) => "workspace"@,
        }
    }

    /// Whom the tokens belong to.
    pub open spec fn principal(self) -> Seq<char> {
        match (self.user_id, self.bot_user_id) {
            (Some(user), _) => "user "@ + user,
            (None, Some(bot)) => "bot "@ + bot,
            (None, None) => "stored credentials"@,
        }
    }

    /// The session in one sentence.
    pub open spec fn sentence(self) -> Seq<char> {
        let start = "Connected to "@ + self.workspace() + " as "@ + self.principal();
        match self.app_id {
            Some(app) => start + " via app "@ + app + "."@,
            None => start + "."@,
        }
    }

    /// Whether the user's token is to be refreshed.
    pub open spec fn user_refresh_due(self, now: Timestamp) -> bool {
        refresh_due(self.user_expires_at, self.user_refresh_token, now)
    }

    /// Whether the bot's token is to be refreshed.
    pub open spec fn bot_refresh_due(self, now: Timestamp) -> bool {
        refresh_due(self.bot_expires_at, self.bot_refresh_token, now)
    }
}

impl StoredSlackSession {
    /// The session that the answer to an authorization gives.
    pub fn from_oauth_response(response: OAuthAccessResponse, now: Timestamp) -> (r: Result<
        Self,
        AuthError,
    >)
        requires
            user_expiry_in_calendar(response.deep_view(), now),
            own_expiry_in_calendar(response.deep_view(), now),
        ensures
            told(r) == initial_session(response.deep_view(), now),
    {
        let user = user_bundle_from_response(&response, now);
        if user.is_none() && response.access_token.is_none() {
            return Err(AuthError::NoUsableToken);
        }
        let (team_id, team_name) = match response.team {
            Some(team) => (team.id, team.name),
            None => (None, None),
        };
        let (user_id, user_access_token, user_refresh_token, user_expires_at) = match user {
            Some(user) => (user.id, Some(user.access_token), user.refresh_token, user.expires_at),
            None => (None, None, None, None),
        };
        let has_bot = response.access_token.is_some();
        let session = StoredSlackSession {
            installed_at: now,
            updated_at: now,
            app_id: response.app_id,
            team_id,
            team_name,
            bot_user_id: if has_bot {
                response.bot_user_id
            } else {
                None
            },
            bot_access_token: response.access_token,
            bot_refresh_token: if has_bot {
                response.refresh_token
            } else {
                None
            },
            bot_expires_at: if has_bot {
                expires_at(response.expires_in, now)
            } else {
                None
            },
            user_id,
            user_access_token,
            user_refresh_token,
            user_expires_at,
        };
        Ok(session)
    }

    /// The session in one sentence.
    pub fn summary(&self) -> (r: String)
        ensures
            r@ == self.deep_view().sentence(),
    {
        let mut out = owned("Connected to ");
        match (&self.team_name, &self.team_id) {
            (Some(name), _) => out.append(name.as_str()),
            (None, Some(id)) => out.append(id.as_str()),
            (None, None) => out.append("workspace"),
        }
        assert(out@ == "Connected to "@ + self.deep_view().workspace());
        out.append(" as ");
        let principal = match (&self.user_id, &self.bot_user_id) {
            (Some(user), _) => labelled("user ", user.as_str()),
            (None, Some(bot)) => labelled("bot ", bot.as_str()),
            (None, None) => owned("stored credentials"),
        };
        out.append(principal.as_str());
        if let Some(app) = &self.app_id {
            out.append(" via app ");
            out.append(app.as_str());
        }
        out.append(".");
        out
    }

    /// Whether a token is to be refreshed.
    pub fn needs_refresh(&self, now: Timestamp) -> (r: bool)
        ensures
            r == (self.deep_view().user_refresh_due(now) || self.deep_view().bot_refresh_due(now)),
    {
        self.user_token_needs_refresh(now) || self.bot_token_needs_refresh(now)
    }

    /// Whether the user's token is to be refreshed.
    pub fn user_token_needs_refresh(&self, now: Timestamp) -> (r: bool)
        ensures
            r == self.deep_view().user_refresh_due(now),
    {
        match &self.user_refresh_token {
            Some(token) => token_needs_refresh(self.user_expires_at, Some(token.as_str()), now),
            None => false,
        }
    }

    /// Whether the bot's token is to be refreshed.
    pub fn bot_token_needs_refresh(&self, now: Timestamp) -> (r: bool)
        ensures
            r == self.deep_view().bot_refresh_due(now),
    {
        match &self.bot_refresh_token {
            Some(token) => token_needs_refresh(self.bot_expires_at, Some(token.as_str()), now),
            None => false,
        }
    }

    /// Takes over the user's tokens of an answer to a refresh.
    pub fn apply_user_refresh_response(&mut self, response: OAuthAccessResponse, now: Timestamp)
        -> (r: Result<(), AuthError>)
        requires
            user_expiry_in_calendar(response.deep_view(), now),
        ensures
            match user_bundle(response.deep_view(), now) {
                Some(user) => r is Ok && final(self).deep_view() == (StoredSlackSessionModel {
                    user_id: user.id,
                    user_access_token: Some(user.access_token),
                    user_refresh_token: user.refresh_token,
                    user_expires_at: user.expires_at,
                    updated_at: now,
                    ..old(self).deep_view()
                }),
                None => *final(self) == *old(self) && (r matches Err(error) && error.deep_view()
                    == AuthErrorModel::NoRotatedUserToken),
            },
    {
        match user_bundle_from_response(&response, now) {
            Some(user) => {
                self.user_id = user.id;
                self.user_access_token = Some(user.access_token);
                self.user_refresh_token = user.refresh_token;
                self.user_expires_at = user.expires_at;
                self.updated_at = now;
                Ok(())
            },
            None => Err(AuthError::NoRotatedUserToken),
        }
    }

    /// Takes over the bot's tokens of an answer to a refresh.
    pub fn apply_bot_refresh_response(&mut self, response: OAuthAccessResponse, now: Timestamp)
        -> (r: Result<(), AuthError>)
        requires
            own_expiry_in_calendar(response.deep_view(), now),
        ensures
            match response.deep_view().access_token {
                Some(access_token) => r is Ok && final(self).deep_view() == (
                StoredSlackSessionModel {
                    bot_access_token: Some(access_token),
                    bot_refresh_token: response.deep_view().refresh_token,
                    bot_expires_at: expiry(response.expires_in, now),
                    bot_user_id: response.deep_view().bot_user_id,
                    updated_at: now,
                    ..old(self).deep_view()
                }),
                None => *final(self) == *old(self) && (r matches Err(error) && error.deep_view()
                    == AuthErrorModel::NoRotatedBotToken),
            },
    {
        match response.access_token {
            Some(access_token) => {
                self.bot_access_token = Some(access_token);
                self.bot_refresh_token = response.refresh_token;
                self.bot_expires_at = expires_at(response.expires_in, now);
                self.bot_user_id = response.bot_user_id;
                self.updated_at = now;
                Ok(())
            },
            None => Err(AuthError::NoRotatedBotToken),
        }
    }

    /// The token with which to refresh the user's token, if that is due.
    pub fn user_refresh(&self, now: Timestamp) -> (r: Option<&str>)
        ensures
            match r {
                Some(token) => self.deep_view().user_refresh_due(now)
                    && self.deep_view().user_refresh_token == Some(token@),
                None => !self.deep_view().user_refresh_due(now),
            },
    {
        if self.user_token_needs_refresh(now) {
            match &self.user_refresh_token {
                Some(token) => Some(token.as_str()),
                None => None,
            }
        } else {
            None
        }
    }

    /// The token with which to refresh the bot's token, if that is due.
    pub fn bot_refresh(&self, now: Timestamp) -> (r: Option<&str>)
        ensures
            match r {
                Some(token) => self.deep_view().bot_refresh_due(now)
                    && self.deep_view().bot_refresh_token == Some(token@),
                None => !self.deep_view().bot_refresh_due(now),
            },
    {
        if self.bot_token_needs_refresh(now) {
            match &self.bot_refresh_token {
                Some(token) => Some(token.as_str()),
                None => None,
            }
        } else {
            None
        }
    }
}

/// Every session that an answer gives holds a token.
pub proof fn law_sessions_hold_a_token(response: OAuthAccessResponseModel, now: Timestamp)
    ensures
        initial_session(response, now) matches Ok(session) ==> session.user_access_token is Some
            || session.bot_access_token is Some,
{
}

/// The account under which the session of a workspace is stored.
pub open spec fn account_of(workspace_key: Seq<char>) -> Seq<char> {
    if workspace_key == DEFAULT_WORKSPACE_KEY@ {
        KEYRING_ACCOUNT@
    } else {
        WORKSPACE_ACCOUNT_PREFIX@ + workspace_key
    }
}

/// The account under which the session of a workspace is stored.
pub fn keyring_account_for(workspace_key: &str) -> (r: String)
    ensures
        r@ == account_of(workspace_key@),
{
    if same_text(workspace_key, DEFAULT_WORKSPACE_KEY) {
        owned(KEYRING_ACCOUNT)
    } else {
        labelled(WORKSPACE_ACCOUNT_PREFIX, workspace_key)
    }
}

/// Two workspaces never share an account.
pub proof fn law_accounts_are_distinct(left: Seq<char>, right: Seq<char>)
    requires
        account_of(left) == account_of(right),
    ensures
        left == right,
{
    reveal_strlit("slack.oauth.default");
    reveal_strlit("slack.oauth.workspace.");
    let prefix = WORKSPACE_ACCOUNT_PREFIX@;
    assert(KEYRING_ACCOUNT@.len() < prefix.len());
    if left != DEFAULT_WORKSPACE_KEY@ && right != DEFAULT_WORKSPACE_KEY@ {
        assert((prefix + left).skip(prefix.len() as int) =~= left);
        assert((prefix + right).skip(prefix.len() as int) =~= right);
    }
}

/// Where signing in stands.
#[derive(Debug, PartialEq, Eq)]
pub enum SlackAuthStatus {
    /// The app is not configured.
    MissingConfig(String),
    Disconnected { scopes: Vec<String>, redirect_uri: String },
    Connecting(String),
    Connected(StoredSlackSession),
    Error(String),
}

/// What a [`SlackAuthStatus`] says: its texts as sequences of characters.
#[verifier::ext_equal]
pub enum SlackAuthStatusModel {
    MissingConfig(Seq<char>),
    Disconnected { scopes: Seq<Seq<char>>, redirect_uri: Seq<char> },
    Connecting(Seq<char>),
    Connected(StoredSlackSessionModel),
    Error(Seq<char>),
}

impl DeepView for SlackAuthStatus {
    type V = SlackAuthStatusModel;

    open spec fn deep_view(&self) -> SlackAuthStatusModel {
        match self {
            SlackAuthStatus::MissingConfig(a) => SlackAuthStatusModel::MissingConfig(a@),
            SlackAuthStatus::Disconnected { scopes, redirect_uri } => SlackAuthStatusModel::Disconnected { scopes: scopes.deep_view(), redirect_uri: redirect_uri@ },
            SlackAuthStatus::Connecting(a) => SlackAuthStatusModel::Connecting(a@),
            SlackAuthStatus::Connected(a) => SlackAuthStatusModel::Connected(a.deep_view()),
            SlackAuthStatus::Error(a) => SlackAuthStatusModel::Error(a@),
        }
    }
}

impl Clone for SlackAuthStatus {
    fn clone(&self) -> (copy: Self)
        ensures
            copy.deep_view() == self.deep_view(),
    {
        match self {
            SlackAuthStatus::MissingConfig(a) => {
                let copy = SlackAuthStatus::MissingConfig(a.clone());
                assert(copy.deep_view() =~= self.deep_view());
                copy
            },
            SlackAuthStatus::Disconnected { scopes, redirect_uri } => {
                let copy = SlackAuthStatus::Disconnected { scopes: scopes.clone(), redirect_uri: redirect_uri.clone() };
                assert(copy.deep_view() =~= self.deep_view());
                copy
            },
            SlackAuthStatus::Connecting(a) => {
                let copy = SlackAuthStatus::Connecting(a.clone());
                assert(copy.deep_view() =~= self.deep_view());
                copy
            },
            SlackAuthStatus::Connected(a) => {
                let copy = SlackAuthStatus::Connected(a.clone());
                assert(copy.deep_view() =~= self.deep_view());
                copy
            },
            SlackAuthStatus::Error(a) => {
                let copy = SlackAuthStatus::Error(a.clone());
                assert(copy.deep_view() =~= self.deep_view());
                copy
            },
        }
    }
}

impl SlackAuthStatusModel {
    /// The status in words.
    pub open spec fn words(self) -> Seq<char> {
        match self {
            SlackAuthStatusModel::MissingConfig(message) => message,
            SlackAuthStatusModel::Disconnected { scopes, redirect_uri } =>
                "Ready to connect. Redirect URL: "@ + redirect_uri + ". Requested user scopes: "@
                + join(scopes, ", "@),
            SlackAuthStatusModel::Connecting(message) => message,
            SlackAuthStatusModel::Connected(session) => session.sentence(),
            SlackAuthStatusModel::Error(message) => message,
        }
    }

    /// What to show in place of a timeline that is empty: a title and a sentence.
    pub open spec fn placeholder(self) -> (Seq<char>, Seq<char>) {
        match self {
            SlackAuthStatusModel::MissingConfig(message) => (
                "Slack OAuth is not configured"@,
                message,
            ),
            SlackAuthStatusModel::Disconnected { scopes, redirect_uri } => (
                "Connect Slack to start building the cache"@,
                "Set Slack Redirect URL to "@ + redirect_uri
                    + ", then use Connect Slack and paste the redirected URL back into Slaxide."@,
            ),
            SlackAuthStatusModel::Connecting(message) => (
                "Waiting for Slack authorization"@,
                message,
            ),
            SlackAuthStatusModel::Connected(_) => (
                "No cached timeline yet"@,
                "Slack OAuth is connected. History ingest and live sync are the next steps."@,
            ),
            SlackAuthStatusModel::Error(message) => ("Slack OAuth failed"@, message),
        }
    }
}

impl SlackAuthStatus {
    /// The status in words.
    pub fn summary(&self) -> (r: String)
        ensures
            r@ == self.deep_view().words(),
    {
        match self {
            SlackAuthStatus::MissingConfig(message) => message.clone(),
            SlackAuthStatus::Disconnected { scopes, redirect_uri } => {
                let mut out = enclosed(
                    "Ready to connect. Redirect URL: ",
                    redirect_uri.as_str(),
                    ". Requested user scopes: ",
                );
                out.append(join_texts(scopes, ", ").as_str());
                out
            },
            SlackAuthStatus::Connecting(message) => message.clone(),
            SlackAuthStatus::Connected(session) => session.summary(),
            SlackAuthStatus::Error(message) => message.clone(),
        }
    }

    /// What the button says that starts to sign in.
    pub fn button_label(&self) -> (r: &'static str)
        ensures
            r@ == if self is Connected {
                "Reconnect Slack"@
            } else {
                "Connect Slack"@
            },
    {
        match self {
            SlackAuthStatus::Connected(_) => "Reconnect Slack",
            _ => "Connect Slack",
        }
    }

    /// Whether signing in can be started.
    pub fn can_start_login(&self) -> (r: bool)
        ensures
            r == (self is Disconnected || self is Connected || self is Error),
    {
        match self {
            SlackAuthStatus::Disconnected { .. } => true,
            SlackAuthStatus::Connected(_) => true,
            SlackAuthStatus::Error(_) => true,
            _ => false,
        }
    }

    /// What to show in place of a timeline that is empty: a title and a sentence.
    pub fn empty_state(&self) -> (r: (&'static str, String))
        ensures
            (r.0@, r.1@) == self.deep_view().placeholder(),
    {
        match self {
            SlackAuthStatus::MissingConfig(message) => (
                "Slack OAuth is not configured",
                message.clone(),
            ),
            SlackAuthStatus::Disconnected { redirect_uri, .. } => (
                "Connect Slack to start building the cache",
                enclosed(
                    "Set Slack Redirect URL to ",
                    redirect_uri.as_str(),
                    ", then use Connect Slack and paste the redirected URL back into Slaxide.",
                ),
            ),
            SlackAuthStatus::Connecting(message) => (
                "Waiting for Slack authorization",
                message.clone(),
            ),
            SlackAuthStatus::Connected(_) => (
                "No cached timeline yet",
                owned("Slack OAuth is connected. History ingest and live sync are the next steps."),
            ),
            SlackAuthStatus::Error(message) => ("Slack OAuth failed", message.clone()),
        }
    }
}

/// The status at the start, from the stored session and the app's configuration: a session that
/// can be read connects, one that cannot is an error, and without one the configuration decides.
pub fn initial_status(
    session: Result<Option<StoredSlackSession>, String>,
    environment: Result<SlackOAuthEnvironment, AuthError>,
) -> (r: SlackAuthStatus)
    ensures
        r.deep_view() == match session {
            Ok(Some(session)) => SlackAuthStatusModel::Connected(session.deep_view()),
            Ok(None) => match environment {
                Ok(environment) => SlackAuthStatusModel::Disconnected {
                    scopes: environment.user_scopes.deep_view(),
                    redirect_uri: environment.redirect_uri.text@,
                },
                Err(error) => SlackAuthStatusModel::MissingConfig(error.deep_view().words()),
            },
            Err(message) => SlackAuthStatusModel::Error(message@),
        },
{
    match session {
        Ok(Some(session)) => SlackAuthStatus::Connected(session),
        Ok(None) => match environment {
            Ok(environment) => {
                let status = SlackAuthStatus::Disconnected {
                    scopes: environment.user_scopes,
                    redirect_uri: environment.redirect_uri.text,
                };
                status
            },
            Err(error) => SlackAuthStatus::MissingConfig(error.message()),
        },
        Err(message) => SlackAuthStatus::Error(message),
    }
}

/// The value that the last pair of a query with a name has.
pub open spec fn last_value(query: Seq<(Seq<char>, Seq<char>)>, name: Seq<char>) -> Option<
    Seq<char>,
>
    decreases query.len(),
{
    if query.len() == 0 {
        None
    } else if query.last().0 == name {
        Some(query.last().1)
    } else {
        last_value(query.drop_last(), name)
    }
}

/// The value that the last pair of a query with a name has.
pub fn query_value(query: &Vec<(String, String)>, name: &str) -> (r: Option<String>)
    ensures
        r.deep_view() == last_value(query.deep_view(), name@),
{
    let ghost all = query.deep_view();
    let mut i: usize = query.len();
    assert(all.take(i as int) =~= all);
    while i > 0
        invariant
            i <= query.len(),
            all == query.deep_view(),
            last_value(all, name@) == last_value(all.take(i as int), name@),
        decreases i,
    {
        assert(all.take(i as int).drop_last() =~= all.take(i - 1));
        assert(all.take(i as int).last() == query@[i - 1].deep_view());
        i -= 1;
        if same_text(query[i].0.as_str(), name) {
            return Some(query[i].1.clone());
        }
    }
    None
}

/// Whether an address is Slack's page on which the user authorizes the app.
pub open spec fn is_authorize_page(address: WebUrlModel) -> bool {
    &&& address.host matches Some(host)
    &&& ends_with(host, ".slack.com"@) || host == "slack.com"@
    &&& address.path == "/oauth"@ || address.path == "/oauth/v2/authorize"@
}

/// Whether an address is Slack's page on which the user authorizes the app.
pub fn is_slack_authorize_url(address: &WebUrl) -> (r: bool)
    ensures
        r == is_authorize_page(address.deep_view()),
{
    match &address.host {
        Some(host) => (finishes_with(host.as_str(), ".slack.com") || same_text(
            host.as_str(),
            "slack.com",
        )) && (same_text(address.path.as_str(), "/oauth") || same_text(
            address.path.as_str(),
            "/oauth/v2/authorize",
        )),
        None => false,
    }
}

/// The code that an answer to an authorization carries, or what is wrong with the answer.
pub open spec fn accepted_code(
    callback: WebUrlModel,
    redirect: WebUrlModel,
    expected_state: Seq<char>,
) -> Result<Seq<char>, AuthErrorModel> {
    let state = last_value(callback.query, "state"@);
    let code = last_value(callback.query, "code"@);
    if callback.scheme != redirect.scheme {
        Err(AuthErrorModel::UnexpectedScheme(callback.scheme))
    } else if is_authorize_page(callback) {
        Err(AuthErrorModel::AuthorizePage(redirect.text))
    } else if callback.host != redirect.host || callback.port != redirect.port {
        Err(AuthErrorModel::HostMismatch(redirect.text))
    } else if callback.path != redirect.path {
        Err(AuthErrorModel::UnexpectedPath(callback.path))
    } else if last_value(callback.query, "error"@) is Some {
        Err(AuthErrorModel::Refused(last_value(callback.query, "error"@)->0))
    } else if state is None {
        Err(AuthErrorModel::MissingState)
    } else if state != Some(expected_state) {
        Err(AuthErrorModel::StateMismatch)
    } else if code is None {
        Err(AuthErrorModel::MissingCode)
    } else {
        Ok(code->0)
    }
}

/// The code that an answer to an authorization carries.
pub fn accept_callback(callback: &WebUrl, redirect: &WebUrl, expected_state: &str) -> (r: Result<
    String,
    AuthError,
>)
    ensures
        told(r) == accepted_code(callback.deep_view(), redirect.deep_view(), expected_state@),
{
    if !same_text(callback.scheme.as_str(), redirect.scheme.as_str()) {
        return Err(AuthError::UnexpectedScheme(callback.scheme.clone()));
    }
    if is_slack_authorize_url(callback) {
        return Err(AuthError::AuthorizePage(redirect.text.clone()));
    }
    if !same_option(&callback.host, &redirect.host) || callback.port != redirect.port {
        return Err(AuthError::HostMismatch(redirect.text.clone()));
    }
    if !same_text(callback.path.as_str(), redirect.path.as_str()) {
        return Err(AuthError::UnexpectedPath(callback.path.clone()));
    }
    if let Some(error) = query_value(&callback.query, "error") {
        return Err(AuthError::Refused(error));
    }
    match query_value(&callback.query, "state") {
        Some(state) => {
            if !same_text(state.as_str(), expected_state) {
                return Err(AuthError::StateMismatch);
            }
        },
        None => return Err(AuthError::MissingState),
    }
    match query_value(&callback.query, "code") {
        Some(code) => Ok(code),
        None => Err(AuthError::MissingCode),
    }
}

/// The address that the user pasted: a whole one, or a path at the place Slack sends the user
/// back to.
pub open spec fn pasted_url(raw: Seq<char>, redirect: WebUrlModel) -> Result<
    WebUrlModel,
    AuthErrorModel,
> {
    let pasted = trim(raw);
    if pasted.len() == 0 {
        Err(AuthErrorModel::NoCallback)
    } else {
        match parsed_url(pasted) {
            Ok(address) => Ok(address),
            Err(_) => if starts_with(pasted, "/"@) {
                match joined_url(redirect.text, pasted) {
                    Ok(address) => Ok(address),
                    Err(_) => Err(AuthErrorModel::InvalidCallbackPath(pasted)),
                }
            } else {
                Err(AuthErrorModel::CodeOnly)
            },
        }
    }
}

/// The code in what the user pasted as the answer to an authorization.
pub fn parse_callback_input(raw_input: &str, redirect_uri: &WebUrl, expected_state: &str) -> (r:
    Result<String, AuthError>)
    ensures
        told(r) == match pasted_url(raw_input@, redirect_uri.deep_view()) {
            Ok(callback) => accepted_code(callback, redirect_uri.deep_view(), expected_state@),
            Err(error) => Err(error),
        },
{
    let pasted = trimmed(raw_input);
    if pasted.as_str().is_empty() {
        return Err(AuthError::NoCallback);
    }
    match parse_url(pasted.as_str()) {
        Ok(address) => accept_callback(&address, redirect_uri, expected_state),
        Err(_) => {
            if begins_with(pasted.as_str(), "/") {
                match join_url(redirect_uri.text.as_str(), pasted.as_str()) {
                    Ok(address) => accept_callback(&address, redirect_uri, expected_state),
                    Err(_) => Err(AuthError::InvalidCallbackPath(pasted)),
                }
            } else {
                Err(AuthError::CodeOnly)
            }
        },
    }
}

/// A code is only ever taken from an answer at the configured place that carries the state of
/// this sign-in and no error.
pub proof fn law_codes_answer_this_login(
    callback: WebUrlModel,
    redirect: WebUrlModel,
    expected_state: Seq<char>,
)
    ensures
        accepted_code(callback, redirect, expected_state) is Ok ==> {
            &&& callback.scheme == redirect.scheme
            &&& callback.host == redirect.host
            &&& callback.port == redirect.port
            &&& callback.path == redirect.path
            &&& last_value(callback.query, "state"@) == Some(expected_state)
            &&& last_value(callback.query, "error"@) is None
        },
{
}

} // verus!
