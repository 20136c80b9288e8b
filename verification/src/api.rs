//! The requests to the Slack Web API, and what its replies and the socket's frames lead to.
use std::sync::Arc;
use vstd::prelude::*;
use vstd::string::*;

use crate::json::Json;
use crate::rule_ids::hex_digit;
use crate::slack::{SlackSocketEvent, SocketModeEnvelope};
use crate::text::{decimal, join, join_texts, owned, same_text, to_decimal};
use crate::urls::{
    add_query, copy_pairs, join_url, joined_url, parse_url, parsed_url, url_with_query, WebUrl,
    WebUrlModel,
};

verus! {

/// Where Slack sends the user back after an authorization, unless it is configured otherwise.
pub const DEFAULT_REDIRECT: &'static str = "https://127.0.0.1/slack/callback";

/// The page on which the user authorizes the app.
pub const AUTHORIZE_PAGE: &'static str = "https://slack.com/oauth/v2/authorize";

/// Where the methods of the Web API are.
pub const API_ROOT: &'static str = "https://slack.com/api/";

/// Why a request to Slack failed.
#[derive(Debug, PartialEq, Eq)]
pub enum SlackError {
    /// Slack refused the request.
    Api(String),
    /// The request could not be sent.
    Request(String),
    /// The reply has no status of success.
    HttpStatus(u16),
    /// An address is wrong.
    Url(String),
    /// The reply cannot be read.
    Json(String),
    /// The socket failed.
    WebSocket(String),
    /// The reply lacks what it should hold.
    MalformedResponse(String),
}

/// What a [`SlackError`] says: its texts as sequences of characters.
#[verifier::ext_equal]
pub enum SlackErrorModel {
    Api(Seq<char>),
    Request(Seq<char>),
    HttpStatus(u16),
    Url(Seq<char>),
    Json(Seq<char>),
    WebSocket(Seq<char>),
    MalformedResponse(Seq<char>),
}

impl DeepView for SlackError {
    type V = SlackErrorModel;

    open spec fn deep_view(&self) -> SlackErrorModel {
        match self {
            SlackError::Api(a) => SlackErrorModel::Api(a@),
            SlackError::Request(a) => SlackErrorModel::Request(a@),
            SlackError::HttpStatus(a) => SlackErrorModel::HttpStatus(*a),
            SlackError::Url(a) => SlackErrorModel::Url(a@),
            SlackError::Json(a) => SlackErrorModel::Json(a@),
            SlackError::WebSocket(a) => SlackErrorModel::WebSocket(a@),
            SlackError::MalformedResponse(a) => SlackErrorModel::MalformedResponse(a@),
        }
    }
}

impl Clone for SlackError {
    fn clone(&self) -> (copy: Self)
        ensures
            copy.deep_view() == self.deep_view(),
    {
        match self {
            SlackError::Api(a) => {
                let copy = SlackError::Api(a.clone());
                assert(copy.deep_view() =~= self.deep_view());
                copy
            },
            SlackError::Request(a) => {
                let copy = SlackError::Request(a.clone());
                assert(copy.deep_view() =~= self.deep_view());
                copy
            },
            SlackError::HttpStatus(a) => {
                let copy = SlackError::HttpStatus(*a);
                assert(copy.deep_view() =~= self.deep_view());
                copy
            },
            SlackError::Url(a) => {
                let copy = SlackError::Url(a.clone());
                assert(copy.deep_view() =~= self.deep_view());
                copy
            },
            SlackError::Json(a) => {
                let copy = SlackError::Json(a.clone());
                assert(copy.deep_view() =~= self.deep_view());
                copy
            },
            SlackError::WebSocket(a) => {
                let copy = SlackError::WebSocket(a.clone());
                assert(copy.deep_view() =~= self.deep_view());
                copy
            },
            SlackError::MalformedResponse(a) => {
                let copy = SlackError::MalformedResponse(a.clone());
                assert(copy.deep_view() =~= self.deep_view());
                copy
            },
        }
    }
}

impl SlackErrorModel {
    /// The error in words.
    pub open spec fn words(self) -> Seq<char> {
        match self {
            SlackErrorModel::Api(reason) => "slack api error: "@ + reason,
            SlackErrorModel::Request(reason) => "http request failed: "@ + reason,
            SlackErrorModel::HttpStatus(status) => "unexpected http status: "@ + decimal(
                status as nat,
            ),
            SlackErrorModel::Url(reason) => "invalid url: "@ + reason,
            SlackErrorModel::Json(reason) => "json decode failed: "@ + reason,
            SlackErrorModel::WebSocket(reason) => "websocket error: "@ + reason,
            SlackErrorModel::MalformedResponse(reason) => "malformed response: "@ + reason,
        }
    }
}

impl SlackError {
    /// The error in words.
    pub fn message(&self) -> (r: String)
        ensures
            r@ == self.deep_view().words(),
    {
        match self {
            SlackError::Api(reason) => labelled("slack api error: ", reason.as_str()),
            SlackError::Request(reason) => labelled("http request failed: ", reason.as_str()),
            SlackError::HttpStatus(status) => labelled(
                "unexpected http status: ",
                to_decimal(*status as u64).as_str(),
            ),
            SlackError::Url(reason) => labelled("invalid url: ", reason.as_str()),
            SlackError::Json(reason) => labelled("json decode failed: ", reason.as_str()),
            SlackError::WebSocket(reason) => labelled("websocket error: ", reason.as_str()),
            SlackError::MalformedResponse(reason) => labelled(
                "malformed response: ",
                reason.as_str(),
            ),
        }
    }
}

/// A text after a label.
pub fn labelled(label: &str, rest: &str) -> (r: String)
    ensures
        r@ == label@ + rest@,
{
    let mut out = owned(label);
    out.append(rest);
    out
}

/// What a result says.
pub open spec fn said_of<T: DeepView>(r: Result<T, SlackError>) -> Result<T::V, SlackErrorModel> {
    match r {
        Ok(value) => Ok(value.deep_view()),
        Err(error) => Err(error.deep_view()),
    }
}

/// How the app is known to Slack, and where Slack is.
#[derive(Debug, PartialEq, Eq)]
pub struct SlackOAuthConfig {
    pub client_id: String,
    pub client_secret: String,
    pub redirect_uri: WebUrl,
    pub authorize_base: WebUrl,
    pub api_base: WebUrl,
}

/// What a [`SlackOAuthConfig`] says: its texts as sequences of characters.
#[verifier::ext_equal]
pub struct SlackOAuthConfigModel {
    pub client_id: Seq<char>,
    pub client_secret: Seq<char>,
    pub redirect_uri: WebUrlModel,
    pub authorize_base: WebUrlModel,
    pub api_base: WebUrlModel,
}

impl DeepView for SlackOAuthConfig {
    type V = SlackOAuthConfigModel;

    open spec fn deep_view(&self) -> SlackOAuthConfigModel {
        SlackOAuthConfigModel {
            client_id: self.client_id@,
            client_secret: self.client_secret@,
            redirect_uri: self.redirect_uri.deep_view(),
            authorize_base: self.authorize_base.deep_view(),
            api_base: self.api_base.deep_view(),
        }
    }
}

impl Clone for SlackOAuthConfig {
    fn clone(&self) -> (copy: Self)
        ensures
            copy.deep_view() == self.deep_view(),
    {
        let copy = SlackOAuthConfig {
            client_id: self.client_id.clone(),
            client_secret: self.client_secret.clone(),
            redirect_uri: self.redirect_uri.clone(),
            authorize_base: self.authorize_base.clone(),
            api_base: self.api_base.clone(),
        };
        copy
    }
}

/// The configuration with Slack's own addresses; which of them is wrong, if one is.
pub open spec fn slack_config(client_id: Seq<char>, client_secret: Seq<char>) -> Result<
    SlackOAuthConfigModel,
    SlackErrorModel,
> {
    match (parsed_url(DEFAULT_REDIRECT@), parsed_url(AUTHORIZE_PAGE@), parsed_url(API_ROOT@)) {
        (Ok(redirect_uri), Ok(authorize_base), Ok(api_base)) => Ok(
            SlackOAuthConfigModel {
                client_id,
                client_secret,
                redirect_uri,
                authorize_base,
                api_base,
            },
        ),
        (Err(reason), _, _) => Err(SlackErrorModel::Url(reason)),
        (_, Err(reason), _) => Err(SlackErrorModel::Url(reason)),
        (_, _, Err(reason)) => Err(SlackErrorModel::Url(reason)),
    }
}

impl SlackOAuthConfig {
    /// The configuration with Slack's own addresses.
    pub fn new(client_id: &str, client_secret: &str) -> (r: Result<Self, SlackError>)
        ensures
            said_of(r) == slack_config(client_id@, client_secret@),
    {
        let redirect_uri = match parse_url(DEFAULT_REDIRECT) {
            Ok(address) => address,
            Err(reason) => return Err(SlackError::Url(reason)),
        };
        let authorize_base = match parse_url(AUTHORIZE_PAGE) {
            Ok(address) => address,
            Err(reason) => return Err(SlackError::Url(reason)),
        };
        let api_base = match parse_url(API_ROOT) {
            Ok(address) => address,
            Err(reason) => return Err(SlackError::Url(reason)),
        };
        let config = SlackOAuthConfig {
            client_id: owned(client_id),
            client_secret: owned(client_secret),
            redirect_uri,
            authorize_base,
            api_base,
        };
        Ok(config)
    }
}

/// How a request is made.
#[derive(Clone, Copy, Debug, PartialEq, Eq, Structural)]
pub enum HttpMethod {
    Get,
    Post,
}

impl DeepView for HttpMethod {
    type V = HttpMethod;

    open spec fn deep_view(&self) -> HttpMethod {
        *self
    }
}

/// A file that was uploaded, under a title.
#[derive(Debug, PartialEq, Eq)]
pub struct UploadedFile {
    pub id: String,
    pub title: String,
}

/// What a [`UploadedFile`] says: its texts as sequences of characters.
#[verifier::ext_equal]
pub struct UploadedFileModel {
    pub id: Seq<char>,
    pub title: Seq<char>,
}

impl DeepView for UploadedFile {
    type V = UploadedFileModel;

    open spec fn deep_view(&self) -> UploadedFileModel {
        UploadedFileModel {
            id: self.id@,
            title: self.title@,
        }
    }
}

impl Clone for UploadedFile {
    fn clone(&self) -> (copy: Self)
        ensures
            copy.deep_view() == self.deep_view(),
    {
        let copy = UploadedFile {
            id: self.id.clone(),
            title: self.title.clone(),
        };
        copy
    }
}

/// A member of a JSON request.
#[derive(Debug, PartialEq, Eq)]
pub enum PayloadValue {
    Text(String),
    Flag(bool),
    Files(Vec<UploadedFile>),
}

/// What a [`PayloadValue`] says: its texts as sequences of characters.
#[verifier::ext_equal]
pub enum PayloadValueModel {
    Text(Seq<char>),
    Flag(bool),
    Files(Seq<UploadedFileModel>),
}

impl DeepView for PayloadValue {
    type V = PayloadValueModel;

    open spec fn deep_view(&self) -> PayloadValueModel {
        match self {
            PayloadValue::Text(a) => PayloadValueModel::Text(a@),
            PayloadValue::Flag(a) => PayloadValueModel::Flag(*a),
            PayloadValue::Files(a) => PayloadValueModel::Files(a.deep_view()),
        }
    }
}

impl Clone for PayloadValue {
    fn clone(&self) -> (copy: Self)
        ensures
            copy.deep_view() == self.deep_view(),
    {
        match self {
            PayloadValue::Text(a) => {
                let copy = PayloadValue::Text(a.clone());
                assert(copy.deep_view() =~= self.deep_view());
                copy
            },
            PayloadValue::Flag(a) => {
                let copy = PayloadValue::Flag(*a);
                assert(copy.deep_view() =~= self.deep_view());
                copy
            },
            PayloadValue::Files(a) => {
                let copy = PayloadValue::Files(a.clone());
                assert(copy.deep_view() =~= self.deep_view());
                copy
            },
        }
    }
}

/// What a request carries.
#[derive(Debug, PartialEq, Eq)]
pub enum RequestBody {
    Empty,
    /// The fields of a form.
    Form(Vec<(String, String)>),
    /// The members of a JSON object.
    Json(Vec<(String, PayloadValue)>),
}

/// What a [`RequestBody`] says: its texts as sequences of characters.
#[verifier::ext_equal]
pub enum RequestBodyModel {
    Empty,
    Form(Seq<(Seq<char>, Seq<char>)>),
    Json(Seq<(Seq<char>, PayloadValueModel)>),
}

impl DeepView for RequestBody {
    type V = RequestBodyModel;

    open spec fn deep_view(&self) -> RequestBodyModel {
        match self {
            RequestBody::Empty => RequestBodyModel::Empty,
            RequestBody::Form(a) => RequestBodyModel::Form(a.deep_view()),
            RequestBody::Json(a) => RequestBodyModel::Json(a.deep_view()),
        }
    }
}

impl Clone for RequestBody {
    fn clone(&self) -> (copy: Self)
        ensures
            copy.deep_view() == self.deep_view(),
    {
        match self {
            RequestBody::Empty => RequestBody::Empty,
            RequestBody::Form(a) => {
                let copy = RequestBody::Form(copy_pairs(a));
                assert(copy.deep_view() =~= self.deep_view());
                copy
            },
            RequestBody::Json(a) => {
                let copy = RequestBody::Json(copy_members(a));
                assert(copy.deep_view() =~= self.deep_view());
                copy
            },
        }
    }
}

/// A request to Slack.
#[derive(Debug, PartialEq, Eq)]
pub struct ApiRequest {
    pub method: HttpMethod,
    pub url: String,
    /// The bearer token, if the request carries one.
    pub token: Option<String>,
    pub body: RequestBody,
}

/// What a [`ApiRequest`] says: its texts as sequences of characters.
#[verifier::ext_equal]
pub struct ApiRequestModel {
    pub method: HttpMethod,
    pub url: Seq<char>,
    pub token: Option<Seq<char>>,
    pub body: RequestBodyModel,
}

impl DeepView for ApiRequest {
    type V = ApiRequestModel;

    open spec fn deep_view(&self) -> ApiRequestModel {
        ApiRequestModel {
            method: self.method,
            url: self.url@,
            token: self.token.deep_view(),
            body: self.body.deep_view(),
        }
    }
}

impl Clone for ApiRequest {
    fn clone(&self) -> (copy: Self)
        ensures
            copy.deep_view() == self.deep_view(),
    {
        let copy = ApiRequest {
            method: self.method,
            url: self.url.clone(),
            token: self.token.clone(),
            body: self.body.clone(),
        };
        assert(copy.token.deep_view() =~= self.token.deep_view());
        copy
    }
}

/// A copy of the members of a JSON object.
fn copy_members(members: &Vec<(String, PayloadValue)>) -> (copy: Vec<(String, PayloadValue)>)
    ensures
        copy.deep_view() == members.deep_view(),
{
    let mut copy: Vec<(String, PayloadValue)> = Vec::new();
    let mut i: usize = 0;
    while i < members.len()
        invariant
            i <= members.len(),
            copy.deep_view() == members.deep_view().take(i as int),
        decreases members.len() - i,
    {
        let ghost before = copy.deep_view();
        let member = (members[i].0.clone(), members[i].1.clone());
        assert(member.deep_view() == members@[i as int].deep_view());
        copy.push(member);
        assert(copy.deep_view() =~= before.push(member.deep_view()));
        i += 1;
        assert(members.deep_view().take(i as int) =~= before.push(member.deep_view()));
    }
    assert(members.deep_view().take(i as int) =~= members.deep_view());
    copy
}

/// A name with a value.
pub open spec fn field(name: Seq<char>, value: Seq<char>) -> (Seq<char>, Seq<char>) {
    (name, value)
}

/// The fields, with one more if its value is given and not empty.
pub open spec fn with_given(
    fields: Seq<(Seq<char>, Seq<char>)>,
    name: Seq<char>,
    value: Option<Seq<char>>,
) -> Seq<(Seq<char>, Seq<char>)> {
    match value {
        Some(value) => if value.len() > 0 {
            fields.push((name, value))
        } else {
            fields
        },
        None => fields,
    }
}

/// A `bool` as it is written in a form.
pub open spec fn flag_text(flag: bool) -> Seq<char> {
    if flag {
        "true"@
    } else {
        "false"@
    }
}

/// A request with a form.
pub open spec fn form_request(
    config: SlackOAuthConfigModel,
    path: Seq<char>,
    token: Option<Seq<char>>,
    fields: Seq<(Seq<char>, Seq<char>)>,
) -> Result<ApiRequestModel, SlackErrorModel> {
    match joined_url(config.api_base.text, path) {
        Ok(address) => Ok(
            ApiRequestModel {
                method: HttpMethod::Post,
                url: address.text,
                token,
                body: RequestBodyModel::Form(fields),
            },
        ),
        Err(reason) => Err(SlackErrorModel::Url(reason)),
    }
}

/// A request with a JSON object.
pub open spec fn json_request(
    config: SlackOAuthConfigModel,
    path: Seq<char>,
    token: Seq<char>,
    members: Seq<(Seq<char>, PayloadValueModel)>,
) -> Result<ApiRequestModel, SlackErrorModel> {
    match joined_url(config.api_base.text, path) {
        Ok(address) => Ok(
            ApiRequestModel {
                method: HttpMethod::Post,
                url: address.text,
                token: Some(token),
                body: RequestBodyModel::Json(members),
            },
        ),
        Err(reason) => Err(SlackErrorModel::Url(reason)),
    }
}

/// A request whose fields stand in the query.
pub open spec fn get_request(
    config: SlackOAuthConfigModel,
    path: Seq<char>,
    token: Seq<char>,
    query: Seq<(Seq<char>, Seq<char>)>,
) -> Result<ApiRequestModel, SlackErrorModel> {
    match joined_url(config.api_base.text, path) {
        Ok(address) => match url_with_query(address.text, query) {
            Ok(url) => Ok(
                ApiRequestModel {
                    method: HttpMethod::Get,
                    url,
                    token: Some(token),
                    body: RequestBodyModel::Empty,
                },
            ),
            Err(reason) => Err(SlackErrorModel::Url(reason)),
        },
        Err(reason) => Err(SlackErrorModel::Url(reason)),
    }
}

/// A pair of texts.
fn pair(name: &str, value: &str) -> (r: (String, String))
    ensures
        r.deep_view() == (name@, value@),
{
    (owned(name), owned(value))
}

/// A member of a JSON object that is a text.
fn text_field(name: &str, value: &str) -> (r: (String, PayloadValue))
    ensures
        r.deep_view() == (name@, PayloadValueModel::Text(value@)),
{
    (owned(name), PayloadValue::Text(owned(value)))
}

/// A member of a JSON object that is a flag.
fn flag_field(name: &str, value: bool) -> (r: (String, PayloadValue))
    ensures
        r.deep_view() == (name@, PayloadValueModel::Flag(value)),
{
    (owned(name), PayloadValue::Flag(value))
}

/// A member of a JSON object that is a text.
pub open spec fn text_entry(name: Seq<char>, value: Seq<char>) -> (Seq<char>, PayloadValueModel) {
    (name, PayloadValueModel::Text(value))
}

/// A member of a JSON object that is a flag.
pub open spec fn flag_entry(name: Seq<char>, value: bool) -> (Seq<char>, PayloadValueModel) {
    (name, PayloadValueModel::Flag(value))
}

/// Adds a field if its value is given and not empty.
fn push_given(fields: &mut Vec<(String, String)>, name: &str, value: Option<&str>)
    ensures
        final(fields).deep_view() == with_given(old(fields).deep_view(), name@, value.deep_view()),
{
    let ghost before = fields.deep_view();
    if let Some(value) = value {
        if !value.is_empty() {
            fields.push(pair(name, value));
            assert(fields.deep_view() =~= before.push((name@, value@)));
        }
    }
}

/// The requests to Slack's Web API.
#[derive(Debug)]
pub struct SlackClient {
    pub config: SlackOAuthConfig,
}

impl Clone for SlackClient {
    fn clone(&self) -> (copy: Self)
        ensures
            copy.config.deep_view() == self.config.deep_view(),
    {
        SlackClient { config: self.config.clone() }
    }
}

impl SlackClient {
    /// A client for the methods that need no authorization of the app itself.
    pub fn api_only() -> (r: Result<Self, SlackError>)
        ensures
            match r {
                Ok(client) => slack_config(Seq::empty(), Seq::empty()) == Ok::<
                    SlackOAuthConfigModel,
                    SlackErrorModel,
                >(client.config.deep_view()),
                Err(error) => slack_config(Seq::empty(), Seq::empty()) == Err::<
                    SlackOAuthConfigModel,
                    SlackErrorModel,
                >(error.deep_view()),
            },
    {
        proof {
            reveal_strlit("");
            assert(""@ =~= Seq::<char>::empty());
        }
        match SlackOAuthConfig::new("", "") {
            Ok(config) => Ok(SlackClient::new(config)),
            Err(error) => Err(error),
        }
    }

    /// A client with a configuration.
    pub fn new(config: SlackOAuthConfig) -> (client: Self)
        ensures
            client.config == config,
    {
        SlackClient { config }
    }

    /// The page on which the user grants the scopes; `state` comes back with the answer.
    pub fn authorize_url(&self, user_scopes: &Vec<String>, state: &str) -> (r: Result<
        String,
        SlackError,
    >)
        ensures
            match url_with_query(
                self.config.authorize_base.text@,
                seq![
                    field("client_id"@, self.config.client_id@),
                    field("redirect_uri"@, self.config.redirect_uri.text@),
                    field("user_scope"@, join(user_scopes.deep_view(), ","@)),
                    field("state"@, state@),
                ],
            ) {
                Ok(address) => r matches Ok(text) && text@ == address,
                Err(reason) => r matches Err(error) && error.deep_view() == SlackErrorModel::Url(
                    reason,
                ),
            },
    {
        let scopes = join_texts(user_scopes, ",");
        let fields = vec![
            pair("client_id", self.config.client_id.as_str()),
            pair("redirect_uri", self.config.redirect_uri.text.as_str()),
            pair("user_scope", scopes.as_str()),
            pair("state", state),
        ];
        assert(fields.deep_view() =~= seq![
            field("client_id"@, self.config.client_id@),
            field("redirect_uri"@, self.config.redirect_uri.text@),
            field("user_scope"@, join(user_scopes.deep_view(), ","@)),
            field("state"@, state@),
        ]);
        match add_query(self.config.authorize_base.text.as_str(), &fields) {
            Ok(text) => Ok(text),
            Err(reason) => Err(SlackError::Url(reason)),
        }
    }

    /// A request with a form.
    fn form_request(&self, path: &str, token: Option<&str>, fields: Vec<(String, String)>) -> (r:
        Result<ApiRequest, SlackError>)
        ensures
            said_of(r) == form_request(
                self.config.deep_view(),
                path@,
                token.deep_view(),
                fields.deep_view(),
            ),
    {
        match join_url(self.config.api_base.text.as_str(), path) {
            Ok(address) => {
                let request = ApiRequest {
                    method: HttpMethod::Post,
                    url: address.text,
                    token: match token {
                        Some(token) => Some(owned(token)),
                        None => None,
                    },
                    body: RequestBody::Form(fields),
                };
                Ok(request)
            },
            Err(reason) => Err(SlackError::Url(reason)),
        }
    }

    /// A request with a JSON object.
    fn json_request(&self, path: &str, token: &str, members: Vec<(String, PayloadValue)>) -> (r:
        Result<ApiRequest, SlackError>)
        ensures
            said_of(r) == json_request(
                self.config.deep_view(),
                path@,
                token@,
                members.deep_view(),
            ),
    {
        match join_url(self.config.api_base.text.as_str(), path) {
            Ok(address) => {
                let request = ApiRequest {
                    method: HttpMethod::Post,
                    url: address.text,
                    token: Some(owned(token)),
                    body: RequestBody::Json(members),
                };
                Ok(request)
            },
            Err(reason) => Err(SlackError::Url(reason)),
        }
    }

    /// A request whose fields stand in the query.
    fn get_request(&self, path: &str, token: &str, query: Vec<(String, String)>) -> (r: Result<
        ApiRequest,
        SlackError,
    >)
        ensures
            said_of(r) == get_request(self.config.deep_view(), path@, token@, query.deep_view()),
    {
        match join_url(self.config.api_base.text.as_str(), path) {
            Ok(address) => match add_query(address.text.as_str(), &query) {
                Ok(url) => {
                    let request = ApiRequest {
                        method: HttpMethod::Get,
                        url,
                        token: Some(owned(token)),
                        body: RequestBody::Empty,
                    };
                    Ok(request)
                },
                Err(reason) => Err(SlackError::Url(reason)),
            },
            Err(reason) => Err(SlackError::Url(reason)),
        }
    }

    /// Exchanges the code of an authorization for tokens.
    pub fn exchange_code(
        &self,
        code: &str,
    ) -> (r: Result<ApiRequest, SlackError>)
        ensures
            said_of(r) == form_request(
                self.config.deep_view(),
                "oauth.v2.access"@,
                None,
                seq![
                    field("client_id"@, self.config.client_id@),
                    field("client_secret"@, self.config.client_secret@),
                    field("code"@, code@),
                    field("redirect_uri"@, self.config.redirect_uri.text@),
                ],
            ),
    {
        let fields = vec![
            pair("client_id", self.config.client_id.as_str()),
            pair("client_secret", self.config.client_secret.as_str()),
            pair("code", code),
            pair("redirect_uri", self.config.redirect_uri.text.as_str()),
        ];
        assert(fields.deep_view() =~= seq![
            field("client_id"@, self.config.client_id@),
            field("client_secret"@, self.config.client_secret@),
            field("code"@, code@),
            field("redirect_uri"@, self.config.redirect_uri.text@),
        ]);
        self.form_request("oauth.v2.access", None, fields)
    }

    /// Exchanges a refresh token for new tokens.
    pub fn refresh_token(
        &self,
        refresh_token: &str,
    ) -> (r: Result<ApiRequest, SlackError>)
        ensures
            said_of(r) == form_request(
                self.config.deep_view(),
                "oauth.v2.access"@,
                None,
                seq![
                    field("client_id"@, self.config.client_id@),
                    field("client_secret"@, self.config.client_secret@),
                    field("grant_type"@, "refresh_token"@),
                    field("refresh_token"@, refresh_token@),
                ],
            ),
    {
        let fields = vec![
            pair("client_id", self.config.client_id.as_str()),
            pair("client_secret", self.config.client_secret.as_str()),
            pair("grant_type", "refresh_token"),
            pair("refresh_token", refresh_token),
        ];
        assert(fields.deep_view() =~= seq![
            field("client_id"@, self.config.client_id@),
            field("client_secret"@, self.config.client_secret@),
            field("grant_type"@, "refresh_token"@),
            field("refresh_token"@, refresh_token@),
        ]);
        self.form_request("oauth.v2.access", None, fields)
    }

    /// Asks where to connect the socket to.
    pub fn open_socket_connection(
        &self,
        app_token: &str,
    ) -> (r: Result<ApiRequest, SlackError>)
        ensures
            said_of(r) == form_request(
                self.config.deep_view(),
                "apps.connections.open"@,
                Some(app_token@),
                Seq::<(Seq<char>, Seq<char>)>::empty(),
            ),
    {
        let fields: Vec<(String, String)> = Vec::new();
        assert(fields.deep_view() =~= Seq::<(Seq<char>, Seq<char>)>::empty());
        self.form_request("apps.connections.open", Some(app_token), fields)
    }

    /// Lists the channels, page by page.
    pub fn list_conversations(
        &self,
        user_token: &str,
        cursor: Option<&str>,
        limit: usize,
    ) -> (r: Result<ApiRequest, SlackError>)
        ensures
            said_of(r) == get_request(
                self.config.deep_view(),
                "conversations.list"@,
                user_token@,
                with_given(
                    seq![
                    field("types"@, "public_channel,private_channel"@),
                    field("exclude_archived"@, "true"@),
                    field("limit"@, decimal(limit as nat)),
                ],
                    "cursor"@,
                    cursor.deep_view(),
                ),
            ),
    {
        let mut fields = vec![
            pair("types", "public_channel,private_channel"),
            pair("exclude_archived", "true"),
            pair("limit", to_decimal(limit as u64).as_str()),
        ];
        assert(fields.deep_view() =~= seq![
            field("types"@, "public_channel,private_channel"@),
            field("exclude_archived"@, "true"@),
            field("limit"@, decimal(limit as nat)),
        ]);
        push_given(&mut fields, "cursor", cursor);
        self.get_request("conversations.list", user_token, fields)
    }

    /// Lists the messages of a channel from a point in time on.
    pub fn conversations_history(
        &self,
        user_token: &str,
        channel: &str,
        oldest: Option<&str>,
        limit: usize,
    ) -> (r: Result<ApiRequest, SlackError>)
        ensures
            said_of(r) == get_request(
                self.config.deep_view(),
                "conversations.history"@,
                user_token@,
                with_given(
                    seq![
                    field("channel"@, channel@),
                    field("inclusive"@, "true"@),
                    field("limit"@, decimal(limit as nat)),
                ],
                    "oldest"@,
                    oldest.deep_view(),
                ),
            ),
    {
        let mut fields = vec![
            pair("channel", channel),
            pair("inclusive", "true"),
            pair("limit", to_decimal(limit as u64).as_str()),
        ];
        assert(fields.deep_view() =~= seq![
            field("channel"@, channel@),
            field("inclusive"@, "true"@),
            field("limit"@, decimal(limit as nat)),
        ]);
        push_given(&mut fields, "oldest", oldest);
        self.get_request("conversations.history", user_token, fields)
    }

    /// Lists the users, page by page.
    pub fn users_list(
        &self,
        user_token: &str,
        cursor: Option<&str>,
        limit: usize,
    ) -> (r: Result<ApiRequest, SlackError>)
        ensures
            said_of(r) == get_request(
                self.config.deep_view(),
                "users.list"@,
                user_token@,
                with_given(
                    seq![
                    field("limit"@, decimal(limit as nat)),
                ],
                    "cursor"@,
                    cursor.deep_view(),
                ),
            ),
    {
        let mut fields = vec![
            pair("limit", to_decimal(limit as u64).as_str()),
        ];
        assert(fields.deep_view() =~= seq![
            field("limit"@, decimal(limit as nat)),
        ]);
        push_given(&mut fields, "cursor", cursor);
        self.get_request("users.list", user_token, fields)
    }

    /// Posts a reply in a thread.
    pub fn post_thread_reply(
        &self,
        user_token: &str,
        channel: &str,
        thread_ts: &str,
        text: &str,
    ) -> (r: Result<ApiRequest, SlackError>)
        ensures
            said_of(r) == json_request(
                self.config.deep_view(),
                "chat.postMessage"@,
                user_token@,
                seq![
                    text_entry("channel"@, channel@),
                    text_entry("thread_ts"@, thread_ts@),
                    text_entry("text"@, text@),
                    flag_entry("unfurl_links"@, false),
                    flag_entry("unfurl_media"@, false),
                ],
            ),
    {
        let members = vec![
            text_field("channel", channel),
            text_field("thread_ts", thread_ts),
            text_field("text", text),
            flag_field("unfurl_links", false),
            flag_field("unfurl_media", false),
        ];
        assert(members.deep_view() =~= seq![
            text_entry("channel"@, channel@),
            text_entry("thread_ts"@, thread_ts@),
            text_entry("text"@, text@),
            flag_entry("unfurl_links"@, false),
            flag_entry("unfurl_media"@, false),
        ]);
        self.json_request("chat.postMessage", user_token, members)
    }

    /// Posts a message in a channel.
    pub fn post_message(
        &self,
        user_token: &str,
        channel: &str,
        text: &str,
    ) -> (r: Result<ApiRequest, SlackError>)
        ensures
            said_of(r) == json_request(
                self.config.deep_view(),
                "chat.postMessage"@,
                user_token@,
                seq![
                    text_entry("channel"@, channel@),
                    text_entry("text"@, text@),
                    flag_entry("unfurl_links"@, false),
                    flag_entry("unfurl_media"@, false),
                ],
            ),
    {
        let members = vec![
            text_field("channel", channel),
            text_field("text", text),
            flag_field("unfurl_links", false),
            flag_field("unfurl_media", false),
        ];
        assert(members.deep_view() =~= seq![
            text_entry("channel"@, channel@),
            text_entry("text"@, text@),
            flag_entry("unfurl_links"@, false),
            flag_entry("unfurl_media"@, false),
        ]);
        self.json_request("chat.postMessage", user_token, members)
    }

    /// Changes the text of a message.
    pub fn update_message(
        &self,
        user_token: &str,
        channel: &str,
        ts: &str,
        text: &str,
    ) -> (r: Result<ApiRequest, SlackError>)
        ensures
            said_of(r) == json_request(
                self.config.deep_view(),
                "chat.update"@,
                user_token@,
                seq![
                    text_entry("channel"@, channel@),
                    text_entry("ts"@, ts@),
                    text_entry("text"@, text@),
                    flag_entry("unfurl_links"@, false),
                    flag_entry("unfurl_media"@, false),
                ],
            ),
    {
        let members = vec![
            text_field("channel", channel),
            text_field("ts", ts),
            text_field("text", text),
            flag_field("unfurl_links", false),
            flag_field("unfurl_media", false),
        ];
        assert(members.deep_view() =~= seq![
            text_entry("channel"@, channel@),
            text_entry("ts"@, ts@),
            text_entry("text"@, text@),
            flag_entry("unfurl_links"@, false),
            flag_entry("unfurl_media"@, false),
        ]);
        self.json_request("chat.update", user_token, members)
    }

    /// Deletes a message.
    pub fn delete_message(
        &self,
        user_token: &str,
        channel: &str,
        ts: &str,
    ) -> (r: Result<ApiRequest, SlackError>)
        ensures
            said_of(r) == json_request(
                self.config.deep_view(),
                "chat.delete"@,
                user_token@,
                seq![
                    text_entry("channel"@, channel@),
                    text_entry("ts"@, ts@),
                ],
            ),
    {
        let members = vec![
            text_field("channel", channel),
            text_field("ts", ts),
        ];
        assert(members.deep_view() =~= seq![
            text_entry("channel"@, channel@),
            text_entry("ts"@, ts@),
        ]);
        self.json_request("chat.delete", user_token, members)
    }

    /// Asks for the address of a message.
    pub fn get_permalink(
        &self,
        user_token: &str,
        channel: &str,
        message_ts: &str,
    ) -> (r: Result<ApiRequest, SlackError>)
        ensures
            said_of(r) == get_request(
                self.config.deep_view(),
                "chat.getPermalink"@,
                user_token@,
                seq![
                    field("channel"@, channel@),
                    field("message_ts"@, message_ts@),
                ],
            ),
    {
        let fields = vec![
            pair("channel", channel),
            pair("message_ts", message_ts),
        ];
        assert(fields.deep_view() =~= seq![
            field("channel"@, channel@),
            field("message_ts"@, message_ts@),
        ]);
        self.get_request("chat.getPermalink", user_token, fields)
    }

    /// Creates a channel.
    pub fn create_conversation(
        &self,
        user_token: &str,
        name: &str,
        is_private: bool,
    ) -> (r: Result<ApiRequest, SlackError>)
        ensures
            said_of(r) == form_request(
                self.config.deep_view(),
                "conversations.create"@,
                Some(user_token@),
                seq![
                    field("name"@, name@),
                    field("is_private"@, flag_text(is_private)),
                ],
            ),
    {
        let fields = vec![
            pair("name", name),
            pair("is_private", if is_private { "true" } else { "false" }),
        ];
        assert(fields.deep_view() =~= seq![
            field("name"@, name@),
            field("is_private"@, flag_text(is_private)),
        ]);
        self.form_request("conversations.create", Some(user_token), fields)
    }

    /// Renames a channel.
    pub fn rename_conversation(
        &self,
        user_token: &str,
        channel: &str,
        name: &str,
    ) -> (r: Result<ApiRequest, SlackError>)
        ensures
            said_of(r) == form_request(
                self.config.deep_view(),
                "conversations.rename"@,
                Some(user_token@),
                seq![
                    field("channel"@, channel@),
                    field("name"@, name@),
                ],
            ),
    {
        let fields = vec![
            pair("channel", channel),
            pair("name", name),
        ];
        assert(fields.deep_view() =~= seq![
            field("channel"@, channel@),
            field("name"@, name@),
        ]);
        self.form_request("conversations.rename", Some(user_token), fields)
    }

    /// Archives a channel.
    pub fn archive_conversation(
        &self,
        user_token: &str,
        channel: &str,
    ) -> (r: Result<ApiRequest, SlackError>)
        ensures
            said_of(r) == form_request(
                self.config.deep_view(),
                "conversations.archive"@,
                Some(user_token@),
                seq![
                    field("channel"@, channel@),
                ],
            ),
    {
        let fields = vec![
            pair("channel", channel),
        ];
        assert(fields.deep_view() =~= seq![
            field("channel"@, channel@),
        ]);
        self.form_request("conversations.archive", Some(user_token), fields)
    }

    /// Invites a user to a channel.
    pub fn invite_to_conversation(
        &self,
        user_token: &str,
        channel: &str,
        user_id: &str,
    ) -> (r: Result<ApiRequest, SlackError>)
        ensures
            said_of(r) == form_request(
                self.config.deep_view(),
                "conversations.invite"@,
                Some(user_token@),
                seq![
                    field("channel"@, channel@),
                    field("users"@, user_id@),
                ],
            ),
    {
        let fields = vec![
            pair("channel", channel),
            pair("users", user_id),
        ];
        assert(fields.deep_view() =~= seq![
            field("channel"@, channel@),
            field("users"@, user_id@),
        ]);
        self.form_request("conversations.invite", Some(user_token), fields)
    }

    /// Removes a user from a channel.
    pub fn kick_from_conversation(
        &self,
        user_token: &str,
        channel: &str,
        user_id: &str,
    ) -> (r: Result<ApiRequest, SlackError>)
        ensures
            said_of(r) == form_request(
                self.config.deep_view(),
                "conversations.kick"@,
                Some(user_token@),
                seq![
                    field("channel"@, channel@),
                    field("user"@, user_id@),
                ],
            ),
    {
        let fields = vec![
            pair("channel", channel),
            pair("user", user_id),
        ];
        assert(fields.deep_view() =~= seq![
            field("channel"@, channel@),
            field("user"@, user_id@),
        ]);
        self.form_request("conversations.kick", Some(user_token), fields)
    }

    /// Adds a reaction to a message.
    pub fn add_reaction(
        &self,
        user_token: &str,
        channel: &str,
        timestamp: &str,
        name: &str,
    ) -> (r: Result<ApiRequest, SlackError>)
        ensures
            said_of(r) == form_request(
                self.config.deep_view(),
                "reactions.add"@,
                Some(user_token@),
                seq![
                    field("channel"@, channel@),
                    field("timestamp"@, timestamp@),
                    field("name"@, name@),
                ],
            ),
    {
        let fields = vec![
            pair("channel", channel),
            pair("timestamp", timestamp),
            pair("name", name),
        ];
        assert(fields.deep_view() =~= seq![
            field("channel"@, channel@),
            field("timestamp"@, timestamp@),
            field("name"@, name@),
        ]);
        self.form_request("reactions.add", Some(user_token), fields)
    }

    /// Asks where to upload a file to.
    pub fn get_upload_url_external(
        &self,
        user_token: &str,
        filename: &str,
        length: u64,
        alt_text: Option<&str>,
    ) -> (r: Result<ApiRequest, SlackError>)
        ensures
            said_of(r) == form_request(
                self.config.deep_view(),
                "files.getUploadURLExternal"@,
                Some(user_token@),
                match alt_text {
                    Some(value) => seq![
                    field("filename"@, filename@),
                    field("length"@, decimal(length as nat)),
                ].push(field("alt_text"@, value@)),
                    None => seq![
                    field("filename"@, filename@),
                    field("length"@, decimal(length as nat)),
                ],
                },
            ),
    {
        let mut fields = vec![
            pair("filename", filename),
            pair("length", to_decimal(length).as_str()),
        ];
        assert(fields.deep_view() =~= seq![
            field("filename"@, filename@),
            field("length"@, decimal(length as nat)),
        ]);
        let ghost before = fields.deep_view();
        if let Some(value) = alt_text {
            fields.push(pair("alt_text", value));
            assert(fields.deep_view() =~= before.push(field("alt_text"@, value@)));
        }
        self.form_request("files.getUploadURLExternal", Some(user_token), fields)
    }

    /// Shares an uploaded file in a channel or a thread.
    pub fn complete_upload_external(
        &self,
        user_token: &str,
        file_id: &str,
        channel_id: &str,
        thread_ts: Option<&str>,
        initial_comment: Option<&str>,
    ) -> (r: Result<ApiRequest, SlackError>)
        ensures
            said_of(r) == json_request(
                self.config.deep_view(),
                "files.completeUploadExternal"@,
                user_token@,
                with_optional(
                    with_optional(
                        seq![
                            (
                                "files"@,
                                PayloadValueModel::Files(
                                    seq![UploadedFileModel { id: file_id@, title: file_id@ }],
                                ),
                            ),
                            text_entry("channel_id"@, channel_id@),
                        ],
                        "thread_ts"@,
                        thread_ts.deep_view(),
                    ),
                    "initial_comment"@,
                    initial_comment.deep_view(),
                ),
            ),
    {
        let files = vec![UploadedFile { id: owned(file_id), title: owned(file_id) }];
        assert(files.deep_view() =~= seq![UploadedFileModel { id: file_id@, title: file_id@ }]);
        let mut members = vec![
            (owned("files"), PayloadValue::Files(files)),
            text_field("channel_id", channel_id),
        ];
        assert(members.deep_view() =~= seq![
            (
                "files"@,
                PayloadValueModel::Files(seq![UploadedFileModel { id: file_id@, title: file_id@ }]),
            ),
            text_entry("channel_id"@, channel_id@),
        ]);
        push_optional(&mut members, "thread_ts", thread_ts);
        push_optional(&mut members, "initial_comment", initial_comment);
        self.json_request("files.completeUploadExternal", user_token, members)
    }
}

/// The members, with one more if its value is given.
pub open spec fn with_optional(
    members: Seq<(Seq<char>, PayloadValueModel)>,
    name: Seq<char>,
    value: Option<Seq<char>>,
) -> Seq<(Seq<char>, PayloadValueModel)> {
    match value {
        Some(value) => members.push(text_entry(name, value)),
        None => members,
    }
}

/// Adds a member if its value is given.
fn push_optional(members: &mut Vec<(String, PayloadValue)>, name: &str, value: Option<&str>)
    ensures
        final(members).deep_view() == with_optional(
            old(members).deep_view(),
            name@,
            value.deep_view(),
        ),
{
    let ghost before = members.deep_view();
    if let Some(value) = value {
        members.push(text_field(name, value));
        assert(members.deep_view() =~= before.push(text_entry(name@, value@)));
    }
}

/// Whether a reply has a status of success.
pub fn check_status(status: u16) -> (r: Result<(), SlackError>)
    ensures
        200 <= status < 300 ==> r is Ok,
        !(200 <= status < 300) ==> (r matches Err(error) && error.deep_view()
            == SlackErrorModel::HttpStatus(status)),
{
    if 200 <= status && status < 300 {
        Ok(())
    } else {
        Err(SlackError::HttpStatus(status))
    }
}

/// A reply of the Web API.
#[derive(Debug)]
pub struct SlackEnvelope<T> {
    pub ok: bool,
    pub error: Option<String>,
    pub data: Option<T>,
}

/// Why Slack refused a request.
pub open spec fn refusal(error: Option<Seq<char>>) -> SlackErrorModel {
    match error {
        Some(reason) => SlackErrorModel::Api(reason),
        None => SlackErrorModel::Api("unknown_slack_error"@),
    }
}

/// Why Slack refused a request.
fn refused(error: Option<String>) -> (r: SlackError)
    ensures
        r.deep_view() == refusal(error.deep_view()),
{
    match error {
        Some(reason) => SlackError::Api(reason),
        None => SlackError::Api(owned("unknown_slack_error")),
    }
}

/// What a reply holds.
pub fn decode_ok<T>(envelope: SlackEnvelope<T>) -> (r: Result<T, SlackError>)
    ensures
        match r {
            Ok(data) => envelope.ok && envelope.data == Some(data),
            Err(error) => if envelope.ok {
                &&& envelope.data is None
                &&& error.deep_view() == SlackErrorModel::MalformedResponse("missing payload"@)
            } else {
                error.deep_view() == refusal(envelope.error.deep_view())
            },
        },
{
    if envelope.ok {
        match envelope.data {
            Some(data) => Ok(data),
            None => Err(SlackError::MalformedResponse(owned("missing payload"))),
        }
    } else {
        Err(refused(envelope.error))
    }
}

/// Whether a reply that holds nothing tells of success.
pub fn decode_empty_ok<T>(envelope: SlackEnvelope<T>) -> (r: Result<(), SlackError>)
    ensures
        envelope.ok ==> r is Ok,
        !envelope.ok ==> (r matches Err(error) && error.deep_view() == refusal(
            envelope.error.deep_view(),
        )),
{
    if envelope.ok {
        Ok(())
    } else {
        Err(refused(envelope.error))
    }
}

/// A character as JSON writes it within a text: quotes, backslashes and control characters have
/// escapes.
pub open spec fn json_char(c: char) -> Seq<char> {
    if c == '"' || c == '\\' {
        seq!['\\', c]
    } else if c == '\u{8}' {
        seq!['\\', 'b']
    } else if c == '\t' {
        seq!['\\', 't']
    } else if c == '\n' {
        seq!['\\', 'n']
    } else if c == '\u{c}' {
        seq!['\\', 'f']
    } else if c == '\r' {
        seq!['\\', 'r']
    } else if (c as int) < 0x20 {
        seq!['\\', 'u', '0', '0', hex_digit(c as nat / 16), hex_digit(c as nat % 16)]
    } else {
        seq![c]
    }
}

/// A text as JSON writes it: in quotes, with escapes where it takes them.
pub open spec fn json_text(text: Seq<char>) -> Seq<char> {
    seq!['"'] + text.map_values(|c: char| json_char(c)).flatten() + seq!['"']
}

/// `serde_json::Value::to_string` on a JSON string: the text in quotes, with the escapes of
/// [`json_char`] and nothing else changed.
#[verifier::external_body]
pub(crate) fn write_json_text(text: &str) -> (r: String)
    ensures
        r@ == json_text(text@),
{
    serde_json::Value::String(text.to_string()).to_string()
}

/// Whether a JSON value is the object whose only member is `name` with a text.
pub open spec fn is_single_text(value: Json, name: Seq<char>, text: Seq<char>) -> bool {
    &&& value matches Json::Object(members)
    &&& members@.len() == 1
    &&& members@[0].0@ == name
    &&& members@[0].1.as_text() == Some(text)
}

impl SocketModeEnvelope {
    /// What tells Slack that the message came, if Slack wants to be told.
    pub fn ack_payload(&self) -> (r: Option<Json>)
        ensures
            match r {
                Some(value) => self.envelope_id matches Some(id) && is_single_text(
                    value,
                    "envelope_id"@,
                    id@,
                ),
                None => self.envelope_id is None,
            },
    {
        match &self.envelope_id {
            Some(id) => {
                let members = vec![(owned("envelope_id"), Json::string(id.as_str()))];
                Some(Json::Object(Arc::new(members)))
            },
            None => None,
        }
    }

    /// The frame that tells Slack that the message came, if Slack wants to be told.
    pub fn ack_message(&self) -> (r: Option<String>)
        ensures
            match r {
                Some(text) => self.envelope_id matches Some(id) && text@ == "{\"envelope_id\":"@
                    + json_text(id@) + "}"@,
                None => self.envelope_id is None,
            },
    {
        match &self.envelope_id {
            Some(id) => {
                let mut text = owned("{\"envelope_id\":");
                text.append(write_json_text(id.as_str()).as_str());
                text.append("}");
                Some(text)
            },
            None => None,
        }
    }
}

/// Which event a JSON value tells of.
#[derive(Debug, PartialEq, Eq)]
pub enum SocketEventKind {
    Message,
    MessageChanged,
    MessageDeleted,
    ReactionAdded,
    ReactionRemoved,
    UserTyping,
    Unsupported(String),
}

/// What a [`SocketEventKind`] says: its texts as sequences of characters.
#[verifier::ext_equal]
pub enum SocketEventKindModel {
    Message,
    MessageChanged,
    MessageDeleted,
    ReactionAdded,
    ReactionRemoved,
    UserTyping,
    Unsupported(Seq<char>),
}

impl DeepView for SocketEventKind {
    type V = SocketEventKindModel;

    open spec fn deep_view(&self) -> SocketEventKindModel {
        match self {
            SocketEventKind::Message => SocketEventKindModel::Message,
            SocketEventKind::MessageChanged => SocketEventKindModel::MessageChanged,
            SocketEventKind::MessageDeleted => SocketEventKindModel::MessageDeleted,
            SocketEventKind::ReactionAdded => SocketEventKindModel::ReactionAdded,
            SocketEventKind::ReactionRemoved => SocketEventKindModel::ReactionRemoved,
            SocketEventKind::UserTyping => SocketEventKindModel::UserTyping,
            SocketEventKind::Unsupported(a) => SocketEventKindModel::Unsupported(a@),
        }
    }
}

impl Clone for SocketEventKind {
    fn clone(&self) -> (copy: Self)
        ensures
            copy.deep_view() == self.deep_view(),
    {
        match self {
            SocketEventKind::Message => SocketEventKind::Message,
            SocketEventKind::MessageChanged => SocketEventKind::MessageChanged,
            SocketEventKind::MessageDeleted => SocketEventKind::MessageDeleted,
            SocketEventKind::ReactionAdded => SocketEventKind::ReactionAdded,
            SocketEventKind::ReactionRemoved => SocketEventKind::ReactionRemoved,
            SocketEventKind::UserTyping => SocketEventKind::UserTyping,
            SocketEventKind::Unsupported(a) => {
                let copy = SocketEventKind::Unsupported(a.clone());
                assert(copy.deep_view() =~= self.deep_view());
                copy
            },
        }
    }
}

/// Which event a value tells of by its `type` and, for messages, its `subtype`.
pub open spec fn event_kind(kind: Option<Seq<char>>, subtype: Option<Seq<char>>) -> Result<
    SocketEventKindModel,
    SlackErrorModel,
> {
    match kind {
        Some(kind) => Ok(
            if kind == "message"@ {
                if subtype == Some("message_changed"@) {
                    SocketEventKindModel::MessageChanged
                } else if subtype == Some("message_deleted"@) {
                    SocketEventKindModel::MessageDeleted
                } else {
                    SocketEventKindModel::Message
                }
            } else if kind == "reaction_added"@ {
                SocketEventKindModel::ReactionAdded
            } else if kind == "reaction_removed"@ {
                SocketEventKindModel::ReactionRemoved
            } else if kind == "user_typing"@ {
                SocketEventKindModel::UserTyping
            } else {
                SocketEventKindModel::Unsupported(kind)
            },
        ),
        None => Err(
            SlackErrorModel::MalformedResponse("socket mode event payload missing type"@),
        ),
    }
}

impl SlackSocketEvent {
    /// Which event a JSON value tells of.
    pub fn kind_of(value: &Json) -> (r: Result<SocketEventKind, SlackError>)
        ensures
            said_of(r) == event_kind(value.text_member("type"@), value.text_member("subtype"@)),
    {
        let kind = match value.get_str("type") {
            Some(kind) => kind,
            None => return Err(
                SlackError::MalformedResponse(owned("socket mode event payload missing type")),
            ),
        };
        if same_text(kind, "message") {
            match value.get_str("subtype") {
                Some(subtype) => {
                    if same_text(subtype, "message_changed") {
                        Ok(SocketEventKind::MessageChanged)
                    } else if same_text(subtype, "message_deleted") {
                        Ok(SocketEventKind::MessageDeleted)
                    } else {
                        Ok(SocketEventKind::Message)
                    }
                },
                None => Ok(SocketEventKind::Message),
            }
        } else if same_text(kind, "reaction_added") {
            Ok(SocketEventKind::ReactionAdded)
        } else if same_text(kind, "reaction_removed") {
            Ok(SocketEventKind::ReactionRemoved)
        } else if same_text(kind, "user_typing") {
            Ok(SocketEventKind::UserTyping)
        } else {
            Ok(SocketEventKind::Unsupported(owned(kind)))
        }
    }
}

/// A frame of the socket, by its kind.
#[derive(Clone, Copy, Debug, PartialEq, Eq, Structural)]
pub enum SocketFrame {
    Text,
    Ping,
    Close,
    Other,
}

impl DeepView for SocketFrame {
    type V = SocketFrame;

    open spec fn deep_view(&self) -> SocketFrame {
        *self
    }
}

/// What a frame of the socket leads to.
#[derive(Clone, Copy, Debug, PartialEq, Eq, Structural)]
pub enum FrameAction {
    /// Its text is a message of the socket.
    Deliver,
    /// It is answered with its own payload.
    Pong,
    /// The socket is closed.
    End,
    /// Nothing.
    Skip,
}

impl DeepView for FrameAction {
    type V = FrameAction;

    open spec fn deep_view(&self) -> FrameAction {
        *self
    }
}

impl SocketFrame {
    /// What the frame leads to.
    pub fn action(self) -> (r: FrameAction)
        ensures
            r == match self {
                SocketFrame::Text => FrameAction::Deliver,
                SocketFrame::Ping => FrameAction::Pong,
                SocketFrame::Close => FrameAction::End,
                SocketFrame::Other => FrameAction::Skip,
            },
    {
        match self {
            SocketFrame::Text => FrameAction::Deliver,
            SocketFrame::Ping => FrameAction::Pong,
            SocketFrame::Close => FrameAction::End,
            SocketFrame::Other => FrameAction::Skip,
        }
    }
}

} // verus!
