//! How the program starts and signs in, and which channels it loads.
use vstd::prelude::*;
use vstd::string::*;

use crate::auth::{
    accepted_code, environment_with, expiry, initial_session, last_value, pasted_url, refresh_due,
    required_scopes, scope_list, AuthErrorModel,
};
use crate::collections::{lemma_lookup_bind, lookup, order_of};
use crate::deck::{with_column, without_column, DeckColumnModel};
use crate::decisions::{all_usable, one_finds_channel};
use crate::matching::SettingsErrorModel;
use crate::models::{TimelineItem, TimelineItemModel};
use crate::settings::{AppSettingsModel, SlackConfigSettingsModel};
use crate::slack::{OAuthAccessResponseModel, SlackConversation, SlackConversationModel};
use crate::startup::{dotenv_assignments, dotenv_entry, variable_changes};
use crate::sync::{
    creators_of, has_priority, latest_items, leading_priority, names_of, ordered_for_sync,
    sync_count, syncable_channels, with_priority, without_marks, LatestFirst, PriorityFirst,
};
use crate::text::{is_space, join, lemma_find_char, text_before, trim};
use crate::time::Timestamp;
use crate::urls::WebUrlModel;

verus! {

/// Whether the last pair of a query with the name has the value.
pub open spec fn gives(query: Seq<(Seq<char>, Seq<char>)>, name: Seq<char>, value: Seq<char>) -> bool {
    exists|i: int|
        0 <= i < query.len() && #[trigger] query[i] == (name, value) && forall|k: int|
            i < k < query.len() ==> (#[trigger] query[k]).0 != name
}

/// Whether a query has a pair with the name.
pub open spec fn names(query: Seq<(Seq<char>, Seq<char>)>, name: Seq<char>) -> bool {
    exists|i: int| 0 <= i < query.len() && (#[trigger] query[i]).0 == name
}

proof fn lemma_last_value(query: Seq<(Seq<char>, Seq<char>)>, name: Seq<char>)
    ensures
        match last_value(query, name) {
            Some(value) => gives(query, name, value) && names(query, name),
            None => !names(query, name),
        },
        forall|value: Seq<char>| #[trigger]
            gives(query, name, value) ==> last_value(query, name) == Some(value),
    decreases query.len(),
{
    if query.len() > 0 {
        let last = query.len() - 1;
        let rest = query.drop_last();
        assert(query[last] == query.last());
        if query.last().0 == name {
            assert(query[last] == (name, query.last().1));
            assert forall|value: Seq<char>| #[trigger] gives(query, name, value) implies value
                == query.last().1 by {
                let i = choose|i: int|
                    0 <= i < query.len() && #[trigger] query[i] == (name, value) && forall|k: int|
                        i < k < query.len() ==> (#[trigger] query[k]).0 != name;
                if i < last {
                    assert(query[last].0 != name);
                }
            }
        } else {
            lemma_last_value(rest, name);
            if let Some(value) = last_value(rest, name) {
                let i = choose|i: int|
                    0 <= i < rest.len() && #[trigger] rest[i] == (name, value) && forall|k: int|
                        i < k < rest.len() ==> (#[trigger] rest[k]).0 != name;
                assert(query[i] == (name, value));
                assert forall|k: int| i < k < query.len() implies (#[trigger] query[k]).0
                    != name by {
                    if k < last {
                        assert(rest[k].0 != name);
                    }
                }
            } else {
                assert forall|i: int| 0 <= i < query.len() implies (#[trigger] query[i]).0
                    != name by {
                    if i < last {
                        assert(rest[i].0 != name);
                    }
                }
            }
            assert forall|value: Seq<char>| #[trigger] gives(query, name, value) implies gives(
                rest,
                name,
                value,
            ) by {
                let i = choose|i: int|
                    0 <= i < query.len() && #[trigger] query[i] == (name, value) && forall|k: int|
                        i < k < query.len() ==> (#[trigger] query[k]).0 != name;
                assert(rest[i] == (name, value));
                assert forall|k: int| i < k < rest.len() implies (#[trigger] rest[k]).0
                    != name by {
                    assert(query[k].0 != name);
                }
            }
        }
    }
}

/// The answer to a login is accepted exactly if it came to the address that was named, is not the
/// page on which Slack asks the user, tells of no error, and carries the state of this login and a
/// code. Then the code is what is taken from it.
pub proof fn law_answers_carry_the_code(
    callback: WebUrlModel,
    redirect: WebUrlModel,
    state: Seq<char>,
    code: Seq<char>,
)
    ensures
        accepted_code(callback, redirect, state) == Ok::<Seq<char>, AuthErrorModel>(code) <==> {
            &&& callback.scheme == redirect.scheme
            &&& callback.host == redirect.host
            &&& callback.port == redirect.port
            &&& callback.path == redirect.path
            &&& !crate::auth::is_authorize_page(callback)
            &&& !names(callback.query, "error"@)
            &&& gives(callback.query, "state"@, state)
            &&& gives(callback.query, "code"@, code)
        },
{
    lemma_last_value(callback.query, "error"@);
    lemma_last_value(callback.query, "state"@);
    lemma_last_value(callback.query, "code"@);
}

/// An answer that came to the right address is refused for what is wrong with it: the error that
/// Slack tells, another state, no state, no code.
pub proof fn law_answers_are_refused_with_a_reason(
    callback: WebUrlModel,
    redirect: WebUrlModel,
    state: Seq<char>,
    value: Seq<char>,
)
    requires
        callback.scheme == redirect.scheme,
        callback.host == redirect.host,
        callback.port == redirect.port,
        callback.path == redirect.path,
        !crate::auth::is_authorize_page(callback),
    ensures
        ({
            let taken = accepted_code(callback, redirect, state);
            let query = callback.query;
            &&& gives(query, "error"@, value) ==> taken == Err::<Seq<char>, _>(
                AuthErrorModel::Refused(value),
            )
            &&& !names(query, "error"@) && !names(query, "state"@) ==> taken == Err::<Seq<char>, _>(
                AuthErrorModel::MissingState,
            )
            &&& !names(query, "error"@) && gives(query, "state"@, value) && value != state
                ==> taken == Err::<Seq<char>, _>(AuthErrorModel::StateMismatch)
            &&& !names(query, "error"@) && gives(query, "state"@, state) && !names(query, "code"@)
                ==> taken == Err::<Seq<char>, _>(AuthErrorModel::MissingCode)
        }),
{
    lemma_last_value(callback.query, "error"@);
    lemma_last_value(callback.query, "state"@);
    lemma_last_value(callback.query, "code"@);
}

/// Nothing but white space is no answer, and a text that is no address is one only if it is a path
/// at the address that was named.
pub proof fn law_pasted_texts_are_addresses(raw: Seq<char>, redirect: WebUrlModel)
    ensures
        trim(raw).len() == 0 ==> pasted_url(raw, redirect) == Err::<WebUrlModel, _>(
            AuthErrorModel::NoCallback,
        ),
        trim(raw).len() > 0 ==> (crate::urls::parsed_url(trim(raw)) matches Ok(address)
            ==> pasted_url(raw, redirect) == Ok::<_, AuthErrorModel>(address)),
        trim(raw).len() > 0 && crate::urls::parsed_url(trim(raw)) is Err && trim(raw)[0] != '/'
            ==> pasted_url(raw, redirect) == Err::<WebUrlModel, _>(AuthErrorModel::CodeOnly),
        trim(raw).len() > 0 && crate::urls::parsed_url(trim(raw)) is Err && trim(raw)[0] == '/'
            ==> (crate::urls::joined_url(redirect.text, trim(raw)) matches Ok(address)
            ==> pasted_url(raw, redirect) == Ok::<_, AuthErrorModel>(address)),
{
    reveal_strlit("/");
    let pasted = trim(raw);
    if pasted.len() > 0 {
        assert(pasted.subrange(0, 1)[0] == pasted[0]);
        assert(pasted[0] == '/' ==> pasted.subrange(0, 1) =~= "/"@);
        assert(pasted.take(1) =~= pasted.subrange(0, 1));
        assert("/"@.len() == 1 && "/"@[0] == '/');
    }
}

/// A list of scopes names those between its commas.
pub proof fn law_lists_name_scopes(scopes: Seq<Seq<char>>)
    requires
        scopes.len() > 0,
        forall|i: int|
            0 <= i < scopes.len() ==> {
                let scope = #[trigger] scopes[i];
                scope.len() > 0 && !scope.contains(',') && !is_space(scope[0]) && !is_space(
                    scope[scope.len() - 1],
                )
            },
    ensures
        scope_list(join(scopes, seq![','])) == Ok::<Seq<Seq<char>>, AuthErrorModel>(scopes),
{
    assert forall|i: int| 0 <= i < scopes.len() implies !(#[trigger] scopes[i]).contains(',') by {
        let scope = scopes[i];
        assert(scope.len() > 0);
    }
    crate::wording::law_splitting_undoes_joining(scopes, ',');
    let trimmed = scopes.map_values(|part: Seq<char>| trim(part));
    assert forall|i: int| 0 <= i < scopes.len() implies #[trigger] trimmed[i] == scopes[i] by {
        crate::wording::lemma_trimmed_stays(scopes[i]);
    }
    assert(trimmed =~= scopes);
    let keep = |part: Seq<char>| part.len() > 0;
    assert forall|i: int| 0 <= i < scopes.len() implies keep(#[trigger] scopes[i]) by {}
    lemma_all_kept(scopes, keep);
}

proof fn lemma_all_kept<V>(values: Seq<V>, keep: spec_fn(V) -> bool)
    requires
        forall|i: int| 0 <= i < values.len() ==> keep(#[trigger] values[i]),
    ensures
        values.filter(keep) == values,
    decreases values.len(),
{
    reveal(Seq::filter);
    if values.len() > 0 {
        let rest = values.drop_last();
        assert forall|i: int| 0 <= i < rest.len() implies keep(#[trigger] rest[i]) by {
            assert(keep(values[i]));
        }
        lemma_all_kept(rest, keep);
        assert(keep(values[values.len() - 1]));
        assert(rest.push(values.last()) =~= values);
    } else {
        assert(values.filter(keep) =~= values);
    }
}

/// The program is configured exactly if it has an identifier, a secret, an address that Slack can
/// securely answer to, and scopes; and it asks for the scopes that it is to ask for and for all
/// that it needs.
pub proof fn law_configurations_are_complete(
    client_id: Seq<char>,
    client_secret: Seq<char>,
    redirect_raw: Seq<char>,
    redirect: WebUrlModel,
    raw: Option<Seq<char>>,
    scope: Seq<char>,
)
    ensures
        ({
            let made = environment_with(
                Some(client_id),
                Some(client_secret),
                redirect_raw,
                Ok(redirect),
                raw,
            );
            &&& made is Ok <==> redirect.scheme == "https"@ && (raw is None || scope_list(
                raw->0,
            ) is Ok)
            &&& made matches Ok(environment) ==> {
                &&& environment.client_id == client_id
                &&& environment.client_secret == client_secret
                &&& environment.redirect_uri == redirect
                &&& environment.user_scopes.contains(scope) <==> required_scopes().contains(scope)
                    || (raw is Some && scope_list(raw->0)->Ok_0.contains(scope))
            }
        }),
        environment_with(None, Some(client_secret), redirect_raw, Ok(redirect), raw) is Err,
        environment_with(Some(client_id), None, redirect_raw, Ok(redirect), raw) is Err,
        environment_with(
            Some(client_id),
            Some(client_secret),
            redirect_raw,
            Err(redirect_raw),
            raw,
        ) is Err,
{
    if raw is Some && scope_list(raw->0) is Ok {
        crate::auth::law_required_scopes_are_added(scope_list(raw->0)->Ok_0, required_scopes());
    }
}

/// The program always asks for what it needs to read and write channels, groups, files and
/// reactions, and to read the names of users.
pub proof fn law_needed_scopes(scope: Seq<char>)
    ensures
        required_scopes().contains(scope) <==> scope == "channels:history"@ || scope
            == "channels:read"@ || scope == "channels:write"@ || scope == "channels:write.invites"@
            || scope == "groups:history"@ || scope == "groups:read"@ || scope == "groups:write"@
            || scope == "groups:write.invites"@ || scope == "chat:write"@ || scope == "files:read"@
            || scope == "files:write"@ || scope == "reactions:read"@ || scope == "reactions:write"@
            || scope == "users:read"@,
{
    let all = required_scopes();
    assert(all[0] == "channels:history"@ && all[1] == "channels:read"@ && all[2]
        == "channels:write"@ && all[3] == "channels:write.invites"@ && all[4] == "groups:history"@
        && all[5] == "groups:read"@ && all[6] == "groups:write"@ && all[7]
        == "groups:write.invites"@ && all[8] == "chat:write"@ && all[9] == "files:read"@ && all[10]
        == "files:write"@ && all[11] == "reactions:read"@ && all[12] == "reactions:write"@ && all[13]
        == "users:read"@);
}

/// A token is refreshed if it can be, from five minutes before it expires on.
pub proof fn law_tokens_are_refreshed_in_time(
    expires: Timestamp,
    token: Seq<char>,
    now: Timestamp,
)
    requires
        now.nanos < 1_000_000_000,
        now.seconds + 300 <= i64::MAX,
    ensures
        refresh_due(Some(expires), Some(token), now) <==> token.len() > 0 && (expires.seconds
            < now.seconds + 300 || (expires.seconds == now.seconds + 300 && expires.nanos
            <= now.nanos)),
        !refresh_due(None, Some(token), now),
        !refresh_due(Some(expires), None, now),
{
}

/// A token that expires in so many seconds does so that much later; one that says nothing of it
/// does not expire.
pub proof fn law_tokens_expire(seconds: i64, now: Timestamp)
    requires
        now.nanos < 1_000_000_000,
        i64::MIN <= now.seconds + seconds <= i64::MAX,
    ensures
        expiry(Some(seconds), now) == Some(
            Timestamp { seconds: (now.seconds + seconds) as i64, nanos: now.nanos },
        ),
        expiry(None, now) is None,
{
}

/// A login gives a session exactly if Slack gave a token. The user's token is the one that Slack
/// names as theirs, or else the token of the answer if it is a user's; the bot's is that of the
/// answer.
pub proof fn law_sessions_take_over_tokens(response: OAuthAccessResponseModel, now: Timestamp)
    ensures
        ({
            let theirs = response.authed_user is Some && response.authed_user->0.access_token
                is Some;
            let own = response.access_token is Some && response.token_type == Some("user"@);
            &&& initial_session(response, now) is Ok <==> theirs || response.access_token is Some
            &&& initial_session(response, now) matches Ok(session) ==> {
                &&& session.bot_access_token == response.access_token
                &&& response.access_token is Some ==> session.bot_refresh_token
                    == response.refresh_token && session.bot_user_id == response.bot_user_id
                    && session.bot_expires_at == expiry(response.expires_in, now)
                &&& theirs ==> session.user_access_token == response.authed_user->0.access_token
                    && session.user_refresh_token == response.authed_user->0.refresh_token
                    && session.user_id == response.authed_user->0.id && session.user_expires_at
                    == expiry(response.authed_user->0.expires_in, now)
                &&& !theirs && own ==> session.user_access_token == response.access_token
                    && session.user_refresh_token == response.refresh_token && session.user_id
                    is None && session.user_expires_at == expiry(response.expires_in, now)
                &&& !theirs && !own ==> session.user_access_token is None
                &&& session.team_id == (if response.team is Some {
                    response.team->0.id
                } else {
                    None
                })
                &&& session.team_name == (if response.team is Some {
                    response.team->0.name
                } else {
                    None
                })
                &&& session.app_id == response.app_id
                &&& session.installed_at == now
                &&& session.updated_at == now
            }
        }),
{
}

/// A line of a `.env` file assigns the value behind the first equals sign to the name before it,
/// with no white space around them and no quotes around the value; a line that starts with a number
/// sign assigns nothing.
pub proof fn law_lines_assign_values(name: Seq<char>, value: Seq<char>)
    requires
        name.len() > 0,
        value.len() > 0,
        !name.contains('='),
        !is_space(name[0]),
        !is_space(name[name.len() - 1]),
        !is_space(value[0]),
        !is_space(value[value.len() - 1]),
    ensures
        ({
            let plain = name + seq!['='] + value;
            let quoted = name + seq!['=', '"'] + value + seq!['"'];
            let single = name + seq!['=', '\''] + value + seq!['\''];
            &&& name[0] == '#' ==> dotenv_entry(plain) is None
            &&& name[0] != '#' && value[0] != '"' && value[0] != '\'' ==> dotenv_entry(plain)
                == Some((name, value))
            &&& name[0] != '#' ==> dotenv_entry(quoted) == Some((name, value))
            &&& name[0] != '#' ==> dotenv_entry(single) == Some((name, value))
        }),
{
    let plain = name + seq!['='] + value;
    let quoted_value = seq!['"'] + value + seq!['"'];
    let quoted = name + seq!['=', '"'] + value + seq!['"'];
    assert(quoted =~= name + seq!['='] + quoted_value);
    lemma_assignment(name, value);
    lemma_assignment(name, quoted_value);
    assert(quoted_value.subrange(1, quoted_value.len() - 1) =~= value);
    let single_value = seq!['\''] + value + seq!['\''];
    assert(name + seq!['=', '\''] + value + seq!['\''] =~= name + seq!['='] + single_value);
    lemma_assignment(name, single_value);
    assert(single_value.subrange(1, single_value.len() - 1) =~= value);
}

proof fn lemma_assignment(name: Seq<char>, value: Seq<char>)
    requires
        name.len() > 0,
        value.len() > 0,
        !name.contains('='),
        !is_space(name[0]),
        !is_space(name[name.len() - 1]),
        !is_space(value[0]),
        !is_space(value[value.len() - 1]),
    ensures
        dotenv_entry(name + seq!['='] + value) == (if name[0] == '#' {
            None
        } else {
            Some((name, crate::startup::unquoted(value)))
        }),
{
    let line = name + seq!['='] + value;
    let at = name.len() as int;
    crate::wording::lemma_trimmed_stays(line);
    crate::wording::lemma_trimmed_stays(name);
    crate::wording::lemma_trimmed_stays(value);
    assert forall|k: int| 0 <= k < at implies line[k] != '=' by {
        assert(line[k] == name[k]);
        assert(name.contains(name[k]));
    }
    lemma_find_char(line, '=', 0);
    assert(line[at] == '=');
    assert(line.take(at) =~= name);
    assert(line.skip(at + 1) =~= value);
}

/// Of a `.env` file the first line that assigns a name counts, unless the name is set already.
pub proof fn law_first_assignments_count(
    lines: Seq<Seq<char>>,
    set: Seq<Seq<char>>,
    at: int,
    name: Seq<char>,
    value: Seq<char>,
)
    requires
        0 <= at < lines.len(),
        dotenv_entry(lines[at]) == Some((name, value)),
        forall|k: int|
            0 <= k < at ==> (dotenv_entry(#[trigger] lines[k]) matches Some(entry) ==> entry.0
                != name),
    ensures
        dotenv_assignments(lines, set).contains((name, value)) <==> !set.contains(name),
{
    crate::startup::law_dotenv_sets_once(lines, set);
    let found = dotenv_assignments(lines, set);
    if set.contains(name) && found.contains((name, value)) {
        let k = choose|k: int| 0 <= k < found.len() && found[k] == (name, value);
        assert(!set.contains(found[k].0));
    }
    if !set.contains(name) {
        lemma_first_assignment(lines, set, at, name, value);
    }
}

proof fn lemma_first_assignment(
    lines: Seq<Seq<char>>,
    set: Seq<Seq<char>>,
    at: int,
    name: Seq<char>,
    value: Seq<char>,
)
    requires
        0 <= at < lines.len(),
        !set.contains(name),
        dotenv_entry(lines[at]) == Some((name, value)),
        forall|k: int|
            0 <= k < at ==> (dotenv_entry(#[trigger] lines[k]) matches Some(entry) ==> entry.0
                != name),
    ensures
        dotenv_assignments(lines, set).contains((name, value)),
    decreases lines.len(),
{
    let rest = lines.drop_last();
    let before = dotenv_assignments(rest, set);
    let after = dotenv_assignments(lines, set);
    if at < rest.len() {
        lemma_first_assignment(rest, set, at, name, value);
        let k = choose|k: int| 0 <= k < before.len() && before[k] == (name, value);
        assert(after[k] == (name, value));
    } else {
        assert(lines.last() == lines[at]);
        lemma_unassigned(rest, set, name);
        assert(after[before.len() as int] == (name, value));
    }
}

proof fn lemma_unassigned(lines: Seq<Seq<char>>, set: Seq<Seq<char>>, name: Seq<char>)
    requires
        forall|k: int|
            0 <= k < lines.len() ==> (dotenv_entry(#[trigger] lines[k]) matches Some(entry)
                ==> entry.0 != name),
    ensures
        !crate::startup::assigns(dotenv_assignments(lines, set), name),
    decreases lines.len(),
{
    if lines.len() > 0 {
        let rest = lines.drop_last();
        assert forall|k: int| 0 <= k < rest.len() implies (dotenv_entry(#[trigger] rest[k])
            matches Some(entry) ==> entry.0 != name) by {
            assert(rest[k] == lines[k]);
        }
        lemma_unassigned(rest, set, name);
        let before = dotenv_assignments(rest, set);
        let after = dotenv_assignments(lines, set);
        assert(lines[lines.len() - 1] == lines.last());
        if crate::startup::assigns(after, name) {
            let k = choose|k: int| 0 <= k < after.len() && (#[trigger] after[k]).0 == name;
            if k < before.len() {
                assert(before[k].0 == name);
            }
        }
    }
}

/// What is saved, without the white space around it, becomes the value of its variable, unless the
/// variable was set from outside; one for which nothing is saved is taken away.
pub proof fn law_saved_values_become_variables(
    slack: SlackConfigSettingsModel,
    locked: Seq<Seq<char>>,
    key: Seq<char>,
    value: Option<Seq<char>>,
)
    requires
        !locked.contains(key),
        (key == "SLAXIDE_SLACK_CLIENT_ID"@ && value == slack.client_id) || (key
            == "SLAXIDE_SLACK_CLIENT_SECRET"@ && value == slack.client_secret) || (key
            == "SLAXIDE_SLACK_REDIRECT_URI"@ && value == slack.redirect_uri) || (key
            == "SLAXIDE_SLACK_USER_SCOPES"@ && value == slack.user_scopes) || (key
            == "SLAXIDE_SLACK_APP_TOKEN"@ && value == slack.app_token),
    ensures
        variable_changes(slack, locked).contains(
            (
                key,
                if value is Some && trim(value->0).len() > 0 {
                    Some(trim(value->0))
                } else {
                    None
                },
            ),
        ),
{
    let one = crate::startup::variable_change(
        "SLAXIDE_SLACK_CLIENT_ID"@,
        slack.client_id,
        locked,
    );
    let two = crate::startup::variable_change(
        "SLAXIDE_SLACK_CLIENT_SECRET"@,
        slack.client_secret,
        locked,
    );
    let three = crate::startup::variable_change(
        "SLAXIDE_SLACK_REDIRECT_URI"@,
        slack.redirect_uri,
        locked,
    );
    let four = crate::startup::variable_change(
        "SLAXIDE_SLACK_USER_SCOPES"@,
        slack.user_scopes,
        locked,
    );
    let five = crate::startup::variable_change(
        "SLAXIDE_SLACK_APP_TOKEN"@,
        slack.app_token,
        locked,
    );
    let set = (key, crate::startup::stored_value(value));
    crate::decisions::lemma_joined_contains(one, two, set);
    crate::decisions::lemma_joined_contains(one + two, three, set);
    crate::decisions::lemma_joined_contains(one + two + three, four, set);
    crate::decisions::lemma_joined_contains(one + two + three + four, five, set);
    assert(seq![set][0] == set);
    assert(seq![set].contains(set));
}

/// A channel can be loaded unless it is archived, or private without the user being a member.
pub proof fn law_channels_that_can_be_loaded(
    channels: Seq<SlackConversationModel>,
    channel: SlackConversationModel,
)
    ensures
        syncable_channels(channels).contains(channel) <==> channels.contains(channel)
            && channel.is_archived != Some(true) && (channel.is_private != Some(true)
            || channel.is_member != Some(false)),
{
    crate::readings::lemma_filtered(
        channels,
        |channel: SlackConversationModel| channel.syncable(),
        channel,
    );
}

/// A channel has priority if the search profile that is active lets it pass, or if the channel
/// profile of the office lists it, by identifier or by name.
pub proof fn law_channels_with_priority(
    settings: AppSettingsModel,
    channel: SlackConversationModel,
    at: int,
)
    requires
        0 <= at < settings.channel_profiles.len(),
        settings.office.channel_profile_id == Some(settings.channel_profiles[at].id) || (
        settings.office.channel_profile_id is None && settings.channel_profiles[at].id
            == "times_channels"@),
        forall|k: int|
            0 <= k < at ==> (#[trigger] settings.channel_profiles[k]).id
                != settings.channel_profiles[at].id,
        all_usable(settings.channel_profiles[at].channel_name_matchers),
    ensures
        has_priority(settings, channel) <==> settings.active_channel_outcome(
            channel.id,
            channel.title(),
        ) == Ok::<bool, SettingsErrorModel>(true) || settings.channel_profiles[at].channels.contains(
            channel.id,
        ) || one_finds_channel(
            settings.channel_profiles[at].channel_name_matchers,
            channel.title(),
        ),
{
    let profile = settings.channel_profiles[at];
    let has = crate::collections::has_id::<crate::settings::ChannelProfile>(profile.id);
    assert(has(profile));
    crate::collections::lemma_first_match(settings.channel_profiles, has, at);
    crate::decisions::law_matchers_find_channels(profile.channel_name_matchers, channel.title());
}

/// Channels are loaded in order: each once, those with priority first, and those of one rank by
/// identifier.
pub proof fn law_channels_are_loaded_in_order(
    settings: AppSettingsModel,
    channels: Seq<SlackConversationModel>,
    i: int,
    j: int,
)
    requires
        0 <= i < j < ordered_for_sync(settings, channels).len(),
    ensures
        ({
            let ordered = without_marks(ordered_for_sync(settings, channels));
            &&& has_priority(settings, ordered[j]) ==> has_priority(settings, ordered[i])
            &&& has_priority(settings, ordered[i]) == has_priority(settings, ordered[j])
                ==> !text_before(ordered[j].id, ordered[i].id)
        }),
        ordered_for_sync(settings, channels).to_multiset() == with_priority(
            settings,
            channels,
        ).to_multiset(),
{
    broadcast use vstd::seq_lib::group_to_multiset_ensures;

    let marked = with_priority(settings, channels);
    let pairs = ordered_for_sync(settings, channels);
    let order = order_of::<(bool, SlackConversation), PriorityFirst>();
    crate::sync::lemma_priority_order();
    crate::collections::lemma_sorted_in_order(marked, order);
    crate::collections::lemma_sorted_multiset(marked, order);
    assert(!order(pairs[j], pairs[i]));
    assert(pairs.contains(pairs[i]) && pairs.contains(pairs[j]));
    crate::readings::lemma_same_members(pairs, marked, pairs[i]);
    crate::readings::lemma_same_members(pairs, marked, pairs[j]);
    let k = choose|k: int| 0 <= k < marked.len() && marked[k] == pairs[i];
    assert(pairs[i].0 == has_priority(settings, pairs[i].1));
    let l = choose|l: int| 0 <= l < marked.len() && marked[l] == pairs[j];
    assert(pairs[j].0 == has_priority(settings, pairs[j].1));
}

/// Twenty-four channels are loaded at the start, or all of them if there are fewer; if more have
/// priority, all of those are.
pub proof fn law_how_many_channels_are_loaded(pairs: Seq<(bool, SlackConversationModel)>, n: nat)
    requires
        n <= pairs.len(),
        forall|k: int| 0 <= k < n ==> (#[trigger] pairs[k]).0,
        n < pairs.len() ==> !pairs[n as int].0,
    ensures
        sync_count(pairs) == (if n > 24 {
            n as int
        } else if pairs.len() > 24 {
            24
        } else {
            pairs.len() as int
        }),
{
    lemma_leading(pairs, n);
}

proof fn lemma_leading(pairs: Seq<(bool, SlackConversationModel)>, n: nat)
    requires
        n <= pairs.len(),
        forall|k: int| 0 <= k < n ==> (#[trigger] pairs[k]).0,
        n < pairs.len() ==> !pairs[n as int].0,
    ensures
        leading_priority(pairs) == n,
    decreases n,
{
    if n > 0 {
        assert(pairs[0].0);
        let rest = pairs.skip(1);
        assert forall|k: int| 0 <= k < n - 1 implies (#[trigger] rest[k]).0 by {
            assert(pairs[k + 1].0);
        }
        lemma_leading(rest, (n - 1) as nat);
    }
}

/// What is kept of a load are its latest messages, no more than fifteen hundred, the latest first.
pub proof fn law_the_latest_messages_are_kept(items: Seq<TimelineItemModel>, i: int, j: int)
    requires
        0 <= i < j < latest_items(items).len(),
    ensures
        !latest_items(items)[i].last_activity_at.before(latest_items(items)[j].last_activity_at),
        latest_items(items)[i].last_activity_at == latest_items(items)[j].last_activity_at
            ==> !text_before(latest_items(items)[i].message_ts, latest_items(items)[j].message_ts),
        latest_items(items).len() == (if items.len() < 1500 {
            items.len()
        } else {
            1500
        }),
        items.len() <= 1500 ==> latest_items(items).to_multiset() == items.to_multiset(),
        items.contains(latest_items(items)[i]),
{
    let order = order_of::<TimelineItem, LatestFirst>();
    let ordered = crate::collections::sorted(items, order);
    lemma_latest_order();
    crate::collections::lemma_sorted_in_order(items, order);
    crate::collections::lemma_sorted_multiset(items, order);
    assert(!order(ordered[j], ordered[i]));
    assert(ordered.contains(ordered[i]));
    crate::readings::lemma_same_members(ordered, items, ordered[i]);
}

proof fn lemma_latest_order()
    ensures
        crate::collections::is_weak_order(order_of::<TimelineItem, LatestFirst>()),
{
    let before = order_of::<TimelineItem, LatestFirst>();
    assert forall|a: TimelineItemModel, b: TimelineItemModel| #[trigger] before(a, b) implies !before(
        b,
        a,
    ) by {
        crate::text::lemma_text_before_asymmetric(b.message_ts, a.message_ts);
        crate::text::lemma_text_before_asymmetric(a.message_ts, b.message_ts);
    }
    assert forall|a: TimelineItemModel, b: TimelineItemModel, c: TimelineItemModel|
        !#[trigger] before(a, b) && !#[trigger] before(b, c) implies !before(a, c) by {
        crate::text::lemma_text_before_connected(c.message_ts, b.message_ts, a.message_ts);
    }
}

/// What is known of the channels of a load: the name of each, or its identifier if it has none, and
/// who created it; of two entries for one channel the later counts.
pub proof fn law_channels_are_known_by_name(
    channels: Seq<SlackConversationModel>,
    at: int,
)
    requires
        0 <= at < channels.len(),
        forall|k: int|
            at < k < channels.len() ==> (#[trigger] channels[k]).id != channels[at].id,
    ensures
        ({
            let channel = channels[at];
            let given = |name: Option<Seq<char>>| name is Some && name->0.len() > 0;
            &&& lookup(names_of(channels), channel.id) == (if given(channel.name) {
                channel.name
            } else if given(channel.name_normalized) {
                channel.name_normalized
            } else {
                Some(channel.id)
            })
            &&& given(channel.creator) ==> lookup(creators_of(channels), channel.id)
                == channel.creator
        }),
    decreases channels.len(),
{
    let rest = channels.drop_last();
    let last = channels.last();
    let name = match last.shown_name() {
        Some(name) => name,
        None => last.id,
    };
    lemma_lookup_bind(names_of(rest), last.id, name, channels[at].id);
    if let Some(creator) = crate::slack::given(last.creator) {
        lemma_lookup_bind(creators_of(rest), last.id, creator, channels[at].id);
    }
    if at < rest.len() {
        assert(channels[channels.len() - 1].id != channels[at].id);
        assert forall|k: int| at < k < rest.len() implies (#[trigger] rest[k]).id
            != rest[at].id by {
            assert(channels[k].id != channels[at].id);
        }
        law_channels_are_known_by_name(rest, at);
    }
}

/// A column that is closed is gone, if it was open once, and the others stay in their order.
pub proof fn law_closing_a_column(
    columns: Seq<DeckColumnModel>,
    column: DeckColumnModel,
    at: int,
)
    requires
        0 <= at < columns.len(),
        columns[at] == column,
        forall|k: int| 0 <= k < at ==> #[trigger] columns[k] != column,
    ensures
        without_column(columns, column) == columns.take(at) + columns.skip(at + 1),
    decreases columns.len(),
{
    if at > 0 {
        let rest = columns.skip(1);
        assert(columns[0] != column);
        assert forall|k: int| 0 <= k < at - 1 implies #[trigger] rest[k] != column by {
            assert(columns[k + 1] != column);
        }
        law_closing_a_column(rest, column, at - 1);
        assert(without_column(columns, column) =~= columns.take(at) + columns.skip(at + 1));
    } else {
        assert(without_column(columns, column) =~= columns.take(at) + columns.skip(at + 1));
    }
}

/// A column that is opened and closed again leaves the others as they were.
pub proof fn law_closing_undoes_opening(columns: Seq<DeckColumnModel>, column: DeckColumnModel)
    requires
        !columns.contains(column),
    ensures
        without_column(with_column(columns, column), column) == columns,
{
    let open = columns.push(column);
    assert forall|k: int| 0 <= k < columns.len() implies #[trigger] open[k] != column by {
        assert(columns.contains(columns[k]));
    }
    law_closing_a_column(open, column, columns.len() as int);
    assert(open.take(columns.len() as int) + open.skip(columns.len() as int + 1) =~= columns);
}

/// What a configuration file names is what the settings say from then on. Identifiers, keys and
/// what configures the connection lose the white space around them; a blank one stands for none.
pub proof fn law_patches_set_what_they_name(
    settings: AppSettingsModel,
    patch: crate::settings::AppSettingsPatchModel,
)
    ensures
        patch.theme_id matches Some(value) ==> settings.patched(patch).theme_id == value,
        patch.timeline matches Some(value) ==> settings.patched(patch).timeline == value,
        patch.notification_rules matches Some(value) ==> settings.patched(patch).notification_rules == value,
        patch.shortcuts matches Some(value) ==> settings.patched(patch).shortcuts == value,
        patch.workspaces matches Some(value) ==> settings.patched(patch).workspaces == value,
        patch.keyword_profiles matches Some(value) ==> settings.patched(patch).keyword_profiles == value,
        patch.section_profiles matches Some(value) ==> settings.patched(patch).section_profiles == value,
        patch.channel_profiles matches Some(value) ==> settings.patched(patch).channel_profiles == value,
        patch.author_profiles matches Some(value) ==> settings.patched(patch).author_profiles == value,
        patch.search_profiles matches Some(value) ==> settings.patched(patch).search_profiles == value,
        patch.default_channel_permission matches Some(value) ==> settings.patched(patch).default_channel_permission == value,
        patch.channel_permissions matches Some(value) ==> settings.patched(patch).channel_permissions == value,
        patch.active_workspace_key matches Some(value) ==> settings.patched(patch).active_workspace_key == (
        if trim(value).len() > 0 {
            Some(trim(value))
        } else {
            None
        }),
        patch.active_search_profile_id matches Some(value) ==> settings.patched(patch).active_search_profile_id == (
        if trim(value).len() > 0 {
            Some(trim(value))
        } else {
            None
        }),
        patch.slack matches Some(change) ==> {
            let after = settings.patched(patch).slack;
            &&& change.client_id matches Some(value) ==> after.client_id == (if trim(value).len() > 0 {
                Some(trim(value))
            } else {
                None
            })
            &&& change.client_id is None ==> after.client_id == settings.slack.client_id
            &&& change.client_secret matches Some(value) ==> after.client_secret == (if trim(value).len() > 0 {
                Some(trim(value))
            } else {
                None
            })
            &&& change.client_secret is None ==> after.client_secret == settings.slack.client_secret
            &&& change.redirect_uri matches Some(value) ==> after.redirect_uri == (if trim(value).len() > 0 {
                Some(trim(value))
            } else {
                None
            })
            &&& change.redirect_uri is None ==> after.redirect_uri == settings.slack.redirect_uri
            &&& change.user_scopes matches Some(value) ==> after.user_scopes == (if trim(value).len() > 0 {
                Some(trim(value))
            } else {
                None
            })
            &&& change.user_scopes is None ==> after.user_scopes == settings.slack.user_scopes
            &&& change.app_token matches Some(value) ==> after.app_token == (if trim(value).len() > 0 {
                Some(trim(value))
            } else {
                None
            })
            &&& change.app_token is None ==> after.app_token == settings.slack.app_token
        },
        patch.office matches Some(change) ==> {
            let after = settings.patched(patch).office.channel_profile_id;
            &&& change.channel_profile_id matches Some(value) ==> after == (if trim(value).len()
                > 0 {
                Some(trim(value))
            } else {
                None
            })
            &&& change.channel_profile_id is None ==> after
                == settings.office.channel_profile_id
        },
{
}

/// The history is loaded if Slack is connected and nothing is cached, or the names of users or of
/// channels are missing.
pub proof fn law_histories_are_loaded_when_something_is_missing(
    connected: bool,
    cached: bool,
    lacks_users: bool,
    lacks_channels: bool,
)
    ensures
        crate::sync::loading_status(connected, cached, lacks_users, lacks_channels) is Some
            <==> connected && (!cached || lacks_users || lacks_channels),
{
}

/// A refresh asks for a channel by its identifier, under its name without the number signs before
/// it, so that it is called as before.
pub proof fn law_refreshed_channels_keep_their_name(channel_id: Seq<char>, name: Seq<char>)
    requires
        name.len() > 0,
        name[0] != '#',
    ensures
        crate::sync::refreshed_channel(channel_id, seq!['#'] + name).id == channel_id,
        crate::sync::refreshed_channel(channel_id, seq!['#'] + name).title() == seq!['#'] + name,
        crate::sync::refreshed_channel(channel_id, name).title() == seq!['#'] + name,
        crate::sync::refreshed_channel(channel_id, name).syncable(),
{
    reveal_strlit("#");
    assert("#"@ =~= seq!['#']);
    crate::showing::lemma_run_before('#', 0, name);
    crate::showing::lemma_run_before('#', 1, name);
    assert(Seq::new(0, |i: int| '#') + name =~= name);
    assert(Seq::new(1, |i: int| '#') + name =~= seq!['#'] + name);
}

} // verus!
