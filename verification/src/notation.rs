//! How texts, patterns and requests are written, and what stands in what is sent and received.
use vstd::prelude::*;
use vstd::string::*;

use crate::api::{
    flag_text, form_request, get_request, json_request, refusal, with_given, with_optional,
    HttpMethod, PayloadValueModel, RequestBodyModel, SlackErrorModel, SlackOAuthConfigModel,
};
use crate::auth::StoredSlackSessionModel;
use crate::choices::{hour_id, picked_hour, picked_ids, row_matchers};
use crate::collections::{lemma_lookup_bind, lookup};
use crate::emoji::with_emoji;
use crate::history::sent_item;
use crate::live::{event_in, mismatch_in, phase_after, LiveNews, LivePhase};
use crate::models::{RankedTimelineItemModel, TimelineItemModel};
use crate::patterns::{regex_rejection, PatternMatcherModel};
use crate::queries::{has_pair, in_listed_channel, ranked_channels, with_item_channels};
use crate::segments::{
    escaped, escaped_char, plain_style, segment_markup, segments_markup, SlackTextSegmentModel,
    SlackTextStyleModel,
};
use crate::settings::AppSettingsModel;
use crate::slack::SocketModeEnvelopeModel;
use crate::state::{Names, UiStateModel};
use crate::text::trim;
use crate::time::Timestamp;

verus! {

/// Markup of two texts is that of the first and then that of the second.
pub proof fn law_escapes_follow_one_another(first: Seq<char>, second: Seq<char>)
    ensures
        escaped(first + second) == escaped(first) + escaped(second),
    decreases second.len(),
{
    let all = first + second;
    if second.len() == 0 {
        assert(all =~= first);
        assert(escaped(first) + escaped(second) =~= escaped(first));
    } else {
        law_escapes_follow_one_another(first, second.drop_last());
        assert(all.drop_last() =~= first + second.drop_last());
        assert(all.last() == second.last());
        assert(escaped(all) =~= escaped(first) + escaped(second));
    }
}

/// The five characters that mean something in markup are written by name; a printable character
/// that means nothing there is written as it is.
pub proof fn law_special_characters_have_names(c: char)
    ensures
        escaped(seq!['&']) == "&amp;"@,
        escaped(seq!['<']) == "&lt;"@,
        escaped(seq!['>']) == "&gt;"@,
        escaped(seq!['\'']) == "&apos;"@,
        escaped(seq!['"']) == "&quot;"@,
        c != '&' && c != '<' && c != '>' && c != '\'' && c != '"' && (' ' <= c <= '~' || c
            >= '\u{a0}' || c == '\n' || c == '\t') ==> escaped(seq![c]) == seq![c],
{
    lemma_one_escaped('&');
    lemma_one_escaped('<');
    lemma_one_escaped('>');
    lemma_one_escaped('\'');
    lemma_one_escaped('"');
    lemma_one_escaped(c);
}

proof fn lemma_one_escaped(c: char)
    ensures
        escaped(seq![c]) == escaped_char(c),
{
    let one = seq![c];
    assert(one.drop_last() =~= Seq::<char>::empty());
    assert(escaped(one.drop_last()) =~= Seq::<char>::empty());
    assert(escaped(one) =~= escaped_char(c));
}

/// A segment is its text between the tags of its style, whatever else its style has: struck out
/// outside of underlined, that outside of italic, that outside of bold, that outside of code, and a
/// link around all of it.
pub proof fn law_styles_are_tags(text: Seq<char>, style: SlackTextStyleModel)
    requires
        escaped(with_emoji(text)).len() > 0,
    ensures
        segment_markup(SlackTextSegmentModel { text, style: plain_style() }) == escaped(
            with_emoji(text),
        ),
        ({
            let base = SlackTextStyleModel { strike: false, link: None, ..style };
            segment_markup(
                SlackTextSegmentModel { text, style: SlackTextStyleModel { strike: true, ..base } },
            ) == "<s>"@ + segment_markup(SlackTextSegmentModel { text, style: base }) + "</s>"@
        }),
        ({
            let base = SlackTextStyleModel {
                underline: false,
                strike: false,
                link: None,
                ..style
            };
            segment_markup(
                SlackTextSegmentModel { text, style: SlackTextStyleModel { underline: true, ..base } },
            ) == "<u>"@ + segment_markup(SlackTextSegmentModel { text, style: base }) + "</u>"@
        }),
        ({
            let base = SlackTextStyleModel { italic: true, ..plain_style() };
            segment_markup(
                SlackTextSegmentModel {
                    text,
                    style: SlackTextStyleModel { bold: style.bold, code: style.code, ..base },
                },
            ) == "<i>"@ + segment_markup(
                SlackTextSegmentModel {
                    text,
                    style: SlackTextStyleModel {
                        bold: style.bold,
                        code: style.code,
                        ..plain_style()
                    },
                },
            ) + "</i>"@
        }),
        segment_markup(
            SlackTextSegmentModel {
                text,
                style: SlackTextStyleModel { bold: true, code: style.code, ..plain_style() },
            },
        ) == "<b>"@ + segment_markup(
            SlackTextSegmentModel {
                text,
                style: SlackTextStyleModel { code: style.code, ..plain_style() },
            },
        ) + "</b>"@,
        segment_markup(
            SlackTextSegmentModel {
                text,
                style: SlackTextStyleModel { code: true, ..plain_style() },
            },
        ) == "<tt>"@ + escaped(with_emoji(text)) + "</tt>"@,
        style.link matches Some(url) ==> segment_markup(SlackTextSegmentModel { text, style })
            == "<a href=\""@ + escaped(url) + "\">"@ + segment_markup(
            SlackTextSegmentModel { text, style: SlackTextStyleModel { link: None, ..style } },
        ) + "</a>"@,
{
}

/// The markup of segments is that of each, one after the other.
pub proof fn law_markup_follows_the_segments(
    first: Seq<SlackTextSegmentModel>,
    second: Seq<SlackTextSegmentModel>,
)
    ensures
        segments_markup(first + second) == segments_markup(first) + segments_markup(second),
    decreases second.len(),
{
    let all = first + second;
    if second.len() == 0 {
        assert(all =~= first);
        assert(segments_markup(first) + segments_markup(second) =~= segments_markup(first));
    } else {
        law_markup_follows_the_segments(first, second.drop_last());
        assert(all.drop_last() =~= first + second.drop_last());
        assert(all.last() == second.last());
        assert(segments_markup(all) =~= segments_markup(first) + segments_markup(second));
    }
}

/// The patterns of a form are those of its rows that are not blank, in their order, if every
/// regular expression among them can be used.
pub proof fn law_rows_become_patterns(rows: Seq<(bool, Seq<char>)>)
    requires
        forall|i: int|
            0 <= i < rows.len() && (#[trigger] rows[i]).0 ==> regex_rejection(trim(rows[i].1))
                is None,
    ensures
        row_matchers(rows) == Ok::<Seq<PatternMatcherModel>, Seq<char>>(
            rows.filter(|row: (bool, Seq<char>)| trim(row.1).len() > 0).map_values(
                |row: (bool, Seq<char>)|
                    if row.0 {
                        PatternMatcherModel::Regex(trim(row.1))
                    } else {
                        PatternMatcherModel::Text(trim(row.1))
                    },
            ),
        ),
    decreases rows.len(),
{
    reveal(Seq::filter);
    let keep = |row: (bool, Seq<char>)| trim(row.1).len() > 0;
    let read = |row: (bool, Seq<char>)|
        if row.0 {
            PatternMatcherModel::Regex(trim(row.1))
        } else {
            PatternMatcherModel::Text(trim(row.1))
        };
    if rows.len() > 0 {
        let less = rows.drop_last();
        let last = rows.last();
        assert forall|i: int| 0 <= i < less.len() && (#[trigger] less[i]).0 implies regex_rejection(
            trim(less[i].1),
        ) is None by {
            assert(rows[i] == less[i]);
        }
        law_rows_become_patterns(less);
        assert(rows[rows.len() - 1] == last);
        if keep(last) {
            assert(less.filter(keep).push(last).map_values(read) =~= less.filter(keep).map_values(
                read,
            ).push(read(last)));
        }
    } else {
        assert(rows.filter(keep).map_values(read) =~= Seq::<PatternMatcherModel>::empty());
    }
}

/// A regular expression that cannot be used is not taken.
pub proof fn law_wrong_patterns_are_refused(rows: Seq<(bool, Seq<char>)>, at: int)
    requires
        0 <= at < rows.len(),
        rows[at].0,
        trim(rows[at].1).len() > 0,
        regex_rejection(trim(rows[at].1)) is Some,
    ensures
        row_matchers(rows) is Err,
    decreases rows.len(),
{
    if at < rows.len() - 1 {
        law_wrong_patterns_are_refused(rows.drop_last(), at);
    } else {
        assert(rows.last() == rows[at]);
    }
}

/// What is picked are the options that are switched on, in their order.
pub proof fn law_picked_options_are_those_switched_on(options: Seq<(Seq<char>, bool)>)
    ensures
        picked_ids(options) == options.filter(|option: (Seq<char>, bool)| option.1).map_values(
            |option: (Seq<char>, bool)| option.0,
        ),
    decreases options.len(),
{
    reveal(Seq::filter);
    let on = |option: (Seq<char>, bool)| option.1;
    let id = |option: (Seq<char>, bool)| option.0;
    if options.len() > 0 {
        let less = options.drop_last();
        law_picked_options_are_those_switched_on(less);
        if on(options.last()) {
            assert(less.filter(on).push(options.last()).map_values(id) =~= less.filter(
                on,
            ).map_values(id).push(options.last().0));
        }
    } else {
        assert(picked_ids(options) =~= options.filter(on).map_values(id));
    }
}

/// A message that the user sends is cached as theirs: with the text that they wrote, read, taken
/// part in, and active now.
pub proof fn law_sent_messages_are_the_users(
    session: StoredSlackSessionModel,
    workspace_id: Seq<char>,
    channel_id: Seq<char>,
    channel_name: Seq<char>,
    message_ts: Seq<char>,
    thread_ts: Seq<char>,
    body: Seq<char>,
    settings: AppSettingsModel,
    watch_weight: u8,
    avatar: Option<Seq<char>>,
    now: Timestamp,
)
    ensures
        ({
            let item = sent_item(
                session,
                workspace_id,
                channel_id,
                channel_name,
                message_ts,
                thread_ts,
                body,
                settings,
                watch_weight,
                avatar,
                now,
            );
            &&& item.workspace_id == workspace_id
            &&& item.channel_id == channel_id
            &&& item.channel_name == channel_name
            &&& item.message_ts == message_ts
            &&& item.thread_ts == thread_ts
            &&& item.body == body
            &&& session.user_id matches Some(user) ==> item.author_id == user
            &&& session.user_id is None ==> (session.bot_user_id matches Some(bot)
                ==> item.author_id == bot)
            &&& item.author_name == "you"@
            &&& item.author_avatar_path == avatar
            &&& item.participant
            &&& !item.unread
            &&& !item.direct_mention
            &&& item.last_activity_at == now
            &&& item.watch_weight == watch_weight
        }),
{
}

/// The events of a message of the socket are those of the events API that are callbacks, and no
/// other message brings one.
pub proof fn law_callbacks_bring_events(envelope: SocketModeEnvelopeModel)
    ensures
        event_in(envelope) is Some <==> envelope.kind == "events_api"@ && envelope.payload is Some
            && envelope.payload->0.kind == "event_callback"@,
        event_in(envelope) matches Some(event) ==> envelope.payload->0.event == event,
{
}

/// A greeting is reported exactly if it is of another app than the one that the user signed in
/// with.
pub proof fn law_greetings_of_other_apps_are_reported(
    envelope: SocketModeEnvelopeModel,
    expected: Seq<char>,
)
    requires
        envelope.kind == "hello"@,
    ensures
        mismatch_in(envelope, Some(expected)) is Some <==> envelope.connection_info is Some
            && envelope.connection_info->0.app_id is Some && envelope.connection_info->0.app_id
            != Some(expected),
        mismatch_in(envelope, None) is None,
{
    reveal_strlit("hello");
    reveal_strlit("events_api");
    assert("hello"@.len() == 5);
    assert("events_api"@.len() == 10);
}

/// Live sync receives once it is connected and goes on after each message; after a failure or a
/// close it waits, and then connects again.
pub proof fn law_live_sync_connects_again(news: LiveNews)
    ensures
        news is Connected || news is Received ==> phase_after(news) == LivePhase::Receive,
        news is Waited ==> phase_after(news) == LivePhase::Connect,
        news is ConnectFailed || news is AckFailed || news is Closed || news is ReceiveFailed
            ==> phase_after(news) == LivePhase::Wait,
{
}

/// The channels of ranked items are those that an item is in, each with the name that its last item
/// tells.
proof fn lemma_ranked_channels(ranked: Seq<RankedTimelineItemModel>, id: Seq<char>)
    ensures
        lookup(ranked_channels(ranked), id) is Some <==> exists|i: int|
            0 <= i < ranked.len() && (#[trigger] ranked[i]).item.channel_id == id,
    decreases ranked.len(),
{
    if ranked.len() > 0 {
        let less = ranked.drop_last();
        let last = ranked.last();
        lemma_ranked_channels(less, id);
        lemma_lookup_bind(ranked_channels(less), last.item.channel_id, last.item.channel_name, id);
        assert(ranked[ranked.len() - 1] == last);
        assert(forall|i: int| 0 <= i < less.len() ==> #[trigger] ranked[i] == less[i]);
        assert(forall|i: int| 0 <= i < less.len() ==> ranked[i] == #[trigger] less[i]);
    }
}

proof fn lemma_item_channels(channels: Names, items: Seq<TimelineItemModel>, id: Seq<char>)
    ensures
        has_pair(with_item_channels(channels, items), id) <==> has_pair(channels, id) || exists|
            i: int,
        |
            0 <= i < items.len() && (#[trigger] items[i]).channel_id == id,
    decreases items.len(),
{
    if items.len() > 0 {
        let less = items.drop_last();
        let last = items.last();
        let known = with_item_channels(channels, less);
        lemma_item_channels(channels, less, id);
        let all = known.push((last.channel_id, last.channel_name));
        assert(has_pair(all, id) <==> has_pair(known, id) || id == last.channel_id) by {
            assert(all[known.len() as int] == (last.channel_id, last.channel_name));
            if has_pair(known, id) {
                let k = choose|k: int| 0 <= k < known.len() && (#[trigger] known[k]).0 == id;
                assert(all[k].0 == id);
            }
            if has_pair(all, id) && id != last.channel_id {
                let k = choose|k: int| 0 <= k < all.len() && (#[trigger] all[k]).0 == id;
                assert(known[k].0 == id);
            }
        }
        assert(items[items.len() - 1] == last);
        assert(forall|i: int| 0 <= i < less.len() ==> #[trigger] items[i] == less[i]);
        assert(forall|i: int| 0 <= i < less.len() ==> items[i] == #[trigger] less[i]);
    }
}

/// A refresh asks for the channels of the messages that are loaded and shown and for those of the
/// office that have messages and may be read, as far as there are no more than the limit.
pub proof fn law_refreshes_ask_for_what_is_shown(
    state: UiStateModel,
    profile: crate::settings::ChannelProfileModel,
    limit: int,
    id: Seq<char>,
)
    requires
        state.office_profile() == Some(profile),
        state.refresh_channels(limit).len() < limit,
        state.loaded().len() > 0,
    ensures
        has_pair(state.refresh_channels(limit), id) <==> (exists|i: int|
            0 <= i < state.loaded().len() && (#[trigger] state.loaded()[i]).item.channel_id == id)
            || (exists|i: int|
            0 <= i < state.source_items.len() && (#[trigger] state.source_items[i]).channel_id
                == id && in_listed_channel(state.settings, profile)(state.source_items[i])),
{
    let shown = ranked_channels(state.loaded());
    let test = in_listed_channel(state.settings, profile);
    let listed = state.source_items.filter(test);
    let first = state.loaded()[0].item.channel_id;
    lemma_ranked_channels(state.loaded(), id);
    lemma_ranked_channels(state.loaded(), first);
    lemma_item_channels(shown, listed, id);
    lemma_item_channels(shown, listed, first);
    lemma_pairs(shown, id);
    lemma_pairs(shown, first);
    let wanted = with_item_channels(shown, listed);
    assert(has_pair(wanted, first));
    assert(wanted.len() > 0);
    if wanted.len() > limit {
        assert(state.refresh_channels(limit).len() == limit);
    }
    assert((exists|i: int| 0 <= i < listed.len() && (#[trigger] listed[i]).channel_id == id)
        <==> exists|i: int|
        0 <= i < state.source_items.len() && (#[trigger] state.source_items[i]).channel_id == id
            && test(state.source_items[i])) by {
        if exists|i: int| 0 <= i < listed.len() && (#[trigger] listed[i]).channel_id == id {
            let i = choose|i: int| 0 <= i < listed.len() && (#[trigger] listed[i]).channel_id == id;
            assert(listed.contains(listed[i]));
            crate::readings::lemma_filtered(state.source_items, test, listed[i]);
            let k = choose|k: int|
                0 <= k < state.source_items.len() && state.source_items[k] == listed[i];
            assert(state.source_items[k].channel_id == id);
        }
        if exists|i: int|
            0 <= i < state.source_items.len() && (#[trigger] state.source_items[i]).channel_id
                == id && test(state.source_items[i]) {
            let i = choose|i: int|
                0 <= i < state.source_items.len() && (#[trigger] state.source_items[i]).channel_id
                    == id && test(state.source_items[i]);
            assert(state.source_items.contains(state.source_items[i]));
            crate::readings::lemma_filtered(state.source_items, test, state.source_items[i]);
            let k = choose|k: int|
                0 <= k < listed.len() && listed[k] == state.source_items[i];
            assert(listed[k].channel_id == id);
        }
    }
}

proof fn lemma_pairs(pairs: Names, id: Seq<char>)
    ensures
        has_pair(pairs, id) <==> lookup(pairs, id) is Some,
{
    crate::collections::lemma_lookup_some(pairs, id);
}

/// The office shows the channel profile that is set, if there is one with that identifier, and else
/// the one for personal channels.
pub proof fn law_the_office_has_a_profile(state: UiStateModel, at: int)
    requires
        0 <= at < state.settings.channel_profiles.len(),
        forall|k: int|
            0 <= k < at ==> (#[trigger] state.settings.channel_profiles[k]).id
                != state.settings.channel_profiles[at].id,
    ensures
        ({
            let profiles = state.settings.channel_profiles;
            let set = state.settings.office.channel_profile_id;
            let found = set is Some && exists|k: int|
                0 <= k < profiles.len() && Some((#[trigger] profiles[k]).id) == set;
            &&& set == Some(profiles[at].id) ==> state.office_profile() == Some(profiles[at])
            &&& !found && profiles[at].id == "times_channels"@ ==> state.office_profile() == Some(
                profiles[at],
            )
        }),
{
    let profiles = state.settings.channel_profiles;
    let has = crate::collections::has_id::<crate::settings::ChannelProfile>(profiles[at].id);
    assert(has(profiles[at]));
    crate::collections::lemma_first_match(profiles, has, at);
    if let Some(id) = state.settings.office.channel_profile_id {
        let other = crate::collections::has_id::<crate::settings::ChannelProfile>(id);
        crate::decisions::lemma_first(profiles, other);
        if let Some(profile) = crate::collections::with_id::<crate::settings::ChannelProfile>(
            profiles,
            id,
        ) {
            let k = choose|k: int| 0 <= k < profiles.len() && #[trigger] profiles[k] == profile;
            assert(Some(profiles[k].id) == state.settings.office.channel_profile_id);
        }
    }
}

/// A request goes to the path at the address of the API, with the token and the fields that it is
/// given; a form and a JSON object are posted, a query is got.
pub proof fn law_requests_carry_their_fields(
    config: SlackOAuthConfigModel,
    path: Seq<char>,
    token: Seq<char>,
    fields: Seq<(Seq<char>, Seq<char>)>,
    members: Seq<(Seq<char>, PayloadValueModel)>,
    address: crate::urls::WebUrlModel,
)
    requires
        crate::urls::joined_url(config.api_base.text, path) == Ok::<_, Seq<char>>(address),
    ensures
        form_request(config, path, Some(token), fields) matches Ok(request) && request.url
            == address.text && request.method == HttpMethod::Post && request.token == Some(token)
            && request.body == RequestBodyModel::Form(fields),
        json_request(config, path, token, members) matches Ok(request) && request.url
            == address.text && request.method == HttpMethod::Post && request.token == Some(token)
            && request.body == RequestBodyModel::Json(members),
        crate::urls::url_with_query(address.text, fields) matches Ok(url) ==> (get_request(
            config,
            path,
            token,
            fields,
        ) matches Ok(request) && request.url == url && request.method == HttpMethod::Get
            && request.token == Some(token) && request.body is Empty),
{
}

/// A field that is given and not empty stands behind the others; one that is not given is left out.
pub proof fn law_given_fields_are_sent(
    fields: Seq<(Seq<char>, Seq<char>)>,
    members: Seq<(Seq<char>, PayloadValueModel)>,
    name: Seq<char>,
    value: Seq<char>,
)
    ensures
        value.len() > 0 ==> with_given(fields, name, Some(value)) == fields + seq![(name, value)],
        with_given(fields, name, Some(Seq::empty())) == fields,
        with_given(fields, name, None) == fields,
        with_optional(members, name, Some(value)) == members + seq![
            (name, PayloadValueModel::Text(value)),
        ],
        with_optional(members, name, None) == members,
        flag_text(true) == "true"@,
        flag_text(false) == "false"@,
{
    assert(fields.push((name, value)) =~= fields + seq![(name, value)]);
    assert(members.push((name, PayloadValueModel::Text(value))) =~= members + seq![
        (name, PayloadValueModel::Text(value)),
    ]);
}

/// A refusal is told by the reason that Slack gives.
pub proof fn law_refusals_have_a_reason(reason: Seq<char>)
    ensures
        refusal(Some(reason)) == SlackErrorModel::Api(reason),
        refusal(None) is Api,
{
}

/// An hour that is picked is read back.
pub proof fn law_hours_read_back(hour: u8)
    ensures
        picked_hour(Some(hour_id(Some(hour)))) == Some(hour as nat),
        picked_hour(Some(hour_id(None))) is None,
{
    crate::wording::law_numbers_read_back(hour as nat);
}

/// The authors to choose from are those of the messages, each under the name that the last of
/// their messages tells.
pub proof fn law_authors_are_listed_by_name(items: Seq<TimelineItemModel>, at: int)
    requires
        0 <= at < items.len(),
        forall|k: int|
            at < k < items.len() ==> (#[trigger] items[k]).author_id != items[at].author_id,
    ensures
        lookup(crate::queries::author_names(items), items[at].author_id) == Some(
            items[at].author_name,
        ),
    decreases items.len(),
{
    let rest = items.drop_last();
    let last = items.last();
    lemma_lookup_bind(
        crate::queries::author_names(rest),
        last.author_id,
        last.author_name,
        items[at].author_id,
    );
    if at < rest.len() {
        assert(items[items.len() - 1].author_id != items[at].author_id);
        assert forall|k: int| at < k < rest.len() implies (#[trigger] rest[k]).author_id
            != rest[at].author_id by {
            assert(items[k].author_id != items[at].author_id);
        }
        law_authors_are_listed_by_name(rest, at);
    }
}

/// The members to choose from are those that are known, and the authors of messages but for the
/// user.
pub proof fn law_members_are_known_or_wrote(
    members: Names,
    items: Seq<TimelineItemModel>,
    id: Seq<char>,
)
    ensures
        lookup(members, id) is Some ==> lookup(crate::queries::with_authors(members, items), id)
            == lookup(members, id),
        lookup(crate::queries::with_authors(members, items), id) is Some <==> lookup(members, id)
            is Some || exists|i: int|
            0 <= i < items.len() && (#[trigger] items[i]).author_id == id && items[i].author_name
                != "you"@,
    decreases items.len(),
{
    if items.len() > 0 {
        let less = items.drop_last();
        let last = items.last();
        law_members_are_known_or_wrote(members, less, id);
        lemma_lookup_bind(
            crate::queries::with_authors(members, less),
            last.author_id,
            last.author_name,
            id,
        );
        assert(items[items.len() - 1] == last);
        assert(forall|i: int| 0 <= i < less.len() ==> #[trigger] items[i] == less[i]);
        assert(forall|i: int| 0 <= i < less.len() ==> items[i] == #[trigger] less[i]);
    }
}

/// A name between angle brackets gives way to its colour; what stands before it stays, and what
/// stands behind it is filled in the same way.
pub proof fn law_templates_are_filled(
    before: Seq<char>,
    name: Seq<char>,
    behind: Seq<char>,
    palette: crate::theme::ThemePaletteModel,
)
    requires
        !before.contains('<'),
        !name.contains('>'),
    ensures
        crate::theme::filled(before + seq!['<'] + name + seq!['>'] + behind, palette) == before
            + crate::theme::colour(palette, name) + crate::theme::filled(behind, palette),
        crate::theme::filled(before, palette) == before,
{
    let text = before + seq!['<'] + name + seq!['>'] + behind;
    let open = before.len() as int;
    let close = open + 1 + name.len();
    crate::text::lemma_find_char(text, '<', 0);
    crate::text::lemma_find_char(text, '>', open);
    crate::text::lemma_find_char(before, '<', 0);
    if let Some(at) = crate::text::find_char(before, '<', 0) {
        assert(before.contains(before[at]));
    }
    assert(text[open] == '<');
    assert(text[close] == '>');
    if let Some(at) = crate::text::find_char(text, '<', 0) {
        if at < open {
            assert(before.contains(before[at]));
        }
    }
    if let Some(at) = crate::text::find_char(text, '>', open) {
        if open < at < close {
            assert(name.contains(name[at - open - 1]));
        }
    }
    assert(text.take(open) =~= before);
    assert(text.subrange(open + 1, close) =~= name);
    assert(text.skip(close + 1) =~= behind);
}

/// Each name stands for the colour of that name.
pub proof fn law_colours_have_names(palette: crate::theme::ThemePaletteModel)
    ensures
        crate::theme::colour(palette, "background"@) == palette.background,
        crate::theme::colour(palette, "surface"@) == palette.surface,
        crate::theme::colour(palette, "surface_alt"@) == palette.surface_alt,
        crate::theme::colour(palette, "text"@) == palette.text,
        crate::theme::colour(palette, "muted"@) == palette.muted,
        crate::theme::colour(palette, "accent"@) == palette.accent,
        crate::theme::colour(palette, "mention"@) == palette.mention,
        crate::theme::colour(palette, "unread"@) == palette.unread,
{
    reveal_strlit("background");
    reveal_strlit("surface");
    reveal_strlit("surface_alt");
    reveal_strlit("text");
    reveal_strlit("muted");
    reveal_strlit("accent");
    reveal_strlit("mention");
    reveal_strlit("unread");
    assert("background"@.len() == 10 && "surface"@.len() == 7 && "surface_alt"@.len() == 11);
    assert("text"@.len() == 4 && "muted"@.len() == 5 && "accent"@.len() == 6);
    assert("mention"@.len() == 7 && "unread"@.len() == 6);
    assert("surface"@[0] == 's' && "mention"@[0] == 'm');
    assert("accent"@[0] == 'a' && "unread"@[0] == 'u');
}

/// The entries of the timeline are the messages that are loaded and shown, in their order; the one
/// that is highlighted and those that just came are marked. Without any there is one entry that
/// says so.
pub proof fn law_entries_are_the_loaded_messages(
    state: UiStateModel,
    status: crate::auth::SlackAuthStatusModel,
    fresh: Seq<Seq<char>>,
    at: int,
)
    ensures
        state.filtered_ranked_items.len() == 0 ==> state.entries(status, fresh).len() == 1
            && state.entries(status, fresh)[0] is Empty,
        state.filtered_ranked_items.len() > 0 ==> state.entries(status, fresh).len()
            == state.loaded().len(),
        state.filtered_ranked_items.len() > 0 && 0 <= at < state.loaded().len() ==> (state.entries(
            status,
            fresh,
        )[at] matches crate::display::TimelineListEntryModel::Item {
            ranked,
            is_active,
            animate_insert,
        } && ranked == state.filtered_ranked_items[at] && is_active == (
        state.highlighted_timeline_message_ts == Some(ranked.item.message_ts)) && animate_insert
            == fresh.contains(ranked.item.message_ts)),
{
}

} // verus!
