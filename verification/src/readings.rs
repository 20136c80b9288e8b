//! What the messages of Slack become in the timeline, and where they are found there.
use vstd::prelude::*;

use crate::auth::StoredSlackSessionModel;
use crate::collections::{lemma_sorted_in_order, lemma_sorted_multiset, lookup, order_of, sorted};
use crate::decisions::{lemma_first, stands_in};
use crate::history::{history_item, live_item, message_body, shown_reactions};
use crate::items::{in_thread, is_reply_in};
use crate::models::{
    AttachmentSummaryModel, ReactionSummary, ReplyStateModel, TimelineItem, TimelineItemModel,
};
use crate::queries::{sorted_by_label, ByLabel, ByLabelThenId, ByMessageTs};
use crate::reactions::MostGivenFirst;
use crate::rich_text::SlackRenderLookupModel;
use crate::settings::{AppSettingsModel, ChannelPermission};
use crate::slack::{
    SlackConversationModel, SlackHistoryMessageModel, SlackMessageEventModel, SlackReactionModel,
};
use crate::stamps::stamped_point;
use crate::state::{Names, UiStateModel};
use crate::text::{text_before, trim};
use crate::time::Timestamp;

verus! {

/// A text holds another exactly where it stands in it.
pub proof fn lemma_stands_in(text: Seq<char>, part: Seq<char>)
    ensures
        crate::text::occurs(text, part) == stands_in(text, part),
{
    if stands_in(text, part) {
        let at = choose|at: int|
            0 <= at && at + part.len() <= text.len() && #[trigger] text.subrange(
                at,
                at + part.len(),
            ) == part;
        assert(crate::text::occurs_at(text, part, at));
    }
    if crate::text::occurs(text, part) {
        let at = choose|at: int| #[trigger] crate::text::occurs_at(text, part, at);
        assert(text.subrange(at, at + part.len()) == part);
    }
}

/// Whether a message is one of those that only tell of a change: an edit, a deletion, someone who
/// came or went.
pub open spec fn only_tells_of_a_change(subtype: Option<Seq<char>>) -> bool {
    subtype == Some("message_changed"@) || subtype == Some("message_deleted"@) || subtype == Some(
        "channel_join"@,
    ) || subtype == Some("channel_leave"@)
}

/// The body of an item is the text of its message without the white space around it; only a
/// message without text has the text of its blocks.
pub proof fn law_bodies_are_texts(
    text: Option<Seq<char>>,
    blocks: Seq<crate::json::Json>,
    names: SlackRenderLookupModel,
)
    ensures
        text matches Some(words) && trim(words).len() > 0 ==> message_body(text, blocks, names)
            == trim(text->0),
        blocks.len() == 0 ==> message_body(text, blocks, names) == (match text {
            Some(words) => trim(words),
            None => Seq::empty(),
        }),
        (text is None || trim(text->0).len() == 0) && blocks.len() > 0 ==> message_body(
            text,
            blocks,
            names,
        ) == trim(crate::rich_text::rich_plain_text(blocks, names)),
{
}

/// A message of a history is shown exactly if it starts a thread, does not only tell of a change,
/// and has a text or something attached.
pub proof fn law_histories_show_roots(
    workspace_id: Seq<char>,
    channel: SlackConversationModel,
    user: Option<Seq<char>>,
    settings: AppSettingsModel,
    user_names: Names,
    user_avatar_paths: Names,
    attachments: Seq<AttachmentSummaryModel>,
    message: SlackHistoryMessageModel,
    now: Timestamp,
)
    ensures
        history_item(
            workspace_id,
            channel,
            user,
            settings,
            user_names,
            user_avatar_paths,
            attachments,
            message,
            now,
        ) is Some <==> (message.thread_ts is None || message.thread_ts == Some(message.ts))
            && !only_tells_of_a_change(message.subtype) && (attachments.len() > 0 || message_body(
            message.text,
            message.blocks,
            SlackRenderLookupModel { user_names, channel_names: Seq::empty() },
        ).len() > 0),
{
}

/// The item of a message of a history tells of that message: its place, its author, whether it
/// mentions the user, which keywords it holds, and when something happened last.
pub proof fn law_history_items_tell_of_messages(
    workspace_id: Seq<char>,
    channel: SlackConversationModel,
    user: Option<Seq<char>>,
    settings: AppSettingsModel,
    user_names: Names,
    user_avatar_paths: Names,
    attachments: Seq<AttachmentSummaryModel>,
    message: SlackHistoryMessageModel,
    now: Timestamp,
)
    ensures
        history_item(
            workspace_id,
            channel,
            user,
            settings,
            user_names,
            user_avatar_paths,
            attachments,
            message,
            now,
        ) matches Some(item) ==> {
            let author = match (message.user, message.bot_id) {
                (Some(author), _) => author,
                (None, Some(bot)) => bot,
                (None, None) => "unknown"@,
            };
            &&& item.workspace_id == workspace_id
            &&& item.channel_id == channel.id
            &&& item.channel_name == (match (channel.name, channel.name_normalized) {
                (Some(name), _) if name.len() > 0 => "#"@ + name,
                (_, Some(name)) if name.len() > 0 => "#"@ + name,
                _ => channel.id,
            })
            &&& item.message_ts == message.ts
            &&& item.thread_ts == message.ts
            &&& item.author_id == author
            &&& item.participant <==> user == Some(author)
            &&& item.author_name == (if user == Some(author) {
                "you"@
            } else {
                match lookup(user_names, author) {
                    Some(name) => name,
                    None => author,
                }
            })
            &&& item.author_avatar_path == lookup(user_avatar_paths, author)
            &&& item.body == message_body(
                message.text,
                message.blocks,
                SlackRenderLookupModel { user_names, channel_names: Seq::empty() },
            )
            &&& item.rich_text_blocks == message.blocks
            &&& item.attachments == attachments
            &&& item.unread
            &&& item.direct_mention <==> (user matches Some(u) && stands_in(
                item.body,
                "<@"@ + u + ">"@,
            ))
            &&& forall|keyword: Seq<char>| #[trigger]
                item.focus_keyword_hits.contains(keyword)
                    <==> settings.timeline.focus_keywords.contains(keyword) && stands_in(
                    crate::text::lowercase(item.body),
                    crate::text::lowercase(keyword),
                )
            &&& item.watch_weight == (match lookup(
                settings.timeline.channel_weights,
                channel.id,
            ) {
                Some(weight) => weight,
                None => 1,
            })
            &&& item.last_activity_at == (match (message.latest_reply, stamped_point(message.ts)) {
                (Some(latest), _) if stamped_point(latest) is Some => stamped_point(latest)->0,
                (_, Some(point)) => point,
                _ => now,
            })
            &&& item.reply_state == ReplyStateModel::Idle
        },
{
    let item = history_item(
        workspace_id,
        channel,
        user,
        settings,
        user_names,
        user_avatar_paths,
        attachments,
        message,
        now,
    );
    if let Some(item) = item {
        if let Some(u) = user {
            lemma_stands_in(item.body, "<@"@ + u + ">"@);
        }
        assert forall|keyword: Seq<char>| #[trigger]
            item.focus_keyword_hits.contains(keyword)
                <==> settings.timeline.focus_keywords.contains(keyword) && stands_in(
                crate::text::lowercase(item.body),
                crate::text::lowercase(keyword),
            ) by {
            crate::standing::law_keywords_are_found(settings.timeline, item.body, keyword);
        }
    }
}

/// A message that arrives live is shown exactly if it does not only tell of a change, and has a
/// text or something attached; replies are shown too.
pub proof fn law_live_messages_are_shown(
    state: UiStateModel,
    session: StoredSlackSessionModel,
    attachments: Seq<AttachmentSummaryModel>,
    event: SlackMessageEventModel,
    now: Timestamp,
)
    ensures
        live_item(state, session, attachments, event, now) is Some <==> !only_tells_of_a_change(
            event.subtype,
        ) && (attachments.len() > 0 || message_body(
            event.text,
            event.blocks,
            SlackRenderLookupModel {
                user_names: state.user_names,
                channel_names: state.known_channels,
            },
        ).len() > 0),
{
}

/// The item of a message that arrives live tells of that message.
pub proof fn law_live_items_tell_of_messages(
    state: UiStateModel,
    session: StoredSlackSessionModel,
    attachments: Seq<AttachmentSummaryModel>,
    event: SlackMessageEventModel,
    now: Timestamp,
)
    ensures
        live_item(state, session, attachments, event, now) matches Some(item) ==> {
            let author = match event.user {
                Some(author) => author,
                None => "unknown"@,
            };
            &&& item.workspace_id == (match session.team_id {
                Some(team) => team,
                None => "workspace"@,
            })
            &&& item.channel_id == event.channel
            &&& item.channel_name == (match state.channel_name(event.channel) {
                Some(name) => name,
                None => event.channel,
            })
            &&& item.message_ts == event.ts
            &&& item.thread_ts == (match event.thread_ts {
                Some(thread) => thread,
                None => event.ts,
            })
            &&& item.author_id == author
            &&& item.participant <==> session.user_id == Some(author)
            &&& item.author_name == state.author_name(author, session.user_id == Some(author))
            &&& item.author_avatar_path == state.author_avatar(author)
            &&& item.body == message_body(
                event.text,
                event.blocks,
                SlackRenderLookupModel {
                    user_names: state.user_names,
                    channel_names: state.known_channels,
                },
            )
            &&& item.rich_text_blocks == event.blocks
            &&& item.attachments == attachments
            &&& item.unread
            &&& item.direct_mention <==> (session.user_id matches Some(u) && stands_in(
                item.body,
                "<@"@ + u + ">"@,
            ))
            &&& forall|keyword: Seq<char>| #[trigger]
                item.focus_keyword_hits.contains(keyword)
                    <==> state.settings.timeline.focus_keywords.contains(keyword) && stands_in(
                    crate::text::lowercase(item.body),
                    crate::text::lowercase(keyword),
                )
            &&& item.watch_weight == (match lookup(
                state.settings.timeline.channel_weights,
                event.channel,
            ) {
                Some(weight) => weight,
                None => 1,
            })
            &&& item.last_activity_at == (match stamped_point(event.ts) {
                Some(point) => point,
                None => now,
            })
            &&& item.reply_state == ReplyStateModel::Idle
        },
{
    if let Some(item) = live_item(state, session, attachments, event, now) {
        if let Some(u) = session.user_id {
            lemma_stands_in(item.body, "<@"@ + u + ">"@);
        }
        assert forall|keyword: Seq<char>| #[trigger]
            item.focus_keyword_hits.contains(keyword)
                <==> state.settings.timeline.focus_keywords.contains(keyword) && stands_in(
                crate::text::lowercase(item.body),
                crate::text::lowercase(keyword),
            ) by {
            crate::standing::law_keywords_are_found(state.settings.timeline, item.body, keyword);
        }
    }
}

/// The messages of a thread stand in the order of their time stamps, and are all the cached
/// messages of the thread, each as often as it is cached.
pub proof fn law_threads_are_in_order(state: UiStateModel, thread_ts: Seq<char>)
    ensures
        forall|i: int, j: int|
            0 <= i < j < state.thread(thread_ts).len() ==> !text_before(
                (#[trigger] state.thread(thread_ts)[j]).message_ts,
                (#[trigger] state.thread(thread_ts)[i]).message_ts,
            ),
        state.thread(thread_ts).to_multiset() == state.source_items.filter(
            |item: TimelineItemModel| item.thread_ts == thread_ts,
        ).to_multiset(),
{
    let before = order_of::<TimelineItem, ByMessageTs>();
    let all = state.source_items.filter(in_thread(thread_ts));
    assert forall|a: TimelineItemModel, b: TimelineItemModel| #[trigger] before(a, b) implies
        !before(b, a) by {
        crate::text::lemma_text_before_asymmetric(a.message_ts, b.message_ts);
    }
    assert forall|a: TimelineItemModel, b: TimelineItemModel, c: TimelineItemModel|
        !#[trigger] before(a, b) && !#[trigger] before(b, c) implies !before(a, c) by {
        crate::text::lemma_text_before_connected(a.message_ts, b.message_ts, c.message_ts);
    }
    lemma_sorted_in_order(all, before);
    lemma_sorted_multiset(all, before);
    let shown = state.thread(thread_ts);
    assert forall|i: int, j: int| 0 <= i < j < shown.len() implies !text_before(
        (#[trigger] shown[j]).message_ts,
        (#[trigger] shown[i]).message_ts,
    ) by {
        assert(!before(shown[j], shown[i]));
    }
    assert(in_thread(thread_ts) =~= |item: TimelineItemModel| item.thread_ts == thread_ts);
}

/// The replies of a thread are its messages but for the one that starts it.
pub proof fn law_replies_are_counted(state: UiStateModel, thread_ts: Seq<char>)
    ensures
        state.source_items.filter(is_reply_in(thread_ts)) == state.source_items.filter(
            |item: TimelineItemModel| item.thread_ts == thread_ts && item.message_ts != thread_ts,
        ),
{
    assert(is_reply_in(thread_ts) =~= |item: TimelineItemModel|
        item.thread_ts == thread_ts && item.message_ts != thread_ts);
}

/// Choices that are listed stand in the order of their labels, and none is lost.
pub proof fn law_choices_are_in_order(pairs: Names)
    ensures
        forall|i: int, j: int|
            0 <= i < j < sorted_by_label(pairs).len() ==> !text_before(
                (#[trigger] sorted_by_label(pairs)[j]).1,
                (#[trigger] sorted_by_label(pairs)[i]).1,
            ),
        sorted_by_label(pairs).to_multiset() == pairs.to_multiset(),
{
    let before = order_of::<(String, String), ByLabel>();
    assert forall|a: (Seq<char>, Seq<char>), b: (Seq<char>, Seq<char>)| #[trigger]
        before(a, b) implies !before(b, a) by {
        crate::text::lemma_text_before_asymmetric(a.1, b.1);
    }
    assert forall|a: (Seq<char>, Seq<char>), b: (Seq<char>, Seq<char>), c: (Seq<char>, Seq<char>)|
        !#[trigger] before(a, b) && !#[trigger] before(b, c) implies !before(a, c) by {
        crate::text::lemma_text_before_connected(a.1, b.1, c.1);
    }
    lemma_sorted_in_order(pairs, before);
    lemma_sorted_multiset(pairs, before);
    let shown = sorted_by_label(pairs);
    assert forall|i: int, j: int| 0 <= i < j < shown.len() implies !text_before(
        (#[trigger] shown[j]).1,
        (#[trigger] shown[i]).1,
    ) by {
        assert(!before(shown[j], shown[i]));
    }
}

/// Sections stand in the order of their labels, and of those with one label in the order of their
/// identifiers; none is lost.
pub proof fn law_sections_are_in_order(pairs: Names)
    ensures
        ({
            let shown = sorted(pairs, order_of::<(String, String), ByLabelThenId>());
            &&& forall|i: int, j: int|
                0 <= i < j < shown.len() ==> !text_before(
                    (#[trigger] shown[j]).1,
                    (#[trigger] shown[i]).1,
                ) && (shown[i].1 == shown[j].1 ==> !text_before(shown[j].0, shown[i].0))
            &&& shown.to_multiset() == pairs.to_multiset()
        }),
{
    let before = order_of::<(String, String), ByLabelThenId>();
    assert forall|a: (Seq<char>, Seq<char>), b: (Seq<char>, Seq<char>)| #[trigger]
        before(a, b) implies !before(b, a) by {
        crate::text::lemma_text_before_asymmetric(a.1, b.1);
        crate::text::lemma_text_before_asymmetric(a.0, b.0);
        crate::text::lemma_text_before_irreflexive(a.1);
    }
    assert forall|a: (Seq<char>, Seq<char>), b: (Seq<char>, Seq<char>), c: (Seq<char>, Seq<char>)|
        !#[trigger] before(a, b) && !#[trigger] before(b, c) implies !before(a, c) by {
        crate::text::lemma_text_before_connected(a.1, b.1, c.1);
        crate::text::lemma_text_before_connected(a.0, b.0, c.0);
        crate::text::lemma_text_before_total(a.1, b.1);
        crate::text::lemma_text_before_total(b.1, c.1);
        if a.1 == c.1 && a.1 != b.1 {
            crate::text::lemma_text_before_asymmetric(a.1, b.1);
        }
    }
    lemma_sorted_in_order(pairs, before);
    lemma_sorted_multiset(pairs, before);
    let shown = sorted(pairs, before);
    assert forall|i: int, j: int| 0 <= i < j < shown.len() implies !text_before(
        (#[trigger] shown[j]).1,
        (#[trigger] shown[i]).1,
    ) && (shown[i].1 == shown[j].1 ==> !text_before(shown[j].0, shown[i].0)) by {
        assert(!before(shown[j], shown[i]));
    }
}

/// A channel can be chosen exactly if it is known and not hidden, and posts can be sent to it
/// exactly if it can be written to as well.
pub proof fn law_channels_that_can_be_chosen(
    state: UiStateModel,
    channel: (Seq<char>, Seq<char>),
)
    ensures
        state.channels().contains(channel) <==> state.known_channels.contains(channel)
            && state.settings.permission(channel.0) != ChannelPermission::Hidden,
        state.post_channels().contains(channel) <==> state.known_channels.contains(channel)
            && state.settings.permission(channel.0) == ChannelPermission::ReadWrite,
{
    let open = |pair: (Seq<char>, Seq<char>)| state.settings.permission(pair.0).readable();
    let takes = |pair: (Seq<char>, Seq<char>)| state.settings.permission(pair.0).writable();
    let readable = state.known_channels.filter(open);
    law_choices_are_in_order(readable);
    lemma_same_members(state.channels(), readable, channel);
    lemma_filtered(state.known_channels, open, channel);
    lemma_filtered(state.channels(), takes, channel);
}

/// Sequences with one multiset have the same members.
pub proof fn lemma_same_members<V>(first: Seq<V>, second: Seq<V>, v: V)
    requires
        first.to_multiset() == second.to_multiset(),
    ensures
        first.contains(v) <==> second.contains(v),
{
    broadcast use vstd::seq_lib::group_to_multiset_ensures;

    assert(first.contains(v) <==> first.to_multiset().count(v) > 0);
    assert(second.contains(v) <==> second.to_multiset().count(v) > 0);
}

/// What a filter keeps is what is there and meets the condition.
pub proof fn lemma_filtered<V>(values: Seq<V>, keep: spec_fn(V) -> bool, v: V)
    ensures
        values.filter(keep).contains(v) <==> values.contains(v) && keep(v),
{
    broadcast use vstd::seq_lib::group_filter_ensures;

    let kept = values.filter(keep);
    if kept.contains(v) {
        values.lemma_filter_contains_rev(keep, v);
        let i = choose|i: int| 0 <= i < kept.len() && kept[i] == v;
        assert(keep(kept[i]));
    }
    if values.contains(v) && keep(v) {
        let i = choose|i: int| 0 <= i < values.len() && values[i] == v;
        assert(kept.contains(values[i]));
    }
}

/// Reactions are shown with their counts, the most given first; the user's own are marked, and
/// none is lost.
pub proof fn law_reactions_are_shown(
    reactions: Seq<SlackReactionModel>,
    user: Option<Seq<char>>,
)
    ensures
        ({
            let shown = shown_reactions(reactions, user);
            &&& forall|i: int, j: int|
                0 <= i < j < shown.len() ==> (#[trigger] shown[i]).count >= (
                #[trigger] shown[j]).count
            &&& shown.len() == reactions.len()
            &&& forall|k: int|
                0 <= k < reactions.len() ==> exists|i: int|
                    0 <= i < shown.len() && (#[trigger] shown[i]).name == (
                    #[trigger] reactions[k]).name && shown[i].count == reactions[k].count && (
                    shown[i].me <==> (user matches Some(u) && reactions[k].users.contains(u)))
                        && shown[i].emoji == crate::emoji::reaction_display(reactions[k].name)
        }),
{
    broadcast use vstd::seq_lib::group_to_multiset_ensures;

    let told = reactions.map_values(
        |reaction: SlackReactionModel| crate::history::shown_reaction(reaction, user),
    );
    let before = order_of::<ReactionSummary, MostGivenFirst>();
    lemma_sorted_in_order(told, before);
    lemma_sorted_multiset(told, before);
    let shown = shown_reactions(reactions, user);
    assert forall|i: int, j: int| 0 <= i < j < shown.len() implies (#[trigger] shown[i]).count >= (
    #[trigger] shown[j]).count by {
        assert(!before(shown[j], shown[i]));
    }
    assert forall|k: int| 0 <= k < reactions.len() implies exists|i: int|
        0 <= i < shown.len() && (#[trigger] shown[i]).name == (#[trigger] reactions[k]).name
            && shown[i].count == reactions[k].count && (shown[i].me <==> (user matches Some(u)
            && reactions[k].users.contains(u))) && shown[i].emoji
            == crate::emoji::reaction_display(reactions[k].name) by {
        assert(told.contains(told[k]));
        lemma_same_members(shown, told, told[k]);
        let i = choose|i: int| 0 <= i < shown.len() && shown[i] == told[k];
        assert(shown[i].name == reactions[k].name);
    }
}

/// A channel is called what it is known as, or else what the first of its cached messages calls
/// it.
pub proof fn law_channels_are_called_what_is_known(state: UiStateModel, id: Seq<char>)
    ensures
        lookup(state.known_channels, id) matches Some(name) ==> state.channel_name(id) == Some(name),
        lookup(state.known_channels, id) is None ==> match state.channel_name(id) {
            Some(name) => exists|i: int|
                0 <= i < state.source_items.len() && (#[trigger] state.source_items[i]).channel_id
                    == id && state.source_items[i].channel_name == name && forall|k: int|
                    0 <= k < i ==> (#[trigger] state.source_items[k]).channel_id != id,
            None => forall|k: int|
                0 <= k < state.source_items.len() ==> (#[trigger] state.source_items[k]).channel_id
                    != id,
        },
{
    lemma_first(state.source_items, |item: TimelineItemModel| item.channel_id == id);
    assert(crate::items::in_channel(id) =~= |item: TimelineItemModel| item.channel_id == id);
}

/// An author is called what they are known as; the user is called "you", and who is not known by
/// the name in a cached message or by their identifier.
pub proof fn law_authors_are_called_what_is_known(state: UiStateModel, id: Seq<char>)
    ensures
        state.author_name(id, true) == "you"@,
        lookup(state.user_names, id) matches Some(name) ==> state.author_name(id, false) == name,
        lookup(state.user_names, id) is None ==> ({
            ||| state.author_name(id, false) == id && forall|k: int|
                0 <= k < state.source_items.len() && (#[trigger] state.source_items[k]).author_id
                    == id ==> state.source_items[k].author_name == id
            ||| exists|i: int|
                0 <= i < state.source_items.len() && (#[trigger] state.source_items[i]).author_id
                    == id && state.source_items[i].author_name != id && state.author_name(id, false)
                    == state.source_items[i].author_name
        }),
        lookup(state.user_avatar_paths, id) matches Some(path) ==> state.author_avatar(id) == Some(
            path,
        ),
        lookup(state.user_avatar_paths, id) is None && state.author_avatar(id) is Some
            ==> exists|i: int|
            0 <= i < state.source_items.len() && (#[trigger] state.source_items[i]).author_id == id
                && state.source_items[i].author_avatar_path == state.author_avatar(id),
{
    lemma_first(state.source_items, crate::items::by_named_author(id));
    lemma_first(state.source_items, crate::items::by_author(id));
}

} // verus!
