//! What follows from what comes in and from what the user does: live events, loads, posts, forms
//! and cards.
use vstd::prelude::*;

use crate::actions::{
    channel_post, membership_change, reaction_to_add, thread_reply, thread_titles,
};
use crate::auth::{SlackAuthStatusModel, StoredSlackSessionModel};
use crate::collections::{
    first_match, lemma_lookup_bind, lookup, with_id, without_id, Identified,
};
use crate::decisions::lemma_first;
use crate::events::{
    change_step, delete_step, message_step, reaction_step, typing_step,
};
use crate::forms::{
    author_form, channel_form, form_quiet_hours, forgotten, keyword_form, search_form, section_form,
    unknown_reference, with_rule, without_rule, without_search, without_section, ProfileKind,
};
use crate::happenings::holds_message;
use crate::history::{live_item, message_body, shown_reactions};
use crate::items::is_message;
use crate::loading::{
    BackgroundRefreshModel, HistoryContextModel, HistoryLoadingModel,
};
use crate::models::{AttachmentSummaryModel, ReactionSummaryModel, TimelineItemModel};
use crate::notify::action_for;
use crate::patterns::PatternMatcherModel;
use crate::previews::{tally, Judgement};
use crate::readings::lemma_filtered;
use crate::rich_text::SlackRenderLookupModel;
use crate::settings::{
    AppSettingsModel, ChannelPermission, NotificationRuleModel, ProfileMode, QuietHours,
    WorkspaceProfile,
};
use crate::slack::{
    SlackConversationModel, SlackHistoryMessageModel, SlackMessageChangedEventModel,
    SlackMessageDeletedEventModel, SlackMessageEventModel, SlackReactionEventModel, SlackUserModel,
    SlackUserTypingEventModel,
};
use crate::state::{Names, UiStateModel};
use crate::text::{decimal, trim};
use crate::tiles::chip_of;
use crate::time::Timestamp;

verus! {

/// Whether a message is cached.
proof fn lemma_has_message(state: UiStateModel, ts: Seq<char>)
    ensures
        state.has_message(ts) <==> holds_message(state.source_items, ts),
        first_match(state.source_items, is_message(ts)) is Some <==> holds_message(
            state.source_items,
            ts,
        ),
{
    let items = state.source_items;
    lemma_first(items, is_message(ts));
    if holds_message(items, ts) {
        let k = choose|k: int| 0 <= k < items.len() && (#[trigger] items[k]).message_ts == ts;
        assert(is_message(ts)(items[k]));
    }
    if state.has_message(ts) {
        let k = choose|k: int| 0 <= k < items.len() && is_message(ts)(#[trigger] items[k]);
        assert(items[k].message_ts == ts);
    }
}

/// A live message that is new is cached, and its thread is shown as moved. The user is notified of
/// it, as the settings say, if it is neither theirs nor their bot's. One that is cached already
/// changes nothing.
pub proof fn law_live_messages_are_taken(
    state: UiStateModel,
    session: StoredSlackSessionModel,
    attachments: Seq<AttachmentSummaryModel>,
    event: SlackMessageEventModel,
    hour: u8,
    now: Timestamp,
    item: TimelineItemModel,
)
    requires
        live_item(state, session, attachments, event, now) == Some(item),
    ensures
        ({
            let (after, effects) = message_step(state, session, attachments, event, hour, now);
            let others = session.user_id != Some(item.author_id) && session.bot_user_id != Some(
                item.author_id,
            );
            &&& holds_message(after.source_items, item.message_ts)
            &&& holds_message(state.source_items, item.message_ts) ==> after == state
                && !effects.changed && effects.notification is None
            &&& !holds_message(state.source_items, item.message_ts) ==> {
                &&& after.source_items.len() == state.source_items.len() + 1
                &&& effects.changed
                &&& effects.animated_thread == Some(item.thread_ts)
                &&& effects.notification == (if others && action_for(
                    state.settings,
                    item,
                    hour,
                ) is Some {
                    Some((item, action_for(state.settings, item, hour)->0))
                } else {
                    None
                })
            }
        }),
{
    lemma_has_message(state, item.message_ts);
    let after = message_step(state, session, attachments, event, hour, now).0;
    crate::laws::law_messages_come_once(state, item, now);
    lemma_has_message(after, item.message_ts);
    if !state.has_message(item.message_ts) && state.source_items.len() > 0 {
        crate::happenings::law_messages_come_in(state, item, 0);
    }
    if state.source_items.len() == 0 {
        crate::happenings::lemma_come_in_first(state, item);
    }
}

/// A live change of a message that is cached gives it the text, the blocks, the reactions and the
/// attachments that it has now; of one that is not cached nothing is taken.
pub proof fn law_live_changes_are_taken(
    state: UiStateModel,
    session: StoredSlackSessionModel,
    attachments: Seq<AttachmentSummaryModel>,
    event: SlackMessageChangedEventModel,
    now: Timestamp,
    at: int,
)
    requires
        0 <= at < state.source_items.len(),
    ensures
        ({
            let (after, effects) = change_step(state, session, attachments, event, now);
            let before = state.source_items[at];
            &&& after.source_items.len() == state.source_items.len()
            &&& effects.changed == holds_message(state.source_items, event.message.ts)
            &&& before.message_ts != event.message.ts ==> after.source_items[at] == before
            &&& before.message_ts == event.message.ts ==> after.source_items[at] == (
            TimelineItemModel {
                body: message_body(
                    event.message.text,
                    event.message.blocks,
                    SlackRenderLookupModel { user_names: Seq::empty(), channel_names: Seq::empty() },
                ),
                rich_text_blocks: event.message.blocks,
                reactions: shown_reactions(event.message.reactions, session.user_id),
                attachments,
                ..before
            })
        }),
{
    lemma_has_message(state, event.message.ts);
    if state.source_items[at].message_ts == event.message.ts {
        assert(holds_message(state.source_items, event.message.ts));
    }
}

/// A live deletion takes the message away that it names, or else the one that it was, if no two
/// cached messages share its timestamp.
pub proof fn law_live_deletions_are_taken(
    state: UiStateModel,
    event: SlackMessageDeletedEventModel,
    now: Timestamp,
    ts: Seq<char>,
)
    requires
        event.deleted_ts == Some(ts) || (event.deleted_ts is None && event.previous_message is Some
            && event.previous_message->0.ts == ts),
        forall|i: int, j: int|
            0 <= i < j < state.source_items.len() && (#[trigger] state.source_items[i]).message_ts
                == ts ==> (#[trigger] state.source_items[j]).message_ts != ts,
    ensures
        !holds_message(delete_step(state, event, now).0.source_items, ts),
        delete_step(state, event, now).1.changed == holds_message(state.source_items, ts),
        !holds_message(state.source_items, ts) ==> delete_step(state, event, now).0 == state,
{
    lemma_has_message(state, ts);
    let after = state.deleting(ts, now);
    crate::laws::law_deleted_messages_are_gone(state, ts, now);
    lemma_first(state.source_items, is_message(ts));
    if let Some(target) = first_match(state.source_items, is_message(ts)) {
        if holds_message(after.source_items, ts) {
            let k = choose|k: int|
                0 <= k < after.source_items.len() && (#[trigger] after.source_items[k]).message_ts
                    == ts;
            if target.message_ts == target.thread_ts {
                lemma_kept_from(state, target, k);
                let items = state.source_items;
                let i = choose|i: int|
                    0 <= i < items.len() && #[trigger] items[i] == target;
                let j = choose|j: int| 0 <= j < items.len() && items[j] == after.source_items[k];
                if i < j {
                    assert(items[j].message_ts != ts);
                } else if j < i {
                    assert(items[i].message_ts != ts);
                }
            } else {
                assert(is_message(ts)(after.source_items[k]));
            }
        }
    }
}

/// What is left when a thread is deleted was there and is in another thread.
proof fn lemma_kept_from(state: UiStateModel, target: TimelineItemModel, k: int)
    requires
        target.message_ts == target.thread_ts,
        0 <= k < state.without_message(target).source_items.len(),
    ensures
        state.source_items.contains(state.without_message(target).source_items[k]),
        state.without_message(target).source_items[k].thread_ts != target.thread_ts,
{
    let after = state.without_message(target).source_items;
    assert(after.contains(after[k]));
    lemma_filtered(
        state.source_items,
        crate::items::not(crate::items::in_thread(target.thread_ts)),
        after[k],
    );
}

/// A live reaction counts for the message that it is to, and for nothing if it is to something
/// else.
pub proof fn law_live_reactions_are_taken(
    state: UiStateModel,
    session: StoredSlackSessionModel,
    event: SlackReactionEventModel,
    now: Timestamp,
    ts: Seq<char>,
)
    ensures
        event.item.kind != "message"@ || event.item.ts is None ==> reaction_step(
            state,
            session,
            event,
            true,
            now,
        ).0 == state && reaction_step(state, session, event, false, now).0 == state,
        event.item.kind == "message"@ && event.item.ts == Some(ts) ==> {
            &&& reaction_step(state, session, event, true, now).0 == state.reacting(
                ts,
                event.reaction,
                event.user,
                session.user_id,
                now,
            )
            &&& reaction_step(state, session, event, false, now).0 == state.unreacting(
                ts,
                event.reaction,
                event.user,
                session.user_id,
                now,
            )
            &&& reaction_step(state, session, event, true, now).1.changed == holds_message(
                state.source_items,
                ts,
            )
        },
{
    lemma_has_message(state, ts);
}

/// A reaction is taken back from the message that it was given to and from no other.
pub proof fn law_reactions_are_taken_from_their_message(
    state: UiStateModel,
    ts: Seq<char>,
    name: Seq<char>,
    user: Option<Seq<char>>,
    current: Option<Seq<char>>,
    now: Timestamp,
    at: int,
)
    requires
        0 <= at < state.source_items.len(),
        state.has_reaction(ts, name),
    ensures
        ({
            let before = state.source_items[at];
            let after = state.unreacting(ts, name, user, current, now).source_items;
            let mine = user is Some && user == current;
            &&& after.len() == state.source_items.len()
            &&& before.message_ts != ts ==> after[at] == before
            &&& before.message_ts == ts ==> after[at] == (TimelineItemModel {
                reactions: crate::reactions::reactions_without(
                    before.reactions,
                    crate::reactions::normal_reaction(name),
                    mine,
                ),
                ..before
            })
        }),
{
}

/// The typing of the user and of their bot is not shown; that of others is noted in its channel
/// and nowhere else.
pub proof fn law_live_typing_is_taken(
    state: UiStateModel,
    session: StoredSlackSessionModel,
    event: SlackUserTypingEventModel,
    now_ms: u64,
    channel: Seq<char>,
)
    ensures
        ({
            let after = typing_step(state, session, event, now_ms).0;
            let own = event.user is None || event.user == session.user_id || event.user
                == session.bot_user_id;
            &&& own ==> after == state
            &&& !own ==> lookup(after.typing_by_channel, channel) == (if channel == event.channel {
                Some(
                    crate::typing::noted(
                        match lookup(state.typing_by_channel, channel) {
                            Some(indicators) => indicators,
                            None => Seq::empty(),
                        },
                        event.user->0,
                        crate::typing::typing_expiry(now_ms),
                    ),
                )
            } else {
                lookup(state.typing_by_channel, channel)
            })
            &&& after.source_items == state.source_items
        }),
{
    if event.user is Some {
        lemma_lookup_bind(
            state.typing_by_channel,
            event.channel,
            crate::typing::noted(
                crate::typing::typing_in(state.typing_by_channel, event.channel),
                event.user->0,
                crate::typing::typing_expiry(now_ms),
            ),
            channel,
        );
    }
}

/// The items of a history are those of its messages that are shown, in the order of the messages.
pub proof fn law_histories_become_items(
    context: HistoryContextModel,
    channel: SlackConversationModel,
    messages: Seq<(SlackHistoryMessageModel, Seq<AttachmentSummaryModel>)>,
    now: Timestamp,
)
    ensures
        context.items(channel, messages, now) == messages.filter(
            |message: (SlackHistoryMessageModel, Seq<AttachmentSummaryModel>)|
                context.item(channel, message, now) is Some,
        ).map_values(
            |message: (SlackHistoryMessageModel, Seq<AttachmentSummaryModel>)|
                context.item(channel, message, now)->0,
        ),
    decreases messages.len(),
{
    reveal(Seq::filter);
    let shown = |message: (SlackHistoryMessageModel, Seq<AttachmentSummaryModel>)|
        context.item(channel, message, now) is Some;
    let item = |message: (SlackHistoryMessageModel, Seq<AttachmentSummaryModel>)|
        context.item(channel, message, now)->0;
    if messages.len() > 0 {
        let less = messages.drop_last();
        law_histories_become_items(context, channel, less, now);
        let last = messages.last();
        if shown(last) {
            assert(less.filter(shown).push(last).map_values(item) =~= less.filter(shown).map_values(
                item,
            ).push(item(last)));
        }
    } else {
        assert(context.items(channel, messages, now) =~= messages.filter(shown).map_values(item));
    }
}

/// A load asks for one channel after the other. What a channel answers is added behind what is
/// there; a failure is told with the channel's identifier.
pub proof fn law_loads_add_up(
    load: HistoryLoadingModel,
    context: HistoryContextModel,
    messages: Seq<(SlackHistoryMessageModel, Seq<AttachmentSummaryModel>)>,
    error: Seq<char>,
    now: Timestamp,
)
    requires
        load.asked < load.channels.len() <= usize::MAX,
        load.channel_count <= load.asked,
    ensures
        load.next() == Some(load.channels[load.asked as int]),
        ({
            let after = load.with_history(context, messages, now);
            &&& after.items == load.items + context.items(
                load.channels[load.asked as int],
                messages,
                now,
            )
            &&& after.channel_count == load.channel_count + 1
            &&& after.asked == load.asked + 1
        }),
        ({
            let after = load.with_failure(error);
            &&& after.failures == load.failures + seq![
                load.channels[load.asked as int].id + ": "@ + error,
            ]
            &&& after.channel_count == load.channel_count
            &&& after.asked == load.asked + 1
        }),
{
    assert(load.with_failure(error).failures =~= load.failures + seq![
        load.channels[load.asked as int].id + ": "@ + error,
    ]);
}

/// A refresh asks for one channel after the other, adds what they answer, and ends with the first
/// that fails.
pub proof fn law_refreshes_add_up(
    refresh: BackgroundRefreshModel,
    context: HistoryContextModel,
    messages: Seq<(SlackHistoryMessageModel, Seq<AttachmentSummaryModel>)>,
    now: Timestamp,
)
    requires
        refresh.answered < refresh.channels.len() <= usize::MAX,
        refresh.failed is None,
    ensures
        refresh.next() == Some(refresh.channels[refresh.answered as int]),
        refresh.with_history(context, messages, now).items == refresh.items + context.items(
            refresh.channels[refresh.answered as int],
            messages,
            now,
        ),
        refresh.with_history(context, messages, now).answered == refresh.answered + 1,
        refresh.with_history(context, messages, now).failed is None,
        refresh.with_failure().failed == Some(refresh.channels[refresh.answered as int].id),
        refresh.with_failure().items == refresh.items,
{
}

/// The directory gives the names and the pictures of users who still have an account; of others
/// nothing is learned, and what is known of them stays.
pub proof fn law_the_directory_gives_names(
    names: Names,
    members: Seq<SlackUserModel>,
    at: int,
)
    requires
        0 <= at < members.len(),
        forall|k: int|
            0 <= k < members.len() && k != at ==> (#[trigger] members[k]).id != members[at].id,
    ensures
        lookup(crate::sync::with_directory_page(names, members), members[at].id) == (
        if members[at].deleted != Some(true) && members[at].shown_name() is Some {
            members[at].shown_name()
        } else {
            lookup(names, members[at].id)
        }),
{
    lemma_directory(names, members, members[at].id);
}

proof fn lemma_directory(names: Names, members: Seq<SlackUserModel>, id: Seq<char>)
    requires
        forall|i: int, j: int|
            0 <= i < j < members.len() && (#[trigger] members[i]).id == id ==> (
            #[trigger] members[j]).id != id,
    ensures
        (forall|k: int| 0 <= k < members.len() ==> (#[trigger] members[k]).id != id) ==> lookup(
            crate::sync::with_directory_page(names, members),
            id,
        ) == lookup(names, id),
        forall|at: int|
            0 <= at < members.len() && (#[trigger] members[at]).id == id ==> lookup(
                crate::sync::with_directory_page(names, members),
                id,
            ) == (if members[at].deleted != Some(true) && members[at].shown_name() is Some {
                members[at].shown_name()
            } else {
                lookup(names, id)
            }),
    decreases members.len(),
{
    if members.len() > 0 {
        let less = members.drop_last();
        let last = members.last();
        assert forall|i: int, j: int|
            0 <= i < j < less.len() && (#[trigger] less[i]).id == id implies (
        #[trigger] less[j]).id != id by {
            assert(members[i].id == id);
            assert(members[j].id != id);
        }
        lemma_directory(names, less, id);
        if let Some(name) = last.shown_name() {
            lemma_lookup_bind(crate::sync::with_directory_page(names, less), last.id, name, id);
        }
        assert(members[members.len() - 1] == last);
        if last.id == id {
            assert forall|k: int| 0 <= k < less.len() implies (#[trigger] less[k]).id != id by {
                if less[k].id == id {
                    assert(members[k].id == id);
                    assert(members[members.len() - 1].id != id);
                }
            }
        } else {
            assert(forall|k: int| 0 <= k < less.len() ==> #[trigger] members[k] == less[k]);
            if forall|k: int| 0 <= k < members.len() ==> (#[trigger] members[k]).id != id {
                assert forall|k: int| 0 <= k < less.len() implies (#[trigger] less[k]).id
                    != id by {
                    assert(members[k].id != id);
                }
            }
        }
    }
}

/// What previews count: of the messages in channels that may be read, those that are hit, and each
/// of their threads and channels once.
pub proof fn law_previews_count_hits(
    settings: AppSettingsModel,
    items: Seq<TimelineItemModel>,
    judgement: Judgement,
    text: Seq<char>,
)
    requires
        forall|i: int| 0 <= i < items.len() ==> judgement(#[trigger] items[i]) is Ok,
    ensures
        ({
            let hit = |item: TimelineItemModel|
                settings.permission(item.channel_id) != ChannelPermission::Hidden && judgement(item)
                    == Ok::<bool, Seq<char>>(true);
            tally(settings, items, judgement) matches Ok(hits) && hits.messages == items.filter(
                hit,
            ).len() && (hits.threads.contains(text) <==> exists|i: int|
                0 <= i < items.len() && hit(#[trigger] items[i]) && items[i].thread_ts == text)
                && (hits.channels.contains(text) <==> exists|i: int|
                0 <= i < items.len() && hit(#[trigger] items[i]) && items[i].channel_id == text)
        }),
    decreases items.len(),
{
    reveal(Seq::filter);
    let hit = |item: TimelineItemModel|
        settings.permission(item.channel_id) != ChannelPermission::Hidden && judgement(item) == Ok::<
            bool,
            Seq<char>,
        >(true);
    if items.len() > 0 {
        let less = items.drop_last();
        let last = items.last();
        assert forall|i: int| 0 <= i < less.len() implies judgement(#[trigger] less[i]) is Ok by {
            assert(judgement(items[i]) is Ok);
        }
        law_previews_count_hits(settings, less, judgement, text);
        let before = tally(settings, less, judgement)->Ok_0;
        crate::collections::lemma_with_text_members(before.threads, last.thread_ts);
        crate::collections::lemma_with_text_members(before.channels, last.channel_id);
        assert(items[items.len() - 1] == last);
        assert(judgement(items[items.len() - 1]) is Ok);
        assert(forall|i: int| 0 <= i < less.len() ==> #[trigger] items[i] == less[i]);
        assert(forall|i: int| 0 <= i < less.len() ==> items[i] == #[trigger] less[i]);
    }
}

/// A message is posted exactly if it has a text, goes to a channel that may be written to, and
/// Slack is connected; it goes to the channel that was chosen.
pub proof fn law_posts_need_a_channel_and_a_text(
    state: UiStateModel,
    body: Seq<char>,
    channel_id: Option<Seq<char>>,
    status: SlackAuthStatusModel,
)
    ensures
        channel_post(state, body, channel_id, status) is Ok <==> trim(body).len() > 0 && (channel_id
            is Some && channel_id->0.len() > 0 && state.settings.permission(channel_id->0)
            == ChannelPermission::ReadWrite) && status is Connected,
        channel_post(state, body, channel_id, status) matches Ok(post) ==> Some(post.channel_id)
            == channel_id && (state.channel_name(post.channel_id) matches Some(name)
            ==> post.channel_name == name),
{
}

/// A reply is sent exactly if it has a text, the root of its thread is cached, its channel may be
/// written to, and Slack is connected; it goes to that root.
pub proof fn law_replies_need_a_root_and_a_text(
    state: UiStateModel,
    thread_ts: Seq<char>,
    body: Seq<char>,
    status: SlackAuthStatusModel,
    at: int,
)
    requires
        0 <= at < state.source_items.len(),
        state.source_items[at].message_ts == thread_ts,
        forall|k: int|
            0 <= k < at ==> (#[trigger] state.source_items[k]).message_ts != thread_ts,
    ensures
        thread_reply(state, thread_ts, body, status) is Ok <==> trim(body).len() > 0
            && state.settings.permission(state.source_items[at].channel_id)
            == ChannelPermission::ReadWrite && status is Connected,
        thread_reply(state, thread_ts, body, status) matches Ok(reply) ==> reply.0
            == state.source_items[at],
{
    assert(is_message(thread_ts)(state.source_items[at]));
    crate::collections::lemma_first_match(state.source_items, is_message(thread_ts), at);
}

/// Without its root in the cache no reply to a thread is sent.
pub proof fn law_no_replies_without_a_root(
    state: UiStateModel,
    thread_ts: Seq<char>,
    body: Seq<char>,
    status: SlackAuthStatusModel,
)
    requires
        !holds_message(state.source_items, thread_ts),
    ensures
        thread_reply(state, thread_ts, body, status) is Err,
{
    lemma_has_message(state, thread_ts);
}

/// A reaction is sent exactly if it is one, the user did not give it already, and Slack is
/// connected.
pub proof fn law_reactions_are_sent_once(
    reactions: Seq<ReactionSummaryModel>,
    name: Option<Seq<char>>,
    status: SlackAuthStatusModel,
)
    ensures
        reaction_to_add(reactions, name, status) is Ok <==> name is Some && status is Connected && !(
        exists|k: int|
            0 <= k < reactions.len() && (#[trigger] reactions[k]).me && crate::emoji::reaction_name(
                reactions[k].name,
            ) == name),
        reaction_to_add(reactions, name, status) matches Ok(sent) ==> Some(sent) == name,
{
}

/// A member is invited or removed exactly if a channel and a member were chosen and Slack is
/// connected; it is that member, in that channel.
pub proof fn law_members_are_chosen(
    channel_id: Option<Seq<char>>,
    user_id: Option<Seq<char>>,
    status: SlackAuthStatusModel,
    unconnected: Seq<char>,
)
    ensures
        ({
            let change = membership_change(channel_id, user_id, status, unconnected);
            &&& change is Ok <==> channel_id is Some && channel_id->0.len() > 0 && user_id is Some
                && user_id->0.len() > 0 && status is Connected
            &&& change matches Ok(pair) ==> pair == (channel_id->0, user_id->0)
        }),
{
}

/// The column of a thread bears the name of its root's channel and tells how many messages the
/// thread has in the cache.
pub proof fn law_threads_have_titles(state: UiStateModel, thread_ts: Seq<char>, at: int)
    requires
        0 <= at < state.source_items.len(),
        state.source_items[at].message_ts == thread_ts,
        state.source_items[at].thread_ts == thread_ts,
        forall|k: int|
            0 <= k < at ==> (#[trigger] state.source_items[k]).message_ts != thread_ts,
    ensures
        thread_titles(state, thread_ts).0 == state.source_items[at].channel_name,
        thread_titles(state, thread_ts).1 == decimal(
            state.source_items.filter(
                |item: TimelineItemModel| item.thread_ts == thread_ts,
            ).len(),
        ) + " messages"@,
{
    let thread = crate::items::in_thread(thread_ts);
    assert(is_message(thread_ts)(state.source_items[at]));
    crate::collections::lemma_first_match(state.source_items, is_message(thread_ts), at);
    assert(thread =~= (|item: TimelineItemModel| item.thread_ts == thread_ts));
    let order = crate::collections::order_of::<
        crate::models::TimelineItem,
        crate::queries::ByMessageTs,
    >();
    crate::collections::lemma_sorted_multiset(state.source_items.filter(thread), order);
    assert(state.source_items.contains(state.source_items[at]));
    lemma_filtered(state.source_items, thread, state.source_items[at]);
}

/// A profile is saved exactly if it has an identifier and its patterns can be read. It bears the
/// identifier and the label without the white space around them; without a label it bears the
/// identifier.
pub proof fn law_forms_become_profiles(
    id: Seq<char>,
    label: Seq<char>,
    mode: ProfileMode,
    listed: Seq<Seq<char>>,
    matchers: Result<Seq<PatternMatcherModel>, Seq<char>>,
)
    ensures
        ({
            let ready = trim(id).len() > 0 && matchers is Ok;
            let shown = if trim(label).len() > 0 {
                trim(label)
            } else {
                trim(id)
            };
            &&& keyword_form(id, label, mode, matchers) is Ok <==> ready
            &&& keyword_form(id, label, mode, matchers) matches Ok(profile) ==> profile.id == trim(
                id,
            ) && profile.label == shown && profile.mode == mode && Ok::<_, Seq<char>>(
                profile.matchers,
            ) == matchers
            &&& section_form(id, label, listed, matchers) is Ok <==> ready
            &&& section_form(id, label, listed, matchers) matches Ok(profile) ==> profile.id
                == trim(id) && profile.label == shown && profile.channels == listed && Ok::<
                _,
                Seq<char>,
            >(profile.channel_name_matchers) == matchers
            &&& channel_form(id, label, mode, listed, matchers) is Ok <==> ready
            &&& channel_form(id, label, mode, listed, matchers) matches Ok(profile) ==> profile.id
                == trim(id) && profile.label == shown && profile.mode == mode && profile.channels
                == listed && Ok::<_, Seq<char>>(profile.channel_name_matchers) == matchers
            &&& author_form(id, label, mode, listed) is Ok <==> trim(id).len() > 0
            &&& author_form(id, label, mode, listed) matches Ok(profile) ==> profile.id == trim(id)
                && profile.label == shown && profile.mode == mode && profile.authors == listed
        }),
{
}

/// A search profile is saved exactly if it has an identifier and all that it refers to is there.
pub proof fn law_forms_become_search_profiles(
    settings: AppSettingsModel,
    id: Seq<char>,
    label: Seq<char>,
    query: Seq<char>,
    keywords: Seq<Seq<char>>,
    sections: Seq<Seq<char>>,
    channels: Seq<Seq<char>>,
    authors: Seq<Seq<char>>,
)
    ensures
        ({
            let form = search_form(
                settings,
                id,
                label,
                query,
                keywords,
                sections,
                channels,
                authors,
            );
            &&& form is Ok <==> trim(id).len() > 0 && unknown_reference(
                settings,
                keywords,
                sections,
                channels,
                authors,
            ) is None
            &&& form matches Ok(profile) ==> {
                &&& profile.id == trim(id)
                &&& profile.query == (if trim(query).len() > 0 {
                    Some(trim(query))
                } else {
                    None
                })
                &&& profile.keyword_profiles == keywords
                &&& profile.section_profiles == sections
                &&& profile.channel_profiles == channels
                &&& profile.author_profiles == authors
                &&& profile.channels.len() == 0
                &&& profile.authors.len() == 0
            }
        }),
{
}

/// All references are known exactly if each of them has a profile.
pub proof fn law_references_are_known(
    settings: AppSettingsModel,
    keywords: Seq<Seq<char>>,
    sections: Seq<Seq<char>>,
    channels: Seq<Seq<char>>,
    authors: Seq<Seq<char>>,
)
    ensures
        unknown_reference(settings, keywords, sections, channels, authors) is None <==> {
            &&& forall|i: int|
                0 <= i < keywords.len() ==> with_id::<crate::settings::KeywordProfile>(
                    settings.keyword_profiles,
                    #[trigger] keywords[i],
                ) is Some
            &&& forall|i: int|
                0 <= i < sections.len() ==> with_id::<crate::settings::SectionProfile>(
                    settings.section_profiles,
                    #[trigger] sections[i],
                ) is Some
            &&& forall|i: int|
                0 <= i < channels.len() ==> with_id::<crate::settings::ChannelProfile>(
                    settings.channel_profiles,
                    #[trigger] channels[i],
                ) is Some
            &&& forall|i: int|
                0 <= i < authors.len() ==> with_id::<crate::settings::AuthorProfile>(
                    settings.author_profiles,
                    #[trigger] authors[i],
                ) is Some
        },
{
    lemma_first(
        keywords,
        |id: Seq<char>|
            with_id::<crate::settings::KeywordProfile>(settings.keyword_profiles, id) is None,
    );
    lemma_first(
        sections,
        |id: Seq<char>|
            with_id::<crate::settings::SectionProfile>(settings.section_profiles, id) is None,
    );
    lemma_first(
        channels,
        |id: Seq<char>|
            with_id::<crate::settings::ChannelProfile>(settings.channel_profiles, id) is None,
    );
    lemma_first(
        authors,
        |id: Seq<char>|
            with_id::<crate::settings::AuthorProfile>(settings.author_profiles, id) is None,
    );
}

/// Quiet hours are those that were picked, if they are switched on; both ends must be picked.
pub proof fn law_quiet_hours_are_picked(enabled: bool, start: Option<u8>, end: Option<u8>)
    ensures
        !enabled ==> form_quiet_hours(enabled, start, end) == Ok::<_, Seq<char>>(
            None::<QuietHours>,
        ),
        enabled && start is Some && end is Some ==> form_quiet_hours(enabled, start, end) == Ok::<
            _,
            Seq<char>,
        >(Some(QuietHours { start_hour: start->0, end_hour: end->0 })),
        enabled && (start is None || end is None) ==> form_quiet_hours(enabled, start, end) is Err,
{
}

/// A rule that is saved takes the place of the one with its identifier, or the last place; the
/// others stay where they are.
pub proof fn law_rules_are_replaced(
    rules: Seq<NotificationRuleModel>,
    rule: NotificationRuleModel,
    at: int,
)
    requires
        0 <= at <= rules.len(),
        forall|k: int| 0 <= k < at ==> (#[trigger] rules[k]).id != rule.id,
    ensures
        at < rules.len() && rules[at].id == rule.id ==> with_rule(rules, rule) == rules.update(
            at,
            rule,
        ),
        at == rules.len() ==> with_rule(rules, rule) == rules.push(rule),
    decreases at,
{
    if at > 0 {
        let rest = rules.skip(1);
        assert(rules[0].id != rule.id);
        assert forall|k: int| 0 <= k < at - 1 implies (#[trigger] rest[k]).id != rule.id by {
            assert(rules[k + 1].id != rule.id);
        }
        law_rules_are_replaced(rest, rule, at - 1);
        if at < rules.len() && rules[at].id == rule.id {
            assert(rest[at - 1] == rules[at]);
            assert(with_rule(rules, rule) =~= rules.update(at, rule));
        }
        if at == rules.len() {
            assert(with_rule(rules, rule) =~= rules.push(rule));
        }
    } else {
        if rules.len() > 0 && rules[0].id == rule.id {
            assert(with_rule(rules, rule) =~= rules.update(0, rule));
        }
        if rules.len() == 0 {
            assert(with_rule(rules, rule) =~= rules.push(rule));
        }
    }
}

/// A rule that is deleted is gone, and the others stay.
pub proof fn law_deleted_rules_are_gone(
    rules: Seq<NotificationRuleModel>,
    id: crate::settings::RuleId,
    rule: NotificationRuleModel,
)
    ensures
        without_rule(rules, id).contains(rule) <==> rules.contains(rule) && rule.id != id,
{
    lemma_filtered(rules, |rule: NotificationRuleModel| rule.id != id, rule);
}

/// What has an identifier is gone when it is deleted, and what has another stays.
pub proof fn law_deleted_values_are_gone<T: Identified>(
    values: Seq<T::V>,
    id: Seq<char>,
    one: T::V,
)
    ensures
        without_id::<T>(values, id).contains(one) <==> values.contains(one) && T::identity(one)
            != id,
        with_id::<T>(without_id::<T>(values, id), id) is None,
{
    broadcast use {vstd::seq_lib::group_filter_ensures, Seq::lemma_filter_contains_rev};

    let rest = without_id::<T>(values, id);
    if rest.contains(one) {
        let k = choose|k: int| 0 <= k < rest.len() && rest[k] == one;
        assert(T::identity(rest[k]) != id);
    }
    if values.contains(one) && T::identity(one) != id {
        let k = choose|k: int| 0 <= k < values.len() && values[k] == one;
        assert(rest.contains(values[k]));
    }
    lemma_first(rest, crate::collections::has_id::<T>(id));
    if let Some(found) = with_id::<T>(rest, id) {
        let k = choose|k: int| 0 <= k < rest.len() && rest[k] == found;
        assert(T::identity(rest[k]) != id);
    }
}

/// Deleting a profile takes nothing from search profiles and rules but the references to it.
pub proof fn law_deletion_keeps_other_references(
    settings: AppSettingsModel,
    id: Seq<char>,
    other: Seq<char>,
    k: int,
)
    requires
        0 <= k < settings.search_profiles.len(),
        other != id,
    ensures
        ({
            let before = settings.search_profiles[k];
            let after = forgotten(settings, ProfileKind::Keyword, id).search_profiles[k];
            &&& after.keyword_profiles.contains(other) <==> before.keyword_profiles.contains(other)
            &&& after.section_profiles == before.section_profiles
            &&& after.channel_profiles == before.channel_profiles
            &&& after.author_profiles == before.author_profiles
            &&& after.id == before.id
            &&& after.query == before.query
        }),
        ({
            let before = settings.search_profiles[k];
            let after = forgotten(settings, ProfileKind::Section, id).search_profiles[k];
            &&& after.section_profiles.contains(other) <==> before.section_profiles.contains(other)
            &&& after.keyword_profiles == before.keyword_profiles
            &&& after.channel_profiles == before.channel_profiles
            &&& after.author_profiles == before.author_profiles
        }),
        ({
            let before = settings.search_profiles[k];
            let after = forgotten(settings, ProfileKind::Channel, id).search_profiles[k];
            &&& after.channel_profiles.contains(other) <==> before.channel_profiles.contains(other)
            &&& after.keyword_profiles == before.keyword_profiles
            &&& after.section_profiles == before.section_profiles
            &&& after.author_profiles == before.author_profiles
        }),
        ({
            let before = settings.search_profiles[k];
            let after = forgotten(settings, ProfileKind::Author, id).search_profiles[k];
            &&& after.author_profiles.contains(other) <==> before.author_profiles.contains(other)
            &&& after.keyword_profiles == before.keyword_profiles
            &&& after.section_profiles == before.section_profiles
            &&& after.channel_profiles == before.channel_profiles
        }),
{
    let profile = settings.search_profiles[k];
    crate::forms::law_taken_references_are_gone(profile.keyword_profiles, id, other);
    crate::forms::law_taken_references_are_gone(profile.section_profiles, id, other);
    crate::forms::law_taken_references_are_gone(profile.channel_profiles, id, other);
    crate::forms::law_taken_references_are_gone(profile.author_profiles, id, other);
}

/// A section or a search profile that is deleted does not filter any more.
pub proof fn law_deleted_filters_end(state: UiStateModel, id: Seq<char>)
    ensures
        without_section(state, id).section_filter != Some(id),
        state.section_filter != Some(id) ==> without_section(state, id).section_filter
            == state.section_filter,
        without_search(state, id).settings.active_search_profile_id != Some(id),
        state.settings.active_search_profile_id != Some(id) ==> without_search(
            state,
            id,
        ).settings.active_search_profile_id == state.settings.active_search_profile_id,
        with_id::<crate::settings::SectionProfile>(
            without_section(state, id).settings.section_profiles,
            id,
        ) is None,
        with_id::<crate::settings::SearchProfile>(
            without_search(state, id).settings.search_profiles,
            id,
        ) is None,
{
    let sections = state.settings.section_profiles;
    let searches = state.settings.search_profiles;
    law_deleted_values_are_gone::<crate::settings::SectionProfile>(sections, id, sections[0]);
    law_deleted_values_are_gone::<crate::settings::SearchProfile>(searches, id, searches[0]);
}

/// A workspace that is forgotten is not known any more. If it was the active one, the first of the
/// others is; else the active one stays.
pub proof fn law_forgotten_workspaces_are_gone(state: UiStateModel, key: Seq<char>)
    ensures
        ({
            let after = crate::updates::without_workspace(state, key);
            let rest = after.settings.workspaces;
            let known = with_id::<WorkspaceProfile>(state.settings.workspaces, key) is Some;
            &&& with_id::<WorkspaceProfile>(rest, key) is None
            &&& known && state.workspace_key() == key && rest.len() > 0
                ==> after.settings.active_workspace_key == Some(rest[0].key)
            &&& known && state.workspace_key() == key && rest.len() == 0
                ==> after.settings.active_workspace_key is None
            &&& !known || state.workspace_key() != key ==> after.settings.active_workspace_key
                == state.settings.active_workspace_key
        }),
{
    let workspaces = state.settings.workspaces;
    law_deleted_values_are_gone::<WorkspaceProfile>(workspaces, key, workspaces[0]);
}

/// The card of a message shows the message and nothing else: its author and channel, its text, its
/// attachments, and how many cached replies its thread has. It can be changed by who wrote it.
pub proof fn law_cards_show_messages(
    state: UiStateModel,
    item: TimelineItemModel,
    session: StoredSlackSessionModel,
    shown_at: Timestamp,
    now: Timestamp,
)
    requires
        state.source_items.len() <= usize::MAX,
    ensures
        ({
            let card = state.card(
                item,
                SlackAuthStatusModel::Connected(session),
                shown_at,
                now,
            );
            &&& card.author_name == item.author_name
            &&& card.channel_name == item.channel_name
            &&& card.avatar_path == item.author_avatar_path
            &&& card.attachments == item.attachments
            &&& card.copy_text == crate::emoji::with_emoji(item.body)
            &&& card.can_copy <==> trim(item.body).len() > 0
            &&& card.can_manage <==> session.user_id == Some(item.author_id) || session.bot_user_id
                == Some(item.author_id)
            &&& card.reply_count == state.source_items.filter(
                |other: TimelineItemModel|
                    other.thread_ts == item.thread_ts && other.message_ts != item.thread_ts,
            ).len()
            &&& card.reactions.len() == item.reactions.len()
            &&& forall|k: int|
                0 <= k < item.reactions.len() ==> (#[trigger] card.reactions[k]).name
                    == item.reactions[k].name && card.reactions[k].active == item.reactions[k].me
        }),
{
    let one = crate::items::is_reply_in(item.thread_ts);
    let other = |other: TimelineItemModel|
        other.thread_ts == item.thread_ts && other.message_ts != item.thread_ts;
    assert(one =~= other);
    state.source_items.lemma_filter_len(one);
}

/// A reaction is shown by its emoji and how often it was given.
pub proof fn law_chips_show_counts(reaction: ReactionSummaryModel)
    ensures
        chip_of(reaction).label == reaction.emoji + " "@ + decimal(reaction.count as nat),
        chip_of(reaction).active == reaction.me,
{
}

/// In the column of a thread the root and the focused message are marked, and a message is shown
/// with the time that its timestamp stands for.
pub proof fn law_thread_cards_are_marked(
    state: UiStateModel,
    item: TimelineItemModel,
    status: SlackAuthStatusModel,
    now: Timestamp,
)
    ensures
        ({
            let card = state.thread_card(item, status, now);
            &&& card.is_root <==> item.message_ts == item.thread_ts
            &&& card.is_focused <==> state.focused_thread_message_ts == Some(item.message_ts)
            &&& crate::stamps::stamped_point(item.message_ts) matches Some(point)
                ==> card.card.shown_at == point
            &&& crate::stamps::stamped_point(item.message_ts) is None ==> card.card.shown_at
                == item.last_activity_at
        }),
{
}

/// What is saved takes the place of the first that has its identifier, or the last place; the
/// others stay where they are.
pub proof fn law_saved_values_are_replaced<T: Identified>(
    values: Seq<T::V>,
    one: T::V,
    at: int,
)
    requires
        0 <= at <= values.len(),
        forall|k: int| 0 <= k < at ==> T::identity(#[trigger] values[k]) != T::identity(one),
    ensures
        at < values.len() && T::identity(values[at]) == T::identity(one)
            ==> crate::collections::upserted::<T>(values, one) == values.update(at, one),
        at == values.len() ==> crate::collections::upserted::<T>(values, one) == values.push(one),
    decreases at,
{
    let saved = crate::collections::upserted::<T>(values, one);
    if at > 0 {
        let rest = values.skip(1);
        assert(T::identity(values[0]) != T::identity(one));
        assert forall|k: int| 0 <= k < at - 1 implies T::identity(#[trigger] rest[k])
            != T::identity(one) by {
            assert(T::identity(values[k + 1]) != T::identity(one));
        }
        law_saved_values_are_replaced::<T>(rest, one, at - 1);
        if at < values.len() && T::identity(values[at]) == T::identity(one) {
            assert(rest[at - 1] == values[at]);
            assert(saved =~= values.update(at, one));
        }
        if at == values.len() {
            assert(saved =~= values.push(one));
        }
    } else {
        if values.len() > 0 && T::identity(values[0]) == T::identity(one) {
            assert(saved =~= values.update(0, one));
        }
        if values.len() == 0 {
            assert(saved =~= values.push(one));
        }
    }
}

/// A permission that is saved for a channel is what the channel has from then on, one that is
/// cleared gives way to the default, and the default is what was saved as such.
pub proof fn law_saved_permissions_decide(
    state: UiStateModel,
    channel_id: Seq<char>,
    other: Seq<char>,
    permission: ChannelPermission,
)
    requires
        other != channel_id,
    ensures
        crate::forms::with_override(state, channel_id, permission).settings.permission(channel_id)
            == permission,
        crate::forms::with_override(state, channel_id, permission).settings.permission(other)
            == state.settings.permission(other),
        crate::forms::without_override(state, channel_id).settings.permission(channel_id)
            == state.settings.default_channel_permission,
        crate::forms::without_override(state, channel_id).settings.permission(other)
            == state.settings.permission(other),
        lookup(state.settings.channel_permissions, other) is None
            ==> crate::forms::with_default_permission(state, permission).settings.permission(other)
            == permission,
        lookup(state.settings.channel_permissions, other) is Some
            ==> crate::forms::with_default_permission(state, permission).settings.permission(other)
            == state.settings.permission(other),
{
    crate::forms::law_overrides_decide(state.settings, channel_id, other, permission);
}

/// A profile that is saved is found, and no other setting changes.
pub proof fn law_saved_profiles_are_settings(
    state: UiStateModel,
    keyword: crate::settings::KeywordProfileModel,
    section: crate::settings::SectionProfileModel,
    channel: crate::settings::ChannelProfileModel,
    author: crate::settings::AuthorProfileModel,
    search: crate::settings::SearchProfileModel,
)
    ensures
        ({
            let after = crate::forms::with_keyword(state, keyword).settings;
            &&& with_id::<crate::settings::KeywordProfile>(after.keyword_profiles, keyword.id)
                == Some(keyword)
            &&& after == (AppSettingsModel {
                keyword_profiles: after.keyword_profiles,
                ..state.settings
            })
        }),
        ({
            let after = crate::forms::with_section(state, section).settings;
            &&& with_id::<crate::settings::SectionProfile>(after.section_profiles, section.id)
                == Some(section)
            &&& after == (AppSettingsModel {
                section_profiles: after.section_profiles,
                ..state.settings
            })
        }),
        ({
            let after = crate::forms::with_channel(state, channel).settings;
            &&& with_id::<crate::settings::ChannelProfile>(after.channel_profiles, channel.id)
                == Some(channel)
            &&& after == (AppSettingsModel {
                channel_profiles: after.channel_profiles,
                ..state.settings
            })
        }),
        ({
            let after = crate::forms::with_author(state, author).settings;
            &&& with_id::<crate::settings::AuthorProfile>(after.author_profiles, author.id) == Some(
                author,
            )
            &&& after == (AppSettingsModel {
                author_profiles: after.author_profiles,
                ..state.settings
            })
        }),
        ({
            let after = crate::forms::with_search(state, search).settings;
            &&& with_id::<crate::settings::SearchProfile>(after.search_profiles, search.id) == Some(
                search,
            )
            &&& after == (AppSettingsModel {
                search_profiles: after.search_profiles,
                ..state.settings
            })
        }),
{
    let settings = state.settings;
    crate::forms::law_saved_profiles_are_found::<crate::settings::KeywordProfile>(
        settings.keyword_profiles,
        keyword,
        keyword.id,
    );
    crate::forms::law_saved_profiles_are_found::<crate::settings::SectionProfile>(
        settings.section_profiles,
        section,
        section.id,
    );
    crate::forms::law_saved_profiles_are_found::<crate::settings::ChannelProfile>(
        settings.channel_profiles,
        channel,
        channel.id,
    );
    crate::forms::law_saved_profiles_are_found::<crate::settings::AuthorProfile>(
        settings.author_profiles,
        author,
        author.id,
    );
    crate::forms::law_saved_profiles_are_found::<crate::settings::SearchProfile>(
        settings.search_profiles,
        search,
        search.id,
    );
}

/// A profile that is deleted is gone from the settings.
pub proof fn law_deleted_profiles_are_no_settings(state: UiStateModel, id: Seq<char>)
    ensures
        with_id::<crate::settings::KeywordProfile>(
            crate::forms::without_keyword(state, id).settings.keyword_profiles,
            id,
        ) is None,
        with_id::<crate::settings::ChannelProfile>(
            crate::forms::without_channel(state, id).settings.channel_profiles,
            id,
        ) is None,
        with_id::<crate::settings::AuthorProfile>(
            crate::forms::without_author(state, id).settings.author_profiles,
            id,
        ) is None,
{
    let settings = state.settings;
    law_deleted_values_are_gone::<crate::settings::KeywordProfile>(
        settings.keyword_profiles,
        id,
        settings.keyword_profiles[0],
    );
    law_deleted_values_are_gone::<crate::settings::ChannelProfile>(
        settings.channel_profiles,
        id,
        settings.channel_profiles[0],
    );
    law_deleted_values_are_gone::<crate::settings::AuthorProfile>(
        settings.author_profiles,
        id,
        settings.author_profiles[0],
    );
}

/// What the user chooses to search or filter by counts if there is such a profile or section; the
/// white space around its identifier does not matter.
pub proof fn law_choices_must_exist(state: UiStateModel, choice: Seq<char>)
    ensures
        ({
            let found = trim(choice).len() > 0 && with_id::<crate::settings::SearchProfile>(
                state.settings.search_profiles,
                trim(choice),
            ) is Some;
            &&& state.chosen_profile(Some(choice)) == (if found {
                Some(trim(choice))
            } else {
                None
            })
            &&& state.chosen_profile(None) is None
        }),
        ({
            let found = trim(choice).len() > 0 && with_id::<crate::settings::SectionProfile>(
                state.settings.section_profiles,
                trim(choice),
            ) is Some;
            &&& state.chosen_section(Some(choice)) == (if found {
                Some(trim(choice))
            } else {
                None
            })
            &&& state.chosen_section(None) is None
        }),
{
}

/// What an administrator did is shown: a channel that was created is known, one that was renamed
/// bears its name, and one that was archived is gone.
pub proof fn law_administration_is_shown(
    state: UiStateModel,
    update: crate::actions::AdminActionUpdateModel,
    now: Timestamp,
    id: Seq<char>,
    name: Seq<char>,
)
    requires
        trim(name).len() > 0,
    ensures
        update.created_channel == Some((id, name)) && update.renamed_channel is None
            && update.archived_channel_id is None ==> lookup(
            state.administered(update, now).known_channels,
            id,
        ) == Some(name),
        update.created_channel is None && update.renamed_channel == Some((id, name))
            && update.archived_channel_id is None ==> lookup(
            state.administered(update, now).known_channels,
            id,
        ) == Some(name) && forall|k: int|
            0 <= k < state.source_items.len() && state.source_items[k].channel_id == id ==> (
            #[trigger] state.administered(update, now).source_items[k]).channel_name == name,
        update.archived_channel_id == Some(id) ==> lookup(
            state.administered(update, now).known_channels,
            id,
        ) is None && !crate::items::any_item(
            state.administered(update, now).source_items,
            crate::items::in_channel(id),
        ),
{
    lemma_lookup_bind(state.known_channels, id, name, id);
    let created = match update.created_channel {
        Some((id, name)) => UiStateModel {
            known_channels: crate::updates::learned_channel(state.known_channels, id, name),
            ..state
        },
        None => state,
    };
    let renamed = match update.renamed_channel {
        Some((id, name)) if !crate::text::is_blank(name) => created.with_renamed_channel(
            id,
            name,
        ).reranked(now, false),
        _ => created,
    };
    crate::laws::law_archived_channels_are_gone(renamed, id);
}

/// A workspace is known by the name of its team, or by its identifier.
pub proof fn law_workspaces_are_called_by_team(
    key: Seq<char>,
    session: StoredSlackSessionModel,
)
    ensures
        ({
            let profile = crate::events::profile_of(key, session);
            &&& profile.key == key
            &&& session.team_name matches Some(name) ==> profile.label == name
            &&& session.team_name is None ==> (session.team_id matches Some(id) ==> profile.label
                == id)
            &&& profile.team_id == session.team_id
            &&& profile.team_name == session.team_name
            &&& profile.app_id == session.app_id
        }),
{
}

/// What the directory of users can complete: a message whose author has no name but the identifier,
/// or no picture, or that has an image that cannot be shown.
pub proof fn law_what_the_directory_completes(
    item: TimelineItemModel,
    broken: Seq<Seq<char>>,
)
    requires
        item.attachments.len() == 0,
    ensures
        crate::queries::lacks_author(broken)(item) <==> (item.author_name == item.author_id
            && item.author_name != "you"@) || item.author_avatar_path is None,
        crate::queries::lacks_channel_name()(item) <==> trim(item.channel_name).len() == 0
            || item.channel_name == item.channel_id,
{
}

/// An image is fetched again exactly if its cached file is one of those that cannot be shown.
pub proof fn law_broken_images_are_fetched_again(
    item: TimelineItemModel,
    broken: Seq<Seq<char>>,
    path: Seq<char>,
    at: int,
)
    requires
        0 <= at < item.attachments.len(),
        item.attachments[at].kind == crate::models::AttachmentKind::Image,
        item.attachments[at].url == Some(path),
    ensures
        broken.contains(path) ==> crate::queries::lacks_author(broken)(item),
        broken.len() == 0 ==> !crate::queries::lacks_image(item.attachments, broken),
{
    if broken.contains(path) {
        assert(crate::queries::needs_image(item.attachments[at], broken));
    }
}

/// The rooms to choose from are the known workspaces, by key and label, and the active one before
/// them if it is not known.
pub proof fn law_rooms_are_workspaces(state: UiStateModel, at: int)
    requires
        0 <= at < state.settings.workspaces.len(),
    ensures
        ({
            let rooms = crate::actions::room_options(state);
            let all = state.settings.workspaces;
            let known = exists|k: int|
                0 <= k < all.len() && (#[trigger] all[k]).key == state.workspace_key();
            &&& known ==> rooms.len() == all.len() && rooms[at] == (all[at].key, all[at].label)
            &&& !known ==> rooms.len() == all.len() + 1 && rooms[at + 1] == (
                all[at].key,
                all[at].label,
            ) && rooms[0].0 == state.workspace_key()
        }),
{
    let all = state.settings.workspaces;
    let pairs = all.map_values(
        |profile: crate::settings::WorkspaceProfileModel| (profile.key, profile.label),
    );
    let known = exists|k: int|
        0 <= k < all.len() && (#[trigger] all[k]).key == state.workspace_key();
    if known {
        let k = choose|k: int|
            0 <= k < all.len() && (#[trigger] all[k]).key == state.workspace_key();
        assert(pairs[k].0 == state.workspace_key());
    } else {
        assert forall|k: int| 0 <= k < pairs.len() implies (#[trigger] pairs[k]).0
            != state.workspace_key() by {
            assert(all[k].key != state.workspace_key());
        }
    }
}

/// What a preview counts by: a message that holds one of the keywords, one in a channel that is
/// listed, one of an author who is listed, one that passes the search profile.
pub proof fn law_previews_judge_as_profiles_do(
    settings: AppSettingsModel,
    matchers: Seq<PatternMatcherModel>,
    listed: Seq<Seq<char>>,
    id: Seq<char>,
    item: TimelineItemModel,
)
    requires
        crate::decisions::all_usable(matchers),
    ensures
        crate::previews::by_keywords(matchers)(item) == Ok::<bool, Seq<char>>(
            crate::decisions::one_finds(matchers, item.body),
        ),
        crate::previews::by_channel(listed, matchers)(item) == Ok::<bool, Seq<char>>(
            listed.contains(item.channel_id) || crate::decisions::one_finds_channel(
                matchers,
                item.channel_name,
            ),
        ),
        crate::previews::by_authors(listed)(item) == Ok::<bool, Seq<char>>(
            listed.contains(item.author_id),
        ),
        settings.search_outcome(id, item) matches Ok(hit) ==> crate::previews::by_search(
            settings,
            id,
        )(item) == Ok::<bool, Seq<char>>(hit),
{
    crate::decisions::law_matchers_find_what_one_finds(matchers, item.body);
    crate::decisions::law_matchers_find_channels(matchers, item.channel_name);
}

/// A preview tells the numbers: of channels no more than the cap, with a plus sign behind it.
pub proof fn law_previews_tell_numbers(messages: nat, threads: nat, channels: nat, cap: nat)
    ensures
        channels <= cap ==> crate::previews::capped_count(channels, cap) == decimal(channels),
        channels > cap ==> crate::previews::capped_count(channels, cap) == decimal(cap) + "+"@,
        exists|count: Seq<char>|
            crate::previews::match_summary(messages, threads, channels) == decimal(messages)
                + " cached messages across "@ + decimal(threads) + " threads in "@ + #[trigger] (
            count + " channels."@) && (count == decimal(channels) || count == decimal(
                crate::previews::PROFILE_SUMMARY_CHANNEL_CAP as nat,
            ) + "+"@),
{
    let count = crate::previews::capped_count(
        channels,
        crate::previews::PROFILE_SUMMARY_CHANNEL_CAP as nat,
    );
    let start = decimal(messages) + " cached messages across "@ + decimal(threads)
        + " threads in "@;
    assert(start + count + " channels."@ =~= start + (count + " channels."@));
}

} // verus!
