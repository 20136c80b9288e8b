//! What holds of the state of the program, whatever it goes through.
use vstd::prelude::*;

use crate::auth::StoredSlackSessionModel;
use crate::collections::{first_match, lemma_lookup_unbind, lookup};
use crate::events::message_step;
use crate::items::{any_item, in_channel, in_thread, is_message, not};
use crate::models::{AttachmentSummaryModel, RankedTimelineItemModel, TimelineItemModel};
use crate::state::{shows_message, UiStateModel};
use crate::time::Timestamp;
use crate::updates::{active_at, changed_first, stirred_by};

verus! {

/// What the timeline shows is the root of a thread, is cached, is in a channel that may be read,
/// and passes the filters.
pub proof fn law_shown_items_are_readable_roots(
    state: UiStateModel,
    now: Timestamp,
    reset_paging: bool,
    entry: RankedTimelineItemModel,
)
    requires
        state.reranked(now, reset_paging).filtered_ranked_items.contains(entry),
    ensures
        entry.item.message_ts == entry.item.thread_ts,
        state.source_items.contains(entry.item),
        state.settings.permission(entry.item.channel_id).readable(),
        state.keeps(entry),
{
    let roots = crate::state::timeline_roots(state.settings, state.source_items);
    let ranked = crate::ranking::visible(state.mode, state.settings.timeline, now, roots);
    let open = UiStateModel { ranked_items: ranked, ..state };
    let keep = |ranked: RankedTimelineItemModel| open.keeps(ranked);
    assert(state.reranked(now, reset_paging).filtered_ranked_items == ranked.filter(keep));
    ranked.lemma_filter_contains_rev(keep, entry);
    assert(open.keeps(entry) == state.keeps(entry));
    crate::ranking::law_visible_items_are_the_shown_ones(
        state.mode,
        state.settings.timeline,
        now,
        roots,
        entry,
    );
    let root = crate::state::root_in_readable_channel(state.settings);
    state.source_items.lemma_filter_contains_rev(root, entry.item);
}

/// A message of a channel that is hidden never shows.
pub proof fn law_hidden_channels_never_show(
    state: UiStateModel,
    now: Timestamp,
    reset_paging: bool,
    entry: RankedTimelineItemModel,
)
    requires
        !state.settings.permission(entry.item.channel_id).readable(),
    ensures
        !state.reranked(now, reset_paging).filtered_ranked_items.contains(entry),
{
    if state.reranked(now, reset_paging).filtered_ranked_items.contains(entry) {
        law_shown_items_are_readable_roots(state, now, reset_paging, entry);
    }
}

/// After filtering, what is selected is shown, and something is selected exactly if anything is
/// shown.
pub proof fn law_selection_is_shown(state: UiStateModel, reset_paging: bool)
    ensures
        ({
            let after = state.filtered(reset_paging);
            &&& after.selected_message_ts is Some <==> after.filtered_ranked_items.len() > 0
            &&& after.selected_message_ts matches Some(ts) ==> shows_message(
                after.filtered_ranked_items,
                ts,
            )
        }),
{
    let after = state.filtered(reset_paging);
    let shown = after.filtered_ranked_items;
    if shown.len() > 0 {
        assert(shown[0].item.message_ts == shown.first().item.message_ts);
    }
}

/// Filtering what is filtered changes nothing.
pub proof fn law_filtering_again_changes_nothing(state: UiStateModel, reset_paging: bool)
    ensures
        state.filtered(reset_paging).filtered(false) == state.filtered(reset_paging),
{
    let once = state.filtered(reset_paging);
    law_selection_is_shown(state, reset_paging);
    let first = |ranked: RankedTimelineItemModel| state.keeps(ranked);
    let second = |ranked: RankedTimelineItemModel| once.keeps(ranked);
    assert(first =~= second);
    assert(once.kept() == state.kept());
    assert(once.filtered(false) =~= once);
}

/// Loading more never takes an item away, never loads more than there is, and loads all of it in
/// the end: what is not loaded gets less.
pub proof fn law_paging_goes_forward(state: UiStateModel)
    requires
        state.wf(),
        state.filtered_ranked_items.len() <= usize::MAX,
    ensures
        ({
            let after = state.with_more_loaded();
            &&& after.wf()
            &&& state.loaded().is_prefix_of(after.loaded())
            &&& state.loaded_timeline_items < state.filtered_ranked_items.len()
                ==> state.loaded_timeline_items < after.loaded_timeline_items
        }),
{
    let after = state.with_more_loaded();
    assert(state.loaded() =~= after.loaded().take(state.loaded().len() as int));
}

/// What a reply makes of the root of its thread keeps every message where it is.
proof fn lemma_stirring_keeps_messages(
    items: Seq<TimelineItemModel>,
    condition: spec_fn(TimelineItemModel) -> bool,
    reply: TimelineItemModel,
)
    ensures
        changed_first(items, condition, stirred_by(reply)).len() == items.len(),
        forall|k: int|
            0 <= k < items.len() ==> (#[trigger] changed_first(
                items,
                condition,
                stirred_by(reply),
            )[k]).message_ts == items[k].message_ts,
    decreases items.len(),
{
    if items.len() > 0 {
        let rest = items.skip(1);
        lemma_stirring_keeps_messages(rest, condition, reply);
        let all = changed_first(items, condition, stirred_by(reply));
        assert forall|k: int| 0 <= k < items.len() implies (#[trigger] all[k]).message_ts
            == items[k].message_ts by {
            if !condition(items.first()) && k > 0 {
                assert(all[k] == changed_first(rest, condition, stirred_by(reply))[k - 1]);
                assert(rest[k - 1] == items[k]);
            }
        }
    }
}

/// A message that came is cached, and comes only once: coming again changes nothing.
pub proof fn law_messages_come_once(state: UiStateModel, item: TimelineItemModel, now: Timestamp)
    ensures
        state.taking(item, now).has_message(item.message_ts),
        state.taking(item, now).taking(item, now) == state.taking(item, now),
{
    if !state.has_message(item.message_ts) {
        let items = state.source_items.push(item);
        let at = state.source_items.len() as int;
        assert(items[at] == item);
        lemma_stirring_keeps_messages(items, is_message(item.thread_ts), item);
        let after = state.taking(item, now);
        assert(after.source_items == state.with_incoming(item).source_items);
        assert(is_message(item.message_ts)(after.source_items[at]));
    }
}

/// A root that is deleted takes its whole thread with it; a reply that is deleted is gone itself.
pub proof fn law_deleted_messages_are_gone(
    state: UiStateModel,
    message_ts: Seq<char>,
    now: Timestamp,
)
    ensures
        first_match(state.source_items, is_message(message_ts)) matches Some(target) ==> (
        if target.message_ts == target.thread_ts {
            !any_item(state.deleting(message_ts, now).source_items, in_thread(target.thread_ts))
        } else {
            !state.deleting(message_ts, now).has_message(message_ts)
        }),
{
    if let Some(target) = first_match(state.source_items, is_message(message_ts)) {
        lemma_found_matches(state.source_items, is_message(message_ts));
        let after = state.deleting(message_ts, now).source_items;
        if target.message_ts == target.thread_ts {
            let gone = not(in_thread(target.thread_ts));
            assert(after == state.source_items.filter(gone));
            assert forall|k: int| 0 <= k < after.len() implies !in_thread(target.thread_ts)(
                #[trigger] after[k],
            ) by {
                state.source_items.lemma_filter_contains_rev(gone, after[k]);
            }
        } else {
            let gone = not(is_message(message_ts));
            let rest = state.source_items.filter(gone);
            let at = crate::updates::latest_activity(rest, target);
            assert(after == rest.map_values(active_at(target.thread_ts, at)));
            assert forall|k: int| 0 <= k < after.len() implies !is_message(message_ts)(
                #[trigger] after[k],
            ) by {
                state.source_items.lemma_filter_contains_rev(gone, rest[k]);
            }
        }
    }
}

/// What is found passes.
proof fn lemma_found_matches(
    items: Seq<TimelineItemModel>,
    condition: spec_fn(TimelineItemModel) -> bool,
)
    ensures
        first_match(items, condition) matches Some(item) ==> condition(item) && items.contains(
            item,
        ),
    decreases items.len(),
{
    if items.len() > 0 {
        if condition(items.first()) {
            assert(items[0] == items.first());
        } else {
            let rest = items.skip(1);
            lemma_found_matches(rest, condition);
            if let Some(item) = first_match(rest, condition) {
                let k = choose|k: int| 0 <= k < rest.len() && rest[k] == item;
                assert(items[k + 1] == item);
            }
        }
    }
}

/// An edit changes the text of the message and nothing else: no other message, and nothing in the
/// number and order of the items.
pub proof fn law_edits_change_one_message(
    state: UiStateModel,
    message_ts: Seq<char>,
    body: Seq<char>,
    now: Timestamp,
    at: int,
)
    requires
        0 <= at < state.source_items.len(),
    ensures
        ({
            let before = state.source_items;
            let after = state.editing(message_ts, body, now).source_items;
            &&& after.len() == before.len()
            &&& before[at].message_ts != message_ts ==> after[at] == before[at]
            &&& before[at].message_ts == message_ts ==> after[at] == (TimelineItemModel {
                body,
                rich_text_blocks: Seq::empty(),
                ..before[at]
            })
        }),
{
    if state.source_items[at].message_ts == message_ts {
        assert(is_message(message_ts)(state.source_items[at]));
    }
}

/// Nothing of an archived channel is left: no item, no name, no filter.
pub proof fn law_archived_channels_are_gone(state: UiStateModel, channel_id: Seq<char>)
    ensures
        ({
            let after = state.without_channel(channel_id);
            &&& !any_item(after.source_items, in_channel(channel_id))
            &&& lookup(after.known_channels, channel_id) is None
            &&& lookup(after.typing_by_channel, channel_id) is None
            &&& after.channel_filter != Some(channel_id)
        }),
{
    let gone = not(in_channel(channel_id));
    let after = state.without_channel(channel_id);
    lemma_lookup_unbind(state.known_channels, channel_id, channel_id);
    lemma_lookup_unbind(state.typing_by_channel, channel_id, channel_id);
    assert forall|k: int| 0 <= k < after.source_items.len() implies !in_channel(channel_id)(
        #[trigger] after.source_items[k],
    ) by {
        state.source_items.lemma_filter_contains_rev(gone, after.source_items[k]);
    }
}

/// Every channel that is offered to post to may be read and written to, and is a known one.
pub proof fn law_offered_channels_take_posts(state: UiStateModel, pair: (Seq<char>, Seq<char>))
    requires
        state.post_channels().contains(pair),
    ensures
        state.settings.permission(pair.0).writable(),
        state.settings.permission(pair.0).readable(),
        state.channels().contains(pair),
{
    let writable = |pair: (Seq<char>, Seq<char>)| state.settings.permission(pair.0).writable();
    state.channels().lemma_filter_contains_rev(writable, pair);
}

/// The user is never notified of what they, or their bot, wrote; and what they are notified of is
/// what came.
pub proof fn law_own_messages_do_not_notify(
    state: UiStateModel,
    session: StoredSlackSessionModel,
    attachments: Seq<AttachmentSummaryModel>,
    event: crate::slack::SlackMessageEventModel,
    hour: u8,
    now: Timestamp,
)
    ensures
        message_step(state, session, attachments, event, hour, now).1.notification matches Some(
            notified,
        ) ==> {
            &&& session.user_id != Some(notified.0.author_id)
            &&& session.bot_user_id != Some(notified.0.author_id)
            &&& crate::history::live_item(state, session, attachments, event, now) == Some(
                notified.0,
            )
            &&& message_step(state, session, attachments, event, hour, now).0.has_message(
                notified.0.message_ts,
            )
        },
{
    if let Some(item) = crate::history::live_item(state, session, attachments, event, now) {
        law_messages_come_once(state, item, now);
    }
}

/// A notification that is followed leads to its message: it is focused, and its thread is
/// selected and highlighted.
pub proof fn law_followed_notifications_are_focused(
    state: UiStateModel,
    target: TimelineItemModel,
)
    requires
        state.ranked_items.len() <= usize::MAX,
    ensures
        ({
            let after = state.focusing(target);
            &&& after.focused_thread_message_ts == Some(target.message_ts)
            &&& after.selected_message_ts == Some(target.thread_ts)
            &&& after.highlighted_timeline_message_ts == Some(target.thread_ts)
            &&& shows_message(after.filtered_ranked_items, target.thread_ts) ==> shows_message(
                after.loaded(),
                target.thread_ts,
            )
        }),
{
    let after = state.focusing(target);
    let shown = after.filtered_ranked_items;
    let open = UiStateModel {
        settings: crate::settings::AppSettingsModel {
            active_search_profile_id: None,
            ..state.settings
        },
        ..state.without_filters()
    };
    let keep = |ranked: RankedTimelineItemModel| open.keeps(ranked);
    open.ranked_items.lemma_filter_len(keep);
    assert(shown == open.ranked_items.filter(keep));
    lemma_position(shown, target.thread_ts, 0);
    if let Some(at) = crate::updates::position_of_message(shown, target.thread_ts, 0) {
        if after.loaded_timeline_items <= shown.len() {
            assert(after.loaded()[at].item.message_ts == target.thread_ts);
        } else {
            assert(shown[at].item.message_ts == target.thread_ts);
        }
    }
}

proof fn lemma_position(
    ranked: Seq<RankedTimelineItemModel>,
    message_ts: Seq<char>,
    from: int,
)
    requires
        0 <= from <= ranked.len(),
    ensures
        match crate::updates::position_of_message(ranked, message_ts, from) {
            Some(at) => from <= at < ranked.len() && ranked[at].item.message_ts == message_ts,
            None => forall|k: int|
                from <= k < ranked.len() ==> (#[trigger] ranked[k]).item.message_ts != message_ts,
        },
    decreases ranked.len() - from,
{
    if from < ranked.len() && ranked[from].item.message_ts != message_ts {
        lemma_position(ranked, message_ts, from + 1);
    }
}

/// Choosing another workspace leaves no filter and no selection behind, and makes it the active
/// one.
pub proof fn law_another_workspace_starts_afresh(state: UiStateModel, key: Seq<char>)
    requires
        !state.is_active(key),
        key.len() > 0,
    ensures
        ({
            let after = state.switched(key);
            &&& after.is_active(key)
            &&& after.search_query.len() == 0
            &&& after.section_filter is None
            &&& after.channel_filter is None
            &&& after.author_filter is None
            &&& after.selected_message_ts is None
            &&& after.focused_thread_message_ts is None
        }),
{
}

/// A login leaves its workspace active and known.
pub proof fn law_logins_activate_their_workspace(
    state: UiStateModel,
    profile: crate::settings::WorkspaceProfileModel,
    items: Seq<TimelineItemModel>,
    now: Timestamp,
)
    requires
        profile.key.len() > 0,
    ensures
        ({
            let after = state.switched(profile.key).with_active_profile(profile).with_cached(
                items,
                now,
            );
            &&& after.is_active(profile.key)
            &&& crate::collections::with_id::<crate::settings::WorkspaceProfile>(
                after.settings.workspaces,
                profile.key,
            ) == Some(profile)
            &&& after.source_items == items
        }),
{
    crate::collections::lemma_with_id_upserted::<crate::settings::WorkspaceProfile>(
        state.switched(profile.key).settings.workspaces,
        profile,
        profile.key,
    );
}

} // verus!
