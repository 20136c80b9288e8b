//! What happens to the cached messages and to what the window shows of them.
use vstd::prelude::*;

use crate::collections::{
    in_order, lemma_lookup_bind, lemma_lookup_unbind, lemma_sorted_in_order,
    lemma_sorted_multiset, lookup, order_of,
};
use crate::decisions::{lemma_first, stands_in};
use crate::items::is_message;
use crate::matching::SettingsErrorModel;
use crate::models::{
    AttachmentSummaryModel, RankedTimelineItemModel, ReactionSummary, ReactionSummaryModel,
    TimelineItemModel,
};
use crate::reactions::{
    lemma_reaction_from, reaction_from, reactions_with, reactions_without, MostGivenFirst,
};
use crate::readings::{lemma_filtered, lemma_stands_in};
use crate::settings::AppSettingsModel;
use crate::state::{Names, UiStateModel};
use crate::text::{lowercase, trim};
use crate::time::Timestamp;
use crate::updates::{
    lemma_changed_first, merged_hits, refreshed, stirred_by,
};

verus! {

/// Whether the first section with the identifier lists the channel.
pub open spec fn in_section(
    settings: AppSettingsModel,
    id: Seq<char>,
    channel_id: Seq<char>,
) -> bool {
    exists|i: int|
        0 <= i < settings.section_profiles.len() && (#[trigger] settings.section_profiles[i]).id
            == id && settings.section_profiles[i].channels.contains(channel_id) && forall|k: int|
            0 <= k < i ==> (#[trigger] settings.section_profiles[k]).id != id
}

/// Whether there is a search profile with the identifier.
pub open spec fn has_search_profile(settings: AppSettingsModel, id: Seq<char>) -> bool {
    exists|i: int|
        0 <= i < settings.search_profiles.len() && (#[trigger] settings.search_profiles[i]).id
            == id
}

/// Whether a message is let through: it is in the section, in the channel and by the author that
/// are chosen, passes the search profile that is active, and holds the words that are searched
/// for, in its text, in its author's name or in its channel's name, without regard to case.
pub open spec fn let_through(state: UiStateModel, item: TimelineItemModel) -> bool {
    let words = lowercase(trim(state.search_query));
    &&& state.section_filter matches Some(id) ==> in_section(
        state.settings,
        id,
        item.channel_id,
    )
    &&& state.channel_filter matches Some(id) ==> item.channel_id == id
    &&& state.author_filter matches Some(id) ==> item.author_id == id
    &&& state.settings.active_search_profile_id matches Some(id) ==> has_search_profile(
        state.settings,
        id,
    ) ==> state.settings.search_outcome(id, item) == Ok::<bool, SettingsErrorModel>(true)
    &&& words.len() == 0 || stands_in(lowercase(item.body), words) || stands_in(
        lowercase(item.author_name),
        words,
    ) || stands_in(lowercase(item.channel_name), words)
}

proof fn lemma_let_through(state: UiStateModel, ranked: RankedTimelineItemModel)
    ensures
        state.keeps(ranked) == let_through(state, ranked.item),
{
    let item = ranked.item;
    let words = lowercase(trim(state.search_query));
    lemma_stands_in(lowercase(item.body), words);
    lemma_stands_in(lowercase(item.author_name), words);
    lemma_stands_in(lowercase(item.channel_name), words);
    if let Some(id) = state.section_filter {
        let sections = state.settings.section_profiles;
        let has = crate::collections::has_id::<crate::settings::SectionProfile>(id);
        lemma_first(sections, has);
        if in_section(state.settings, id, item.channel_id) {
            let i = choose|i: int|
                0 <= i < sections.len() && (#[trigger] sections[i]).id == id
                    && sections[i].channels.contains(item.channel_id) && forall|k: int|
                    0 <= k < i ==> (#[trigger] sections[k]).id != id;
            assert(has(sections[i]));
            crate::collections::lemma_first_match(sections, has, i);
        }
    }
    if let Some(id) = state.settings.active_search_profile_id {
        let profiles = state.settings.search_profiles;
        let has = crate::collections::has_id::<crate::settings::SearchProfile>(id);
        lemma_first(profiles, has);
        if has_search_profile(state.settings, id) {
            let i = choose|i: int| 0 <= i < profiles.len() && (#[trigger] profiles[i]).id == id;
            assert(has(profiles[i]));
        }
    }
}

/// What is shown after filtering is what was ranked and is let through, in the order of the
/// ranking; nothing else of the ranking and the cache changes.
pub proof fn law_filters_show_what_passes(state: UiStateModel, reset_paging: bool)
    ensures
        ({
            let after = state.filtered(reset_paging);
            &&& after.filtered_ranked_items == state.ranked_items.filter(
                |ranked: RankedTimelineItemModel| let_through(state, ranked.item),
            )
            &&& after.ranked_items == state.ranked_items
            &&& after.source_items == state.source_items
            &&& after.settings == state.settings
            &&& after.search_query == state.search_query
            &&& after.section_filter == state.section_filter
            &&& after.channel_filter == state.channel_filter
            &&& after.author_filter == state.author_filter
        }),
{
    let one = |ranked: RankedTimelineItemModel| state.keeps(ranked);
    let other = |ranked: RankedTimelineItemModel| let_through(state, ranked.item);
    assert forall|ranked: RankedTimelineItemModel| #[trigger] one(ranked) == other(ranked) by {
        lemma_let_through(state, ranked);
    }
    assert(one =~= other);
}

/// Sixty items are loaded at first, and sixty more each time; as many as are loaded stay loaded
/// when the filters are applied without going back to the start.
pub proof fn law_pages_have_sixty_items(state: UiStateModel)
    requires
        state.filtered_ranked_items.len() + 60 <= usize::MAX,
        state.ranked_items.len() <= usize::MAX,
        state.wf(),
    ensures
        ({
            let shown = state.filtered(true).filtered_ranked_items.len();
            &&& state.filtered(true).loaded_timeline_items == (if shown < 60 {
                shown
            } else {
                60
            })
            &&& state.filtered(false).loaded_timeline_items == (if shown < 60 {
                shown
            } else if state.loaded_timeline_items < 60 {
                60
            } else if shown < state.loaded_timeline_items {
                shown
            } else {
                state.loaded_timeline_items as nat
            })
        }),
        state.with_more_loaded().loaded_timeline_items == (if state.loaded_timeline_items + 60
            < state.filtered_ranked_items.len() {
            (state.loaded_timeline_items + 60) as nat
        } else {
            state.filtered_ranked_items.len()
        }),
{
    let keep = |ranked: RankedTimelineItemModel| state.keeps(ranked);
    state.ranked_items.lemma_filter_len(keep);
}

/// What is selected stays selected as long as it is shown; else the first that is shown is
/// selected. A highlight stays only where it is shown, and a focus only on a message that is
/// cached.
pub proof fn law_filtering_keeps_the_selection(
    state: UiStateModel,
    reset_paging: bool,
    ts: Seq<char>,
)
    ensures
        ({
            let after = state.filtered(reset_paging);
            let shown = after.filtered_ranked_items;
            let shows = exists|i: int|
                0 <= i < shown.len() && (#[trigger] shown[i]).item.message_ts == ts;
            let cached = exists|i: int|
                0 <= i < state.source_items.len() && (#[trigger] state.source_items[i]).message_ts
                    == ts;
            &&& state.selected_message_ts == Some(ts) && shows ==> after.selected_message_ts
                == Some(ts)
            &&& state.selected_message_ts == Some(ts) && !shows && shown.len() > 0
                ==> after.selected_message_ts == Some(shown[0].item.message_ts)
            &&& state.highlighted_timeline_message_ts == Some(ts)
                ==> after.highlighted_timeline_message_ts == (if shows {
                Some(ts)
            } else {
                None
            })
            &&& state.focused_thread_message_ts == Some(ts) ==> after.focused_thread_message_ts
                == (if cached {
                Some(ts)
            } else {
                after.selected_message_ts
            })
        }),
{
    let is = is_message(ts);
    assert forall|i: int| 0 <= i < state.source_items.len() implies is(
        #[trigger] state.source_items[i],
    ) == (state.source_items[i].message_ts == ts) by {}
}

/// The timeline ranks exactly the messages that are cached, start a thread, and are in a channel
/// that may be read.
pub proof fn law_roots_are_ranked(state: UiStateModel, item: TimelineItemModel)
    ensures
        crate::state::timeline_roots(state.settings, state.source_items).contains(item)
            <==> state.source_items.contains(item) && item.message_ts == item.thread_ts
            && state.settings.permission(item.channel_id) != crate::settings::ChannelPermission::Hidden,
{
    lemma_filtered(
        state.source_items,
        crate::state::root_in_readable_channel(state.settings),
        item,
    );
}

/// Keywords that are merged are those of both, each once if they were so.
proof fn lemma_merged_hits(hits: Seq<Seq<char>>, more: Seq<Seq<char>>, hit: Seq<char>)
    ensures
        merged_hits(hits, more).contains(hit) <==> hits.contains(hit) || more.contains(hit),
        hits.is_prefix_of(merged_hits(hits, more)),
    decreases more.len(),
{
    if more.len() > 0 {
        let less = more.drop_last();
        let merged = merged_hits(hits, less);
        lemma_merged_hits(hits, less, hit);
        assert(more =~= less.push(more.last()));
        assert(merged.push(more.last()).contains(hit) <==> merged.contains(hit) || hit
            == more.last()) by {
            let all = merged.push(more.last());
            if merged.contains(hit) {
                let k = choose|k: int| 0 <= k < merged.len() && merged[k] == hit;
                assert(all[k] == hit);
            }
            assert(all[merged.len() as int] == more.last());
        }
        assert(more.contains(hit) <==> less.contains(hit) || hit == more.last()) by {
            if less.contains(hit) {
                let k = choose|k: int| 0 <= k < less.len() && less[k] == hit;
                assert(more[k] == hit);
            }
            assert(more[more.len() - 1] == more.last());
            if more.contains(hit) && hit != more.last() {
                let k = choose|k: int| 0 <= k < more.len() && more[k] == hit;
                assert(less[k] == hit);
            }
        }
        assert(hits.is_prefix_of(merged.push(more.last())));
    }
}

/// A message that comes in is cached behind the others, and whoever typed in its channel is not
/// shown as typing any more. Of the others, at most the root of its thread changes: that one is
/// active when the reply is, and unread or mentioning the user if the reply is.
pub proof fn law_messages_come_in(state: UiStateModel, item: TimelineItemModel, at: int)
    requires
        0 <= at < state.source_items.len(),
    ensures
        ({
            let before = state.source_items;
            let after = state.with_incoming(item).source_items;
            let root = item.message_ts != item.thread_ts && before[at].message_ts == item.thread_ts
                && forall|k: int|
                0 <= k < at ==> (#[trigger] before[k]).message_ts != item.thread_ts;
            &&& after.len() == before.len() + 1
            &&& after[before.len() as int] == item
            &&& !root ==> after[at] == before[at]
            &&& root ==> {
                &&& after[at].last_activity_at == item.last_activity_at
                &&& after[at].unread == (before[at].unread || item.unread)
                &&& after[at].direct_mention == (before[at].direct_mention || item.direct_mention)
                &&& forall|hit: Seq<char>| #[trigger]
                    after[at].focus_keyword_hits.contains(hit)
                        <==> before[at].focus_keyword_hits.contains(hit)
                        || item.focus_keyword_hits.contains(hit)
                &&& after[at] == (TimelineItemModel {
                    last_activity_at: after[at].last_activity_at,
                    unread: after[at].unread,
                    direct_mention: after[at].direct_mention,
                    focus_keyword_hits: after[at].focus_keyword_hits,
                    ..before[at]
                })
            }
        }),
        forall|channel_id: Seq<char>| #[trigger]
            lookup(state.with_incoming(item).typing_by_channel, channel_id) == (if channel_id
                == item.channel_id {
                None
            } else {
                lookup(state.typing_by_channel, channel_id)
            }),
{
    let before = state.source_items;
    let all = before.push(item);
    let condition = is_message(item.thread_ts);
    assert forall|channel_id: Seq<char>| #[trigger]
        lookup(state.with_incoming(item).typing_by_channel, channel_id) == (if channel_id
            == item.channel_id {
            None
        } else {
            lookup(state.typing_by_channel, channel_id)
        }) by {
        lemma_lookup_unbind(state.typing_by_channel, item.channel_id, channel_id);
    }
    if item.message_ts != item.thread_ts {
        let n = first_index(all, item.thread_ts);
        lemma_first_index(all, item.thread_ts);
        lemma_changed_first(all, condition, stirred_by(item), n);
        assert(n != before.len());
        assert forall|hit: Seq<char>| #[trigger]
            merged_hits(before[at].focus_keyword_hits, item.focus_keyword_hits).contains(hit)
                <==> before[at].focus_keyword_hits.contains(hit)
                || item.focus_keyword_hits.contains(hit) by {
            lemma_merged_hits(before[at].focus_keyword_hits, item.focus_keyword_hits, hit);
        }
        assert(forall|k: int| 0 <= k < before.len() ==> all[k] == #[trigger] before[k]);
        let root = before[at].message_ts == item.thread_ts && forall|k: int|
            0 <= k < at ==> (#[trigger] before[k]).message_ts != item.thread_ts;
        if root {
            if n < at {
                assert(before[n].message_ts != item.thread_ts);
            }
            assert(condition(all[at]));
            assert(n == at);
        } else if n == at {
            assert(condition(all[at]));
            assert forall|k: int| 0 <= k < at implies (#[trigger] before[k]).message_ts
                != item.thread_ts by {
                assert(!condition(all[k]));
            }
        }
    }
}

/// The first position of a message, or the end.
spec fn first_index(items: Seq<TimelineItemModel>, ts: Seq<char>) -> int
    decreases items.len(),
{
    if items.len() == 0 || items.first().message_ts == ts {
        0
    } else {
        1 + first_index(items.skip(1), ts)
    }
}

proof fn lemma_first_index(items: Seq<TimelineItemModel>, ts: Seq<char>)
    ensures
        0 <= first_index(items, ts) <= items.len(),
        forall|k: int|
            0 <= k < first_index(items, ts) ==> !is_message(ts)(#[trigger] items[k]),
        first_index(items, ts) < items.len() ==> is_message(ts)(items[first_index(items, ts)]),
    decreases items.len(),
{
    if items.len() > 0 && items.first().message_ts != ts {
        let rest = items.skip(1);
        lemma_first_index(rest, ts);
        assert forall|k: int| 0 <= k < first_index(items, ts) implies !is_message(ts)(
            #[trigger] items[k],
        ) by {
            if k > 0 {
                assert(items[k] == rest[k - 1]);
            }
        }
    }
}

/// A reply of the user is cached behind the others; every message of its thread, and no other, is
/// then active when the reply is, with the user taking part.
pub proof fn law_replies_join_their_thread(state: UiStateModel, reply: TimelineItemModel, at: int)
    requires
        0 <= at < state.source_items.len(),
    ensures
        ({
            let before = state.source_items;
            let after = state.with_reply(reply).source_items;
            &&& after.len() == before.len() + 1
            &&& after[before.len() as int] == (TimelineItemModel { participant: true, ..reply })
            &&& before[at].thread_ts == reply.thread_ts ==> after[at] == (TimelineItemModel {
                last_activity_at: reply.last_activity_at,
                participant: true,
                ..before[at]
            })
            &&& before[at].thread_ts != reply.thread_ts ==> after[at] == before[at]
        }),
{
}

/// What is known of names and pictures is not given up for what a message says, but a message
/// tells what is missing: not a name that is only the identifier or `you`. The name of its channel
/// is taken unless it is blank.
pub proof fn law_messages_tell_names(state: UiStateModel, item: TimelineItemModel, id: Seq<char>)
    ensures
        ({
            let came = state.with_incoming(item);
            let told = item.author_name != item.author_id && item.author_name != "you"@;
            &&& lookup(came.user_names, id) == (if lookup(state.user_names, id) is None && id
                == item.author_id && told {
                Some(item.author_name)
            } else {
                lookup(state.user_names, id)
            })
            &&& lookup(came.user_avatar_paths, id) == (if lookup(state.user_avatar_paths, id)
                is None && id == item.author_id {
                item.author_avatar_path
            } else {
                lookup(state.user_avatar_paths, id)
            })
            &&& lookup(came.known_channels, id) == (if id == item.channel_id && trim(
                item.channel_name,
            ).len() > 0 {
                Some(item.channel_name)
            } else {
                lookup(state.known_channels, id)
            })
            &&& state.with_reply(item).user_names == came.user_names
            &&& state.with_reply(item).user_avatar_paths == came.user_avatar_paths
            &&& state.with_reply(item).known_channels == came.known_channels
        }),
{
    lemma_lookup_bind(state.user_names, item.author_id, item.author_name, id);
    if let Some(path) = item.author_avatar_path {
        lemma_lookup_bind(state.user_avatar_paths, item.author_id, path, id);
    }
    lemma_lookup_bind(state.known_channels, item.channel_id, item.channel_name, id);
}

/// What a list of items tells of names: what was known stays; else the first item that tells a
/// name, a path, a channel or an author gives it.
pub proof fn law_items_tell_names(
    items: Seq<TimelineItemModel>,
    names: Names,
    id: Seq<char>,
    at: int,
)
    requires
        0 <= at < items.len(),
        lookup(names, id) is None,
    ensures
        ({
            let told = |item: TimelineItemModel|
                item.author_id == id && item.author_name != id && item.author_name != "you"@;
            told(items[at]) && (forall|k: int| 0 <= k < at ==> !told(#[trigger] items[k]))
                ==> lookup(crate::state::merged_user_names(items, names), id) == Some(
                items[at].author_name,
            )
        }),
        ({
            let told = |item: TimelineItemModel|
                item.author_id == id && item.author_avatar_path is Some;
            told(items[at]) && (forall|k: int| 0 <= k < at ==> !told(#[trigger] items[k]))
                ==> lookup(crate::state::merged_avatar_paths(items, names), id)
                == items[at].author_avatar_path
        }),
        ({
            let told = |item: TimelineItemModel| item.channel_id == id;
            told(items[at]) && (forall|k: int| 0 <= k < at ==> !told(#[trigger] items[k])) ==> {
                &&& lookup(crate::state::merged_channels(items, names), id) == Some(
                    items[at].channel_name,
                )
                &&& lookup(crate::state::merged_creators(items, names), id) == Some(
                    items[at].author_id,
                )
            }
        }),
{
    lemma_names_of_items(items, names, id, at, items.len() as int);
    assert(items.take(items.len() as int) =~= items);
}

proof fn lemma_names_of_items(
    items: Seq<TimelineItemModel>,
    names: Names,
    id: Seq<char>,
    at: int,
    count: int,
)
    requires
        0 <= at < items.len(),
        0 <= count <= items.len(),
        lookup(names, id) is None,
    ensures
        ({
            let told = |item: TimelineItemModel|
                item.author_id == id && item.author_name != id && item.author_name != "you"@;
            told(items[at]) && (forall|k: int| 0 <= k < at ==> !told(#[trigger] items[k]))
                ==> lookup(crate::state::merged_user_names(items.take(count), names), id) == (
            if count <= at {
                None
            } else {
                Some(items[at].author_name)
            })
        }),
        ({
            let told = |item: TimelineItemModel|
                item.author_id == id && item.author_avatar_path is Some;
            told(items[at]) && (forall|k: int| 0 <= k < at ==> !told(#[trigger] items[k]))
                ==> lookup(crate::state::merged_avatar_paths(items.take(count), names), id) == (
            if count <= at {
                None
            } else {
                items[at].author_avatar_path
            })
        }),
        ({
            let told = |item: TimelineItemModel| item.channel_id == id;
            told(items[at]) && (forall|k: int| 0 <= k < at ==> !told(#[trigger] items[k])) ==> {
                &&& lookup(crate::state::merged_channels(items.take(count), names), id) == (
                if count <= at {
                    None
                } else {
                    Some(items[at].channel_name)
                })
                &&& lookup(crate::state::merged_creators(items.take(count), names), id) == (
                if count <= at {
                    None
                } else {
                    Some(items[at].author_id)
                })
            }
        }),
    decreases count,
{
    let some = items.take(count);
    if count > 0 {
        let less = items.take(count - 1);
        let item = items[count - 1];
        lemma_names_of_items(items, names, id, at, count - 1);
        assert(some.drop_last() =~= less);
        assert(some.last() == item);
        lemma_lookup_bind(
            crate::state::merged_user_names(less, names),
            item.author_id,
            item.author_name,
            id,
        );
        if let Some(path) = item.author_avatar_path {
            lemma_lookup_bind(
                crate::state::merged_avatar_paths(less, names),
                item.author_id,
                path,
                id,
            );
        }
        lemma_lookup_bind(
            crate::state::merged_channels(less, names),
            item.channel_id,
            item.channel_name,
            id,
        );
        lemma_lookup_bind(
            crate::state::merged_creators(less, names),
            item.channel_id,
            item.author_id,
            id,
        );
    } else {
        assert(some =~= Seq::empty());
    }
}

/// A name that is known is not given up, whatever items say.
pub proof fn law_known_names_stay(
    items: Seq<TimelineItemModel>,
    names: Names,
    id: Seq<char>,
)
    requires
        lookup(names, id) is Some,
    ensures
        lookup(crate::state::merged_user_names(items, names), id) == lookup(names, id),
        lookup(crate::state::merged_avatar_paths(items, names), id) == lookup(names, id),
        lookup(crate::state::merged_channels(items, names), id) == lookup(names, id),
        lookup(crate::state::merged_creators(items, names), id) == lookup(names, id),
    decreases items.len(),
{
    if items.len() > 0 {
        let less = items.drop_last();
        let item = items.last();
        law_known_names_stay(less, names, id);
        lemma_lookup_bind(
            crate::state::merged_user_names(less, names),
            item.author_id,
            item.author_name,
            id,
        );
        if let Some(path) = item.author_avatar_path {
            lemma_lookup_bind(
                crate::state::merged_avatar_paths(less, names),
                item.author_id,
                path,
                id,
            );
        }
        lemma_lookup_bind(
            crate::state::merged_channels(less, names),
            item.channel_id,
            item.channel_name,
            id,
        );
        lemma_lookup_bind(
            crate::state::merged_creators(less, names),
            item.channel_id,
            item.author_id,
            id,
        );
    }
}

/// A channel under another name is known by that name, and its messages bear it; the messages of
/// other channels stay as they are.
pub proof fn law_renamed_channels_bear_the_name(
    state: UiStateModel,
    channel_id: Seq<char>,
    name: Seq<char>,
    at: int,
    other: Seq<char>,
)
    requires
        0 <= at < state.source_items.len(),
    ensures
        ({
            let after = state.with_renamed_channel(channel_id, name);
            let item = state.source_items[at];
            &&& after.source_items.len() == state.source_items.len()
            &&& item.channel_id == channel_id ==> after.source_items[at] == (TimelineItemModel {
                channel_name: name,
                ..item
            })
            &&& item.channel_id != channel_id ==> after.source_items[at] == item
            &&& lookup(after.known_channels, other) == (if other == channel_id {
                Some(name)
            } else {
                lookup(state.known_channels, other)
            })
        }),
{
    lemma_lookup_bind(state.known_channels, channel_id, name, other);
}

/// The messages of other channels stay when a channel is archived, and so does what is known of
/// them.
pub proof fn law_archiving_takes_one_channel(
    state: UiStateModel,
    channel_id: Seq<char>,
    item: TimelineItemModel,
    other: Seq<char>,
)
    ensures
        ({
            let after = state.without_channel(channel_id);
            &&& after.source_items.contains(item) <==> state.source_items.contains(item)
                && item.channel_id != channel_id
            &&& other != channel_id ==> lookup(after.known_channels, other) == lookup(
                state.known_channels,
                other,
            )
            &&& other != channel_id ==> lookup(after.typing_by_channel, other) == lookup(
                state.typing_by_channel,
                other,
            )
            &&& state.channel_filter != Some(channel_id) ==> after.channel_filter
                == state.channel_filter
        }),
{
    lemma_filtered(
        state.source_items,
        crate::items::not(crate::items::in_channel(channel_id)),
        item,
    );
    lemma_lookup_unbind(state.known_channels, channel_id, other);
    lemma_lookup_unbind(state.typing_by_channel, channel_id, other);
}

/// A message that is deleted takes nothing with it but, if it starts a thread, that thread.
pub proof fn law_deletion_takes_one_message_or_thread(
    state: UiStateModel,
    target: TimelineItemModel,
    item: TimelineItemModel,
)
    ensures
        ({
            let after = state.without_message(target).source_items;
            &&& target.message_ts == target.thread_ts ==> (after.contains(item)
                <==> state.source_items.contains(item) && item.thread_ts != target.thread_ts)
            &&& target.message_ts != target.thread_ts && item.thread_ts != target.thread_ts ==> (
            after.contains(item) <==> state.source_items.contains(item) && item.message_ts
                != target.message_ts)
            &&& target.message_ts != target.thread_ts && state.source_items.contains(item)
                && item.message_ts != target.message_ts ==> exists|k: int|
                0 <= k < after.len() && (#[trigger] after[k]).message_ts == item.message_ts
                    && after[k].body == item.body
        }),
{
    if target.message_ts == target.thread_ts {
        lemma_filtered(
            state.source_items,
            crate::items::not(crate::items::in_thread(target.thread_ts)),
            item,
        );
    } else {
        let gone = crate::items::not(is_message(target.message_ts));
        let rest = state.source_items.filter(gone);
        let after = state.without_message(target).source_items;
        let change = crate::updates::active_at(
            target.thread_ts,
            crate::updates::latest_activity(rest, target),
        );
        lemma_filtered(state.source_items, gone, item);
        if after.contains(item) && item.thread_ts != target.thread_ts {
            let k = choose|k: int| 0 <= k < after.len() && after[k] == item;
            assert(change(rest[k]) == item);
            assert(rest[k] == item);
        }
        if rest.contains(item) {
            let k = choose|k: int| 0 <= k < rest.len() && rest[k] == item;
            assert(after[k] == change(item));
        }
    }
}

/// A thread whose reply is deleted is active when the latest of what is left of it is: no message
/// that is left in it was active later, and one of them was active then.
pub proof fn law_threads_are_active_with_their_latest(
    items: Seq<TimelineItemModel>,
    fallback: TimelineItemModel,
    at: int,
)
    requires
        0 <= at < items.len(),
        items[at].thread_ts == fallback.thread_ts,
    ensures
        !crate::updates::latest_activity(items, fallback).before(items[at].last_activity_at),
        exists|k: int|
            0 <= k < items.len() && (#[trigger] items[k]).thread_ts == fallback.thread_ts
                && items[k].last_activity_at == crate::updates::latest_activity(items, fallback),
    decreases items.len(),
{
    let rest = items.drop_last();
    let thread = crate::items::in_thread(fallback.thread_ts);
    if at < rest.len() {
        assert(thread(rest[at]));
        law_threads_are_active_with_their_latest(rest, fallback, at);
        let k = choose|k: int|
            0 <= k < rest.len() && (#[trigger] rest[k]).thread_ts == fallback.thread_ts
                && rest[k].last_activity_at == crate::updates::latest_activity(rest, fallback);
        assert(items[k] == rest[k]);
        assert(items[items.len() - 1] == items.last());
    } else {
        assert(items[at] == items.last());
        if crate::items::any_item(rest, thread) {
            let j = choose|j: int| 0 <= j < rest.len() && thread(#[trigger] rest[j]);
            law_threads_are_active_with_their_latest(rest, fallback, j);
            let k = choose|k: int|
                0 <= k < rest.len() && (#[trigger] rest[k]).thread_ts == fallback.thread_ts
                    && rest[k].last_activity_at == crate::updates::latest_activity(rest, fallback);
            assert(items[k] == rest[k]);
        }
    }
}

/// What the server says of a message is taken over for that message alone: its text, its blocks,
/// its reactions and what is attached to it.
pub proof fn law_snapshots_change_one_message(
    state: UiStateModel,
    message_ts: Seq<char>,
    body: Seq<char>,
    blocks: Seq<crate::json::Json>,
    reactions: Seq<ReactionSummaryModel>,
    attachments: Seq<AttachmentSummaryModel>,
    at: int,
)
    requires
        0 <= at < state.source_items.len(),
    ensures
        ({
            let before = state.source_items[at];
            let after = state.with_changed_items(
                crate::updates::as_on_server(message_ts, body, blocks, reactions, attachments),
            ).source_items;
            &&& after.len() == state.source_items.len()
            &&& before.message_ts != message_ts ==> after[at] == before
            &&& before.message_ts == message_ts ==> after[at] == (TimelineItemModel {
                body,
                rich_text_blocks: blocks,
                reactions,
                attachments,
                ..before
            })
        }),
{
}

/// Whether one of the items is a message.
pub open spec fn holds_message(items: Seq<TimelineItemModel>, ts: Seq<char>) -> bool {
    exists|k: int| 0 <= k < items.len() && (#[trigger] items[k]).message_ts == ts
}

/// After a refresh every message that it brought is cached, with the text that it has in the
/// refresh.
pub proof fn law_refreshed_messages_are_cached(
    state: UiStateModel,
    items: Seq<TimelineItemModel>,
    now: Timestamp,
    ts: Seq<char>,
)
    ensures
        holds_message(refreshed(state, items, now).source_items, ts) <==> holds_message(
            state.source_items,
            ts,
        ) || holds_message(items, ts),
        items.len() > 0 ==> exists|k: int|
            0 <= k < refreshed(state, items, now).source_items.len() && (#[trigger] refreshed(
                state,
                items,
                now,
            ).source_items[k]).message_ts == items.last().message_ts && refreshed(
                state,
                items,
                now,
            ).source_items[k].body == items.last().body,
    decreases items.len(),
{
    let after = refreshed(state, items, now).source_items;
    if items.len() > 0 {
        let less = items.drop_last();
        let item = items.last();
        let mid = refreshed(state, less, now);
        let before = mid.source_items;
        law_refreshed_messages_are_cached(state, less, now, ts);
        assert(items[items.len() - 1] == item);
        assert(forall|k: int| 0 <= k < less.len() ==> items[k] == #[trigger] less[k]);
        assert(holds_message(items, ts) <==> holds_message(less, ts) || item.message_ts == ts) by {
            if holds_message(items, ts) && item.message_ts != ts {
                let k = choose|k: int|
                    0 <= k < items.len() && (#[trigger] items[k]).message_ts == ts;
                assert(less[k].message_ts == ts);
            }
        }
        if crate::items::any_item(before, is_message(item.message_ts)) {
            lemma_taken_from_server(mid, item, ts);
        } else {
            lemma_come_in_behind(mid, item, ts);
        }
        let k = choose|k: int|
            0 <= k < after.len() && (#[trigger] after[k]).message_ts == item.message_ts
                && after[k].body == item.body;
        assert(refreshed(state, items, now).source_items[k].body == item.body);
    }
}

/// A cached message that the server tells of stays where it is, with the text that it has there.
proof fn lemma_taken_from_server(state: UiStateModel, item: TimelineItemModel, ts: Seq<char>)
    requires
        crate::items::any_item(state.source_items, is_message(item.message_ts)),
    ensures
        ({
            let after = state.with_changed_items(
                crate::updates::as_on_server(
                    item.message_ts,
                    item.body,
                    item.rich_text_blocks,
                    item.reactions,
                    item.attachments,
                ),
            ).source_items;
            &&& holds_message(after, ts) <==> holds_message(state.source_items, ts)
            &&& item.message_ts == ts ==> holds_message(after, ts)
            &&& exists|k: int|
                0 <= k < after.len() && (#[trigger] after[k]).message_ts == item.message_ts
                    && after[k].body == item.body
        }),
{
    let before = state.source_items;
    let after = state.with_changed_items(
        crate::updates::as_on_server(
            item.message_ts,
            item.body,
            item.rich_text_blocks,
            item.reactions,
            item.attachments,
        ),
    ).source_items;
    let j = choose|j: int|
        0 <= j < before.len() && is_message(item.message_ts)(#[trigger] before[j]);
    assert(before[j].message_ts == item.message_ts);
    assert(after[j].message_ts == item.message_ts && after[j].body == item.body);
    lemma_same_messages(before, after, ts);
}

/// A message that comes in stands among the others, which stay.
proof fn lemma_come_in_behind(state: UiStateModel, item: TimelineItemModel, ts: Seq<char>)
    ensures
        ({
            let after = state.with_incoming(item).source_items;
            &&& holds_message(after, ts) <==> holds_message(state.source_items, ts)
                || item.message_ts == ts
            &&& exists|k: int|
                0 <= k < after.len() && (#[trigger] after[k]).message_ts == item.message_ts
                    && after[k].body == item.body
        }),
{
    let before = state.source_items;
    let after = state.with_incoming(item).source_items;
    if before.len() > 0 {
        law_messages_come_in(state, item, 0);
    } else {
        lemma_come_in_first(state, item);
    }
    assert(after.len() == before.len() + 1);
    assert(after[before.len() as int] == item);
    let others = after.take(before.len() as int);
    assert forall|k: int| 0 <= k < before.len() implies (#[trigger] others[k]).message_ts
        == before[k].message_ts by {
        law_messages_come_in(state, item, k);
        assert(others[k] == after[k]);
    }
    lemma_same_messages(before, others, ts);
    if holds_message(after, ts) && item.message_ts != ts {
        let k = choose|k: int| 0 <= k < after.len() && (#[trigger] after[k]).message_ts == ts;
        assert(others[k].message_ts == ts);
    }
    if holds_message(others, ts) {
        let k = choose|k: int| 0 <= k < others.len() && (#[trigger] others[k]).message_ts == ts;
        assert(after[k].message_ts == ts);
    }
}

proof fn lemma_same_messages(
    before: Seq<TimelineItemModel>,
    after: Seq<TimelineItemModel>,
    ts: Seq<char>,
)
    requires
        after.len() == before.len(),
        forall|k: int|
            0 <= k < before.len() ==> (#[trigger] after[k]).message_ts == before[k].message_ts,
    ensures
        holds_message(after, ts) <==> holds_message(before, ts),
{
    if holds_message(before, ts) {
        let k = choose|k: int| 0 <= k < before.len() && (#[trigger] before[k]).message_ts == ts;
        assert(after[k].message_ts == ts);
    }
}

pub proof fn lemma_come_in_first(state: UiStateModel, item: TimelineItemModel)
    requires
        state.source_items.len() == 0,
    ensures
        state.with_incoming(item).source_items == seq![item],
{
    let all = state.source_items.push(item);
    assert(all =~= seq![item]);
    lemma_first_index(all, item.thread_ts);
    lemma_changed_first(
        all,
        is_message(item.thread_ts),
        stirred_by(item),
        first_index(all, item.thread_ts),
    );
}

/// A reaction that there is counts one more when someone gives it, unless the user gives it who
/// gave it already; the other reactions stay as they are, and the ones that most gave come first.
pub proof fn law_given_reactions_count(
    reactions: Seq<ReactionSummaryModel>,
    name: Seq<char>,
    mine: bool,
    at: int,
)
    requires
        0 <= at < reactions.len(),
        crate::emoji::reaction_name(reactions[at].name) == Some(name),
        forall|k: int|
            0 <= k < at ==> crate::emoji::reaction_name((#[trigger] reactions[k]).name) != Some(
                name,
            ),
        reactions[at].count < u32::MAX,
    ensures
        ({
            let after = reactions_with(reactions, name, mine);
            let new = ReactionSummaryModel {
                count: (reactions[at].count + if mine && reactions[at].me {
                    0int
                } else {
                    1
                }) as u32,
                me: reactions[at].me || mine,
                emoji: crate::emoji::reaction_display(name),
                ..reactions[at]
            };
            &&& after.to_multiset() == reactions.to_multiset().remove(reactions[at]).insert(new)
            &&& forall|i: int, j: int|
                0 <= i < j < after.len() ==> (#[trigger] after[i]).count >= (
                #[trigger] after[j]).count
        }),
{
    lemma_position(reactions, name, 0, at);
    let new = crate::reactions::given_once_more(reactions[at], name, mine);
    let changed = reactions.update(at, new);
    let before = order_of::<ReactionSummary, MostGivenFirst>();
    lemma_sorted_multiset(changed, before);
    lemma_sorted_in_order(changed, before);
    lemma_update_multiset(reactions, at, new);
    let after = reactions_with(reactions, name, mine);
    assert(in_order(after, before));
    assert forall|i: int, j: int| 0 <= i < j < after.len() implies (#[trigger] after[i]).count >= (
    #[trigger] after[j]).count by {
        assert(!before(after[j], after[i]));
    }
}

proof fn lemma_position(
    reactions: Seq<ReactionSummaryModel>,
    name: Seq<char>,
    from: int,
    at: int,
)
    requires
        0 <= from <= at < reactions.len(),
        crate::emoji::reaction_name(reactions[at].name) == Some(name),
        forall|k: int|
            from <= k < at ==> crate::emoji::reaction_name((#[trigger] reactions[k]).name) != Some(
                name,
            ),
    ensures
        reaction_from(reactions, name, from) == Some(at),
    decreases at - from,
{
    if from < at {
        assert(crate::emoji::reaction_name(reactions[from].name) != Some(name));
        lemma_position(reactions, name, from + 1, at);
    }
}

proof fn lemma_update_multiset<V>(values: Seq<V>, at: int, value: V)
    requires
        0 <= at < values.len(),
    ensures
        values.update(at, value).to_multiset() == values.to_multiset().remove(values[at]).insert(
            value,
        ),
{
    broadcast use vstd::seq_lib::group_to_multiset_ensures;

    vstd::seq_lib::to_multiset_update(values, at, value);
}

/// A reaction that there is not yet is counted once.
pub proof fn law_new_reactions_count_once(
    reactions: Seq<ReactionSummaryModel>,
    name: Seq<char>,
    mine: bool,
)
    requires
        forall|k: int|
            0 <= k < reactions.len() ==> crate::emoji::reaction_name(
                (#[trigger] reactions[k]).name,
            ) != Some(name),
    ensures
        ({
            let new = ReactionSummaryModel {
                name,
                emoji: crate::emoji::reaction_display(name),
                count: 1,
                me: mine,
            };
            reactions_with(reactions, name, mine).to_multiset() == reactions.to_multiset().insert(
                new,
            )
        }),
{
    broadcast use vstd::seq_lib::group_to_multiset_ensures;

    lemma_reaction_from(reactions, name, 0);
    let new = ReactionSummaryModel {
        name,
        emoji: crate::emoji::reaction_display(name),
        count: 1,
        me: mine,
    };
    lemma_sorted_multiset(reactions.push(new), order_of::<ReactionSummary, MostGivenFirst>());
}

/// A reaction that is taken back counts one less, or is gone if nobody gives it any more; the
/// others stay as they are.
pub proof fn law_taken_reactions_count_less(
    reactions: Seq<ReactionSummaryModel>,
    name: Seq<char>,
    mine: bool,
    at: int,
)
    requires
        0 <= at < reactions.len(),
        crate::emoji::reaction_name(reactions[at].name) == Some(name),
        forall|k: int|
            0 <= k < at ==> crate::emoji::reaction_name((#[trigger] reactions[k]).name) != Some(
                name,
            ),
    ensures
        ({
            let after = reactions_without(reactions, name, mine);
            let rest = reactions.to_multiset().remove(reactions[at]);
            let me = reactions[at].me && !mine;
            &&& reactions[at].count <= 1 && !me ==> after.to_multiset() == rest
            &&& reactions[at].count > 1 ==> after.to_multiset() == rest.insert(
                ReactionSummaryModel { count: (reactions[at].count - 1) as u32, me, ..reactions[at] },
            )
            &&& reactions[at].count <= 1 && me ==> after.to_multiset() == rest.insert(
                ReactionSummaryModel { count: 1, me, ..reactions[at] },
            )
        }),
{
    broadcast use vstd::seq_lib::group_to_multiset_ensures;

    lemma_position(reactions, name, 0, at);
    let me = reactions[at].me && !mine;
    let count = if reactions[at].count > 0 {
        (reactions[at].count - 1) as u32
    } else {
        0
    };
    let order = order_of::<ReactionSummary, MostGivenFirst>();
    let new = ReactionSummaryModel {
        me,
        count: if count == 0 {
            1
        } else {
            count
        },
        ..reactions[at]
    };
    lemma_sorted_multiset(reactions.remove(at), order);
    lemma_sorted_multiset(reactions.update(at, new), order);
    lemma_update_multiset(reactions, at, new);
}

/// A reaction is counted for the message that it is given to and for no other, and is the user's
/// own exactly if the user who gives it is the one who is logged in.
pub proof fn law_reactions_go_to_their_message(
    state: UiStateModel,
    ts: Seq<char>,
    name: Seq<char>,
    user: Option<Seq<char>>,
    current: Option<Seq<char>>,
    now: Timestamp,
    at: int,
)
    requires
        0 <= at < state.source_items.len(),
    ensures
        ({
            let before = state.source_items[at];
            let after = state.reacting(ts, name, user, current, now).source_items;
            let mine = user is Some && user == current;
            &&& after.len() == state.source_items.len()
            &&& before.message_ts != ts ==> after[at] == before
            &&& before.message_ts == ts ==> after[at] == (TimelineItemModel {
                reactions: reactions_with(
                    before.reactions,
                    crate::reactions::normal_reaction(name),
                    mine,
                ),
                ..before
            })
        }),
{
    if state.source_items[at].message_ts == ts {
        assert(is_message(ts)(state.source_items[at]));
    }
}

/// Choosing a message selects it if it is ranked, and focuses what it selects.
pub proof fn law_chosen_messages_are_selected(state: UiStateModel, ts: Seq<char>)
    ensures
        ({
            let after = state.selecting(Some(ts));
            let ranked = exists|i: int|
                0 <= i < state.ranked_items.len() && (#[trigger] state.ranked_items[i]).item.message_ts
                    == ts;
            &&& after.selected_message_ts == (if ranked {
                Some(ts)
            } else {
                None
            })
            &&& after.focused_thread_message_ts == after.selected_message_ts
            &&& after.highlighted_timeline_message_ts is None
            &&& state.selecting(None).selected_message_ts is None
        }),
{
}

/// Other items are cached in place of the old ones. A filter stays exactly if what it refers to
/// is there: a known channel, a cached author, a section.
pub proof fn law_replaced_items_are_cached(
    state: UiStateModel,
    items: Seq<TimelineItemModel>,
    user_names: Names,
    user_avatar_paths: Names,
    known_channels: Names,
    known_channel_creators: Names,
    id: Seq<char>,
)
    ensures
        ({
            let after = state.with_items(
                items,
                user_names,
                user_avatar_paths,
                known_channels,
                known_channel_creators,
            );
            &&& after.source_items == items
            &&& after.typing_by_channel.len() == 0
            &&& state.channel_filter == Some(id) ==> after.channel_filter == (if lookup(
                after.known_channels,
                id,
            ) is Some {
                Some(id)
            } else {
                None
            })
            &&& state.author_filter == Some(id) ==> after.author_filter == (if exists|i: int|
                0 <= i < items.len() && (#[trigger] items[i]).author_id == id {
                Some(id)
            } else {
                None
            })
            &&& state.section_filter == Some(id) ==> after.section_filter == (if exists|i: int|
                0 <= i < state.settings.section_profiles.len() && (
                #[trigger] state.settings.section_profiles[i]).id == id {
                Some(id)
            } else {
                None
            })
            &&& state.settings.active_search_profile_id == Some(id)
                ==> after.settings.active_search_profile_id == (if has_search_profile(
                state.settings,
                id,
            ) {
                Some(id)
            } else {
                None
            })
            &&& after.search_query == state.search_query
        }),
{
    let authored = crate::items::by_author(id);
    if exists|i: int| 0 <= i < items.len() && (#[trigger] items[i]).author_id == id {
        let i = choose|i: int| 0 <= i < items.len() && (#[trigger] items[i]).author_id == id;
        assert(authored(items[i]));
    }
    let sections = state.settings.section_profiles;
    let section = crate::collections::has_id::<crate::settings::SectionProfile>(id);
    lemma_first(sections, section);
    if exists|i: int| 0 <= i < sections.len() && (#[trigger] sections[i]).id == id {
        let i = choose|i: int| 0 <= i < sections.len() && (#[trigger] sections[i]).id == id;
        assert(section(sections[i]));
    }
    let profiles = state.settings.search_profiles;
    let profile = crate::collections::has_id::<crate::settings::SearchProfile>(id);
    lemma_first(profiles, profile);
    if has_search_profile(state.settings, id) {
        let i = choose|i: int| 0 <= i < profiles.len() && (#[trigger] profiles[i]).id == id;
        assert(profile(profiles[i]));
    }
}

} // verus!
