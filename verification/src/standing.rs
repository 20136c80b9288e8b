//! What makes a message count: whether it has a score and which one, and where it stands.
use vstd::prelude::*;

use crate::binary64::{fraction, law_whole_sums_are_exact, sum, whole};
use crate::collections::lookup;
use crate::decisions::stands_in;
use crate::models::{RankedTimelineItemModel, RankingReasonModel, TimelineItemModel, TimelineMode};
use crate::ranking::{
    fade, item_keywords, item_reasons, item_weight, lasting_score, ranked, scored, scored_items,
    visible, with_keywords,
};
use crate::settings::TimelinePolicyModel;
use crate::text::lowercase;
use crate::time::{minutes_between, Timestamp};

verus! {

/// Whether a channel is one of those that are watched: all are if none is named.
pub open spec fn watches(policy: TimelinePolicyModel, channel_id: Seq<char>) -> bool {
    policy.watched_channels.len() == 0 || policy.watched_channels.contains(channel_id)
}

/// Whether a text holds one of the focus keywords, without regard to case.
pub open spec fn holds_keyword(policy: TimelinePolicyModel, text: Seq<char>) -> bool {
    exists|i: int|
        0 <= i < policy.focus_keywords.len() && stands_in(
            lowercase(text),
            lowercase(#[trigger] policy.focus_keywords[i]),
        )
}

/// A text holds a keyword exactly where it stands in it.
proof fn lemma_occurs(text: Seq<char>, part: Seq<char>)
    ensures
        crate::text::occurs(text, part) == stands_in(text, part),
{
    if stands_in(text, part) {
        let at = choose|at: int|
            0 <= at && at + part.len() <= text.len() && #[trigger] text.subrange(
                at,
                at + part.len(),
            ) == part;
        assert(crate::text::occurs_at(text, part, at));
    }
    if crate::text::occurs(text, part) {
        let at = choose|at: int| #[trigger] crate::text::occurs_at(text, part, at);
        assert(text.subrange(at, at + part.len()) == part);
    }
}

/// The keywords that are found in a text are those that are set and that it holds, without regard
/// to case.
pub proof fn law_keywords_are_found(
    policy: TimelinePolicyModel,
    text: Seq<char>,
    keyword: Seq<char>,
)
    ensures
        policy.keywords_in(text).contains(keyword) <==> policy.focus_keywords.contains(keyword)
            && stands_in(lowercase(text), lowercase(keyword)),
        policy.keywords_in(text).len() > 0 <==> holds_keyword(policy, text),
{
    broadcast use vstd::seq_lib::group_filter_ensures;

    let keep = |keyword: Seq<char>| crate::text::contains_ignoring_case(text, keyword);
    let all = policy.focus_keywords;
    let found = policy.keywords_in(text);
    assert(found == all.filter(keep));
    lemma_occurs(lowercase(text), lowercase(keyword));
    if found.contains(keyword) {
        all.lemma_filter_contains_rev(keep, keyword);
        let i = choose|i: int| 0 <= i < found.len() && found[i] == keyword;
        assert(keep(found[i]));
    }
    if all.contains(keyword) && keep(keyword) {
        let i = choose|i: int| 0 <= i < all.len() && all[i] == keyword;
        assert(found.contains(all[i]));
    }
    if found.len() > 0 {
        assert(keep(found[0]));
        assert(found.contains(found[0]));
        all.lemma_filter_contains_rev(keep, found[0]);
        let i = choose|i: int| 0 <= i < all.len() && all[i] == found[0];
        lemma_occurs(lowercase(text), lowercase(all[i]));
    }
    if holds_keyword(policy, text) {
        let i = choose|i: int|
            0 <= i < all.len() && stands_in(lowercase(text), lowercase(#[trigger] all[i]));
        lemma_occurs(lowercase(text), lowercase(all[i]));
        assert(found.contains(all[i]));
    }
}

/// A message has a score exactly if its channel is watched, it mentions the user, the user takes
/// part in it, it was found with a keyword, or its text holds one; and what has the score is the
/// message.
pub proof fn law_messages_that_matter_have_scores(
    policy: TimelinePolicyModel,
    now: Timestamp,
    item: TimelineItemModel,
)
    ensures
        scored(policy, now, item) is Some <==> watches(policy, item.channel_id)
            || item.direct_mention || item.participant || item.focus_keyword_hits.len() > 0
            || holds_keyword(policy, item.body),
        scored(policy, now, item) matches Some(entry) ==> entry.item == item,
{
    law_keywords_are_found(policy, item.body, Seq::empty());
}

/// The weight of a message is the greater one of its own and its channel's, which is one where
/// none is set.
pub proof fn law_weights_are_those_set(policy: TimelinePolicyModel, item: TimelineItemModel)
    ensures
        item_weight(policy, item) >= item.watch_weight,
        match lookup(policy.channel_weights, item.channel_id) {
            Some(weight) => item_weight(policy, item) >= weight && (item_weight(policy, item)
                == weight || item_weight(policy, item) == item.watch_weight),
            None => item_weight(policy, item) >= 1 && (item_weight(policy, item) == 1
                || item_weight(policy, item) == item.watch_weight),
        },
{
}

/// Points for keywords are whole.
proof fn lemma_keyword_points(start: int, keywords: nat)
    requires
        0 <= start <= 1000,
        keywords <= 1_000_000,
    ensures
        with_keywords(whole(start), keywords) == whole(start + 25 * keywords),
    decreases keywords,
{
    if keywords > 0 {
        let fewer = (keywords - 1) as nat;
        lemma_keyword_points(start, fewer);
        law_whole_sums_are_exact(start + 25 * fewer, 25);
    }
}

/// What a message is worth before its age counts: a hundred points for a mention, 25 for each
/// keyword, 70 for an unread one that the user takes part in, 20 and ten times the weight for a
/// watched channel and ten more there if it is unread, and five if it is unread.
pub proof fn law_scores_add_up(policy: TimelinePolicyModel, item: TimelineItemModel)
    requires
        item.focus_keyword_hits.len() + policy.keywords_in(item.body).len() <= 1_000_000,
    ensures
        lasting_score(policy, item) == whole(
            (if item.direct_mention {
                100int
            } else {
                0
            }) + 25 * (item.focus_keyword_hits.len() + policy.keywords_in(item.body).len()) + (
            if item.participant && item.unread {
                70int
            } else {
                0
            }) + (if watches(policy, item.channel_id) {
                20 + 10 * item_weight(policy, item)
            } else {
                0
            }) + (if watches(policy, item.channel_id) && item.unread {
                10int
            } else {
                0
            }) + (if item.unread {
                5int
            } else {
                0
            }),
        ),
{
    let keywords = item_keywords(policy, item).len();
    law_whole_sums_are_exact(0, 100);
    let named: int = if item.direct_mention {
        100
    } else {
        0
    };
    lemma_keyword_points(named, keywords);
    let found = named + 25 * keywords;
    law_whole_sums_are_exact(found, 70);
    let joined: int = if item.participant && item.unread {
        found + 70
    } else {
        found
    };
    let channel = crate::ranking::channel_points(policy, item);
    law_whole_sums_are_exact(joined, channel);
    let watched: int = if watches(policy, item.channel_id) {
        joined + channel
    } else {
        joined
    };
    law_whole_sums_are_exact(watched, 5);
}

/// The share of a score that fades is 240 divided by thirty more than the age in minutes, so that
/// a message is worth less the older it gets.
pub proof fn law_scores_fade_with_age(age: int)
    requires
        0 <= age <= 1_000_000_000,
    ensures
        fade(age) == fraction(240, age + 30),
{
    crate::binary64::law_small_quotients_are_smaller(240, age + 30, 12);
}

/// The score of a message is what it is worth and the share that fades, less a thousand points if
/// its channel is muted.
pub proof fn law_scores_have_two_parts(
    policy: TimelinePolicyModel,
    now: Timestamp,
    item: TimelineItemModel,
)
    requires
        minutes_between(item.last_activity_at, now) <= 1_000_000_000,
    ensures
        scored(policy, now, item) matches Some(entry) ==> entry.score == ({
            let faded = sum(
                lasting_score(policy, item),
                fraction(240, minutes_between(item.last_activity_at, now) + 30),
            );
            if policy.muted_channels.contains(item.channel_id) {
                sum(faded, whole(-1000))
            } else {
                faded
            }
        }),
{
    law_scores_fade_with_age(minutes_between(item.last_activity_at, now));
}

/// The reasons of a score are those that hold of the message, and no others.
pub proof fn law_reasons_hold_of_the_message(
    policy: TimelinePolicyModel,
    now: Timestamp,
    item: TimelineItemModel,
)
    ensures
        scored(policy, now, item) matches Some(entry) ==> {
            &&& entry.reasons.contains(RankingReasonModel::DirectMention) <==> item.direct_mention
            &&& entry.reasons.contains(RankingReasonModel::ParticipatingThread)
                <==> item.participant && item.unread
            &&& entry.reasons.contains(RankingReasonModel::RecentActivity) <==> item.unread
            &&& forall|weight: u8| #[trigger]
                entry.reasons.contains(RankingReasonModel::WeightedWatchedChannel(weight))
                    <==> watches(policy, item.channel_id) && weight == item_weight(policy, item)
            &&& forall|keyword: Seq<char>| #[trigger]
                entry.reasons.contains(RankingReasonModel::FocusKeyword(keyword))
                    <==> item.focus_keyword_hits.contains(keyword) || policy.keywords_in(
                    item.body,
                ).contains(keyword)
        },
{
    let words = item_keywords(policy, item);
    let told = words.map_values(|keyword: Seq<char>| RankingReasonModel::FocusKeyword(keyword));
    let reasons = item_reasons(policy, item);
    let n0: int = if item.direct_mention {
        1
    } else {
        0
    };
    let n1 = n0 + told.len();
    let n2: int = n1 + if item.participant && item.unread {
        1int
    } else {
        0
    };
    let n3: int = n2 + if watches(policy, item.channel_id) {
        1int
    } else {
        0
    };
    let n4: int = n3 + if item.unread {
        1int
    } else {
        0
    };
    assert(reasons.len() == n4);
    assert(item.direct_mention ==> reasons[0] == RankingReasonModel::DirectMention);
    assert(forall|k: int| 0 <= k < told.len() ==> reasons[n0 + k] == #[trigger] told[k]);
    assert(item.participant && item.unread ==> reasons[n1]
        == RankingReasonModel::ParticipatingThread);
    assert(watches(policy, item.channel_id) ==> reasons[n2]
        == RankingReasonModel::WeightedWatchedChannel(item_weight(policy, item)));
    assert(item.unread ==> reasons[n3] == RankingReasonModel::RecentActivity);
    assert forall|k: int| n0 <= k < n1 implies (#[trigger] reasons[k])
        == RankingReasonModel::FocusKeyword(words[k - n0]) by {
        assert(reasons[n0 + (k - n0)] == told[k - n0]);
    }
    assert forall|keyword: Seq<char>| #[trigger]
        reasons.contains(RankingReasonModel::FocusKeyword(keyword)) <==> words.contains(keyword) by {
        if words.contains(keyword) {
            let k = choose|k: int| 0 <= k < words.len() && words[k] == keyword;
            assert(told[k] == RankingReasonModel::FocusKeyword(keyword));
            assert(reasons[n0 + k] == told[k]);
        }
    }
    assert forall|keyword: Seq<char>| #[trigger]
        words.contains(keyword) <==> item.focus_keyword_hits.contains(keyword)
            || policy.keywords_in(item.body).contains(keyword) by {
        crate::decisions::lemma_joined_contains(
            item.focus_keyword_hits,
            policy.keywords_in(item.body),
            keyword,
        );
    }
}

/// The focus view shows exactly the messages that have a score that reaches the threshold, but for
/// those of muted channels.
pub proof fn law_focus_shows_what_reaches_the_threshold(
    policy: TimelinePolicyModel,
    now: Timestamp,
    items: Seq<TimelineItemModel>,
    item: TimelineItemModel,
)
    requires
        items.contains(item),
    ensures
        (exists|entry: RankedTimelineItemModel| #[trigger]
            visible(TimelineMode::Focus, policy, now, items).contains(entry) && entry.item == item)
            <==> (scored(policy, now, item) matches Some(entry) && entry.score.reaches(
            policy.focus_threshold,
        ) && !policy.muted_channels.contains(item.channel_id)),
{
    if let Some(entry) = scored(policy, now, item) {
        crate::ranking::law_visible_items_are_the_shown_ones(
            TimelineMode::Focus,
            policy,
            now,
            items,
            entry,
        );
    }
    assert forall|entry: RankedTimelineItemModel| #[trigger]
        visible(TimelineMode::Focus, policy, now, items).contains(entry) && entry.item
            == item implies (scored(policy, now, item) == Some(entry) && entry.score.reaches(
        policy.focus_threshold,
    ) && !policy.muted_channels.contains(item.channel_id)) by {
        crate::ranking::law_visible_items_are_the_shown_ones(
            TimelineMode::Focus,
            policy,
            now,
            items,
            entry,
        );
    }
}

/// The recent view shows exactly the messages of watched channels.
pub proof fn law_recent_shows_watched_channels(
    policy: TimelinePolicyModel,
    now: Timestamp,
    items: Seq<TimelineItemModel>,
    item: TimelineItemModel,
)
    requires
        items.contains(item),
    ensures
        (exists|entry: RankedTimelineItemModel| #[trigger]
            visible(TimelineMode::Recent, policy, now, items).contains(entry) && entry.item
            == item) <==> watches(policy, item.channel_id),
{
    if let Some(entry) = scored(policy, now, item) {
        crate::ranking::law_visible_items_are_the_shown_ones(
            TimelineMode::Recent,
            policy,
            now,
            items,
            entry,
        );
    }
    assert forall|entry: RankedTimelineItemModel| #[trigger]
        visible(TimelineMode::Recent, policy, now, items).contains(entry) && entry.item
            == item implies watches(policy, item.channel_id) by {
        crate::ranking::law_visible_items_are_the_shown_ones(
            TimelineMode::Recent,
            policy,
            now,
            items,
            entry,
        );
    }
}

/// The messages that have a score stand newest first; of those of one time the one with the
/// higher score stands first.
pub proof fn law_ranked_messages_are_in_order(
    policy: TimelinePolicyModel,
    now: Timestamp,
    items: Seq<TimelineItemModel>,
    i: int,
    j: int,
)
    requires
        0 <= i < j < ranked(policy, now, items).len(),
    ensures
        ({
            let (first, second) = (ranked(policy, now, items)[i], ranked(policy, now, items)[j]);
            let (s, t) = (first.item.last_activity_at, second.item.last_activity_at);
            &&& s.seconds > t.seconds || (s.seconds == t.seconds && s.nanos >= t.nanos)
            &&& s == t ==> !second.score.exceeds(first.score)
        }),
{
    crate::ranking::lemma_ranked_in_order(policy, now, items, i, j);
}

/// Ranking keeps every message that has a score as often as it is there, and adds none.
pub proof fn law_ranking_keeps_messages(
    policy: TimelinePolicyModel,
    now: Timestamp,
    items: Seq<TimelineItemModel>,
)
    ensures
        ranked(policy, now, items).to_multiset() == scored_items(
            policy,
            now,
            items,
        ).to_multiset(),
        scored_items(policy, now, items).map_values(|entry: RankedTimelineItemModel| entry.item)
            == items.filter(|item: TimelineItemModel| scored(policy, now, item) is Some),
    decreases items.len(),
{
    reveal(Seq::filter);
    crate::collections::lemma_sorted_multiset(
        scored_items(policy, now, items),
        crate::collections::order_of::<
            crate::models::RankedTimelineItem,
            crate::ranking::NewestFirst,
        >(),
    );
    let keep = |item: TimelineItemModel| scored(policy, now, item) is Some;
    let bare = |entry: RankedTimelineItemModel| entry.item;
    if items.len() > 0 {
        let shorter = items.drop_last();
        law_ranking_keeps_messages(policy, now, shorter);
        let head = scored_items(policy, now, shorter);
        assert(head.map_values(bare) == shorter.filter(keep));
        if let Some(entry) = scored(policy, now, items.last()) {
            assert(head.push(entry).map_values(bare) =~= head.map_values(bare).push(entry.item));
        }
        assert(scored_items(policy, now, items).map_values(bare) =~= items.filter(keep));
    } else {
        assert(scored_items(policy, now, items).map_values(bare) =~= items.filter(keep));
    }
}

} // verus!
