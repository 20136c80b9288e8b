//! Scoring and ordering the timeline.
use vstd::prelude::*;

use crate::binary64::{
    fraction, law_sums_keep_order, lemma_fraction_bound, lemma_small_steps_end, lemma_sum_bound,
    smaller, smaller_of, sum, whole, Binary64, HIDDEN_BIT,
};
use crate::collections::{
    in_order, is_weak_order, lemma_sorted_in_order, lemma_sorted_multiset, order_of, sort_values,
    sorted, Order,
};
use crate::models::{
    RankedTimelineItem, RankedTimelineItemModel, RankingReason, RankingReasonModel, TimelineItem,
    TimelineItemModel, TimelineMode,
};
use crate::settings::{TimelinePolicy, TimelinePolicyModel};
use crate::time::{minutes_between, Timestamp};

verus! {

/// Ranks items as they stand at one point in time.
#[derive(Clone, Copy, Debug)]
pub struct TimelineRanker {
    pub now: Timestamp,
}

/// The keywords that count for an item: those it was found with, then those its text holds.
pub open spec fn item_keywords(policy: TimelinePolicyModel, item: TimelineItemModel) -> Seq<
    Seq<char>,
> {
    item.focus_keyword_hits + policy.keywords_in(item.body)
}

/// Whether an item is shown even in a channel that is not watched.
pub open spec fn is_important(policy: TimelinePolicyModel, item: TimelineItemModel) -> bool {
    item.direct_mention || item.participant || item_keywords(policy, item).len() > 0
}

/// The weight of an item in a watched channel.
pub open spec fn item_weight(policy: TimelinePolicyModel, item: TimelineItemModel) -> u8 {
    if policy.weight(item.channel_id) >= item.watch_weight {
        policy.weight(item.channel_id)
    } else {
        item.watch_weight
    }
}

/// A score to which the points for keywords are added, one after the other.
pub open spec fn with_keywords(score: Binary64, keywords: nat) -> Binary64
    decreases keywords,
{
    if keywords == 0 {
        score
    } else {
        sum(with_keywords(score, (keywords - 1) as nat), whole(25))
    }
}

/// A score to which points are added on a condition.
pub open spec fn with_points(score: Binary64, condition: bool, points: int) -> Binary64 {
    if condition {
        sum(score, whole(points))
    } else {
        score
    }
}

/// The points for a watched channel.
pub open spec fn channel_points(policy: TimelinePolicyModel, item: TimelineItemModel) -> int {
    20 + 10 * item_weight(policy, item) + (if item.unread {
        10int
    } else {
        0
    })
}

/// The part of an item's score that does not depend on time.
pub open spec fn lasting_score(policy: TimelinePolicyModel, item: TimelineItemModel) -> Binary64 {
    let named = with_points(whole(0), item.direct_mention, 100);
    let found = with_keywords(named, item_keywords(policy, item).len());
    let joined = with_points(found, item.participant && item.unread, 70);
    let watched = with_points(
        joined,
        policy.effectively_watched(item.channel_id),
        channel_points(policy, item),
    );
    with_points(watched, item.unread, 5)
}

/// The share of a score that fades with age: 240 divided by the age in minutes plus thirty, at
/// most twelve. The age is taken as a 32-bit integer, so that it wraps after four thousand years.
pub open spec fn fade(age: int) -> Binary64 {
    let divisor = (age as i64) as i32 + 30;
    if divisor == 0 {
        whole(12)
    } else {
        smaller(fraction(240, divisor), whole(12))
    }
}

/// The reasons that an item's score has.
pub open spec fn item_reasons(policy: TimelinePolicyModel, item: TimelineItemModel) -> Seq<
    RankingReasonModel,
> {
    (if item.direct_mention {
        seq![RankingReasonModel::DirectMention]
    } else {
        Seq::empty()
    }) + item_keywords(policy, item).map_values(
        |keyword: Seq<char>| RankingReasonModel::FocusKeyword(keyword),
    ) + (if item.participant && item.unread {
        seq![RankingReasonModel::ParticipatingThread]
    } else {
        Seq::empty()
    }) + (if policy.effectively_watched(item.channel_id) {
        seq![RankingReasonModel::WeightedWatchedChannel(item_weight(policy, item))]
    } else {
        Seq::empty()
    }) + (if item.unread {
        seq![RankingReasonModel::RecentActivity]
    } else {
        Seq::empty()
    })
}

/// The score of an item. A muted channel costs a thousand points.
pub open spec fn item_score(
    policy: TimelinePolicyModel,
    now: Timestamp,
    item: TimelineItemModel,
) -> Binary64 {
    let faded = sum(
        lasting_score(policy, item),
        fade(minutes_between(item.last_activity_at, now)),
    );
    with_points(faded, policy.muted_channels.contains(item.channel_id), -1000)
}

/// An item with its score, or nothing if it is neither watched nor important.
pub open spec fn scored(
    policy: TimelinePolicyModel,
    now: Timestamp,
    item: TimelineItemModel,
) -> Option<RankedTimelineItemModel> {
    if policy.effectively_watched(item.channel_id) || is_important(policy, item) {
        Some(
            RankedTimelineItemModel {
                item,
                score: item_score(policy, now, item),
                reasons: item_reasons(policy, item),
            },
        )
    } else {
        None
    }
}

/// The items that have a score, in the order they come in.
pub open spec fn scored_items(
    policy: TimelinePolicyModel,
    now: Timestamp,
    items: Seq<TimelineItemModel>,
) -> Seq<RankedTimelineItemModel>
    decreases items.len(),
{
    if items.len() == 0 {
        Seq::empty()
    } else {
        let head = scored_items(policy, now, items.drop_last());
        match scored(policy, now, items.last()) {
            Some(ranked) => head.push(ranked),
            None => head,
        }
    }
}

/// The newest items first; of items with one time the one with the higher score.
pub struct NewestFirst;

impl Order<RankedTimelineItem> for NewestFirst {
    open spec fn before(left: RankedTimelineItemModel, right: RankedTimelineItemModel) -> bool {
        let (l, r) = (left.item.last_activity_at, right.item.last_activity_at);
        r.before(l) || (l == r && left.score.follows(right.score))
    }

    fn stands_before(left: &RankedTimelineItem, right: &RankedTimelineItem) -> bool {
        let (l, r) = (left.item.last_activity_at, right.item.last_activity_at);
        r.is_before(l) || (l == r && left.score.is_after(right.score))
    }
}

/// The items that have a score, newest first.
pub open spec fn ranked(
    policy: TimelinePolicyModel,
    now: Timestamp,
    items: Seq<TimelineItemModel>,
) -> Seq<RankedTimelineItemModel> {
    sorted(scored_items(policy, now, items), order_of::<RankedTimelineItem, NewestFirst>())
}

/// Whether a mode of the timeline shows an item.
pub open spec fn shows(
    mode: TimelineMode,
    policy: TimelinePolicyModel,
    ranked: RankedTimelineItemModel,
) -> bool {
    match mode {
        TimelineMode::Focus => !policy.muted_channels.contains(ranked.item.channel_id)
            && ranked.score.reaches(policy.focus_threshold),
        TimelineMode::Recent => policy.effectively_watched(ranked.item.channel_id),
    }
}

/// The items that a mode of the timeline shows, newest first.
pub open spec fn visible(
    mode: TimelineMode,
    policy: TimelinePolicyModel,
    now: Timestamp,
    items: Seq<TimelineItemModel>,
) -> Seq<RankedTimelineItemModel> {
    ranked(policy, now, items).filter(|ranked: RankedTimelineItemModel| shows(mode, policy, ranked))
}

/// The share of a score that fades with age.
fn fade_of(age: i64) -> (r: Binary64)
    requires
        0 <= age,
    ensures
        r == fade(age as int),
        r.magnitude() <= 1035 * HIDDEN_BIT,
{
    let divisor: i64 = (#[verifier::truncate] (age as i32)) as i64 + 30;
    proof {
        lemma_fraction_bound(12, 1);
        if divisor != 0 {
            lemma_fraction_bound(240, divisor as int);
        }
    }
    let most = Binary64::of_integer(12);
    if divisor == 0 {
        most
    } else {
        smaller_of(Binary64::of_fraction(240, divisor), most)
    }
}

/// The reasons for keywords, appended to others.
fn append_keyword_reasons(reasons: &mut Vec<RankingReason>, keywords: &Vec<String>)
    ensures
        final(reasons).deep_view() == old(reasons).deep_view() + keywords.deep_view().map_values(
            |keyword: Seq<char>| RankingReasonModel::FocusKeyword(keyword),
        ),
{
    let ghost all = keywords.deep_view().map_values(
        |keyword: Seq<char>| RankingReasonModel::FocusKeyword(keyword),
    );
    let mut i: usize = 0;
    assert(reasons.deep_view() =~= reasons.deep_view() + all.take(0));
    while i < keywords.len()
        invariant
            i <= keywords.len(),
            all == keywords.deep_view().map_values(
                |keyword: Seq<char>| RankingReasonModel::FocusKeyword(keyword),
            ),
            reasons.deep_view() == old(reasons).deep_view() + all.take(i as int),
        decreases keywords.len() - i,
    {
        let ghost before = reasons.deep_view();
        reasons.push(RankingReason::FocusKeyword(keywords[i].clone()));
        assert(reasons.deep_view() =~= before.push(all[i as int]));
        i += 1;
        assert(reasons.deep_view() =~= old(reasons).deep_view() + all.take(i as int));
    }
    assert(all.take(i as int) =~= all);
}

/// Appends one reason.
fn append_reason(reasons: &mut Vec<RankingReason>, reason: RankingReason)
    ensures
        final(reasons).deep_view() == old(reasons).deep_view() + seq![reason.deep_view()],
{
    let ghost before = reasons.deep_view();
    let ghost added = reason.deep_view();
    reasons.push(reason);
    assert(reasons.deep_view() =~= before + seq![added]);
}

/// The weight of an item in a watched channel.
fn weight_of(policy: &TimelinePolicy, item: &TimelineItem) -> (r: u8)
    ensures
        r == item_weight(policy.deep_view(), item.deep_view()),
{
    let listed = policy.weight_for(item.channel_id.as_str());
    if listed >= item.watch_weight {
        listed
    } else {
        item.watch_weight
    }
}

/// A score to which the points for keywords are added, one after the other.
fn add_keywords(score: Binary64, first: usize, second: usize) -> (r: Binary64)
    requires
        score.magnitude() <= 1084 * HIDDEN_BIT,
    ensures
        r == with_keywords(score, (first + second) as nat),
        r.magnitude() <= 1084 * HIDDEN_BIT,
{
    let each = Binary64::of_integer(25);
    let mut r = score;
    let mut i: u128 = 0;
    let all: u128 = first as u128 + second as u128;
    proof {
        lemma_fraction_bound(25, 1);
    }
    while i < all
        invariant
            i <= all,
            each == whole(25),
            each.magnitude() <= 1035 * HIDDEN_BIT,
            r == with_keywords(score, i as nat),
            r.magnitude() <= 1084 * HIDDEN_BIT,
        decreases all - i,
    {
        proof {
            lemma_small_steps_end(r, 25);
        }
        r = r.plus(each);
        i = i + 1;
    }
    r
}

/// A score to which points are added on a condition. `limit` bounds the bits of the score.
fn add_points(score: Binary64, condition: bool, points: i64, limit: u64) -> (r: Binary64)
    requires
        -4096 < points < 4096,
        1035 <= limit <= 1800,
        score.magnitude() <= limit * HIDDEN_BIT,
    ensures
        r == with_points(score, condition, points as int),
        r.magnitude() <= (limit + 2) * HIDDEN_BIT,
{
    if condition {
        let added = Binary64::of_integer(points);
        proof {
            lemma_fraction_bound(points as int, 1);
            assert(1035 * HIDDEN_BIT <= limit * HIDDEN_BIT <= 1800 * HIDDEN_BIT)
                by (nonlinear_arith)
                requires
                    1035 <= limit <= 1800,
            ;
            lemma_sum_bound(score, added, limit as nat);
        }
        score.plus(added)
    } else {
        assert(limit * HIDDEN_BIT <= (limit + 2) * HIDDEN_BIT) by (nonlinear_arith);
        score
    }
}

/// The part of an item's score that does not depend on time.
fn lasting_score_of(policy: &TimelinePolicy, item: &TimelineItem, matching: &Vec<String>) -> (r:
    Binary64)
    requires
        matching.deep_view() == policy.deep_view().keywords_in(item.body@),
    ensures
        r == lasting_score(policy.deep_view(), item.deep_view()),
        r.magnitude() <= 1090 * HIDDEN_BIT,
{
    let zero = Binary64::of_integer(0);
    proof {
        lemma_fraction_bound(0, 1);
    }
    let named = add_points(zero, item.direct_mention, 100, 1035);
    let found = add_keywords(named, item.focus_keyword_hits.len(), matching.len());
    let joined = add_points(found, item.participant && item.unread, 70, 1084);
    let unread: i64 = if item.unread {
        10
    } else {
        0
    };
    let watched = add_points(
        joined,
        policy.is_effectively_watched(item.channel_id.as_str()),
        20 + 10 * (weight_of(policy, item) as i64) + unread,
        1086,
    );
    add_points(watched, item.unread, 5, 1088)
}

/// The reasons that an item's score has.
fn reasons_of(policy: &TimelinePolicy, item: &TimelineItem, matching: &Vec<String>) -> (r: Vec<
    RankingReason,
>)
    requires
        matching.deep_view() == policy.deep_view().keywords_in(item.body@),
    ensures
        r.deep_view() == item_reasons(policy.deep_view(), item.deep_view()),
{
    let mut reasons: Vec<RankingReason> = Vec::new();
    assert(reasons.deep_view() =~= Seq::empty());
    if item.direct_mention {
        append_reason(&mut reasons, RankingReason::DirectMention);
    }
    let ghost head = reasons.deep_view();
    append_keyword_reasons(&mut reasons, &item.focus_keyword_hits);
    append_keyword_reasons(&mut reasons, matching);
    let ghost keyed = reasons.deep_view();
    proof {
        let to_reason = |keyword: Seq<char>| RankingReasonModel::FocusKeyword(keyword);
        assert(keyed =~= head + item_keywords(
            policy.deep_view(),
            item.deep_view(),
        ).map_values(to_reason));
    }
    if item.participant && item.unread {
        append_reason(&mut reasons, RankingReason::ParticipatingThread);
    } else {
        assert(keyed + Seq::empty() =~= keyed);
    }
    let ghost joined = reasons.deep_view();
    if policy.is_effectively_watched(item.channel_id.as_str()) {
        append_reason(
            &mut reasons,
            RankingReason::WeightedWatchedChannel(weight_of(policy, item)),
        );
    } else {
        assert(joined + Seq::empty() =~= joined);
    }
    let ghost weighed = reasons.deep_view();
    if item.unread {
        append_reason(&mut reasons, RankingReason::RecentActivity);
    } else {
        assert(weighed + Seq::empty() =~= weighed);
    }
    reasons
}

impl TimelineRanker {
    /// A ranker for one point in time.
    pub fn new(now: Timestamp) -> (ranker: Self)
        ensures
            ranker.now == now,
    {
        TimelineRanker { now }
    }

    /// The score of an item, or nothing if it is neither watched nor important.
    pub fn score_item(&self, policy: &TimelinePolicy, item: TimelineItem) -> (r: Option<
        RankedTimelineItem,
    >)
        ensures
            r.deep_view() == scored(policy.deep_view(), self.now, item.deep_view()),
    {
        let watched = policy.is_effectively_watched(item.channel_id.as_str());
        let matching = policy.matching_keywords(item.body.as_str());
        let important = item.direct_mention || item.participant || item.focus_keyword_hits.len()
            > 0 || matching.len() > 0;
        if !watched && !important {
            return None;
        }
        let lasting = lasting_score_of(policy, &item, &matching);
        let reasons = reasons_of(policy, &item, &matching);
        let share = fade_of(item.age_minutes(self.now));
        proof {
            lemma_sum_bound(lasting, share, 1090);
        }
        let faded = lasting.plus(share);
        let muted = policy.muted_channels.contains(item.channel_id.as_str());
        let score = add_points(faded, muted, -1000, 1092);
        Some(RankedTimelineItem { item, score, reasons })
    }

    /// The items that have a score, newest first.
    pub fn rank(&self, policy: &TimelinePolicy, items: Vec<TimelineItem>) -> (r: Vec<
        RankedTimelineItem,
    >)
        ensures
            r.deep_view() == ranked(policy.deep_view(), self.now, items.deep_view()),
    {
        let ghost all = items.deep_view();
        let mut result: Vec<RankedTimelineItem> = Vec::new();
        assert(all.take(0) =~= Seq::empty());
        assert(result.deep_view() =~= Seq::empty());
        for item in iter: items
            invariant
                all.len() == iter.seq().len(),
                forall|k: int| 0 <= k < all.len() ==> all[k] == (#[trigger] iter.seq()[k]).deep_view(),
                result.deep_view() == scored_items(
                    policy.deep_view(),
                    self.now,
                    all.take(iter.index() as int),
                ),
        {
            let ghost before = result.deep_view();
            let ghost at = iter.index() as int;
            proof {
                assert(all.take(at + 1).drop_last() =~= all.take(at));
                assert(all.take(at + 1).last() == item.deep_view());
            }
            match self.score_item(policy, item) {
                Some(ranked) => {
                    let ghost meaning = ranked.deep_view();
                    result.push(ranked);
                    assert(result.deep_view() =~= before.push(meaning));
                },
                None => {},
            }
        }
        assert(all.take(all.len() as int) =~= all);
        sort_values::<RankedTimelineItem, NewestFirst>(result)
    }

    /// The items that a mode of the timeline shows, newest first.
    pub fn visible_items(
        &self,
        mode: TimelineMode,
        policy: &TimelinePolicy,
        items: Vec<TimelineItem>,
    ) -> (r: Vec<RankedTimelineItem>)
        ensures
            r.deep_view() == visible(mode, policy.deep_view(), self.now, items.deep_view()),
    {
        let source = self.rank(policy, items);
        let ghost all = source.deep_view();
        let ghost wanted_policy = policy.deep_view();
        let ghost keep = |ranked: RankedTimelineItemModel| shows(mode, wanted_policy, ranked);
        let mut result: Vec<RankedTimelineItem> = Vec::new();
        proof {
            reveal(Seq::filter);
            assert(all.take(0) =~= Seq::empty());
            assert(result.deep_view() =~= all.take(0).filter(keep));
        }
        for ranked in iter: source
            invariant
                all.len() == iter.seq().len(),
                forall|k: int| 0 <= k < all.len() ==> all[k] == (#[trigger] iter.seq()[k]).deep_view(),
                wanted_policy == policy.deep_view(),
                keep == (|ranked: RankedTimelineItemModel| shows(mode, wanted_policy, ranked)),
                result.deep_view() == all.take(iter.index() as int).filter(keep),
        {
            let ghost before = result.deep_view();
            let ghost at = iter.index() as int;
            proof {
                reveal(Seq::filter);
                assert(all.take(at + 1).drop_last() =~= all.take(at));
                assert(all.take(at + 1).last() == ranked.deep_view());
            }
            let shown = match mode {
                TimelineMode::Focus => !policy.muted_channels.contains(
                    ranked.item.channel_id.as_str(),
                ) && ranked.score.is_at_least(policy.focus_threshold),
                TimelineMode::Recent => policy.is_effectively_watched(
                    ranked.item.channel_id.as_str(),
                ),
            };
            if shown {
                let ghost meaning = ranked.deep_view();
                result.push(ranked);
                assert(result.deep_view() =~= before.push(meaning));
            }
        }
        assert(all.take(all.len() as int) =~= all);
        result
    }
}

/// Being newer, or having more points at one time, is an order.
proof fn lemma_newest_first_is_order()
    ensures
        is_weak_order(order_of::<RankedTimelineItem, NewestFirst>()),
{
    let before = order_of::<RankedTimelineItem, NewestFirst>();
    assert forall|a: RankedTimelineItemModel, b: RankedTimelineItemModel| #[trigger]
        before(a, b) implies !before(b, a) by {}
    assert forall|
        a: RankedTimelineItemModel,
        b: RankedTimelineItemModel,
        c: RankedTimelineItemModel,
    |
        !#[trigger] before(a, b) && !#[trigger] before(b, c) implies !before(a, c) by {}
}

/// The places that a filter keeps, in order.
proof fn lemma_filter_in_order<V>(
    values: Seq<V>,
    keep: spec_fn(V) -> bool,
    before: spec_fn(V, V) -> bool,
)
    requires
        in_order(values, before),
    ensures
        in_order(values.filter(keep), before),
        forall|v: V| #[trigger] values.filter(keep).contains(v) ==> values.contains(v) && keep(v),
    decreases values.len(),
{
    reveal(Seq::filter);
    if values.len() > 0 {
        let shorter = values.drop_last();
        assert forall|i: int, j: int| 0 <= i < j < shorter.len() implies !before(
            #[trigger] shorter[j],
            #[trigger] shorter[i],
        ) by {
            assert(!before(values[j], values[i]));
        }
        lemma_filter_in_order(shorter, keep, before);
        let inner = shorter.filter(keep);
        let result = values.filter(keep);
        assert(values[values.len() - 1] == values.last());
        assert forall|v: V| #[trigger] result.contains(v) implies values.contains(v) && keep(v) by {
            let i = choose|i: int| 0 <= i < result.len() && result[i] == v;
            if i < inner.len() {
                assert(inner[i] == v);
                assert(inner.contains(v));
                let k = choose|k: int| 0 <= k < shorter.len() && shorter[k] == v;
                assert(values[k] == v);
            }
        }
        assert forall|i: int, j: int| 0 <= i < j < result.len() implies !before(
            #[trigger] result[j],
            #[trigger] result[i],
        ) by {
            if j < inner.len() {
                assert(!before(inner[j], inner[i]));
            } else {
                assert(inner.contains(inner[i]));
                let k = choose|k: int| 0 <= k < shorter.len() && shorter[k] == inner[i];
                assert(!before(values[values.len() - 1], values[k]));
            }
        }
    }
}

/// The visible items stand newest first.
pub proof fn law_visible_items_are_newest_first(
    mode: TimelineMode,
    policy: TimelinePolicyModel,
    now: Timestamp,
    items: Seq<TimelineItemModel>,
    i: int,
    j: int,
)
    requires
        0 <= i <= j < visible(mode, policy, now, items).len(),
    ensures
        !visible(mode, policy, now, items)[i].item.last_activity_at.before(
            visible(mode, policy, now, items)[j].item.last_activity_at,
        ),
{
    let before = order_of::<RankedTimelineItem, NewestFirst>();
    lemma_newest_first_is_order();
    lemma_sorted_in_order(scored_items(policy, now, items), before);
    lemma_filter_in_order(
        ranked(policy, now, items),
        |ranked: RankedTimelineItemModel| shows(mode, policy, ranked),
        before,
    );
    if i < j {
        let shown = visible(mode, policy, now, items);
        assert(!before(shown[j], shown[i]));
    }
}

/// The ranked items stand in their order.
pub proof fn lemma_ranked_in_order(
    policy: TimelinePolicyModel,
    now: Timestamp,
    items: Seq<TimelineItemModel>,
    i: int,
    j: int,
)
    requires
        0 <= i < j < ranked(policy, now, items).len(),
    ensures
        !<NewestFirst as Order<RankedTimelineItem>>::before(
            ranked(policy, now, items)[j],
            ranked(policy, now, items)[i],
        ),
{
    let before = order_of::<RankedTimelineItem, NewestFirst>();
    lemma_newest_first_is_order();
    lemma_sorted_in_order(scored_items(policy, now, items), before);
    let all = ranked(policy, now, items);
    assert(!before(all[j], all[i]));
}

/// What is scored is one of the items, with the score that it has.
proof fn lemma_scored_items(
    policy: TimelinePolicyModel,
    now: Timestamp,
    items: Seq<TimelineItemModel>,
)
    ensures
        forall|r: RankedTimelineItemModel| #[trigger]
            scored_items(policy, now, items).contains(r) ==> items.contains(r.item) && scored(
                policy,
                now,
                r.item,
            ) == Some(r),
        forall|item: TimelineItemModel| #[trigger]
            items.contains(item) ==> (scored(policy, now, item) matches Some(r) ==> scored_items(
                policy,
                now,
                items,
            ).contains(r)),
    decreases items.len(),
{
    if items.len() > 0 {
        let shorter = items.drop_last();
        lemma_scored_items(policy, now, shorter);
        let head = scored_items(policy, now, shorter);
        let all = scored_items(policy, now, items);
        assert(items[items.len() - 1] == items.last());
        assert forall|r: RankedTimelineItemModel| #[trigger] all.contains(r) implies items.contains(
            r.item,
        ) && scored(policy, now, r.item) == Some(r) by {
            let i = choose|i: int| 0 <= i < all.len() && all[i] == r;
            if i < head.len() {
                assert(head[i] == r);
                assert(head.contains(r));
                let k = choose|k: int| 0 <= k < shorter.len() && shorter[k] == r.item;
                assert(items[k] == r.item);
            }
        }
        assert forall|item: TimelineItemModel| #[trigger] items.contains(item) implies (scored(
            policy,
            now,
            item,
        ) matches Some(r) ==> all.contains(r)) by {
            if let Some(r) = scored(policy, now, item) {
                let k = choose|k: int| 0 <= k < items.len() && items[k] == item;
                if k < shorter.len() {
                    assert(shorter[k] == item);
                    assert(shorter.contains(item));
                    let i = choose|i: int| 0 <= i < head.len() && head[i] == r;
                    assert(all[i] == r);
                } else {
                    assert(all[all.len() - 1] == r);
                }
            }
        }
    }
}

/// An item is visible exactly if it is one of the items given, has a score, and the mode shows
/// it; and its score and reasons are its own.
pub proof fn law_visible_items_are_the_shown_ones(
    mode: TimelineMode,
    policy: TimelinePolicyModel,
    now: Timestamp,
    items: Seq<TimelineItemModel>,
    entry: RankedTimelineItemModel,
)
    ensures
        visible(mode, policy, now, items).contains(entry) <==> items.contains(entry.item) && scored(
            policy,
            now,
            entry.item,
        ) == Some(entry) && shows(mode, policy, entry),
{
    broadcast use vstd::seq_lib::group_to_multiset_ensures;

    let before = order_of::<RankedTimelineItem, NewestFirst>();
    let keep = |ranked: RankedTimelineItemModel| shows(mode, policy, ranked);
    let source = scored_items(policy, now, items);
    lemma_sorted_multiset(source, before);
    lemma_newest_first_is_order();
    lemma_sorted_in_order(source, before);
    lemma_filter_in_order(ranked(policy, now, items), keep, before);
    lemma_scored_items(policy, now, items);
    let all = ranked(policy, now, items);
    if visible(mode, policy, now, items).contains(entry) {
        assert(all.contains(entry));
        assert(all.to_multiset().count(entry) > 0);
        assert(source.contains(entry));
    }
    if items.contains(entry.item) && scored(policy, now, entry.item) == Some(entry) && shows(
        mode,
        policy,
        entry,
    ) {
        assert(source.contains(entry));
        assert(source.to_multiset().count(entry) > 0);
        assert(all.contains(entry));
        let k = choose|k: int| 0 <= k < all.len() && all[k] == entry;
        broadcast use vstd::seq_lib::group_filter_ensures;

        assert(keep(all[k]));
    }
}

/// A muted channel never shows in the focus view.
pub proof fn law_focus_never_shows_muted_channels(
    policy: TimelinePolicyModel,
    now: Timestamp,
    items: Seq<TimelineItemModel>,
    entry: RankedTimelineItemModel,
)
    requires
        visible(TimelineMode::Focus, policy, now, items).contains(entry),
    ensures
        !policy.muted_channels.contains(entry.item.channel_id),
{
    law_visible_items_are_the_shown_ones(TimelineMode::Focus, policy, now, items, entry);
}

/// Without a list of watched channels the recent view shows every item.
pub proof fn law_recent_shows_all_without_watch_list(
    policy: TimelinePolicyModel,
    now: Timestamp,
    items: Seq<TimelineItemModel>,
    item: TimelineItemModel,
)
    requires
        policy.watched_channels.len() == 0,
        items.contains(item),
    ensures
        scored(policy, now, item) matches Some(entry) && visible(
            TimelineMode::Recent,
            policy,
            now,
            items,
        ).contains(entry),
{
    if let Some(entry) = scored(policy, now, item) {
        law_visible_items_are_the_shown_ones(TimelineMode::Recent, policy, now, items, entry);
    }
}

/// The points for keywords have a bound.
proof fn lemma_with_keywords_bound(score: Binary64, keywords: nat)
    requires
        score.magnitude() <= 1084 * HIDDEN_BIT,
    ensures
        with_keywords(score, keywords).magnitude() <= 1084 * HIDDEN_BIT,
    decreases keywords,
{
    if keywords > 0 {
        lemma_with_keywords_bound(score, (keywords - 1) as nat);
        lemma_small_steps_end(with_keywords(score, (keywords - 1) as nat), 25);
    }
}

/// Points have a bound.
proof fn lemma_with_points_bound(score: Binary64, condition: bool, points: int, limit: nat)
    requires
        -4096 < points < 4096,
        1035 <= limit <= 1800,
        score.magnitude() <= limit * HIDDEN_BIT,
    ensures
        with_points(score, condition, points).magnitude() <= (limit + 2) * HIDDEN_BIT,
{
    lemma_fraction_bound(points, 1);
    assert(1035 * HIDDEN_BIT <= limit * HIDDEN_BIT <= (limit + 2) * HIDDEN_BIT)
        by (nonlinear_arith)
        requires
            1035 <= limit,
    ;
    lemma_sum_bound(score, whole(points), limit);
}

/// Lasting scores are finite.
proof fn lemma_lasting_score_bound(policy: TimelinePolicyModel, item: TimelineItemModel)
    ensures
        lasting_score(policy, item).magnitude() <= 1090 * HIDDEN_BIT,
{
    lemma_fraction_bound(0, 1);
    let named = with_points(whole(0), item.direct_mention, 100);
    lemma_with_points_bound(whole(0), item.direct_mention, 100, 1035);
    let found = with_keywords(named, item_keywords(policy, item).len());
    lemma_with_keywords_bound(named, item_keywords(policy, item).len());
    let joined = with_points(found, item.participant && item.unread, 70);
    lemma_with_points_bound(found, item.participant && item.unread, 70, 1084);
    let is_watched = policy.effectively_watched(item.channel_id);
    let watched = with_points(joined, is_watched, channel_points(policy, item));
    lemma_with_points_bound(joined, is_watched, channel_points(policy, item), 1086);
    lemma_with_points_bound(watched, item.unread, 5, 1088);
}

/// Of two items with one time of activity, neither of them muted, the one whose lasting score is
/// not lower has no lower score.
pub proof fn law_points_order_scores_of_one_time(
    policy: TimelinePolicyModel,
    now: Timestamp,
    left: TimelineItemModel,
    right: TimelineItemModel,
)
    requires
        left.last_activity_at == right.last_activity_at,
        !policy.muted_channels.contains(left.channel_id),
        !policy.muted_channels.contains(right.channel_id),
        lasting_score(policy, left).reaches(lasting_score(policy, right)),
    ensures
        item_score(policy, now, left).reaches(item_score(policy, now, right)),
{
    lemma_lasting_score_bound(policy, left);
    lemma_lasting_score_bound(policy, right);
    law_sums_keep_order(
        lasting_score(policy, right),
        lasting_score(policy, left),
        fade(minutes_between(left.last_activity_at, now)),
    );
}

} // verus!
