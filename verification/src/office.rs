//! The office view: who is talking in the channels of the office.
use vstd::prelude::*;
use vstd::string::*;

use crate::collections::{
    ascending, bind, keys, lookup, order_of, sort_values, sorted, Order, TextMap,
};
use crate::emoji::{render_slack_text, with_emoji};
use crate::items::{count_items, select_items, ItemTest};
use crate::models::{AttachmentKind, TimelineItem, TimelineItemModel};
use crate::queries::{in_listed_channel, InListedChannel};
use crate::settings::ChannelProfileModel;
use crate::state::{UiState, UiStateModel};
use crate::text::{
    decimal, join, join_texts, owned, precedes, same_text, slice_text, split_words, text_before,
    to_chars, to_decimal, words,
};
use crate::time::{earlier_by, Timestamp};

verus! {

/// How far back activity in the office counts, in seconds.
pub const OFFICE_ACTIVITY_WINDOW_SECONDS: u64 = 28_800;

/// How many characters of a message a speech bubble shows.
pub const OFFICE_BUBBLE_BODY_LIMIT: usize = 160;

/// How many desks the office has.
pub const OFFICE_SLOT_COUNT: usize = 16;

/// What is shown at a desk of the office.
#[derive(Debug, PartialEq, Eq)]
pub struct OfficePresence {
    pub channel_name: String,
    pub thread_ts: String,
    pub speaker_name: String,
    pub speaker_avatar_path: Option<String>,
    pub latest_body: String,
    pub activity_count: usize,
}

/// What a [`OfficePresence`] says: its texts as sequences of characters.
#[verifier::ext_equal]
pub struct OfficePresenceModel {
    pub channel_name: Seq<char>,
    pub thread_ts: Seq<char>,
    pub speaker_name: Seq<char>,
    pub speaker_avatar_path: Option<Seq<char>>,
    pub latest_body: Seq<char>,
    pub activity_count: usize,
}

impl DeepView for OfficePresence {
    type V = OfficePresenceModel;

    open spec fn deep_view(&self) -> OfficePresenceModel {
        OfficePresenceModel {
            channel_name: self.channel_name@,
            thread_ts: self.thread_ts@,
            speaker_name: self.speaker_name@,
            speaker_avatar_path: self.speaker_avatar_path.deep_view(),
            latest_body: self.latest_body@,
            activity_count: self.activity_count,
        }
    }
}

impl Clone for OfficePresence {
    fn clone(&self) -> (copy: Self)
        ensures
            copy.deep_view() == self.deep_view(),
    {
        let copy = OfficePresence {
            channel_name: self.channel_name.clone(),
            thread_ts: self.thread_ts.clone(),
            speaker_name: self.speaker_name.clone(),
            speaker_avatar_path: self.speaker_avatar_path.clone(),
            latest_body: self.latest_body.clone(),
            activity_count: self.activity_count,
        };
        assert(copy.speaker_avatar_path.deep_view() =~= self.speaker_avatar_path.deep_view());
        copy
    }
}

/// The text in a speech bubble: the start of the message with white space tidied, or what was
/// shared.
pub open spec fn bubble_text(item: TimelineItemModel) -> Seq<char> {
    let rendered = join(words(with_emoji(item.body)), seq![' ']);
    if rendered.len() > OFFICE_BUBBLE_BODY_LIMIT {
        rendered.take(OFFICE_BUBBLE_BODY_LIMIT as int).push('…')
    } else if rendered.len() > 0 {
        rendered
    } else if item.attachments.len() == 0 {
        "is quiet right now"@
    } else if item.attachments.len() > 1 {
        "shared "@ + decimal(item.attachments.len()) + " attachments"@
    } else if item.attachments[0].kind == AttachmentKind::Image {
        "shared a new image"@
    } else {
        "shared "@ + item.attachments[0].title
    }
}

/// The latest message of each channel, by the order of time stamps; of messages with one time
/// stamp the first.
pub open spec fn latest_by_channel(items: Seq<TimelineItemModel>) -> Seq<
    (Seq<char>, TimelineItemModel),
>
    decreases items.len(),
{
    if items.len() == 0 {
        Seq::empty()
    } else {
        let known = latest_by_channel(items.drop_last());
        let item = items.last();
        match lookup(known, item.channel_id) {
            Some(existing) if !text_before(existing.message_ts, item.message_ts) => known,
            _ => bind(known, item.channel_id, item),
        }
    }
}

/// The condition of having been active in a channel since a time.
pub open spec fn active_in_channel(channel_id: Seq<char>, since: Timestamp) -> spec_fn(
    TimelineItemModel,
) -> bool {
    |item: TimelineItemModel|
        item.channel_id == channel_id && !item.last_activity_at.before(since)
}

/// Tests for activity in a channel since a time.
pub struct ActiveInChannel<'a> {
    pub channel_id: &'a str,
    pub since: Timestamp,
}

impl<'a> ItemTest for ActiveInChannel<'a> {
    open spec fn condition(&self) -> spec_fn(TimelineItemModel) -> bool {
        active_in_channel(self.channel_id@, self.since)
    }

    fn holds(&self, item: &TimelineItem) -> bool {
        same_text(item.channel_id.as_str(), self.channel_id) && !item.last_activity_at.is_before(
            self.since,
        )
    }
}

impl UiStateModel {
    /// Who speaks in a channel: its creator, or the author of the message.
    pub open spec fn speaker(self, item: TimelineItemModel) -> Seq<char> {
        match lookup(self.known_channel_creators, item.channel_id) {
            Some(creator) => creator,
            None => item.author_id,
        }
    }

    /// What is shown at the desk of a channel, given its latest message and the items of all
    /// channels of the office.
    pub open spec fn desk(
        self,
        item: TimelineItemModel,
        listed: Seq<TimelineItemModel>,
        since: Timestamp,
    ) -> OfficePresenceModel {
        OfficePresenceModel {
            channel_name: match self.channel_name(item.channel_id) {
                Some(name) => name,
                None => item.channel_name,
            },
            thread_ts: item.thread_ts,
            speaker_name: match lookup(self.user_names, self.speaker(item)) {
                Some(name) if name.len() > 0 => name,
                _ => item.author_name,
            },
            speaker_avatar_path: match lookup(self.user_avatar_paths, self.speaker(item)) {
                Some(path) => Some(path),
                None => item.author_avatar_path,
            },
            latest_body: bubble_text(item),
            activity_count: listed.filter(active_in_channel(item.channel_id, since)).len() as usize,
        }
    }

    /// The desks of the office: one for each of its channels that may be read, the busiest first.
    pub open spec fn desks(self, now: Timestamp) -> Seq<OfficePresenceModel> {
        match self.office_profile() {
            None => Seq::empty(),
            Some(profile) => {
                let since = earlier_by(now, OFFICE_ACTIVITY_WINDOW_SECONDS as int);
                let listed = self.source_items.filter(in_listed_channel(self.settings, profile));
                sorted(
                    latest_by_channel(listed).map_values(
                        |entry: (Seq<char>, TimelineItemModel)| self.desk(entry.1, listed, since),
                    ),
                    order_of::<OfficePresence, BusiestFirst>(),
                )
            },
        }
    }
}

/// The busiest desks first; of equally busy ones in the order of their channels' names.
pub struct BusiestFirst;

impl Order<OfficePresence> for BusiestFirst {
    open spec fn before(left: OfficePresenceModel, right: OfficePresenceModel) -> bool {
        left.activity_count > right.activity_count || (left.activity_count == right.activity_count
            && text_before(left.channel_name, right.channel_name))
    }

    fn stands_before(left: &OfficePresence, right: &OfficePresence) -> bool {
        left.activity_count > right.activity_count || (left.activity_count == right.activity_count
            && precedes(left.channel_name.as_str(), right.channel_name.as_str()))
    }
}

/// The text in a speech bubble.
pub fn office_message_preview(item: &TimelineItem) -> (r: String)
    ensures
        r@ == bubble_text(item.deep_view()),
{
    let shown = render_slack_text(item.body.as_str());
    let parts = split_words(shown.as_str());
    proof {
        reveal_strlit(" ");
        assert(" "@ =~= seq![' ']);
    }
    let rendered = join_texts(&parts, " ");
    let chars = to_chars(rendered.as_str());
    if chars.len() > OFFICE_BUBBLE_BODY_LIMIT {
        let mut preview = slice_text(&chars, 0, OFFICE_BUBBLE_BODY_LIMIT);
        assert(rendered@.subrange(0, OFFICE_BUBBLE_BODY_LIMIT as int) =~= rendered@.take(
            OFFICE_BUBBLE_BODY_LIMIT as int,
        ));
        preview.push('…');
        return preview;
    }
    if chars.len() > 0 {
        return rendered;
    }
    let count = item.attachments.len();
    if count == 0 {
        owned("is quiet right now")
    } else if count > 1 {
        let mut out = owned("shared ");
        out.append(to_decimal(count as u64).as_str());
        out.append(" attachments");
        out
    } else {
        assert(item.deep_view().attachments[0] == item.attachments[0].deep_view());
        if item.attachments[0].kind == AttachmentKind::Image {
            owned("shared a new image")
        } else {
            let mut out = owned("shared ");
            out.append(item.attachments[0].title.as_str());
            out
        }
    }
}

/// How busy a desk looks.
pub open spec fn activity_tier(activity_count: int) -> Seq<char> {
    if activity_count >= 8 {
        "office-desk-hot"@
    } else if activity_count >= 4 {
        "office-desk-warm"@
    } else {
        "office-desk-calm"@
    }
}

/// How busy a desk looks.
pub fn office_activity_tier_class(activity_count: usize) -> (r: &'static str)
    ensures
        r@ == activity_tier(activity_count as int),
{
    if activity_count >= 8 {
        "office-desk-hot"
    } else if activity_count >= 4 {
        "office-desk-warm"
    } else {
        "office-desk-calm"
    }
}

/// The shade of a floor tile, in seventeenths.
pub open spec fn tile_shade(column: int, row: int) -> int {
    (column * 37 + row * 53 + column * row * 11) % 17
}

/// The shade of a floor tile, in seventeenths.
pub fn office_tile_shade(column: i32, row: i32) -> (r: u8)
    ensures
        r == tile_shade(column as int, row as int),
        r < 17,
{
    let (c, w): (i128, i128) = (column as i128, row as i128);
    assert(-0x4000_0000_0000_0000 <= c * w <= 0x4000_0000_0000_0000) by (nonlinear_arith)
        requires
            -0x8000_0000 <= c <= 0x7fff_ffff,
            -0x8000_0000 <= w <= 0x7fff_ffff,
    ;
    let product: i128 = c * w;
    remainder_by_seventeen(c * 37 + w * 53 + product * 11)
}

/// The remainder, never negative, of a division by seventeen.
fn remainder_by_seventeen(value: i128) -> (r: u8)
    requires
        -0x10_0000_0000_0000_0000 < value < 0x10_0000_0000_0000_0000,
    ensures
        r == value as int % 17,
        r < 17,
{
    // A multiple of seventeen makes the value positive and leaves the remainder as it is.
    let lifted: i128 = 17 * 0x10_0000_0000_0000_0000 + value;
    proof {
        vstd::arithmetic::div_mod::lemma_mod_multiples_vanish(
            0x10_0000_0000_0000_0000,
            value as int,
            17,
        );
    }
    (lifted % 17) as u8
}

impl UiState {
    /// The latest message of each channel.
    fn latest_messages(items: &Vec<TimelineItem>) -> (r: TextMap<TimelineItem>)
        ensures
            r.deep_view() == latest_by_channel(items.deep_view()),
    {
        let ghost all = items.deep_view();
        let mut latest: TextMap<TimelineItem> = TextMap::new();
        let mut i: usize = 0;
        assert(all.take(0) =~= Seq::empty());
        while i < items.len()
            invariant
                i <= items.len(),
                all == items.deep_view(),
                latest.deep_view() == latest_by_channel(all.take(i as int)),
            decreases items.len() - i,
        {
            let item = &items[i];
            assert(all.take(i as int + 1).drop_last() =~= all.take(i as int));
            assert(all.take(i as int + 1).last() == item.deep_view());
            let replaces = match latest.get(item.channel_id.as_str()) {
                Some(existing) => precedes(existing.message_ts.as_str(), item.message_ts.as_str()),
                None => true,
            };
            if replaces {
                latest.insert(item.channel_id.clone(), item.clone());
            }
            i += 1;
        }
        assert(all.take(i as int) =~= all);
        latest
    }

    /// What is shown at the desk of a channel.
    fn presence_of(&self, item: &TimelineItem, listed: &Vec<TimelineItem>, since: Timestamp) -> (r:
        OfficePresence)
        ensures
            r.deep_view() == self.deep_view().desk(item.deep_view(), listed.deep_view(), since),
    {
        let speaker_id = match self.known_channel_creators.get(item.channel_id.as_str()) {
            Some(creator) => creator.clone(),
            None => item.author_id.clone(),
        };
        let speaker_name = match self.user_names.get(speaker_id.as_str()) {
            Some(name) => if name.as_str().is_empty() {
                item.author_name.clone()
            } else {
                name.clone()
            },
            None => item.author_name.clone(),
        };
        let speaker_avatar_path = match self.user_avatar_paths.get(speaker_id.as_str()) {
            Some(path) => Some(path.clone()),
            None => match &item.author_avatar_path {
                Some(path) => Some(path.clone()),
                None => None,
            },
        };
        let channel_name = match self.channel_name_for(item.channel_id.as_str()) {
            Some(name) => name,
            None => item.channel_name.clone(),
        };
        let activity_count = count_items(
            listed,
            &ActiveInChannel { channel_id: item.channel_id.as_str(), since },
        );
        OfficePresence {
            channel_name,
            thread_ts: item.thread_ts.clone(),
            speaker_name,
            speaker_avatar_path,
            latest_body: office_message_preview(item),
            activity_count,
        }
    }

    /// The desks of the office, the busiest first.
    pub fn office_presence_items(&self, now: Timestamp) -> (r: Vec<OfficePresence>)
        ensures
            r.deep_view() == self.deep_view().desks(now),
    {
        let ghost model = self.deep_view();
        let profile = match self.office_channel_profile() {
            Some(profile) => profile,
            None => {
                let none: Vec<OfficePresence> = Vec::new();
                assert(none.deep_view() =~= Seq::empty());
                return none;
            },
        };
        let since = now.minus_seconds(OFFICE_ACTIVITY_WINDOW_SECONDS);
        let listed = select_items(
            &self.source_items,
            &InListedChannel { settings: &self.settings, profile },
        );
        let latest = UiState::latest_messages(&listed);
        let entries = latest.entries();
        let ghost all = listed.deep_view();
        let ghost goal = entries.deep_view().map_values(
            |entry: (Seq<char>, TimelineItemModel)| model.desk(entry.1, all, since),
        );
        let mut presence: Vec<OfficePresence> = Vec::new();
        let mut i: usize = 0;
        assert(presence.deep_view() =~= goal.take(0));
        while i < entries.len()
            invariant
                i <= entries.len(),
                model == self.deep_view(),
                all == listed.deep_view(),
                goal == entries.deep_view().map_values(
                    |entry: (Seq<char>, TimelineItemModel)| model.desk(entry.1, all, since),
                ),
                presence.deep_view() == goal.take(i as int),
            decreases entries.len() - i,
        {
            let ghost before = presence.deep_view();
            let desk = self.presence_of(&entries[i].1, &listed, since);
            assert(goal[i as int] == desk.deep_view());
            presence.push(desk);
            assert(presence.deep_view() =~= before.push(goal[i as int]));
            i += 1;
            assert(goal.take(i as int) =~= goal.take(i - 1).push(goal[i - 1]));
        }
        assert(goal.take(i as int) =~= goal);
        sort_values::<OfficePresence, BusiestFirst>(presence)
    }
}

/// Each channel has one latest message, which is one of its own, and none of its messages has a
/// later time stamp.
proof fn lemma_latest_by_channel(items: Seq<TimelineItemModel>)
    ensures
        ascending(keys(latest_by_channel(items))),
        forall|id: Seq<char>|
            (#[trigger] lookup(latest_by_channel(items), id)) matches Some(latest)
                ==> items.contains(latest) && latest.channel_id == id,
        forall|item: TimelineItemModel| #[trigger]
            items.contains(item) ==> (lookup(latest_by_channel(items), item.channel_id) matches Some(
                latest,
            ) && !text_before(latest.message_ts, item.message_ts)),
    decreases items.len(),
{
    if items.len() > 0 {
        let shorter = items.drop_last();
        let item = items.last();
        let known = latest_by_channel(shorter);
        let after = latest_by_channel(items);
        lemma_latest_by_channel(shorter);
        crate::collections::lemma_bind_keys(known, item.channel_id, item);
        crate::collections::lemma_with_text_ascending(keys(known), item.channel_id);
        assert(items[items.len() - 1] == item);
        assert forall|id: Seq<char>| (#[trigger] lookup(after, id)) matches Some(latest) implies {
            &&& items.contains(lookup(after, id)->0)
            &&& lookup(after, id)->0.channel_id == id
        } by {
            crate::collections::lemma_lookup_bind(known, item.channel_id, item, id);
            if let Some(older) = lookup(known, id) {
                let at = choose|at: int| 0 <= at < shorter.len() && shorter[at] == older;
                assert(items[at] == older);
            }
        }
        assert forall|other: TimelineItemModel| #[trigger] items.contains(other) implies (lookup(
            after,
            other.channel_id,
        ) matches Some(latest) && !text_before(latest.message_ts, other.message_ts)) by {
            crate::collections::lemma_lookup_bind(known, item.channel_id, item, other.channel_id);
            let at = choose|at: int| 0 <= at < items.len() && items[at] == other;
            if at < items.len() - 1 {
                assert(shorter[at] == other);
                assert(shorter.contains(other));
                if let Some(older) = lookup(known, item.channel_id) {
                    if other.channel_id == item.channel_id && text_before(
                        older.message_ts,
                        item.message_ts,
                    ) && text_before(item.message_ts, other.message_ts) {
                        crate::text::lemma_text_before_transitive(
                            older.message_ts,
                            item.message_ts,
                            other.message_ts,
                        );
                    }
                }
            } else {
                crate::text::lemma_text_before_irreflexive(item.message_ts);
            }
        }
    } else {
        assert(keys(latest_by_channel(items)).len() == 0);
    }
}

/// The desks have a weak order.
proof fn lemma_busiest_order()
    ensures
        crate::collections::is_weak_order(order_of::<OfficePresence, BusiestFirst>()),
{
    let before = order_of::<OfficePresence, BusiestFirst>();
    assert forall|a: OfficePresenceModel, b: OfficePresenceModel| #[trigger]
        before(a, b) implies !before(b, a) by {
        crate::text::lemma_text_before_asymmetric(a.channel_name, b.channel_name);
    }
    assert forall|a: OfficePresenceModel, b: OfficePresenceModel, c: OfficePresenceModel|
        !#[trigger] before(a, b) && !#[trigger] before(b, c) implies !before(a, c) by {
        crate::text::lemma_text_before_connected(
            a.channel_name,
            b.channel_name,
            c.channel_name,
        );
    }
}

/// What is found under a key stands in one of the entries.
proof fn lemma_lookup_at(
    entries: Seq<(Seq<char>, TimelineItemModel)>,
    key: Seq<char>,
) -> (at: int)
    requires
        lookup(entries, key) is Some,
    ensures
        0 <= at < entries.len(),
        entries[at].1 == lookup(entries, key)->0,
    decreases entries.len(),
{
    if entries.first().0 == key {
        0
    } else {
        lemma_lookup_at(entries.skip(1), key) + 1
    }
}

/// Every channel of the office that has messages has one desk, which shows its latest message,
/// and no desk is busier than the one before it.
pub proof fn law_each_channel_has_one_desk(
    state: UiStateModel,
    profile: ChannelProfileModel,
    now: Timestamp,
)
    requires
        state.office_profile() == Some(profile),
    ensures
        ({
            let since = earlier_by(now, OFFICE_ACTIVITY_WINDOW_SECONDS as int);
            let listed = state.source_items.filter(in_listed_channel(state.settings, profile));
            let latest = latest_by_channel(listed);
            let desks = state.desks(now);
            &&& desks.len() == latest.len()
            &&& ascending(keys(latest))
            &&& forall|item: TimelineItemModel| #[trigger]
                listed.contains(item) ==> (lookup(latest, item.channel_id) matches Some(newest)
                    && newest.channel_id == item.channel_id && listed.contains(newest)
                    && !text_before(newest.message_ts, item.message_ts) && desks.contains(
                    state.desk(newest, listed, since),
                ))
            &&& forall|i: int, j: int|
                0 <= i < j < desks.len() ==> (#[trigger] desks[i]).activity_count
                    >= (#[trigger] desks[j]).activity_count
        }),
{
    broadcast use vstd::seq_lib::group_to_multiset_ensures;

    let since = earlier_by(now, OFFICE_ACTIVITY_WINDOW_SECONDS as int);
    let listed = state.source_items.filter(in_listed_channel(state.settings, profile));
    let latest = latest_by_channel(listed);
    let order = order_of::<OfficePresence, BusiestFirst>();
    let presence = latest.map_values(
        |entry: (Seq<char>, TimelineItemModel)| state.desk(entry.1, listed, since),
    );
    let desks = state.desks(now);
    lemma_latest_by_channel(listed);
    lemma_busiest_order();
    crate::collections::lemma_sorted_multiset(presence, order);
    crate::collections::lemma_sorted_in_order(presence, order);
    assert forall|item: TimelineItemModel| #[trigger] listed.contains(item) implies (lookup(
        latest,
        item.channel_id,
    ) matches Some(newest) && newest.channel_id == item.channel_id && listed.contains(newest)
        && !text_before(newest.message_ts, item.message_ts) && desks.contains(
        state.desk(newest, listed, since),
    )) by {
        let newest = lookup(latest, item.channel_id)->0;
        let at = lemma_lookup_at(latest, item.channel_id);
        assert(presence[at] == state.desk(newest, listed, since));
        assert(presence.contains(presence[at]));
        assert(desks.to_multiset().count(presence[at]) > 0);
    }
    assert forall|i: int, j: int| 0 <= i < j < desks.len() implies (#[trigger] desks[i]).activity_count
        >= (#[trigger] desks[j]).activity_count by {
        assert(!order(desks[j], desks[i]));
    }
}

} // verus!
