//! What the state of the window says: names, lists to choose from, threads.
use vstd::prelude::*;
use vstd::string::*;

use crate::collections::{
    bind, bind_missing, contains_text, find_by_id, first_match, lemma_first_match, lookup, order_of,
    sort_values, sorted, with_id, Order, TextMap,
};
use crate::items::{
    any_item, any_passes, by_author, by_named_author, count_items, find_item, in_channel, in_thread,
    is_message, is_message_in, is_reply_in, select_items, AuthorIs, ChannelIs, ItemTest,
    MessageInChannel, MessageIs, NamedAuthorIs, ReplyIn, ThreadIs,
};
use crate::matching::channel_listed_outcome;
use crate::models::{
    AttachmentKind, AttachmentSummary, AttachmentSummaryModel, RankedTimelineItem,
    RankedTimelineItemModel, TimelineItem, TimelineItemModel,
};
use crate::patterns::{any_channel_name_matches, RegexError};
use crate::settings::{
    AppSettings, AppSettingsModel, ChannelProfile, ChannelProfileModel, SectionProfile,
};
use crate::state::{timeline_roots, Names, RootInReadableChannel, UiState, UiStateModel};
use crate::text::{blank, is_blank, owned, precedes, same_text, text_before};

verus! {

/// Pairs of identifier and label in the order of their labels.
pub struct ByLabel;

impl Order<(String, String)> for ByLabel {
    open spec fn before(left: (Seq<char>, Seq<char>), right: (Seq<char>, Seq<char>)) -> bool {
        text_before(left.1, right.1)
    }

    fn stands_before(left: &(String, String), right: &(String, String)) -> bool {
        precedes(left.1.as_str(), right.1.as_str())
    }
}

/// Pairs of identifier and label in the order of their labels, then of their identifiers.
pub struct ByLabelThenId;

impl Order<(String, String)> for ByLabelThenId {
    open spec fn before(left: (Seq<char>, Seq<char>), right: (Seq<char>, Seq<char>)) -> bool {
        text_before(left.1, right.1) || (left.1 == right.1 && text_before(left.0, right.0))
    }

    fn stands_before(left: &(String, String), right: &(String, String)) -> bool {
        precedes(left.1.as_str(), right.1.as_str()) || (left.1 == right.1 && precedes(
            left.0.as_str(),
            right.0.as_str(),
        ))
    }
}

/// Messages in the order of their time stamps.
pub struct ByMessageTs;

impl Order<TimelineItem> for ByMessageTs {
    open spec fn before(left: TimelineItemModel, right: TimelineItemModel) -> bool {
        text_before(left.message_ts, right.message_ts)
    }

    fn stands_before(left: &TimelineItem, right: &TimelineItem) -> bool {
        precedes(left.message_ts.as_str(), right.message_ts.as_str())
    }
}

/// Pairs in the order of their labels.
pub open spec fn sorted_by_label(pairs: Names) -> Names {
    sorted(pairs, order_of::<(String, String), ByLabel>())
}

/// The authors of items with their names; of one author the last item counts.
pub open spec fn author_names(items: Seq<TimelineItemModel>) -> Names
    decreases items.len(),
{
    if items.len() == 0 {
        Seq::empty()
    } else {
        bind(author_names(items.drop_last()), items.last().author_id, items.last().author_name)
    }
}

/// Members, completed by the authors of items, but for the user.
pub open spec fn with_authors(members: Names, items: Seq<TimelineItemModel>) -> Names
    decreases items.len(),
{
    if items.len() == 0 {
        members
    } else {
        let known = with_authors(members, items.drop_last());
        if items.last().author_name == "you"@ {
            known
        } else {
            bind_missing(known, items.last().author_id, items.last().author_name)
        }
    }
}

/// The channels of ranked items with their names; of one channel the last item counts.
pub open spec fn ranked_channels(ranked: Seq<RankedTimelineItemModel>) -> Names
    decreases ranked.len(),
{
    if ranked.len() == 0 {
        Seq::empty()
    } else {
        bind(
            ranked_channels(ranked.drop_last()),
            ranked.last().item.channel_id,
            ranked.last().item.channel_name,
        )
    }
}

/// The condition of being in a channel that may be read and that a profile lists.
pub open spec fn in_listed_channel(
    settings: AppSettingsModel,
    profile: ChannelProfileModel,
) -> spec_fn(TimelineItemModel) -> bool {
    |item: TimelineItemModel|
        settings.permission(item.channel_id).readable() && channel_listed_outcome(
            profile.channels,
            profile.channel_name_matchers,
            item.channel_id,
            item.channel_name,
        ) == Ok::<bool, Seq<char>>(true)
}

/// Channels with those of items at the end, each once.
pub open spec fn with_item_channels(channels: Names, items: Seq<TimelineItemModel>) -> Names
    decreases items.len(),
{
    if items.len() == 0 {
        channels
    } else {
        let known = with_item_channels(channels, items.drop_last());
        if has_pair(known, items.last().channel_id) {
            known
        } else {
            known.push((items.last().channel_id, items.last().channel_name))
        }
    }
}

/// Whether a list of pairs has one with an identifier.
pub open spec fn has_pair(pairs: Names, id: Seq<char>) -> bool {
    exists|i: int| 0 <= i < pairs.len() && (#[trigger] pairs[i]).0 == id
}

/// Whether an attachment is an image whose cached file is one of those that cannot be shown.
pub open spec fn needs_image(attachment: AttachmentSummaryModel, broken: Seq<Seq<char>>) -> bool {
    attachment.kind == AttachmentKind::Image && (attachment.url matches Some(path)
        && broken.contains(path))
}

/// Whether one of the attachments is such an image.
pub open spec fn lacks_image(
    attachments: Seq<AttachmentSummaryModel>,
    broken: Seq<Seq<char>>,
) -> bool {
    exists|i: int|
        0 <= i < attachments.len() && needs_image(#[trigger] attachments[i], broken)
}

/// The condition of lacking something that the directory of users has: a name, an avatar, or an
/// image that can be shown.
pub open spec fn lacks_author(broken: Seq<Seq<char>>) -> spec_fn(TimelineItemModel) -> bool {
    |item: TimelineItemModel|
        (item.author_name == item.author_id && item.author_name != "you"@)
            || item.author_avatar_path is None || lacks_image(item.attachments, broken)
}

/// The condition of lacking the name of the channel.
pub open spec fn lacks_channel_name() -> spec_fn(TimelineItemModel) -> bool {
    |item: TimelineItemModel|
        is_blank(item.channel_name) || item.channel_name == item.channel_id
}

impl UiStateModel {
    /// The name of a channel: the one noted, or that of its first item.
    pub open spec fn channel_name(self, id: Seq<char>) -> Option<Seq<char>> {
        match lookup(self.known_channels, id) {
            Some(name) => Some(name),
            None => match first_match(self.source_items, in_channel(id)) {
                Some(item) => Some(item.channel_name),
                None => None,
            },
        }
    }

    /// The name of an author: the user is "you"; else the name noted, that of a named item, or
    /// the identifier.
    pub open spec fn author_name(self, id: Seq<char>, participant: bool) -> Seq<char> {
        if participant {
            "you"@
        } else {
            match lookup(self.user_names, id) {
                Some(name) => name,
                None => match first_match(self.source_items, by_named_author(id)) {
                    Some(item) => item.author_name,
                    None => id,
                },
            }
        }
    }

    /// The avatar of an author: the one noted, or that of the author's first item.
    pub open spec fn author_avatar(self, id: Seq<char>) -> Option<Seq<char>> {
        match lookup(self.user_avatar_paths, id) {
            Some(path) => Some(path),
            None => match first_match(self.source_items, by_author(id)) {
                Some(item) => item.author_avatar_path,
                None => None,
            },
        }
    }

    /// The channels that may be read, in the order of their names.
    pub open spec fn channels(self) -> Names {
        sorted_by_label(
            self.known_channels.filter(
                |pair: (Seq<char>, Seq<char>)| self.settings.permission(pair.0).readable(),
            ),
        )
    }

    /// The channels that may be written to, in the order of their names.
    pub open spec fn post_channels(self) -> Names {
        self.channels().filter(
            |pair: (Seq<char>, Seq<char>)| self.settings.permission(pair.0).writable(),
        )
    }

    /// The items that are loaded and shown.
    pub open spec fn loaded(self) -> Seq<RankedTimelineItemModel> {
        if self.loaded_timeline_items <= self.filtered_ranked_items.len() {
            self.filtered_ranked_items.take(self.loaded_timeline_items as int)
        } else {
            self.filtered_ranked_items
        }
    }

    /// The channel profile of the office view: the one set, or the one for personal channels.
    pub open spec fn office_profile(self) -> Option<ChannelProfileModel> {
        match self.settings.office.channel_profile_id {
            Some(id) if with_id::<ChannelProfile>(self.settings.channel_profiles, id) is Some => {
                with_id::<ChannelProfile>(self.settings.channel_profiles, id)
            },
            _ => with_id::<ChannelProfile>(self.settings.channel_profiles, "times_channels"@),
        }
    }

    /// The channels that a refresh looks at: those of the items shown, then those of the office
    /// view, or all if there are none; no more than a limit.
    pub open spec fn refresh_channels(self, limit: int) -> Names {
        let shown = ranked_channels(self.loaded());
        let wanted = match self.office_profile() {
            Some(profile) => with_item_channels(
                shown,
                self.source_items.filter(in_listed_channel(self.settings, profile)),
            ),
            None => shown,
        };
        let all = if wanted.len() == 0 {
            self.channels()
        } else {
            wanted
        };
        if all.len() <= limit {
            all
        } else {
            all.take(limit)
        }
    }

    /// The messages of a thread in the order of their time stamps.
    pub open spec fn thread(self, thread_ts: Seq<char>) -> Seq<TimelineItemModel> {
        sorted(
            self.source_items.filter(in_thread(thread_ts)),
            order_of::<TimelineItem, ByMessageTs>(),
        )
    }
}

/// Whether a profile lists a channel, by identifier or by name.
pub fn channel_profile_matches_channel(
    profile: &ChannelProfile,
    channel_id: &str,
    channel_name: &str,
) -> (r: Result<bool, RegexError>)
    ensures
        crate::patterns::said(r) == channel_listed_outcome(
            profile.deep_view().channels,
            profile.deep_view().channel_name_matchers,
            channel_id@,
            channel_name@,
        ),
{
    if profile.channels.contains(channel_id) {
        return Ok(true);
    }
    any_channel_name_matches(&profile.channel_name_matchers, channel_name)
}

/// Whether a section lists a channel, by identifier or by name.
pub fn section_profile_matches_channel(
    profile: &SectionProfile,
    channel_id: &str,
    channel_name: &str,
) -> (r: Result<bool, RegexError>)
    ensures
        crate::patterns::said(r) == channel_listed_outcome(
            profile.deep_view().channels,
            profile.deep_view().channel_name_matchers,
            channel_id@,
            channel_name@,
        ),
{
    if profile.channels.contains(channel_id) {
        return Ok(true);
    }
    any_channel_name_matches(&profile.channel_name_matchers, channel_name)
}

/// Tests for a channel that may be read and that a profile lists.
pub struct InListedChannel<'a> {
    pub settings: &'a AppSettings,
    pub profile: &'a ChannelProfile,
}

impl<'a> ItemTest for InListedChannel<'a> {
    open spec fn condition(&self) -> spec_fn(TimelineItemModel) -> bool {
        in_listed_channel(self.settings.deep_view(), self.profile.deep_view())
    }

    fn holds(&self, item: &TimelineItem) -> bool {
        self.settings.can_read_channel(item.channel_id.as_str()) && matches!(
            channel_profile_matches_channel(
                self.profile,
                item.channel_id.as_str(),
                item.channel_name.as_str(),
            ),
            Ok(true)
        )
    }
}

/// Tests for what the directory of users can complete.
pub struct LacksAuthor<'a>(pub &'a Vec<String>);

impl<'a> ItemTest for LacksAuthor<'a> {
    open spec fn condition(&self) -> spec_fn(TimelineItemModel) -> bool {
        lacks_author(self.0.deep_view())
    }

    fn holds(&self, item: &TimelineItem) -> bool {
        (same_text(item.author_name.as_str(), item.author_id.as_str()) && !same_text(
            item.author_name.as_str(),
            "you",
        )) || item.author_avatar_path.is_none() || any_needs_image(&item.attachments, self.0)
    }
}

fn any_needs_image(attachments: &Vec<AttachmentSummary>, broken: &Vec<String>) -> (r: bool)
    ensures
        r == lacks_image(attachments.deep_view(), broken.deep_view()),
{
    let ghost all = attachments.deep_view();
    let mut i: usize = 0;
    while i < attachments.len()
        invariant
            i <= attachments.len(),
            all == attachments.deep_view(),
            forall|k: int| 0 <= k < i ==> !needs_image(#[trigger] all[k], broken.deep_view()),
        decreases attachments.len() - i,
    {
        assert(all[i as int] == attachments[i as int].deep_view());
        if attachments[i].kind == AttachmentKind::Image {
            if let Some(path) = &attachments[i].url {
                if contains_text(broken, path.as_str()) {
                    return true;
                }
            }
        }
        i += 1;
    }
    false
}

/// Tests for a missing name of the channel.
pub struct LacksChannelName;

impl ItemTest for LacksChannelName {
    open spec fn condition(&self) -> spec_fn(TimelineItemModel) -> bool {
        lacks_channel_name()
    }

    fn holds(&self, item: &TimelineItem) -> bool {
        blank(item.channel_name.as_str()) || same_text(
            item.channel_name.as_str(),
            item.channel_id.as_str(),
        )
    }
}

/// A pair of texts once more.
fn copy_pair(pair: &(String, String)) -> (r: (String, String))
    ensures
        r.deep_view() == pair.deep_view(),
{
    (pair.0.clone(), pair.1.clone())
}

/// Puts a pair at the end.
fn push_pair(pairs: &mut Vec<(String, String)>, pair: (String, String))
    ensures
        final(pairs).deep_view() == old(pairs).deep_view().push(pair.deep_view()),
{
    let ghost before = pairs.deep_view();
    let ghost added = pair.deep_view();
    pairs.push(pair);
    assert(pairs.deep_view() =~= before.push(added));
}

/// Whether a list of pairs has one with an identifier.
fn contains_pair(pairs: &Vec<(String, String)>, id: &str) -> (r: bool)
    ensures
        r == has_pair(pairs.deep_view(), id@),
{
    let ghost all = pairs.deep_view();
    let mut i: usize = 0;
    while i < pairs.len()
        invariant
            i <= pairs.len(),
            all == pairs.deep_view(),
            forall|k: int| 0 <= k < i ==> (#[trigger] all[k]).0 != id@,
        decreases pairs.len() - i,
    {
        assert(all[i as int] == pairs[i as int].deep_view());
        if same_text(pairs[i].0.as_str(), id) {
            return true;
        }
        i += 1;
    }
    false
}

/// Copies of all entries of a map.
fn copy_entries(map: &TextMap<String>) -> (r: Vec<(String, String)>)
    ensures
        r.deep_view() == map.deep_view(),
{
    let entries = map.entries();
    let ghost all = entries.deep_view();
    let mut out: Vec<(String, String)> = Vec::new();
    let mut i: usize = 0;
    assert(out.deep_view() =~= all.take(0));
    while i < entries.len()
        invariant
            i <= entries.len(),
            all == entries.deep_view(),
            out.deep_view() == all.take(i as int),
        decreases entries.len() - i,
    {
        push_pair(&mut out, copy_pair(&entries[i]));
        assert(all[i as int] == entries[i as int].deep_view());
        i += 1;
        assert(all.take(i as int) =~= all.take(i - 1).push(all[i - 1]));
    }
    assert(all.take(i as int) =~= all);
    out
}

impl UiState {
    /// The key of the active workspace.
    pub fn active_workspace_key(&self) -> (r: String)
        ensures
            r@ == self.deep_view().workspace_key(),
    {
        crate::state::normalized_active_workspace_key(&self.settings)
    }

    /// The sections to choose from, in the order of their labels, then of their identifiers.
    pub fn available_sections(&self) -> (r: Vec<(String, String)>)
        ensures
            r.deep_view() == sorted(
                self.deep_view().settings.section_profiles.map_values(
                    |profile: crate::settings::SectionProfileModel| (profile.id, profile.label),
                ),
                order_of::<(String, String), ByLabelThenId>(),
            ),
    {
        let ghost goal = self.settings.section_profiles.deep_view().map_values(
            |profile: crate::settings::SectionProfileModel| (profile.id, profile.label),
        );
        let mut pairs: Vec<(String, String)> = Vec::new();
        let mut i: usize = 0;
        assert(pairs.deep_view() =~= goal.take(0));
        while i < self.settings.section_profiles.len()
            invariant
                i <= self.settings.section_profiles.len(),
                goal == self.settings.section_profiles.deep_view().map_values(
                    |profile: crate::settings::SectionProfileModel| (profile.id, profile.label),
                ),
                pairs.deep_view() == goal.take(i as int),
            decreases self.settings.section_profiles.len() - i,
        {
            let profile = &self.settings.section_profiles[i];
            push_pair(&mut pairs, (profile.id.clone(), profile.label.clone()));
            assert(goal[i as int] == (profile.id@, profile.label@));
            i += 1;
            assert(goal.take(i as int) =~= goal.take(i - 1).push(goal[i - 1]));
        }
        assert(goal.take(i as int) =~= goal);
        sort_values::<(String, String), ByLabelThenId>(pairs)
    }

    /// The search profiles to choose from, in the order of their labels.
    pub fn search_profiles(&self) -> (r: Vec<(String, String)>)
        ensures
            r.deep_view() == sorted_by_label(
                self.deep_view().settings.search_profiles.map_values(
                    |profile: crate::settings::SearchProfileModel| (profile.id, profile.label),
                ),
            ),
    {
        let ghost goal = self.settings.search_profiles.deep_view().map_values(
            |profile: crate::settings::SearchProfileModel| (profile.id, profile.label),
        );
        let mut pairs: Vec<(String, String)> = Vec::new();
        let mut i: usize = 0;
        assert(pairs.deep_view() =~= goal.take(0));
        while i < self.settings.search_profiles.len()
            invariant
                i <= self.settings.search_profiles.len(),
                goal == self.settings.search_profiles.deep_view().map_values(
                    |profile: crate::settings::SearchProfileModel| (profile.id, profile.label),
                ),
                pairs.deep_view() == goal.take(i as int),
            decreases self.settings.search_profiles.len() - i,
        {
            let profile = &self.settings.search_profiles[i];
            push_pair(&mut pairs, (profile.id.clone(), profile.label.clone()));
            assert(goal[i as int] == (profile.id@, profile.label@));
            i += 1;
            assert(goal.take(i as int) =~= goal.take(i - 1).push(goal[i - 1]));
        }
        assert(goal.take(i as int) =~= goal);
        sort_values::<(String, String), ByLabel>(pairs)
    }

    /// The channel profile of the office view.
    pub fn office_channel_profile(&self) -> (r: Option<&ChannelProfile>)
        ensures
            match r {
                Some(profile) => self.deep_view().office_profile() == Some(profile.deep_view()),
                None => self.deep_view().office_profile() is None,
            },
    {
        if let Some(id) = &self.settings.office.channel_profile_id {
            if let Some(profile) = find_by_id(&self.settings.channel_profiles, id.as_str()) {
                return Some(profile);
            }
        }
        find_by_id(&self.settings.channel_profiles, "times_channels")
    }

    /// The identifier of the channel profile that the office shows.
    pub fn office_channel_profile_id(&self) -> (r: Option<&str>)
        ensures
            r.deep_view() == (match self.deep_view().office_profile() {
                Some(profile) => Some(profile.id),
                None => None,
            }),
    {
        match self.office_channel_profile() {
            Some(profile) => Some(profile.id.as_str()),
            None => None,
        }
    }

    /// The channels that may be read, in the order of their names.
    pub fn available_channels(&self) -> (r: Vec<(String, String)>)
        ensures
            r.deep_view() == self.deep_view().channels(),
    {
        let entries = self.known_channels.entries();
        let ghost all = entries.deep_view();
        let ghost settings = self.settings.deep_view();
        let ghost keep = |pair: (Seq<char>, Seq<char>)| settings.permission(pair.0).readable();
        let mut pairs: Vec<(String, String)> = Vec::new();
        let mut i: usize = 0;
        proof {
            reveal(Seq::filter);
            assert(all.take(0) =~= Seq::empty());
            assert(pairs.deep_view() =~= all.take(0).filter(keep));
        }
        while i < entries.len()
            invariant
                i <= entries.len(),
                all == entries.deep_view(),
                settings == self.settings.deep_view(),
                keep == (|pair: (Seq<char>, Seq<char>)| settings.permission(pair.0).readable()),
                pairs.deep_view() == all.take(i as int).filter(keep),
            decreases entries.len() - i,
        {
            proof {
                reveal(Seq::filter);
                assert(all.take(i as int + 1).drop_last() =~= all.take(i as int));
                assert(all.take(i as int + 1).last() == entries[i as int].deep_view());
            }
            if self.settings.can_read_channel(entries[i].0.as_str()) {
                push_pair(&mut pairs, copy_pair(&entries[i]));
            }
            i += 1;
        }
        assert(all.take(i as int) =~= all);
        sort_values::<(String, String), ByLabel>(pairs)
    }

    /// The channels that may be written to, in the order of their names.
    pub fn available_post_channels(&self) -> (r: Vec<(String, String)>)
        ensures
            r.deep_view() == self.deep_view().post_channels(),
    {
        let channels = self.available_channels();
        let ghost all = channels.deep_view();
        let ghost settings = self.settings.deep_view();
        let ghost keep = |pair: (Seq<char>, Seq<char>)| settings.permission(pair.0).writable();
        let mut pairs: Vec<(String, String)> = Vec::new();
        let mut i: usize = 0;
        proof {
            reveal(Seq::filter);
            assert(all.take(0) =~= Seq::empty());
            assert(pairs.deep_view() =~= all.take(0).filter(keep));
        }
        while i < channels.len()
            invariant
                i <= channels.len(),
                all == channels.deep_view(),
                settings == self.settings.deep_view(),
                keep == (|pair: (Seq<char>, Seq<char>)| settings.permission(pair.0).writable()),
                pairs.deep_view() == all.take(i as int).filter(keep),
            decreases channels.len() - i,
        {
            proof {
                reveal(Seq::filter);
                assert(all.take(i as int + 1).drop_last() =~= all.take(i as int));
                assert(all.take(i as int + 1).last() == channels[i as int].deep_view());
            }
            if self.settings.can_write_channel(channels[i].0.as_str()) {
                push_pair(&mut pairs, copy_pair(&channels[i]));
            }
            i += 1;
        }
        assert(all.take(i as int) =~= all);
        pairs
    }

    /// How many of the items shown are loaded.
    pub fn loaded_count(&self) -> (r: usize)
        ensures
            r == self.deep_view().loaded().len(),
            r <= self.filtered_ranked_items.len(),
    {
        if self.loaded_timeline_items <= self.filtered_ranked_items.len() {
            self.loaded_timeline_items
        } else {
            self.filtered_ranked_items.len()
        }
    }

    /// The items that are loaded and shown.
    pub fn loaded_visible_items(&self) -> (r: Vec<RankedTimelineItem>)
        ensures
            r.deep_view() == self.deep_view().loaded(),
    {
        let count = self.loaded_count();
        let ghost goal = self.deep_view().loaded();
        let mut out: Vec<RankedTimelineItem> = Vec::new();
        let mut i: usize = 0;
        assert(out.deep_view() =~= goal.take(0));
        while i < count
            invariant
                i <= count <= self.filtered_ranked_items.len(),
                count == goal.len(),
                goal == self.deep_view().loaded(),
                out.deep_view() == goal.take(i as int),
            decreases count - i,
        {
            let ghost before = out.deep_view();
            let copy = self.filtered_ranked_items[i].clone();
            assert(goal[i as int] == copy.deep_view());
            out.push(copy);
            assert(out.deep_view() =~= before.push(goal[i as int]));
            i += 1;
            assert(goal.take(i as int) =~= goal.take(i - 1).push(goal[i - 1]));
        }
        assert(goal.take(i as int) =~= goal);
        out
    }

    /// The channels of the items that are loaded and shown, with their names.
    fn loaded_channels(&self) -> (r: Vec<(String, String)>)
        ensures
            r.deep_view() == ranked_channels(self.deep_view().loaded()),
    {
        let count = self.loaded_count();
        let ghost all = self.deep_view().loaded();
        let mut channels: TextMap<String> = TextMap::new();
        let mut i: usize = 0;
        assert(all.take(0) =~= Seq::empty());
        while i < count
            invariant
                i <= count <= self.filtered_ranked_items.len(),
                count == all.len(),
                all == self.deep_view().loaded(),
                channels.deep_view() == ranked_channels(all.take(i as int)),
            decreases count - i,
        {
            let item = &self.filtered_ranked_items[i].item;
            assert(all.take(i as int + 1).drop_last() =~= all.take(i as int));
            assert(all.take(i as int + 1).last() == self.filtered_ranked_items[i as int].deep_view());
            channels.insert(item.channel_id.clone(), item.channel_name.clone());
            i += 1;
        }
        assert(all.take(i as int) =~= all);
        copy_entries(&channels)
    }

    /// The channels that a refresh looks at.
    pub fn background_refresh_channels(&self, limit: usize) -> (r: Vec<(String, String)>)
        ensures
            r.deep_view() == self.deep_view().refresh_channels(limit as int),
    {
        let mut channels = self.loaded_channels();
        if let Some(profile) = self.office_channel_profile() {
            let listed = select_items(
                &self.source_items,
                &InListedChannel { settings: &self.settings, profile },
            );
            let ghost all = listed.deep_view();
            let ghost start = channels.deep_view();
            let mut i: usize = 0;
            assert(all.take(0) =~= Seq::empty());
            while i < listed.len()
                invariant
                    i <= listed.len(),
                    all == listed.deep_view(),
                    channels.deep_view() == with_item_channels(start, all.take(i as int)),
                decreases listed.len() - i,
            {
                let item = &listed[i];
                assert(all.take(i as int + 1).drop_last() =~= all.take(i as int));
                assert(all.take(i as int + 1).last() == item.deep_view());
                if !contains_pair(&channels, item.channel_id.as_str()) {
                    push_pair(
                        &mut channels,
                        (item.channel_id.clone(), item.channel_name.clone()),
                    );
                }
                i += 1;
            }
            assert(all.take(i as int) =~= all);
        }
        if channels.len() == 0 {
            channels = self.available_channels();
        }
        let ghost all = channels.deep_view();
        if channels.len() > limit {
            channels.truncate(limit);
            assert(channels.deep_view() =~= all.take(limit as int));
        }
        channels
    }

    /// The authors of the timeline to choose from, in the order of their names.
    pub fn available_authors(&self) -> (r: Vec<(String, String)>)
        ensures
            r.deep_view() == sorted_by_label(
                author_names(
                    timeline_roots(self.deep_view().settings, self.deep_view().source_items),
                ),
            ),
    {
        let roots = select_items(&self.source_items, &RootInReadableChannel(&self.settings));
        let ghost all = roots.deep_view();
        let mut authors: TextMap<String> = TextMap::new();
        let mut i: usize = 0;
        assert(all.take(0) =~= Seq::empty());
        while i < roots.len()
            invariant
                i <= roots.len(),
                all == roots.deep_view(),
                authors.deep_view() == author_names(all.take(i as int)),
            decreases roots.len() - i,
        {
            assert(all.take(i as int + 1).drop_last() =~= all.take(i as int));
            assert(all.take(i as int + 1).last() == roots[i as int].deep_view());
            authors.insert(roots[i].author_id.clone(), roots[i].author_name.clone());
            i += 1;
        }
        assert(all.take(i as int) =~= all);
        sort_values::<(String, String), ByLabel>(copy_entries(&authors))
    }

    /// The members to choose from, in the order of their names.
    pub fn available_members(&self) -> (r: Vec<(String, String)>)
        ensures
            r.deep_view() == sorted_by_label(
                with_authors(self.deep_view().user_names, self.deep_view().source_items),
            ),
    {
        let ghost all = self.source_items.deep_view();
        let ghost start = self.user_names.deep_view();
        let mut members = self.user_names.clone();
        let mut i: usize = 0;
        assert(all.take(0) =~= Seq::empty());
        while i < self.source_items.len()
            invariant
                i <= self.source_items.len(),
                all == self.source_items.deep_view(),
                members.deep_view() == with_authors(start, all.take(i as int)),
            decreases self.source_items.len() - i,
        {
            let item = &self.source_items[i];
            assert(all.take(i as int + 1).drop_last() =~= all.take(i as int));
            assert(all.take(i as int + 1).last() == item.deep_view());
            if !same_text(item.author_name.as_str(), "you") {
                members.insert_missing(item.author_id.clone(), item.author_name.clone());
            }
            i += 1;
        }
        assert(all.take(i as int) =~= all);
        sort_values::<(String, String), ByLabel>(copy_entries(&members))
    }

    /// The message that is selected.
    pub fn selected_item(&self) -> (r: Option<RankedTimelineItem>)
        ensures
            r.deep_view() == (match self.deep_view().selected_message_ts {
                Some(ts) => first_match(
                    self.deep_view().ranked_items,
                    |ranked: RankedTimelineItemModel| ranked.item.message_ts == ts,
                ),
                None => None,
            }),
    {
        let wanted = match &self.selected_message_ts {
            Some(ts) => ts,
            None => {
                return None;
            },
        };
        let ghost all = self.ranked_items.deep_view();
        let ghost condition = |ranked: RankedTimelineItemModel|
            ranked.item.message_ts == wanted@;
        let mut i: usize = 0;
        while i < self.ranked_items.len()
            invariant
                i <= self.ranked_items.len(),
                all == self.ranked_items.deep_view(),
                condition == (|ranked: RankedTimelineItemModel|
                    ranked.item.message_ts == wanted@),
                forall|k: int| 0 <= k < i ==> !condition(#[trigger] all[k]),
                self.deep_view().selected_message_ts == Some(wanted@),
            decreases self.ranked_items.len() - i,
        {
            assert(all[i as int] == self.ranked_items[i as int].deep_view());
            if same_text(self.ranked_items[i].item.message_ts.as_str(), wanted.as_str()) {
                proof {
                    lemma_first_match(all, condition, i as int);
                }
                return Some(self.ranked_items[i].clone());
            }
            i += 1;
        }
        proof {
            lemma_first_match(all, condition, i as int);
        }
        None
    }

    /// The ranked item of a thread.
    pub fn ranked_item_for_thread(&self, thread_ts: &str) -> (r: Option<RankedTimelineItem>)
        ensures
            r.deep_view() == first_match(
                self.deep_view().ranked_items,
                |ranked: RankedTimelineItemModel| ranked.item.thread_ts == thread_ts@,
            ),
    {
        let ghost all = self.ranked_items.deep_view();
        let ghost condition = |ranked: RankedTimelineItemModel|
            ranked.item.thread_ts == thread_ts@;
        let mut i: usize = 0;
        while i < self.ranked_items.len()
            invariant
                i <= self.ranked_items.len(),
                all == self.ranked_items.deep_view(),
                condition == (|ranked: RankedTimelineItemModel|
                    ranked.item.thread_ts == thread_ts@),
                forall|k: int| 0 <= k < i ==> !condition(#[trigger] all[k]),
            decreases self.ranked_items.len() - i,
        {
            assert(all[i as int] == self.ranked_items[i as int].deep_view());
            if same_text(self.ranked_items[i].item.thread_ts.as_str(), thread_ts) {
                proof {
                    lemma_first_match(all, condition, i as int);
                }
                return Some(self.ranked_items[i].clone());
            }
            i += 1;
        }
        proof {
            lemma_first_match(all, condition, i as int);
        }
        None
    }

    /// The message with a time stamp, such as the root of a thread.
    pub fn root_item(&self, thread_ts: &str) -> (r: Option<TimelineItem>)
        ensures
            r.deep_view() == first_match(self.deep_view().source_items, is_message(thread_ts@)),
    {
        match find_item(&self.source_items, &MessageIs(thread_ts)) {
            Some(item) => Some(item.clone()),
            None => None,
        }
    }

    /// The message with a time stamp in a channel.
    pub fn item_by_channel_and_message_ts(&self, channel_id: &str, message_ts: &str) -> (r: Option<
        TimelineItem,
    >)
        ensures
            r.deep_view() == first_match(
                self.deep_view().source_items,
                is_message_in(channel_id@, message_ts@),
            ),
    {
        match find_item(&self.source_items, &MessageInChannel(channel_id, message_ts)) {
            Some(item) => Some(item.clone()),
            None => None,
        }
    }

    /// The name of a channel.
    pub fn channel_name_for(&self, channel_id: &str) -> (r: Option<String>)
        ensures
            r.deep_view() == self.deep_view().channel_name(channel_id@),
    {
        match self.known_channels.get(channel_id) {
            Some(name) => Some(name.clone()),
            None => match find_item(&self.source_items, &ChannelIs(channel_id)) {
                Some(item) => Some(item.channel_name.clone()),
                None => None,
            },
        }
    }

    /// The name of an author.
    pub fn author_name_for(&self, author_id: &str, participant: bool) -> (r: String)
        ensures
            r@ == self.deep_view().author_name(author_id@, participant),
    {
        if participant {
            return owned("you");
        }
        match self.user_names.get(author_id) {
            Some(name) => name.clone(),
            None => match find_item(&self.source_items, &NamedAuthorIs(author_id)) {
                Some(item) => item.author_name.clone(),
                None => owned(author_id),
            },
        }
    }

    /// The avatar of an author.
    pub fn author_avatar_path_for(&self, author_id: &str) -> (r: Option<String>)
        ensures
            r.deep_view() == self.deep_view().author_avatar(author_id@),
    {
        match self.user_avatar_paths.get(author_id) {
            Some(path) => Some(path.clone()),
            None => match find_item(&self.source_items, &AuthorIs(author_id)) {
                Some(item) => match &item.author_avatar_path {
                    Some(path) => Some(path.clone()),
                    None => None,
                },
                None => None,
            },
        }
    }

    /// The messages of a thread in the order of their time stamps.
    pub fn thread_items(&self, thread_ts: &str) -> (r: Vec<TimelineItem>)
        ensures
            r.deep_view() == self.deep_view().thread(thread_ts@),
    {
        let items = select_items(&self.source_items, &ThreadIs(thread_ts));
        sort_values::<TimelineItem, ByMessageTs>(items)
    }

    /// How many replies a thread has.
    pub fn thread_reply_count(&self, thread_ts: &str) -> (r: usize)
        ensures
            r == self.deep_view().source_items.filter(is_reply_in(thread_ts@)).len(),
    {
        count_items(&self.source_items, &ReplyIn(thread_ts))
    }

    /// Whether anything is cached.
    pub fn has_cached_items(&self) -> (r: bool)
        ensures
            r == (self.deep_view().source_items.len() > 0),
    {
        self.source_items.len() > 0
    }

    /// Whether the directory of users can complete what is cached. The paths are those of cached
    /// images that cannot be shown.
    pub fn needs_user_directory_refresh(&self, broken_images: &Vec<String>) -> (r: bool)
        ensures
            r == any_item(
                self.deep_view().source_items,
                lacks_author(broken_images.deep_view()),
            ),
    {
        any_passes(&self.source_items, &LacksAuthor(broken_images))
    }

    /// Whether the directory of channels can complete what is cached.
    pub fn needs_channel_directory_refresh(&self) -> (r: bool)
        ensures
            r == any_item(self.deep_view().source_items, lacks_channel_name()),
    {
        any_passes(&self.source_items, &LacksChannelName)
    }
}

} // verus!
