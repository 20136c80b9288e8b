//! The state of the window: what is cached, what is filtered, what is selected.
use vstd::prelude::*;
use vstd::string::*;

use crate::collections::{bind_missing, TextMap};
use crate::items::{any_item, any_passes, is_message, select_items, ItemTest, MessageIs};
use crate::models::{
    RankedTimelineItem, RankedTimelineItemModel, TimelineItem, TimelineItemModel, TimelineMode,
};
use crate::ranking::{visible, TimelineRanker};
use crate::settings::{AppSettings, AppSettingsModel};
use crate::text::{holds, lowercase, occurs, owned, same_text, trim, trimmed};
use crate::time::Timestamp;

verus! {

/// How many items of the timeline are loaded at a time.
pub const TIMELINE_PAGE_SIZE: usize = 60;

/// How long a user counts as typing, in milliseconds.
pub const TYPING_INDICATOR_TTL_MS: u64 = 6_000;

/// The key of the workspace that is active when none is named.
pub const DEFAULT_WORKSPACE_KEY: &'static str = "default";

/// What the main part of the window shows.
#[derive(Clone, Copy, Debug, PartialEq, Eq, Structural)]
pub enum MainView {
    Timeline,
    Office,
}

impl DeepView for MainView {
    type V = MainView;

    open spec fn deep_view(&self) -> MainView {
        *self
    }
}

/// A user who is typing, and until when that is shown, in milliseconds.
#[derive(Debug, PartialEq, Eq)]
pub struct TypingIndicator {
    pub user_id: String,
    pub expires_at: u64,
}

/// What a [`TypingIndicator`] says: its texts as sequences of characters.
#[verifier::ext_equal]
pub struct TypingIndicatorModel {
    pub user_id: Seq<char>,
    pub expires_at: u64,
}

impl DeepView for TypingIndicator {
    type V = TypingIndicatorModel;

    open spec fn deep_view(&self) -> TypingIndicatorModel {
        TypingIndicatorModel {
            user_id: self.user_id@,
            expires_at: self.expires_at,
        }
    }
}

impl Clone for TypingIndicator {
    fn clone(&self) -> (copy: Self)
        ensures
            copy.deep_view() == self.deep_view(),
    {
        let copy = TypingIndicator {
            user_id: self.user_id.clone(),
            expires_at: self.expires_at,
        };
        copy
    }
}

/// The state of the window.
#[derive(Debug)]
pub struct UiState {
    pub settings: AppSettings,
    pub mode: TimelineMode,
    pub main_view: MainView,
    pub user_names: TextMap<String>,
    pub user_avatar_paths: TextMap<String>,
    pub known_channels: TextMap<String>,
    pub known_channel_creators: TextMap<String>,
    pub typing_by_channel: TextMap<Vec<TypingIndicator>>,
    pub source_items: Vec<TimelineItem>,
    pub ranked_items: Vec<RankedTimelineItem>,
    pub filtered_ranked_items: Vec<RankedTimelineItem>,
    pub loaded_timeline_items: usize,
    pub selected_message_ts: Option<String>,
    pub highlighted_timeline_message_ts: Option<String>,
    pub focused_thread_message_ts: Option<String>,
    pub search_query: String,
    pub section_filter: Option<String>,
    pub channel_filter: Option<String>,
    pub author_filter: Option<String>,
}

/// What a [`UiState`] says: its texts as sequences of characters.
#[verifier::ext_equal]
pub struct UiStateModel {
    pub settings: AppSettingsModel,
    pub mode: TimelineMode,
    pub main_view: MainView,
    pub user_names: Seq<(Seq<char>, Seq<char>)>,
    pub user_avatar_paths: Seq<(Seq<char>, Seq<char>)>,
    pub known_channels: Seq<(Seq<char>, Seq<char>)>,
    pub known_channel_creators: Seq<(Seq<char>, Seq<char>)>,
    pub typing_by_channel: Seq<(Seq<char>, Seq<TypingIndicatorModel>)>,
    pub source_items: Seq<TimelineItemModel>,
    pub ranked_items: Seq<RankedTimelineItemModel>,
    pub filtered_ranked_items: Seq<RankedTimelineItemModel>,
    pub loaded_timeline_items: usize,
    pub selected_message_ts: Option<Seq<char>>,
    pub highlighted_timeline_message_ts: Option<Seq<char>>,
    pub focused_thread_message_ts: Option<Seq<char>>,
    pub search_query: Seq<char>,
    pub section_filter: Option<Seq<char>>,
    pub channel_filter: Option<Seq<char>>,
    pub author_filter: Option<Seq<char>>,
}

impl DeepView for UiState {
    type V = UiStateModel;

    open spec fn deep_view(&self) -> UiStateModel {
        UiStateModel {
            settings: self.settings.deep_view(),
            mode: self.mode,
            main_view: self.main_view,
            user_names: self.user_names.deep_view(),
            user_avatar_paths: self.user_avatar_paths.deep_view(),
            known_channels: self.known_channels.deep_view(),
            known_channel_creators: self.known_channel_creators.deep_view(),
            typing_by_channel: self.typing_by_channel.deep_view(),
            source_items: self.source_items.deep_view(),
            ranked_items: self.ranked_items.deep_view(),
            filtered_ranked_items: self.filtered_ranked_items.deep_view(),
            loaded_timeline_items: self.loaded_timeline_items,
            selected_message_ts: self.selected_message_ts.deep_view(),
            highlighted_timeline_message_ts: self.highlighted_timeline_message_ts.deep_view(),
            focused_thread_message_ts: self.focused_thread_message_ts.deep_view(),
            search_query: self.search_query@,
            section_filter: self.section_filter.deep_view(),
            channel_filter: self.channel_filter.deep_view(),
            author_filter: self.author_filter.deep_view(),
        }
    }
}

/// Names and paths, by identifier.
pub type Names = Seq<(Seq<char>, Seq<char>)>;

/// Names of authors, completed by what items say.
pub open spec fn merged_user_names(items: Seq<TimelineItemModel>, names: Names) -> Names
    decreases items.len(),
{
    if items.len() == 0 {
        names
    } else {
        learned_user_name(merged_user_names(items.drop_last(), names), items.last())
    }
}

/// Names of authors, completed by what one item says.
pub open spec fn learned_user_name(names: Names, item: TimelineItemModel) -> Names {
    if item.author_name != item.author_id && item.author_name != "you"@ {
        bind_missing(names, item.author_id, item.author_name)
    } else {
        names
    }
}

/// Paths of avatars, completed by what items say.
pub open spec fn merged_avatar_paths(items: Seq<TimelineItemModel>, paths: Names) -> Names
    decreases items.len(),
{
    if items.len() == 0 {
        paths
    } else {
        learned_avatar_path(merged_avatar_paths(items.drop_last(), paths), items.last())
    }
}

/// Paths of avatars, completed by what one item says.
pub open spec fn learned_avatar_path(paths: Names, item: TimelineItemModel) -> Names {
    match item.author_avatar_path {
        Some(path) => bind_missing(paths, item.author_id, path),
        None => paths,
    }
}

/// Names of channels, completed by what items say.
pub open spec fn merged_channels(items: Seq<TimelineItemModel>, names: Names) -> Names
    decreases items.len(),
{
    if items.len() == 0 {
        names
    } else {
        bind_missing(
            merged_channels(items.drop_last(), names),
            items.last().channel_id,
            items.last().channel_name,
        )
    }
}

/// Creators of channels; the author of a channel's first item stands in for a missing one.
pub open spec fn merged_creators(items: Seq<TimelineItemModel>, creators: Names) -> Names
    decreases items.len(),
{
    if items.len() == 0 {
        creators
    } else {
        bind_missing(
            merged_creators(items.drop_last(), creators),
            items.last().channel_id,
            items.last().author_id,
        )
    }
}

fn learn_user_name(names: &mut TextMap<String>, item: &TimelineItem)
    ensures
        final(names).deep_view() == learned_user_name(old(names).deep_view(), item.deep_view()),
{
    if !same_text(item.author_name.as_str(), item.author_id.as_str()) && !same_text(
        item.author_name.as_str(),
        "you",
    ) {
        names.insert_missing(item.author_id.clone(), item.author_name.clone());
    }
}

fn learn_avatar_path(paths: &mut TextMap<String>, item: &TimelineItem)
    ensures
        final(paths).deep_view() == learned_avatar_path(old(paths).deep_view(), item.deep_view()),
{
    if let Some(path) = &item.author_avatar_path {
        paths.insert_missing(item.author_id.clone(), path.clone());
    }
}

/// Names of authors, completed by what items say.
pub fn merge_user_names(items: &Vec<TimelineItem>, known: TextMap<String>) -> (r: TextMap<String>)
    ensures
        r.deep_view() == merged_user_names(items.deep_view(), known.deep_view()),
{
    let ghost all = items.deep_view();
    let ghost start = known.deep_view();
    let mut merged = known;
    let mut i: usize = 0;
    assert(all.take(0) =~= Seq::empty());
    while i < items.len()
        invariant
            i <= items.len(),
            all == items.deep_view(),
            merged.deep_view() == merged_user_names(all.take(i as int), start),
        decreases items.len() - i,
    {
        assert(all.take(i as int + 1).drop_last() =~= all.take(i as int));
        assert(all.take(i as int + 1).last() == items[i as int].deep_view());
        learn_user_name(&mut merged, &items[i]);
        i += 1;
    }
    assert(all.take(i as int) =~= all);
    merged
}

/// Paths of avatars, completed by what items say.
pub fn merge_user_avatar_paths(items: &Vec<TimelineItem>, known: TextMap<String>) -> (r: TextMap<String>)
    ensures
        r.deep_view() == merged_avatar_paths(items.deep_view(), known.deep_view()),
{
    let ghost all = items.deep_view();
    let ghost start = known.deep_view();
    let mut merged = known;
    let mut i: usize = 0;
    assert(all.take(0) =~= Seq::empty());
    while i < items.len()
        invariant
            i <= items.len(),
            all == items.deep_view(),
            merged.deep_view() == merged_avatar_paths(all.take(i as int), start),
        decreases items.len() - i,
    {
        assert(all.take(i as int + 1).drop_last() =~= all.take(i as int));
        assert(all.take(i as int + 1).last() == items[i as int].deep_view());
        learn_avatar_path(&mut merged, &items[i]);
        i += 1;
    }
    assert(all.take(i as int) =~= all);
    merged
}

/// Names of channels, completed by what items say.
pub fn merge_known_channels(items: &Vec<TimelineItem>, known: TextMap<String>) -> (r: TextMap<String>)
    ensures
        r.deep_view() == merged_channels(items.deep_view(), known.deep_view()),
{
    let ghost all = items.deep_view();
    let ghost start = known.deep_view();
    let mut merged = known;
    let mut i: usize = 0;
    assert(all.take(0) =~= Seq::empty());
    while i < items.len()
        invariant
            i <= items.len(),
            all == items.deep_view(),
            merged.deep_view() == merged_channels(all.take(i as int), start),
        decreases items.len() - i,
    {
        assert(all.take(i as int + 1).drop_last() =~= all.take(i as int));
        assert(all.take(i as int + 1).last() == items[i as int].deep_view());
        merged.insert_missing(items[i].channel_id.clone(), items[i].channel_name.clone());
        i += 1;
    }
    assert(all.take(i as int) =~= all);
    merged
}

/// Creators of channels, completed by what items say.
pub fn merge_known_channel_creators(items: &Vec<TimelineItem>, known: TextMap<String>) -> (r: TextMap<String>)
    ensures
        r.deep_view() == merged_creators(items.deep_view(), known.deep_view()),
{
    let ghost all = items.deep_view();
    let ghost start = known.deep_view();
    let mut merged = known;
    let mut i: usize = 0;
    assert(all.take(0) =~= Seq::empty());
    while i < items.len()
        invariant
            i <= items.len(),
            all == items.deep_view(),
            merged.deep_view() == merged_creators(all.take(i as int), start),
        decreases items.len() - i,
    {
        assert(all.take(i as int + 1).drop_last() =~= all.take(i as int));
        assert(all.take(i as int + 1).last() == items[i as int].deep_view());
        merged.insert_missing(items[i].channel_id.clone(), items[i].author_id.clone());
        i += 1;
    }
    assert(all.take(i as int) =~= all);
    merged
}

/// Whether one of the ranked items is a message.
pub open spec fn shows_message(ranked: Seq<RankedTimelineItemModel>, message_ts: Seq<char>) -> bool {
    exists|i: int| 0 <= i < ranked.len() && (#[trigger] ranked[i]).item.message_ts == message_ts
}

/// The item of a list that a search, by a query in lowercase, is for.
pub open spec fn holds_query(item: TimelineItemModel, query: Seq<char>) -> bool {
    query.len() == 0 || occurs(lowercase(item.body), query) || occurs(
        lowercase(item.author_name),
        query,
    ) || occurs(lowercase(item.channel_name), query)
}

/// The roots of threads in channels that may be read.
pub open spec fn timeline_roots(settings: AppSettingsModel, items: Seq<TimelineItemModel>) -> Seq<
    TimelineItemModel,
> {
    items.filter(root_in_readable_channel(settings))
}

/// The condition of being the root of a thread in a channel that may be read.
pub open spec fn root_in_readable_channel(settings: AppSettingsModel) -> spec_fn(
    TimelineItemModel,
) -> bool {
    |item: TimelineItemModel|
        settings.permission(item.channel_id).readable() && item.message_ts == item.thread_ts
}

/// Tests for the root of a thread in a channel that may be read.
pub struct RootInReadableChannel<'a>(pub &'a AppSettings);

impl<'a> ItemTest for RootInReadableChannel<'a> {
    open spec fn condition(&self) -> spec_fn(TimelineItemModel) -> bool {
        root_in_readable_channel(self.0.deep_view())
    }

    fn holds(&self, item: &TimelineItem) -> bool {
        self.0.can_read_channel(item.channel_id.as_str()) && same_text(
            item.message_ts.as_str(),
            item.thread_ts.as_str(),
        )
    }
}

impl UiStateModel {
    /// No more items count as loaded than are shown.
    pub open spec fn wf(self) -> bool {
        self.loaded_timeline_items <= self.filtered_ranked_items.len()
    }

    /// The search profile that is active and exists.
    pub open spec fn active_profile(self) -> Option<Seq<char>> {
        match self.settings.active_search_profile_id {
            Some(id) if self.settings.search_profile(id) is Some => Some(id),
            _ => None,
        }
    }

    /// The key of the active workspace.
    pub open spec fn workspace_key(self) -> Seq<char> {
        active_key(self.settings)
    }

    /// Whether the filters let an item through.
    pub open spec fn keeps(self, ranked: RankedTimelineItemModel) -> bool {
        &&& self.section_filter matches Some(id) ==> (self.settings.section_profile(
            id,
        ) matches Some(section) && section.channels.contains(ranked.item.channel_id))
        &&& self.channel_filter matches Some(id) ==> ranked.item.channel_id == id
        &&& self.author_filter matches Some(id) ==> ranked.item.author_id == id
        &&& self.active_profile() matches Some(id) ==> self.settings.search_outcome(
            id,
            ranked.item,
        ) == Ok::<bool, crate::matching::SettingsErrorModel>(true)
        &&& holds_query(ranked.item, lowercase(trim(self.search_query)))
    }

    /// The items that the filters let through.
    pub open spec fn kept(self) -> Seq<RankedTimelineItemModel> {
        self.ranked_items.filter(|ranked: RankedTimelineItemModel| self.keeps(ranked))
    }

    /// The state after the filters are applied. Paging starts anew or goes on; a selection that
    /// is not shown gives way to the first item shown; a highlight that is not shown is dropped;
    /// a focus on a message that is not cached goes to the selection.
    pub open spec fn filtered(self, reset_paging: bool) -> Self {
        let shown = self.kept();
        let target: int = if reset_paging || self.loaded_timeline_items < TIMELINE_PAGE_SIZE {
            TIMELINE_PAGE_SIZE as int
        } else {
            self.loaded_timeline_items as int
        };
        let selected = match self.selected_message_ts {
            Some(ts) if shows_message(shown, ts) => Some(ts),
            _ => if shown.len() > 0 {
                Some(shown.first().item.message_ts)
            } else {
                None
            },
        };
        UiStateModel {
            filtered_ranked_items: shown,
            loaded_timeline_items: if shown.len() < target {
                shown.len() as usize
            } else {
                target as usize
            },
            selected_message_ts: selected,
            highlighted_timeline_message_ts: match self.highlighted_timeline_message_ts {
                Some(ts) if shows_message(shown, ts) => Some(ts),
                _ => None,
            },
            focused_thread_message_ts: match self.focused_thread_message_ts {
                Some(ts) => if any_item(self.source_items, is_message(ts)) {
                    Some(ts)
                } else {
                    selected
                },
                None => None,
            },
            ..self
        }
    }

    /// The state after the cached items are ranked again and filtered.
    pub open spec fn reranked(self, now: Timestamp, reset_paging: bool) -> Self {
        UiStateModel {
            ranked_items: visible(
                self.mode,
                self.settings.timeline,
                now,
                timeline_roots(self.settings, self.source_items),
            ),
            ..self
        }.filtered(reset_paging)
    }
}

/// The key of the active workspace; an empty key counts as none.
pub open spec fn active_key(settings: AppSettingsModel) -> Seq<char> {
    match settings.active_workspace_key {
        Some(key) if key.len() > 0 => key,
        _ => DEFAULT_WORKSPACE_KEY@,
    }
}

/// The key of the active workspace.
pub fn normalized_active_workspace_key(settings: &AppSettings) -> (r: String)
    ensures
        r@ == active_key(settings.deep_view()),
{
    match &settings.active_workspace_key {
        Some(key) => {
            if key.as_str().is_empty() {
                owned(DEFAULT_WORKSPACE_KEY)
            } else {
                key.clone()
            }
        },
        None => owned(DEFAULT_WORKSPACE_KEY),
    }
}

/// Whether one of the ranked items is a message.
pub fn shows(ranked: &Vec<RankedTimelineItem>, message_ts: &str) -> (r: bool)
    ensures
        r == shows_message(ranked.deep_view(), message_ts@),
{
    let ghost all = ranked.deep_view();
    let mut i: usize = 0;
    while i < ranked.len()
        invariant
            i <= ranked.len(),
            all == ranked.deep_view(),
            forall|k: int| 0 <= k < i ==> (#[trigger] all[k]).item.message_ts != message_ts@,
        decreases ranked.len() - i,
    {
        assert(all[i as int] == ranked[i as int].deep_view());
        if same_text(ranked[i].item.message_ts.as_str(), message_ts) {
            return true;
        }
        i += 1;
    }
    false
}

/// Whether an item holds a query that is in lowercase.
fn item_holds_query(item: &TimelineItem, query: &str) -> (r: bool)
    ensures
        r == holds_query(item.deep_view(), query@),
{
    query.is_empty() || holds(item.body.to_lowercase().as_str(), query) || holds(
        item.author_name.to_lowercase().as_str(),
        query,
    ) || holds(item.channel_name.to_lowercase().as_str(), query)
}

impl UiState {
    /// The state at the start: nothing is filtered, and the first item shown is selected.
    pub fn new(
        settings: AppSettings,
        source_items: Vec<TimelineItem>,
        user_names: TextMap<String>,
        user_avatar_paths: TextMap<String>,
        known_channels: TextMap<String>,
        known_channel_creators: TextMap<String>,
        now: Timestamp,
    ) -> (state: Self)
        ensures
            state.deep_view() == initial_state(
                settings.deep_view(),
                source_items.deep_view(),
                user_names.deep_view(),
                user_avatar_paths.deep_view(),
                known_channels.deep_view(),
                known_channel_creators.deep_view(),
            ).reranked(now, true),
            state.deep_view().wf(),
    {
        let user_names = merge_user_names(&source_items, user_names);
        let user_avatar_paths = merge_user_avatar_paths(&source_items, user_avatar_paths);
        let known_channels = merge_known_channels(&source_items, known_channels);
        let known_channel_creators = merge_known_channel_creators(
            &source_items,
            known_channel_creators,
        );
        let mut state = UiState {
            settings,
            main_view: MainView::Timeline,
            user_names,
            user_avatar_paths,
            known_channels,
            known_channel_creators,
            typing_by_channel: TextMap::new(),
            mode: TimelineMode::Recent,
            source_items,
            ranked_items: Vec::new(),
            filtered_ranked_items: Vec::new(),
            loaded_timeline_items: TIMELINE_PAGE_SIZE,
            selected_message_ts: None,
            highlighted_timeline_message_ts: None,
            focused_thread_message_ts: None,
            search_query: String::new(),
            section_filter: None,
            channel_filter: None,
            author_filter: None,
        };
        assert(state.ranked_items.deep_view() =~= Seq::empty());
        assert(state.filtered_ranked_items.deep_view() =~= Seq::empty());
        state.rerank(now, true);
        state
    }

    /// Whether the filters let an item through.
    fn keeps_item(&self, ranked: &RankedTimelineItem, query: &str, profile: &Option<String>) -> (r:
        bool)
        requires
            query@ == lowercase(trim(self.search_query@)),
            profile.deep_view() == self.deep_view().active_profile(),
        ensures
            r == self.deep_view().keeps(ranked.deep_view()),
    {
        if let Some(id) = &self.section_filter {
            match self.settings.section_profile(id.as_str()) {
                Some(section) => {
                    if !section.channels.contains(ranked.item.channel_id.as_str()) {
                        return false;
                    }
                },
                None => {
                    return false;
                },
            }
        }
        if let Some(id) = &self.channel_filter {
            if !same_text(ranked.item.channel_id.as_str(), id.as_str()) {
                return false;
            }
        }
        if let Some(id) = &self.author_filter {
            if !same_text(ranked.item.author_id.as_str(), id.as_str()) {
                return false;
            }
        }
        if let Some(id) = profile {
            match self.settings.search_profile_matches(id.as_str(), &ranked.item) {
                Ok(true) => {},
                _ => {
                    return false;
                },
            }
        }
        item_holds_query(&ranked.item, query)
    }

    /// The search profile that is active and exists.
    pub fn active_search_profile_id(&self) -> (r: Option<String>)
        ensures
            r.deep_view() == self.deep_view().active_profile(),
    {
        match &self.settings.active_search_profile_id {
            Some(id) => {
                if self.settings.search_profile(id.as_str()).is_some() {
                    Some(id.clone())
                } else {
                    None
                }
            },
            None => None,
        }
    }

    /// Copies of the ranked items that the filters let through.
    fn kept_items(&self) -> (r: Vec<RankedTimelineItem>)
        ensures
            r.deep_view() == self.deep_view().kept(),
    {
        let tidy_query = trimmed(self.search_query.as_str());
        let query = tidy_query.to_lowercase();
        let profile = self.active_search_profile_id();
        let ghost model = self.deep_view();
        let ghost all = self.ranked_items.deep_view();
        let ghost keep = |ranked: RankedTimelineItemModel| model.keeps(ranked);
        let mut kept: Vec<RankedTimelineItem> = Vec::new();
        let mut i: usize = 0;
        proof {
            reveal(Seq::filter);
            assert(all.take(0) =~= Seq::empty());
            assert(kept.deep_view() =~= all.take(0).filter(keep));
        }
        while i < self.ranked_items.len()
            invariant
                i <= self.ranked_items.len(),
                model == self.deep_view(),
                all == self.ranked_items.deep_view(),
                keep == (|ranked: RankedTimelineItemModel| model.keeps(ranked)),
                query@ == lowercase(trim(self.search_query@)),
                profile.deep_view() == model.active_profile(),
                kept.deep_view() == all.take(i as int).filter(keep),
            decreases self.ranked_items.len() - i,
        {
            let ghost before = kept.deep_view();
            proof {
                reveal(Seq::filter);
                assert(all.take(i as int + 1).drop_last() =~= all.take(i as int));
                assert(all.take(i as int + 1).last() == self.ranked_items[i as int].deep_view());
            }
            if self.keeps_item(&self.ranked_items[i], query.as_str(), &profile) {
                let copy = self.ranked_items[i].clone();
                let ghost meaning = copy.deep_view();
                kept.push(copy);
                assert(kept.deep_view() =~= before.push(meaning));
            }
            i += 1;
        }
        assert(all.take(i as int) =~= all);
        kept
    }

    /// Applies the filters to the ranked items.
    pub fn apply_filters(&mut self, reset_paging: bool)
        ensures
            final(self).deep_view() == old(self).deep_view().filtered(reset_paging),
            final(self).deep_view().wf(),
    {
        let ghost before = self.deep_view();
        let shown = self.kept_items();
        let ghost kept = before.kept();
        let target: usize = if reset_paging || self.loaded_timeline_items < TIMELINE_PAGE_SIZE {
            TIMELINE_PAGE_SIZE
        } else {
            self.loaded_timeline_items
        };
        let loaded: usize = if shown.len() < target {
            shown.len()
        } else {
            target
        };
        let still_selected = match &self.selected_message_ts {
            Some(ts) => shows(&shown, ts.as_str()),
            None => false,
        };
        let selected: Option<String> = if still_selected {
            self.selected_message_ts.clone()
        } else if shown.len() > 0 {
            assert(kept.first() == shown[0].deep_view());
            Some(shown[0].item.message_ts.clone())
        } else {
            None
        };
        let highlighted: Option<String> = match &self.highlighted_timeline_message_ts {
            Some(ts) => if shows(&shown, ts.as_str()) {
                Some(ts.clone())
            } else {
                None
            },
            None => None,
        };
        let focused: Option<String> = match &self.focused_thread_message_ts {
            Some(ts) => if any_passes(&self.source_items, &MessageIs(ts.as_str())) {
                Some(ts.clone())
            } else {
                selected.clone()
            },
            None => None,
        };
        self.filtered_ranked_items = shown;
        self.loaded_timeline_items = loaded;
        self.selected_message_ts = selected;
        self.highlighted_timeline_message_ts = highlighted;
        self.focused_thread_message_ts = focused;
        assert(self.deep_view() =~= before.filtered(reset_paging));
    }

    /// Ranks the cached items again and applies the filters.
    pub fn rerank(&mut self, now: Timestamp, reset_paging: bool)
        ensures
            final(self).deep_view() == old(self).deep_view().reranked(now, reset_paging),
            final(self).deep_view().wf(),
    {
        let ghost before = self.deep_view();
        let roots = select_items(&self.source_items, &RootInReadableChannel(&self.settings));
        let ranker = TimelineRanker::new(now);
        self.ranked_items = ranker.visible_items(self.mode, &self.settings.timeline, roots);
        assert(self.deep_view() =~= (UiStateModel {
            ranked_items: visible(
                before.mode,
                before.settings.timeline,
                now,
                timeline_roots(before.settings, before.source_items),
            ),
            ..before
        }));
        self.apply_filters(reset_paging);
    }
}

/// The state at the start, before its items are ranked.
pub open spec fn initial_state(
    settings: AppSettingsModel,
    items: Seq<TimelineItemModel>,
    user_names: Names,
    user_avatar_paths: Names,
    known_channels: Names,
    known_channel_creators: Names,
) -> UiStateModel {
    UiStateModel {
        settings,
        mode: TimelineMode::Recent,
        main_view: MainView::Timeline,
        user_names: merged_user_names(items, user_names),
        user_avatar_paths: merged_avatar_paths(items, user_avatar_paths),
        known_channels: merged_channels(items, known_channels),
        known_channel_creators: merged_creators(items, known_channel_creators),
        typing_by_channel: Seq::empty(),
        source_items: items,
        ranked_items: Seq::empty(),
        filtered_ranked_items: Seq::empty(),
        loaded_timeline_items: TIMELINE_PAGE_SIZE,
        selected_message_ts: None,
        highlighted_timeline_message_ts: None,
        focused_thread_message_ts: None,
        search_query: Seq::empty(),
        section_filter: None,
        channel_filter: None,
        author_filter: None,
    }
}

} // verus!
