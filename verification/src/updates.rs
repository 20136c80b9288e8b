//! What changes the state of the window.
use vstd::prelude::*;

use crate::collections::{
    bind, contains_text, find_by_id, first_match, lookup, unbind, upserted, upsert, remove_id,
    with_id, without_id, TextMap,
};
use crate::items::{
    any_item, any_passes, by_author, edit_items, find_item, in_channel, in_thread, is_message, not,
    position_of_item, retain_items, AuthorIs, ChannelIs, ItemEdit, ItemTest, MessageIs, Not,
    ThreadIs,
};
use crate::json::Json;
use crate::models::{
    AttachmentSummary, AttachmentSummaryModel, RankedTimelineItemModel, ReactionSummary,
    ReactionSummaryModel, TimelineItem, TimelineItemModel,
};
use crate::reactions::{
    add_reaction, normal_reaction, normal_reaction_name, position_of_reaction, reaction_from,
    reactions_with, reactions_without, remove_reaction,
};
use crate::settings::{AppSettingsModel, WorkspaceProfile};
use crate::state::{
    learned_avatar_path, learned_user_name, merge_known_channel_creators, merge_known_channels,
    merge_user_avatar_paths, merge_user_names, merged_avatar_paths, merged_channels,
    merged_creators, merged_user_names, shows, shows_message, MainView, Names, UiState,
    UiStateModel, TIMELINE_PAGE_SIZE,
};
use crate::text::{blank, is_blank, non_blank, owned, same_option, same_text, trimmed_non_blank};
use crate::theme::ThemeId;
use crate::time::Timestamp;

verus! {

/// An optional text, unless it is empty.
pub open spec fn non_empty(value: Option<Seq<char>>) -> Option<Seq<char>> {
    match value {
        Some(text) if text.len() > 0 => Some(text),
        _ => None,
    }
}

/// A text, unless it is empty.
pub fn unless_empty(value: Option<String>) -> (r: Option<String>)
    ensures
        r.deep_view() == non_empty(value.deep_view()),
{
    match value {
        Some(text) => if text.as_str().is_empty() {
            None
        } else {
            Some(text)
        },
        None => None,
    }
}

/// The names of channels with one more, unless the name is blank.
pub open spec fn learned_channel(names: Names, id: Seq<char>, name: Seq<char>) -> Names {
    if is_blank(name) {
        names
    } else {
        bind(names, id, name)
    }
}

impl UiStateModel {
    /// The state without filters.
    pub open spec fn without_filters(self) -> Self {
        UiStateModel {
            search_query: Seq::empty(),
            section_filter: None,
            channel_filter: None,
            author_filter: None,
            ..self
        }
    }

    /// The search profile that a choice of the user activates: the one chosen, if it exists.
    pub open spec fn chosen_profile(self, choice: Option<Seq<char>>) -> Option<Seq<char>> {
        match choice {
            Some(id) => match trimmed_non_blank(id) {
                Some(wanted) if self.settings.search_profile(wanted) is Some => Some(wanted),
                _ => None,
            },
            None => None,
        }
    }

    /// The section that a choice of the user filters by: the one chosen, if it exists.
    pub open spec fn chosen_section(self, choice: Option<Seq<char>>) -> Option<Seq<char>> {
        match choice {
            Some(id) => match trimmed_non_blank(id) {
                Some(wanted) if self.settings.section_profile(wanted) is Some => Some(wanted),
                _ => None,
            },
            None => None,
        }
    }

    /// The state with a workspace active: nothing is filtered or selected any more.
    pub open spec fn with_workspace(self, key: Seq<char>) -> Self {
        UiStateModel {
            settings: AppSettingsModel { active_workspace_key: Some(key), ..self.settings },
            selected_message_ts: None,
            highlighted_timeline_message_ts: None,
            focused_thread_message_ts: None,
            ..self.without_filters()
        }
    }

    /// The state with other items cached. Filters that refer to what is not there any more are
    /// dropped, and so is an active search profile that does not exist.
    pub open spec fn with_items(
        self,
        items: Seq<TimelineItemModel>,
        user_names: Names,
        user_avatar_paths: Names,
        known_channels: Names,
        known_channel_creators: Names,
    ) -> Self {
        let channels = merged_channels(items, known_channels);
        UiStateModel {
            user_names: merged_user_names(items, user_names),
            user_avatar_paths: merged_avatar_paths(items, user_avatar_paths),
            known_channels: channels,
            known_channel_creators: merged_creators(items, known_channel_creators),
            typing_by_channel: Seq::empty(),
            source_items: items,
            channel_filter: match self.channel_filter {
                Some(id) if lookup(channels, id) is Some => Some(id),
                _ => None,
            },
            author_filter: match self.author_filter {
                Some(id) if any_item(items, by_author(id)) => Some(id),
                _ => None,
            },
            section_filter: match self.section_filter {
                Some(id) if self.settings.section_profile(id) is Some => Some(id),
                _ => None,
            },
            settings: AppSettingsModel {
                active_search_profile_id: self.active_profile(),
                ..self.settings
            },
            ..self
        }
    }

    /// The state with more items loaded.
    pub open spec fn with_more_loaded(self) -> Self {
        let wanted = self.loaded_timeline_items + TIMELINE_PAGE_SIZE;
        UiStateModel {
            loaded_timeline_items: if wanted < self.filtered_ranked_items.len() {
                wanted as usize
            } else {
                self.filtered_ranked_items.len() as usize
            },
            ..self
        }
    }

    /// The state with a message selected, if it is ranked; the focus goes with the selection.
    pub open spec fn selecting(self, message_ts: Option<Seq<char>>) -> Self {
        let selected = match message_ts {
            Some(ts) if shows_message(self.ranked_items, ts) => Some(ts),
            _ => None,
        };
        UiStateModel {
            selected_message_ts: selected,
            highlighted_timeline_message_ts: None,
            focused_thread_message_ts: selected,
            ..self
        }
    }

    /// The state with a channel under another name.
    pub open spec fn with_renamed_channel(self, id: Seq<char>, name: Seq<char>) -> Self {
        UiStateModel {
            known_channels: bind(self.known_channels, id, name),
            source_items: self.source_items.map_values(renamed_channel(id, name)),
            ..self
        }
    }

    /// The state without a channel and its items.
    pub open spec fn without_channel(self, id: Seq<char>) -> Self {
        UiStateModel {
            known_channels: unbind(self.known_channels, id),
            source_items: self.source_items.filter(not(in_channel(id))),
            typing_by_channel: unbind(self.typing_by_channel, id),
            channel_filter: if self.channel_filter == Some(id) {
                None
            } else {
                self.channel_filter
            },
            ..self
        }
    }

    /// The state with a reply of the user: its thread is active at the time of the reply, and the
    /// user takes part in it.
    pub open spec fn with_reply(self, reply: TimelineItemModel) -> Self {
        UiStateModel {
            known_channels: learned_channel(
                self.known_channels,
                reply.channel_id,
                reply.channel_name,
            ),
            user_names: learned_user_name(self.user_names, reply),
            user_avatar_paths: learned_avatar_path(self.user_avatar_paths, reply),
            source_items: self.source_items.push(reply).map_values(
                joined_thread(reply.thread_ts, reply.last_activity_at),
            ),
            ..self
        }
    }

    /// The state with an item that came in. A reply makes the root of its thread active, unread
    /// if the reply is, and passes on mentions and keywords.
    pub open spec fn with_incoming(self, incoming: TimelineItemModel) -> Self {
        let items = self.source_items.push(incoming);
        UiStateModel {
            known_channels: learned_channel(
                self.known_channels,
                incoming.channel_id,
                incoming.channel_name,
            ),
            user_names: learned_user_name(self.user_names, incoming),
            user_avatar_paths: learned_avatar_path(self.user_avatar_paths, incoming),
            typing_by_channel: unbind(self.typing_by_channel, incoming.channel_id),
            source_items: if incoming.message_ts == incoming.thread_ts {
                items
            } else {
                changed_first(items, is_message(incoming.thread_ts), stirred_by(incoming))
            },
            ..self
        }
    }

    /// The state without a message: a root takes its thread with it; a reply leaves the thread
    /// with the latest activity of what remains.
    pub open spec fn without_message(self, target: TimelineItemModel) -> Self {
        let ts = target.message_ts;
        UiStateModel {
            source_items: if target.message_ts == target.thread_ts {
                self.source_items.filter(not(in_thread(target.thread_ts)))
            } else {
                let rest = self.source_items.filter(not(is_message(ts)));
                rest.map_values(
                    active_at(target.thread_ts, latest_activity(rest, target)),
                )
            },
            focused_thread_message_ts: if self.focused_thread_message_ts == Some(ts) {
                Some(target.thread_ts)
            } else {
                self.focused_thread_message_ts
            },
            selected_message_ts: if self.selected_message_ts == Some(ts) {
                None
            } else {
                self.selected_message_ts
            },
            ..self
        }
    }

    /// The state with the focus on a message: nothing is filtered, the message's thread is
    /// selected and highlighted, and enough items are loaded to show it.
    pub open spec fn focusing(self, target: TimelineItemModel) -> Self {
        let open = UiStateModel {
            settings: AppSettingsModel { active_search_profile_id: None, ..self.settings },
            ..self.without_filters()
        }.filtered(true);
        let at = position_of_message(open.filtered_ranked_items, target.thread_ts, 0);
        UiStateModel {
            selected_message_ts: Some(target.thread_ts),
            highlighted_timeline_message_ts: Some(target.thread_ts),
            focused_thread_message_ts: Some(target.message_ts),
            loaded_timeline_items: match at {
                Some(index) if index + 1 > open.loaded_timeline_items => (index + 1) as usize,
                _ => open.loaded_timeline_items,
            },
            ..open
        }
    }

    /// The state with the items changed.
    pub open spec fn with_changed_items(
        self,
        change: spec_fn(TimelineItemModel) -> TimelineItemModel,
    ) -> Self {
        UiStateModel { source_items: self.source_items.map_values(change), ..self }
    }
}

/// The first position at or after `from` of a ranked item that is a message.
pub open spec fn position_of_message(
    ranked: Seq<RankedTimelineItemModel>,
    message_ts: Seq<char>,
    from: int,
) -> Option<int>
    decreases ranked.len() - from,
{
    if from < 0 || from >= ranked.len() {
        None
    } else if ranked[from].item.message_ts == message_ts {
        Some(from)
    } else {
        position_of_message(ranked, message_ts, from + 1)
    }
}

/// Gives a channel's items the channel's new name.
pub open spec fn renamed_channel(id: Seq<char>, name: Seq<char>) -> spec_fn(
    TimelineItemModel,
) -> TimelineItemModel {
    |item: TimelineItemModel|
        if item.channel_id == id {
            TimelineItemModel { channel_name: name, ..item }
        } else {
            item
        }
}

/// Makes a thread's items active at a time, with the user taking part.
pub open spec fn joined_thread(thread_ts: Seq<char>, at: Timestamp) -> spec_fn(
    TimelineItemModel,
) -> TimelineItemModel {
    |item: TimelineItemModel|
        if item.thread_ts == thread_ts {
            TimelineItemModel { last_activity_at: at, participant: true, ..item }
        } else {
            item
        }
}

/// Makes a thread's items active at a time.
pub open spec fn active_at(thread_ts: Seq<char>, at: Timestamp) -> spec_fn(
    TimelineItemModel,
) -> TimelineItemModel {
    |item: TimelineItemModel|
        if item.thread_ts == thread_ts {
            TimelineItemModel { last_activity_at: at, ..item }
        } else {
            item
        }
}

/// Gives a message another text, which is plain.
pub open spec fn edited_body(message_ts: Seq<char>, body: Seq<char>) -> spec_fn(
    TimelineItemModel,
) -> TimelineItemModel {
    |item: TimelineItemModel|
        if item.message_ts == message_ts {
            TimelineItemModel { body, rich_text_blocks: Seq::empty(), ..item }
        } else {
            item
        }
}

/// Gives a message what the server has of it.
pub open spec fn as_on_server(
    message_ts: Seq<char>,
    body: Seq<char>,
    blocks: Seq<Json>,
    reactions: Seq<ReactionSummaryModel>,
    attachments: Seq<AttachmentSummaryModel>,
) -> spec_fn(TimelineItemModel) -> TimelineItemModel {
    |item: TimelineItemModel|
        if item.message_ts == message_ts {
            TimelineItemModel { body, rich_text_blocks: blocks, reactions, attachments, ..item }
        } else {
            item
        }
}

/// Counts a reaction to a message.
pub open spec fn reacted(message_ts: Seq<char>, name: Seq<char>, mine: bool) -> spec_fn(
    TimelineItemModel,
) -> TimelineItemModel {
    |item: TimelineItemModel|
        if item.message_ts == message_ts {
            TimelineItemModel { reactions: reactions_with(item.reactions, name, mine), ..item }
        } else {
            item
        }
}

/// Takes back a reaction to a message.
pub open spec fn unreacted(message_ts: Seq<char>, name: Seq<char>, mine: bool) -> spec_fn(
    TimelineItemModel,
) -> TimelineItemModel {
    |item: TimelineItemModel|
        if item.message_ts == message_ts {
            TimelineItemModel { reactions: reactions_without(item.reactions, name, mine), ..item }
        } else {
            item
        }
}

/// The condition of being a message with a reaction.
pub open spec fn has_reaction(message_ts: Seq<char>, name: Seq<char>) -> spec_fn(
    TimelineItemModel,
) -> bool {
    |item: TimelineItemModel|
        item.message_ts == message_ts && reaction_from(item.reactions, name, 0) is Some
}

/// Keywords with others that are not among them.
pub open spec fn merged_hits(hits: Seq<Seq<char>>, more: Seq<Seq<char>>) -> Seq<Seq<char>>
    decreases more.len(),
{
    if more.len() == 0 {
        hits
    } else {
        let merged = merged_hits(hits, more.drop_last());
        if merged.contains(more.last()) {
            merged
        } else {
            merged.push(more.last())
        }
    }
}

/// What a reply makes of the root of its thread.
pub open spec fn stirred_by(reply: TimelineItemModel) -> spec_fn(
    TimelineItemModel,
) -> TimelineItemModel {
    |item: TimelineItemModel|
        TimelineItemModel {
            last_activity_at: reply.last_activity_at,
            unread: item.unread || reply.unread,
            direct_mention: item.direct_mention || reply.direct_mention,
            focus_keyword_hits: merged_hits(item.focus_keyword_hits, reply.focus_keyword_hits),
            ..item
        }
}

/// Items with the first that a condition holds of changed.
pub open spec fn changed_first(
    items: Seq<TimelineItemModel>,
    condition: spec_fn(TimelineItemModel) -> bool,
    change: spec_fn(TimelineItemModel) -> TimelineItemModel,
) -> Seq<TimelineItemModel>
    decreases items.len(),
{
    if items.len() == 0 {
        items
    } else if condition(items.first()) {
        seq![change(items.first())] + items.skip(1)
    } else {
        seq![items.first()] + changed_first(items.skip(1), condition, change)
    }
}

/// The latest activity among a thread's items, or that of an item if the thread has none.
pub open spec fn latest_activity(
    items: Seq<TimelineItemModel>,
    fallback: TimelineItemModel,
) -> Timestamp
    decreases items.len(),
{
    if items.len() == 0 {
        fallback.last_activity_at
    } else {
        let rest = items.drop_last();
        let item = items.last();
        if item.thread_ts == fallback.thread_ts && (!any_item(
            rest,
            in_thread(fallback.thread_ts),
        ) || !item.last_activity_at.before(latest_activity(rest, fallback))) {
            item.last_activity_at
        } else {
            latest_activity(rest, fallback)
        }
    }
}

/// Gives a channel's items another name.
pub struct RenameChannel<'a> {
    pub id: &'a str,
    pub name: &'a str,
}

impl<'a> ItemEdit for RenameChannel<'a> {
    open spec fn change(&self) -> spec_fn(TimelineItemModel) -> TimelineItemModel {
        renamed_channel(self.id@, self.name@)
    }

    fn edit(&self, item: &mut TimelineItem) {
        if same_text(item.channel_id.as_str(), self.id) {
            item.channel_name = owned(self.name);
        }
    }
}

/// Makes a thread's items active, with the user taking part.
pub struct JoinThread<'a> {
    pub thread_ts: &'a str,
    pub at: Timestamp,
}

impl<'a> ItemEdit for JoinThread<'a> {
    open spec fn change(&self) -> spec_fn(TimelineItemModel) -> TimelineItemModel {
        joined_thread(self.thread_ts@, self.at)
    }

    fn edit(&self, item: &mut TimelineItem) {
        if same_text(item.thread_ts.as_str(), self.thread_ts) {
            item.last_activity_at = self.at;
            item.participant = true;
        }
    }
}

/// Makes a thread's items active at a time.
pub struct TouchThread<'a> {
    pub thread_ts: &'a str,
    pub at: Timestamp,
}

impl<'a> ItemEdit for TouchThread<'a> {
    open spec fn change(&self) -> spec_fn(TimelineItemModel) -> TimelineItemModel {
        active_at(self.thread_ts@, self.at)
    }

    fn edit(&self, item: &mut TimelineItem) {
        if same_text(item.thread_ts.as_str(), self.thread_ts) {
            item.last_activity_at = self.at;
        }
    }
}

/// Gives a message another text.
pub struct EditBody<'a> {
    pub message_ts: &'a str,
    pub body: &'a str,
}

impl<'a> ItemEdit for EditBody<'a> {
    open spec fn change(&self) -> spec_fn(TimelineItemModel) -> TimelineItemModel {
        edited_body(self.message_ts@, self.body@)
    }

    fn edit(&self, item: &mut TimelineItem) {
        if same_text(item.message_ts.as_str(), self.message_ts) {
            item.body = owned(self.body);
            item.rich_text_blocks = Vec::new();
            assert(item.rich_text_blocks.deep_view() =~= Seq::empty());
        }
    }
}

/// Gives a message what the server has of it.
pub struct TakeSnapshot<'a> {
    pub message_ts: &'a str,
    pub body: &'a str,
    pub blocks: &'a Vec<Json>,
    pub reactions: &'a Vec<ReactionSummary>,
    pub attachments: &'a Vec<AttachmentSummary>,
}

impl<'a> ItemEdit for TakeSnapshot<'a> {
    open spec fn change(&self) -> spec_fn(TimelineItemModel) -> TimelineItemModel {
        as_on_server(
            self.message_ts@,
            self.body@,
            self.blocks.deep_view(),
            self.reactions.deep_view(),
            self.attachments.deep_view(),
        )
    }

    fn edit(&self, item: &mut TimelineItem) {
        if same_text(item.message_ts.as_str(), self.message_ts) {
            item.body = owned(self.body);
            item.rich_text_blocks = self.blocks.clone();
            item.reactions = self.reactions.clone();
            item.attachments = self.attachments.clone();
            assert(item.rich_text_blocks.deep_view() =~= self.blocks.deep_view());
            assert(item.reactions.deep_view() =~= self.reactions.deep_view());
            assert(item.attachments.deep_view() =~= self.attachments.deep_view());
        }
    }
}

/// Counts a reaction to a message.
pub struct React<'a> {
    pub message_ts: &'a str,
    pub name: &'a str,
    pub mine: bool,
}

impl<'a> ItemEdit for React<'a> {
    open spec fn change(&self) -> spec_fn(TimelineItemModel) -> TimelineItemModel {
        reacted(self.message_ts@, self.name@, self.mine)
    }

    fn edit(&self, item: &mut TimelineItem) {
        if same_text(item.message_ts.as_str(), self.message_ts) {
            item.reactions = add_reaction(&item.reactions, self.name, self.mine);
        }
    }
}

/// Takes back a reaction to a message.
pub struct Unreact<'a> {
    pub message_ts: &'a str,
    pub name: &'a str,
    pub mine: bool,
}

impl<'a> ItemEdit for Unreact<'a> {
    open spec fn change(&self) -> spec_fn(TimelineItemModel) -> TimelineItemModel {
        unreacted(self.message_ts@, self.name@, self.mine)
    }

    fn edit(&self, item: &mut TimelineItem) {
        if same_text(item.message_ts.as_str(), self.message_ts) {
            item.reactions = remove_reaction(&item.reactions, self.name, self.mine);
        }
    }
}

/// Tests for a message with a reaction.
pub struct HasReaction<'a> {
    pub message_ts: &'a str,
    pub name: &'a str,
}

impl<'a> ItemTest for HasReaction<'a> {
    open spec fn condition(&self) -> spec_fn(TimelineItemModel) -> bool {
        has_reaction(self.message_ts@, self.name@)
    }

    fn holds(&self, item: &TimelineItem) -> bool {
        same_text(item.message_ts.as_str(), self.message_ts) && position_of_reaction(
            &item.reactions,
            self.name,
        ).is_some()
    }
}

/// Whether a user is known to be the current one.
pub open spec fn is_current_user(user: Option<Seq<char>>, current: Option<Seq<char>>) -> bool {
    user is Some && user == current
}

fn same_user(user: &Option<String>, current: &Option<String>) -> (r: bool)
    ensures
        r == is_current_user(user.deep_view(), current.deep_view()),
{
    user.is_some() && same_option(user, current)
}

fn merge_hits(hits: &mut Vec<String>, more: &Vec<String>)
    ensures
        final(hits).deep_view() == merged_hits(old(hits).deep_view(), more.deep_view()),
{
    let ghost all = more.deep_view();
    let mut i: usize = 0;
    assert(all.take(0) =~= Seq::empty());
    while i < more.len()
        invariant
            i <= more.len(),
            all == more.deep_view(),
            hits.deep_view() == merged_hits(old(hits).deep_view(), all.take(i as int)),
        decreases more.len() - i,
    {
        let ghost before = hits.deep_view();
        assert(all.take(i as int + 1).drop_last() =~= all.take(i as int));
        assert(all.take(i as int + 1).last() == more[i as int]@);
        if !contains_text(hits, more[i].as_str()) {
            hits.push(more[i].clone());
            assert(hits.deep_view() =~= before.push(more[i as int]@));
        }
        i += 1;
    }
    assert(all.take(i as int) =~= all);
}

pub proof fn lemma_changed_first(
    items: Seq<TimelineItemModel>,
    condition: spec_fn(TimelineItemModel) -> bool,
    change: spec_fn(TimelineItemModel) -> TimelineItemModel,
    at: int,
)
    requires
        0 <= at <= items.len(),
        forall|k: int| 0 <= k < at ==> !condition(#[trigger] items[k]),
    ensures
        at < items.len() && condition(items[at]) ==> changed_first(items, condition, change)
            == items.update(at, change(items[at])),
        at == items.len() ==> changed_first(items, condition, change) == items,
    decreases at,
{
    if at > 0 {
        assert(!condition(items[0]));
        let rest = items.skip(1);
        assert forall|k: int| 0 <= k < at - 1 implies !condition(#[trigger] rest[k]) by {
            assert(!condition(items[k + 1]));
        }
        lemma_changed_first(rest, condition, change, at - 1);
        if at < items.len() && condition(items[at]) {
            assert(seq![items.first()] + rest.update(at - 1, change(items[at])) =~= items.update(
                at,
                change(items[at]),
            ));
        }
        if at == items.len() {
            assert(seq![items.first()] + rest =~= items);
        }
    } else if items.len() > 0 && condition(items[0]) {
        assert(seq![change(items.first())] + items.skip(1) =~= items.update(0, change(items[0])));
    } else if items.len() > 0 {
    }
}

/// The latest activity among a thread's items.
fn latest_in_thread(items: &Vec<TimelineItem>, fallback: &TimelineItem) -> (r: Timestamp)
    ensures
        r == latest_activity(items.deep_view(), fallback.deep_view()),
{
    let ghost all = items.deep_view();
    let ghost model = fallback.deep_view();
    let mut found = false;
    let mut latest = fallback.last_activity_at;
    let mut i: usize = 0;
    assert(all.take(0) =~= Seq::empty());
    while i < items.len()
        invariant
            i <= items.len(),
            all == items.deep_view(),
            model == fallback.deep_view(),
            latest == latest_activity(all.take(i as int), model),
            found == any_item(all.take(i as int), in_thread(model.thread_ts)),
        decreases items.len() - i,
    {
        let ghost rest = all.take(i as int);
        let ghost more = all.take(i as int + 1);
        let condition_holds = same_text(items[i].thread_ts.as_str(), fallback.thread_ts.as_str());
        proof {
            let condition = in_thread(model.thread_ts);
            assert(more.drop_last() =~= rest);
            assert(more.last() == items[i as int].deep_view());
            assert(more[i as int] == items[i as int].deep_view());
            if any_item(rest, condition) {
                let k = choose|k: int| 0 <= k < rest.len() && condition(#[trigger] rest[k]);
                assert(condition(more[k]));
            }
            if any_item(more, condition) && !condition_holds {
                let k = choose|k: int| 0 <= k < more.len() && condition(#[trigger] more[k]);
                assert(condition(rest[k]));
            }
        }
        if condition_holds {
            if !found || !items[i].last_activity_at.is_before(latest) {
                latest = items[i].last_activity_at;
            }
            found = true;
        }
        i += 1;
    }
    assert(all.take(i as int) =~= all);
    latest
}

impl UiState {
    /// Shows another view; true if it was not shown.
    pub fn set_main_view(&mut self, main_view: MainView) -> (changed: bool)
        ensures
            final(self).deep_view() == (UiStateModel { main_view, ..old(self).deep_view() }),
            changed == (old(self).main_view != main_view),
    {
        if self.main_view == main_view {
            return false;
        }
        self.main_view = main_view;
        true
    }

    /// Uses another theme; true if it was not used.
    pub fn set_theme(&mut self, theme_id: ThemeId) -> (changed: bool)
        ensures
            final(self).deep_view() == (UiStateModel {
                settings: AppSettingsModel { theme_id, ..old(self).deep_view().settings },
                ..old(self).deep_view()
            }),
            changed == (old(self).settings.theme_id != theme_id),
    {
        if self.settings.theme_id == theme_id {
            return false;
        }
        self.settings.theme_id = theme_id;
        true
    }

    /// Makes a workspace active; true if it was not.
    pub fn set_active_workspace(&mut self, workspace_key: String) -> (changed: bool)
        ensures
            changed == (old(self).deep_view().workspace_key() != workspace_key@),
            final(self).deep_view() == (if changed {
                old(self).deep_view().with_workspace(workspace_key@)
            } else {
                old(self).deep_view()
            }),
    {
        let current = crate::state::normalized_active_workspace_key(&self.settings);
        if current == workspace_key {
            return false;
        }
        self.settings.active_workspace_key = Some(workspace_key);
        self.search_query = String::new();
        self.section_filter = None;
        self.channel_filter = None;
        self.author_filter = None;
        self.selected_message_ts = None;
        self.highlighted_timeline_message_ts = None;
        self.focused_thread_message_ts = None;
        true
    }

    /// Activates a search profile, or none; true if that is a change.
    pub fn set_active_search_profile(&mut self, profile_id: Option<String>) -> (changed: bool)
        ensures
            changed == (old(self).deep_view().settings.active_search_profile_id != old(
                self,
            ).deep_view().chosen_profile(profile_id.deep_view())),
            final(self).deep_view() == (if changed {
                UiStateModel {
                    settings: AppSettingsModel {
                        active_search_profile_id: old(self).deep_view().chosen_profile(
                            profile_id.deep_view(),
                        ),
                        ..old(self).deep_view().settings
                    },
                    ..old(self).deep_view()
                }.filtered(true)
            } else {
                old(self).deep_view()
            }),
    {
        let next: Option<String> = match profile_id {
            Some(id) => match non_blank(id.as_str()) {
                Some(wanted) => if self.settings.search_profile(wanted.as_str()).is_some() {
                    Some(wanted)
                } else {
                    None
                },
                None => None,
            },
            None => None,
        };
        if same_option(&self.settings.active_search_profile_id, &next) {
            return false;
        }
        self.settings.active_search_profile_id = next;
        self.apply_filters(true);
        true
    }

    /// Puts a workspace among the known ones, and makes it active if wanted; true if that is a
    /// change.
    pub fn upsert_workspace_profile(
        &mut self,
        profile: WorkspaceProfile,
        make_active: bool,
    ) -> (changed: bool)
        ensures
            final(self).deep_view() == (UiStateModel {
                settings: AppSettingsModel {
                    workspaces: upserted::<WorkspaceProfile>(
                        old(self).deep_view().settings.workspaces,
                        profile.deep_view(),
                    ),
                    active_workspace_key: if make_active {
                        Some(profile.deep_view().key)
                    } else {
                        old(self).deep_view().settings.active_workspace_key
                    },
                    ..old(self).deep_view().settings
                },
                ..old(self).deep_view()
            }),
            changed == (with_id::<WorkspaceProfile>(
                old(self).deep_view().settings.workspaces,
                profile.deep_view().key,
            ) != Some(profile.deep_view()) || (make_active && old(
                self,
            ).deep_view().settings.active_workspace_key != Some(profile.deep_view().key))),
    {
        let ghost wanted = profile.deep_view();
        let same = match find_by_id(&self.settings.workspaces, profile.key.as_str()) {
            Some(existing) => existing.key == profile.key && existing.label == profile.label
                && same_option(&existing.team_id, &profile.team_id) && same_option(
                &existing.team_name,
                &profile.team_name,
            ) && same_option(&existing.app_id, &profile.app_id),
            None => false,
        };
        let activates = make_active && match &self.settings.active_workspace_key {
            Some(key) => !same_text(key.as_str(), profile.key.as_str()),
            None => true,
        };
        let key = profile.key.clone();
        upsert(&mut self.settings.workspaces, profile);
        if make_active {
            self.settings.active_workspace_key = Some(key);
        }
        !same || activates
    }

    /// Removes a workspace; true if it was known. The first of the others becomes active if it
    /// was the active one.
    pub fn remove_workspace_profile(&mut self, workspace_key: &str) -> (removed: bool)
        ensures
            removed == (with_id::<WorkspaceProfile>(
                old(self).deep_view().settings.workspaces,
                workspace_key@,
            ) is Some),
            final(self).deep_view() == without_workspace(old(self).deep_view(), workspace_key@),
    {
        let ghost before = self.deep_view();
        let removed = find_by_id(&self.settings.workspaces, workspace_key).is_some();
        let current = crate::state::normalized_active_workspace_key(&self.settings);
        remove_id(&mut self.settings.workspaces, workspace_key);
        if removed && same_text(current.as_str(), workspace_key) {
            let ghost rest = self.settings.workspaces.deep_view();
            self.settings.active_workspace_key = if self.settings.workspaces.len() > 0 {
                assert(rest.first() == self.settings.workspaces[0].deep_view());
                Some(self.settings.workspaces[0].key.clone())
            } else {
                None
            };
        }
        removed
    }

    /// Caches other items.
    pub fn replace_items(
        &mut self,
        items: Vec<TimelineItem>,
        user_names: TextMap<String>,
        user_avatar_paths: TextMap<String>,
        known_channels: TextMap<String>,
        known_channel_creators: TextMap<String>,
        now: Timestamp,
    )
        ensures
            final(self).deep_view() == old(self).deep_view().with_items(
                items.deep_view(),
                user_names.deep_view(),
                user_avatar_paths.deep_view(),
                known_channels.deep_view(),
                known_channel_creators.deep_view(),
            ).reranked(now, true),
            final(self).deep_view().wf(),
    {
        let ghost before = self.deep_view();
        let ghost names = user_names.deep_view();
        let ghost paths = user_avatar_paths.deep_view();
        let ghost channels = known_channels.deep_view();
        let ghost creators = known_channel_creators.deep_view();
        let active = self.active_search_profile_id();
        self.user_names = merge_user_names(&items, user_names);
        self.user_avatar_paths = merge_user_avatar_paths(&items, user_avatar_paths);
        self.known_channels = merge_known_channels(&items, known_channels);
        self.known_channel_creators = merge_known_channel_creators(&items, known_channel_creators);
        self.typing_by_channel = TextMap::new();
        self.source_items = items;
        let channel_filter = match &self.channel_filter {
            Some(id) => if self.known_channels.contains_key(id.as_str()) {
                Some(id.clone())
            } else {
                None
            },
            None => None,
        };
        self.channel_filter = channel_filter;
        let author_filter = match &self.author_filter {
            Some(id) => if any_passes(&self.source_items, &AuthorIs(id.as_str())) {
                Some(id.clone())
            } else {
                None
            },
            None => None,
        };
        self.author_filter = author_filter;
        let section_filter = match &self.section_filter {
            Some(id) => if self.settings.section_profile(id.as_str()).is_some() {
                Some(id.clone())
            } else {
                None
            },
            None => None,
        };
        self.section_filter = section_filter;
        self.settings.active_search_profile_id = active;
        assert(self.deep_view() =~= before.with_items(
            items.deep_view(),
            names,
            paths,
            channels,
            creators,
        ));
        self.rerank(now, true);
    }

    /// Searches for a text.
    pub fn set_search_query(&mut self, search_query: String)
        ensures
            final(self).deep_view() == (UiStateModel {
                search_query: search_query@,
                ..old(self).deep_view()
            }).filtered(true),
            final(self).deep_view().wf(),
    {
        self.search_query = search_query;
        self.apply_filters(true);
    }

    /// Filters by a section, or by none.
    pub fn set_section_filter(&mut self, section_id: Option<String>)
        ensures
            final(self).deep_view() == (UiStateModel {
                section_filter: old(self).deep_view().chosen_section(section_id.deep_view()),
                ..old(self).deep_view()
            }).filtered(true),
            final(self).deep_view().wf(),
    {
        let chosen: Option<String> = match section_id {
            Some(id) => match non_blank(id.as_str()) {
                Some(wanted) => if self.settings.section_profile(wanted.as_str()).is_some() {
                    Some(wanted)
                } else {
                    None
                },
                None => None,
            },
            None => None,
        };
        self.section_filter = chosen;
        self.apply_filters(true);
    }

    /// Filters by a channel, or by none.
    pub fn set_channel_filter(&mut self, channel_id: Option<String>)
        ensures
            final(self).deep_view() == (UiStateModel {
                channel_filter: non_empty(channel_id.deep_view()),
                ..old(self).deep_view()
            }).filtered(true),
            final(self).deep_view().wf(),
    {
        self.channel_filter = unless_empty(channel_id);
        self.apply_filters(true);
    }

    /// Filters by an author, or by none.
    pub fn set_author_filter(&mut self, author_id: Option<String>)
        ensures
            final(self).deep_view() == (UiStateModel {
                author_filter: non_empty(author_id.deep_view()),
                ..old(self).deep_view()
            }).filtered(true),
            final(self).deep_view().wf(),
    {
        self.author_filter = unless_empty(author_id);
        self.apply_filters(true);
    }

    /// Loads more items; true if there were more.
    pub fn load_more_timeline_items(&mut self) -> (more: bool)
        ensures
            more == (old(self).loaded_timeline_items < old(self).filtered_ranked_items.len()),
            final(self).deep_view() == (if more {
                old(self).deep_view().with_more_loaded()
            } else {
                old(self).deep_view()
            }),
            old(self).deep_view().wf() ==> final(self).deep_view().wf(),
    {
        let count = self.filtered_ranked_items.len();
        if self.loaded_timeline_items >= count {
            return false;
        }
        self.loaded_timeline_items = if count - self.loaded_timeline_items <= TIMELINE_PAGE_SIZE {
            count
        } else {
            self.loaded_timeline_items + TIMELINE_PAGE_SIZE
        };
        true
    }

    /// Selects a message, or none.
    pub fn select(&mut self, message_ts: Option<String>)
        ensures
            final(self).deep_view() == old(self).deep_view().selecting(message_ts.deep_view()),
    {
        let selected: Option<String> = match message_ts {
            Some(ts) => if shows(&self.ranked_items, ts.as_str()) {
                Some(ts)
            } else {
                None
            },
            None => None,
        };
        self.highlighted_timeline_message_ts = None;
        self.focused_thread_message_ts = selected.clone();
        self.selected_message_ts = selected;
    }

    /// Notes the name of a channel, unless it is blank.
    pub fn upsert_known_channel(&mut self, channel_id: String, channel_name: String)
        ensures
            final(self).deep_view() == (UiStateModel {
                known_channels: learned_channel(
                    old(self).deep_view().known_channels,
                    channel_id@,
                    channel_name@,
                ),
                ..old(self).deep_view()
            }),
    {
        if blank(channel_name.as_str()) {
            return;
        }
        self.known_channels.insert(channel_id, channel_name);
    }

    /// Renames a channel, unless the name is blank.
    pub fn rename_known_channel(&mut self, channel_id: &str, channel_name: &str, now: Timestamp)
        ensures
            final(self).deep_view() == (if is_blank(channel_name@) {
                old(self).deep_view()
            } else {
                old(self).deep_view().with_renamed_channel(
                    channel_id@,
                    channel_name@,
                ).reranked(now, false)
            }),
            old(self).deep_view().wf() ==> final(self).deep_view().wf(),
    {
        if blank(channel_name) {
            return;
        }
        self.known_channels.insert(owned(channel_id), owned(channel_name));
        edit_items(
            &mut self.source_items,
            &RenameChannel { id: channel_id, name: channel_name },
        );
        self.rerank(now, false);
    }

    /// Forgets a channel and its items.
    pub fn archive_known_channel(&mut self, channel_id: &str, now: Timestamp)
        ensures
            final(self).deep_view() == old(self).deep_view().without_channel(channel_id@).reranked(
                now,
                true,
            ),
            final(self).deep_view().wf(),
    {
        self.known_channels.remove(channel_id);
        retain_items(&mut self.source_items, &Not(ChannelIs(channel_id)));
        self.typing_by_channel.remove(channel_id);
        let drops = match &self.channel_filter {
            Some(id) => same_text(id.as_str(), channel_id),
            None => false,
        };
        if drops {
            self.channel_filter = None;
        }
        self.rerank(now, true);
    }

    /// Brings a cached message into view and returns it.
    pub fn focus_message(&mut self, message_ts: &str) -> (r: Option<TimelineItem>)
        ensures
            r.deep_view() == first_match(
                old(self).deep_view().source_items,
                is_message(message_ts@),
            ),
            final(self).deep_view() == (match r {
                Some(target) => old(self).deep_view().focusing(target.deep_view()),
                None => old(self).deep_view(),
            }),
            old(self).deep_view().wf() ==> final(self).deep_view().wf(),
    {
        let target = match find_item(&self.source_items, &MessageIs(message_ts)) {
            Some(item) => item.clone(),
            None => {
                return None;
            },
        };
        self.search_query = String::new();
        self.section_filter = None;
        self.channel_filter = None;
        self.author_filter = None;
        self.settings.active_search_profile_id = None;
        self.apply_filters(true);
        self.selected_message_ts = Some(target.thread_ts.clone());
        self.highlighted_timeline_message_ts = Some(target.thread_ts.clone());
        self.focused_thread_message_ts = Some(target.message_ts.clone());
        let ghost shown = self.filtered_ranked_items.deep_view();
        let mut i: usize = 0;
        let mut at: Option<usize> = None;
        while i < self.filtered_ranked_items.len()
            invariant_except_break
                i <= self.filtered_ranked_items.len(),
                shown == self.filtered_ranked_items.deep_view(),
                at is None,
                position_of_message(shown, target.thread_ts@, 0) == position_of_message(
                    shown,
                    target.thread_ts@,
                    i as int,
                ),
            ensures
                match at {
                    Some(index) => position_of_message(shown, target.thread_ts@, 0) == Some(
                        index as int,
                    ) && index < self.filtered_ranked_items.len(),
                    None => position_of_message(shown, target.thread_ts@, 0) is None,
                },
            decreases self.filtered_ranked_items.len() - i,
        {
            assert(shown[i as int] == self.filtered_ranked_items[i as int].deep_view());
            if same_text(
                self.filtered_ranked_items[i].item.message_ts.as_str(),
                target.thread_ts.as_str(),
            ) {
                at = Some(i);
                break;
            }
            i += 1;
        }
        if let Some(index) = at {
            if index + 1 > self.loaded_timeline_items {
                self.loaded_timeline_items = index + 1;
            }
        }
        Some(target)
    }

    /// Caches a reply that the user sent.
    pub fn apply_reply_item(&mut self, reply_item: TimelineItem, now: Timestamp)
        ensures
            final(self).deep_view() == old(self).deep_view().with_reply(
                reply_item.deep_view(),
            ).reranked(now, false),
            final(self).deep_view().wf(),
    {
        let ghost before = self.deep_view();
        let ghost reply = reply_item.deep_view();
        let thread_ts = reply_item.thread_ts.clone();
        let at = reply_item.last_activity_at;
        self.upsert_known_channel(reply_item.channel_id.clone(), reply_item.channel_name.clone());
        self.learn_author(&reply_item);
        self.source_items.push(reply_item);
        assert(self.source_items.deep_view() =~= before.source_items.push(reply));
        edit_items(&mut self.source_items, &JoinThread { thread_ts: thread_ts.as_str(), at });
        assert(self.deep_view() =~= before.with_reply(reply));
        self.rerank(now, false);
    }

    /// Notes what an item says of its author.
    fn learn_author(&mut self, item: &TimelineItem)
        ensures
            final(self).deep_view() == (UiStateModel {
                user_names: learned_user_name(old(self).deep_view().user_names, item.deep_view()),
                user_avatar_paths: learned_avatar_path(
                    old(self).deep_view().user_avatar_paths,
                    item.deep_view(),
                ),
                ..old(self).deep_view()
            }),
    {
        if !same_text(item.author_name.as_str(), item.author_id.as_str()) && !same_text(
            item.author_name.as_str(),
            "you",
        ) {
            self.user_names.insert_missing(item.author_id.clone(), item.author_name.clone());
        }
        if let Some(path) = &item.author_avatar_path {
            self.user_avatar_paths.insert_missing(item.author_id.clone(), path.clone());
        }
    }

    /// Whether a message is cached.
    pub fn contains_message_ts(&self, message_ts: &str) -> (r: bool)
        ensures
            r == any_item(self.deep_view().source_items, is_message(message_ts@)),
    {
        any_passes(&self.source_items, &MessageIs(message_ts))
    }

    /// Caches an item that came in; true if its message was not cached.
    pub fn apply_incoming_item(&mut self, incoming_item: TimelineItem, now: Timestamp) -> (r: bool)
        ensures
            r == !any_item(
                old(self).deep_view().source_items,
                is_message(incoming_item.deep_view().message_ts),
            ),
            final(self).deep_view() == (if r {
                old(self).deep_view().with_incoming(incoming_item.deep_view()).reranked(now, false)
            } else {
                old(self).deep_view()
            }),
            old(self).deep_view().wf() ==> final(self).deep_view().wf(),
    {
        if self.contains_message_ts(incoming_item.message_ts.as_str()) {
            return false;
        }
        let ghost before = self.deep_view();
        let ghost incoming = incoming_item.deep_view();
        let channel_id = incoming_item.channel_id.clone();
        let thread_ts = incoming_item.thread_ts.clone();
        let at = incoming_item.last_activity_at;
        let unread = incoming_item.unread;
        let direct_mention = incoming_item.direct_mention;
        let hits = incoming_item.focus_keyword_hits.clone();
        assert(hits.deep_view() =~= incoming.focus_keyword_hits);
        let is_root = same_text(
            incoming_item.message_ts.as_str(),
            incoming_item.thread_ts.as_str(),
        );
        self.learn_author(&incoming_item);
        self.upsert_known_channel(channel_id.clone(), incoming_item.channel_name.clone());
        self.source_items.push(incoming_item);
        self.typing_by_channel.remove(channel_id.as_str());
        let ghost items = before.source_items.push(incoming);
        assert(self.source_items.deep_view() =~= items);
        if !is_root {
            let ghost condition = is_message(incoming.thread_ts);
            let ghost change = stirred_by(incoming);
            match position_of_item(&self.source_items, &MessageIs(thread_ts.as_str())) {
                Some(index) => {
                    proof {
                        lemma_changed_first(items, condition, change, index as int);
                    }
                    let ghost root = self.source_items[index as int].deep_view();
                    assert(items[index as int] == root);
                    let mut merged = self.source_items[index].focus_keyword_hits.clone();
                    assert(merged.deep_view() =~= root.focus_keyword_hits);
                    merge_hits(&mut merged, &hits);
                    let item = &mut self.source_items[index];
                    item.last_activity_at = at;
                    item.unread = item.unread || unread;
                    item.direct_mention = item.direct_mention || direct_mention;
                    item.focus_keyword_hits = merged;
                    assert(self.source_items.deep_view() =~= items.update(
                        index as int,
                        change(root),
                    ));
                },
                None => {
                    proof {
                        lemma_changed_first(items, condition, change, items.len() as int);
                    }
                },
            }
        }
        assert(self.deep_view() =~= before.with_incoming(incoming));
        self.rerank(now, false);
        true
    }

    /// Gives a message another text; true if it is cached.
    pub fn apply_message_edit(&mut self, message_ts: &str, body: &str, now: Timestamp) -> (r: bool)
        ensures
            r == any_item(old(self).deep_view().source_items, is_message(message_ts@)),
            final(self).deep_view() == (if r {
                old(self).deep_view().with_changed_items(edited_body(message_ts@, body@)).reranked(
                    now,
                    false,
                )
            } else {
                old(self).deep_view()
            }),
            old(self).deep_view().wf() ==> final(self).deep_view().wf(),
    {
        if !self.contains_message_ts(message_ts) {
            return false;
        }
        edit_items(&mut self.source_items, &EditBody { message_ts, body });
        self.rerank(now, false);
        true
    }

    /// Forgets a message, with its thread if it is the root; true if it was cached.
    pub fn apply_message_delete(&mut self, message_ts: &str, now: Timestamp) -> (r: bool)
        ensures
            r == (first_match(
                old(self).deep_view().source_items,
                is_message(message_ts@),
            ) is Some),
            final(self).deep_view() == (match first_match(
                old(self).deep_view().source_items,
                is_message(message_ts@),
            ) {
                Some(target) => old(self).deep_view().without_message(target).reranked(now, true),
                None => old(self).deep_view(),
            }),
            old(self).deep_view().wf() ==> final(self).deep_view().wf(),
    {
        let ghost before = self.deep_view();
        let target = match find_item(&self.source_items, &MessageIs(message_ts)) {
            Some(item) => item.clone(),
            None => {
                return false;
            },
        };
        if same_text(target.message_ts.as_str(), target.thread_ts.as_str()) {
            retain_items(&mut self.source_items, &Not(ThreadIs(target.thread_ts.as_str())));
        } else {
            retain_items(&mut self.source_items, &Not(MessageIs(message_ts)));
            let at = latest_in_thread(&self.source_items, &target);
            edit_items(
                &mut self.source_items,
                &TouchThread { thread_ts: target.thread_ts.as_str(), at },
            );
        }
        let was_focused = match &self.focused_thread_message_ts {
            Some(ts) => same_text(ts.as_str(), message_ts),
            None => false,
        };
        if was_focused {
            self.focused_thread_message_ts = Some(target.thread_ts.clone());
        }
        let was_selected = match &self.selected_message_ts {
            Some(ts) => same_text(ts.as_str(), message_ts),
            None => false,
        };
        if was_selected {
            self.selected_message_ts = None;
        }
        assert(self.deep_view() =~= before.without_message(target.deep_view()));
        self.rerank(now, true);
        true
    }

    /// Counts a reaction to a message; true if the message is cached.
    pub fn apply_reaction_added(
        &mut self,
        message_ts: &str,
        reaction_name: &str,
        reactor_user_id: &Option<String>,
        current_user_id: &Option<String>,
        now: Timestamp,
    ) -> (r: bool)
        ensures
            r == any_item(old(self).deep_view().source_items, is_message(message_ts@)),
            final(self).deep_view() == (if r {
                old(self).deep_view().with_changed_items(
                    reacted(
                        message_ts@,
                        normal_reaction(reaction_name@),
                        is_current_user(
                            reactor_user_id.deep_view(),
                            current_user_id.deep_view(),
                        ),
                    ),
                ).reranked(now, false)
            } else {
                old(self).deep_view()
            }),
            old(self).deep_view().wf() ==> final(self).deep_view().wf(),
    {
        if !self.contains_message_ts(message_ts) {
            return false;
        }
        let name = normal_reaction_name(reaction_name);
        let mine = same_user(reactor_user_id, current_user_id);
        edit_items(&mut self.source_items, &React { message_ts, name: name.as_str(), mine });
        self.rerank(now, false);
        true
    }

    /// Takes back a reaction to a message; true if the message is cached and has the reaction.
    pub fn apply_reaction_removed(
        &mut self,
        message_ts: &str,
        reaction_name: &str,
        reactor_user_id: &Option<String>,
        current_user_id: &Option<String>,
        now: Timestamp,
    ) -> (r: bool)
        ensures
            r == any_item(
                old(self).deep_view().source_items,
                has_reaction(message_ts@, normal_reaction(reaction_name@)),
            ),
            final(self).deep_view() == (if r {
                old(self).deep_view().with_changed_items(
                    unreacted(
                        message_ts@,
                        normal_reaction(reaction_name@),
                        is_current_user(
                            reactor_user_id.deep_view(),
                            current_user_id.deep_view(),
                        ),
                    ),
                ).reranked(now, false)
            } else {
                old(self).deep_view()
            }),
            old(self).deep_view().wf() ==> final(self).deep_view().wf(),
    {
        let name = normal_reaction_name(reaction_name);
        if !any_passes(&self.source_items, &HasReaction { message_ts, name: name.as_str() }) {
            return false;
        }
        let mine = same_user(reactor_user_id, current_user_id);
        edit_items(&mut self.source_items, &Unreact { message_ts, name: name.as_str(), mine });
        self.rerank(now, false);
        true
    }

    /// Gives a message what the server has of it; true if it is cached.
    pub fn apply_remote_message_snapshot(
        &mut self,
        message_ts: &str,
        body: &str,
        rich_text_blocks: Vec<Json>,
        reactions: Vec<ReactionSummary>,
        attachments: Vec<AttachmentSummary>,
        now: Timestamp,
    ) -> (r: bool)
        ensures
            r == any_item(old(self).deep_view().source_items, is_message(message_ts@)),
            final(self).deep_view() == (if r {
                old(self).deep_view().with_changed_items(
                    as_on_server(
                        message_ts@,
                        body@,
                        rich_text_blocks.deep_view(),
                        reactions.deep_view(),
                        attachments.deep_view(),
                    ),
                ).reranked(now, false)
            } else {
                old(self).deep_view()
            }),
            old(self).deep_view().wf() ==> final(self).deep_view().wf(),
    {
        if !self.contains_message_ts(message_ts) {
            return false;
        }
        edit_items(
            &mut self.source_items,
            &TakeSnapshot {
                message_ts,
                body,
                blocks: &rich_text_blocks,
                reactions: &reactions,
                attachments: &attachments,
            },
        );
        self.rerank(now, false);
        true
    }

    /// Caches items that a refresh brought: what is cached takes what the server has of it, the
    /// others come in. True unless there are none.
    pub fn apply_background_refresh_items(&mut self, items: Vec<TimelineItem>, now: Timestamp) -> (r:
        bool)
        ensures
            r == (items.len() > 0),
            final(self).deep_view() == refreshed(
                old(self).deep_view(),
                items.deep_view(),
                now,
            ),
            old(self).deep_view().wf() ==> final(self).deep_view().wf(),
    {
        let ghost all = items.deep_view();
        let mut i: usize = 0;
        assert(all.take(0) =~= Seq::empty());
        while i < items.len()
            invariant
                i <= items.len(),
                all == items.deep_view(),
                self.deep_view() == refreshed(old(self).deep_view(), all.take(i as int), now),
                old(self).deep_view().wf() ==> self.deep_view().wf(),
            decreases items.len() - i,
        {
            let item = &items[i];
            assert(all.take(i as int + 1).drop_last() =~= all.take(i as int));
            assert(all.take(i as int + 1).last() == item.deep_view());
            if self.contains_message_ts(item.message_ts.as_str()) {
                let blocks = item.rich_text_blocks.clone();
                let reactions = item.reactions.clone();
                let attachments = item.attachments.clone();
                assert(blocks.deep_view() =~= item.rich_text_blocks.deep_view());
                assert(reactions.deep_view() =~= item.reactions.deep_view());
                assert(attachments.deep_view() =~= item.attachments.deep_view());
                let changed = self.apply_remote_message_snapshot(
                    item.message_ts.as_str(),
                    item.body.as_str(),
                    blocks,
                    reactions,
                    attachments,
                    now,
                );
            } else {
                let added = self.apply_incoming_item(item.clone(), now);
            }
            i += 1;
        }
        assert(all.take(i as int) =~= all);
        items.len() > 0
    }
}

/// The state without a workspace; if it was known and active, the first of the others is active.
pub open spec fn without_workspace(state: UiStateModel, key: Seq<char>) -> UiStateModel {
    let rest = without_id::<WorkspaceProfile>(state.settings.workspaces, key);
    UiStateModel {
        settings: AppSettingsModel {
            workspaces: rest,
            active_workspace_key: if with_id::<WorkspaceProfile>(
                state.settings.workspaces,
                key,
            ) is Some && state.workspace_key() == key {
                if rest.len() > 0 {
                    Some(rest.first().key)
                } else {
                    None
                }
            } else {
                state.settings.active_workspace_key
            },
            ..state.settings
        },
        ..state
    }
}

/// The state after a refresh brought items, one after the other.
pub open spec fn refreshed(
    state: UiStateModel,
    items: Seq<TimelineItemModel>,
    now: Timestamp,
) -> UiStateModel
    decreases items.len(),
{
    if items.len() == 0 {
        state
    } else {
        let before = refreshed(state, items.drop_last(), now);
        let item = items.last();
        if any_item(before.source_items, is_message(item.message_ts)) {
            before.with_changed_items(
                as_on_server(
                    item.message_ts,
                    item.body,
                    item.rich_text_blocks,
                    item.reactions,
                    item.attachments,
                ),
            ).reranked(now, false)
        } else {
            before.with_incoming(item).reranked(now, false)
        }
    }
}

} // verus!
