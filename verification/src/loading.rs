//! Loads of histories and of the directory of users, decided step by step: each function takes
//! what Slack answered to the last request, and says what is asked for next.
use vstd::prelude::*;
use vstd::string::*;

use crate::auth::StoredSlackSession;
use crate::collections::{bind, TextMap};
use crate::events::{InitialHistoryLoad, InitialHistoryLoadModel};
use crate::history::{history_item, history_message_to_timeline_item};
use crate::models::{AttachmentSummary, AttachmentSummaryModel, TimelineItem, TimelineItemModel};
use crate::settings::{AppSettings, AppSettingsModel};
use crate::slack::{
    SlackConversation, SlackConversationModel, SlackHistoryMessage, SlackHistoryMessageModel,
    SlackUser, SlackUserModel,
};
use crate::state::Names;
use crate::sync::{
    finish_initial_load, is_active, is_active_user, latest_items, learn_directory_page,
    refreshed_channel, refreshed_conversation, with_directory_page,
};
use crate::api::labelled;
use crate::text::join;
use crate::time::Timestamp;

verus! {

/// What the items of a history are made with.
#[derive(Debug, PartialEq, Eq)]
pub struct HistoryContext {
    pub workspace_id: String,
    /// The user who is connected.
    pub user_id: Option<String>,
    pub settings: AppSettings,
    pub user_names: TextMap<String>,
    pub user_avatar_paths: TextMap<String>,
}

/// What a [`HistoryContext`] says: its texts as sequences of characters.
#[verifier::ext_equal]
pub struct HistoryContextModel {
    pub workspace_id: Seq<char>,
    pub user_id: Option<Seq<char>>,
    pub settings: AppSettingsModel,
    pub user_names: Seq<(Seq<char>, Seq<char>)>,
    pub user_avatar_paths: Seq<(Seq<char>, Seq<char>)>,
}

impl DeepView for HistoryContext {
    type V = HistoryContextModel;

    open spec fn deep_view(&self) -> HistoryContextModel {
        HistoryContextModel {
            workspace_id: self.workspace_id@,
            user_id: self.user_id.deep_view(),
            settings: self.settings.deep_view(),
            user_names: self.user_names.deep_view(),
            user_avatar_paths: self.user_avatar_paths.deep_view(),
        }
    }
}

impl Clone for HistoryContext {
    fn clone(&self) -> (copy: Self)
        ensures
            copy.deep_view() == self.deep_view(),
    {
        let copy = HistoryContext {
            workspace_id: self.workspace_id.clone(),
            user_id: self.user_id.clone(),
            settings: self.settings.clone(),
            user_names: self.user_names.clone(),
            user_avatar_paths: self.user_avatar_paths.clone(),
        };
        assert(copy.user_id.deep_view() =~= self.user_id.deep_view());
        copy
    }
}

/// What is known of the users of a workspace.
#[derive(Debug, PartialEq, Eq)]
pub struct UserDirectoryLoad {
    pub user_names: TextMap<String>,
    pub user_avatar_paths: TextMap<String>,
}

/// What a [`UserDirectoryLoad`] says: its texts as sequences of characters.
#[verifier::ext_equal]
pub struct UserDirectoryLoadModel {
    pub user_names: Seq<(Seq<char>, Seq<char>)>,
    pub user_avatar_paths: Seq<(Seq<char>, Seq<char>)>,
}

impl DeepView for UserDirectoryLoad {
    type V = UserDirectoryLoadModel;

    open spec fn deep_view(&self) -> UserDirectoryLoadModel {
        UserDirectoryLoadModel {
            user_names: self.user_names.deep_view(),
            user_avatar_paths: self.user_avatar_paths.deep_view(),
        }
    }
}

impl Clone for UserDirectoryLoad {
    fn clone(&self) -> (copy: Self)
        ensures
            copy.deep_view() == self.deep_view(),
    {
        let copy = UserDirectoryLoad {
            user_names: self.user_names.clone(),
            user_avatar_paths: self.user_avatar_paths.clone(),
        };
        copy
    }
}

/// A load of the histories of channels, one after the other.
#[derive(Debug, PartialEq, Eq)]
pub struct HistoryLoading {
    pub channels: Vec<SlackConversation>,
    /// How many of the channels were asked for and answered.
    pub asked: usize,
    pub items: Vec<TimelineItem>,
    /// How many of them answered with a history.
    pub channel_count: usize,
    pub failures: Vec<String>,
}

/// What a [`HistoryLoading`] says: its texts as sequences of characters.
#[verifier::ext_equal]
pub struct HistoryLoadingModel {
    pub channels: Seq<SlackConversationModel>,
    pub asked: usize,
    pub items: Seq<TimelineItemModel>,
    pub channel_count: usize,
    pub failures: Seq<Seq<char>>,
}

impl DeepView for HistoryLoading {
    type V = HistoryLoadingModel;

    open spec fn deep_view(&self) -> HistoryLoadingModel {
        HistoryLoadingModel {
            channels: self.channels.deep_view(),
            asked: self.asked,
            items: self.items.deep_view(),
            channel_count: self.channel_count,
            failures: self.failures.deep_view(),
        }
    }
}

impl Clone for HistoryLoading {
    fn clone(&self) -> (copy: Self)
        ensures
            copy.deep_view() == self.deep_view(),
    {
        let copy = HistoryLoading {
            channels: self.channels.clone(),
            asked: self.asked,
            items: self.items.clone(),
            channel_count: self.channel_count,
            failures: self.failures.clone(),
        };
        assert(copy.channels.deep_view() =~= self.channels.deep_view());
        assert(copy.items.deep_view() =~= self.items.deep_view());
        assert(copy.failures.deep_view() =~= self.failures.deep_view());
        copy
    }
}

impl HistoryContext {
    /// What items are made with, for a session.
    pub fn new(
        session: &StoredSlackSession,
        settings: &AppSettings,
        user_names: TextMap<String>,
        user_avatar_paths: TextMap<String>,
    ) -> (r: Self)
        ensures
            r.deep_view() == (HistoryContextModel {
                workspace_id: session.deep_view().workspace_id(),
                user_id: session.deep_view().user_id,
                settings: settings.deep_view(),
                user_names: user_names.deep_view(),
                user_avatar_paths: user_avatar_paths.deep_view(),
            }),
    {
        HistoryContext {
            workspace_id: session.workspace_id(),
            user_id: session.user_id.clone(),
            settings: settings.clone(),
            user_names,
            user_avatar_paths,
        }
    }
}

impl HistoryContextModel {
    /// The item of a message of a channel, with its files as they are listed.
    pub open spec fn item(
        self,
        channel: SlackConversationModel,
        message: (SlackHistoryMessageModel, Seq<AttachmentSummaryModel>),
        now: Timestamp,
    ) -> Option<TimelineItemModel> {
        history_item(
            self.workspace_id,
            channel,
            self.user_id,
            self.settings,
            self.user_names,
            self.user_avatar_paths,
            message.1,
            message.0,
            now,
        )
    }

    /// The items of the messages of a channel, in their order.
    pub open spec fn items(
        self,
        channel: SlackConversationModel,
        messages: Seq<(SlackHistoryMessageModel, Seq<AttachmentSummaryModel>)>,
        now: Timestamp,
    ) -> Seq<TimelineItemModel>
        decreases messages.len(),
    {
        if messages.len() == 0 {
            Seq::empty()
        } else {
            let before = self.items(channel, messages.drop_last(), now);
            match self.item(channel, messages.last(), now) {
                Some(item) => before.push(item),
                None => before,
            }
        }
    }
}

/// Adds the items of the messages of a channel.
pub fn read_history(
    items: &mut Vec<TimelineItem>,
    context: &HistoryContext,
    channel: &SlackConversation,
    messages: &Vec<(SlackHistoryMessage, Vec<AttachmentSummary>)>,
    now: Timestamp,
)
    ensures
        final(items).deep_view() == old(items).deep_view() + context.deep_view().items(
            channel.deep_view(),
            messages.deep_view(),
            now,
        ),
{
    let ghost start = items.deep_view();
    let ghost all = messages.deep_view();
    let ghost told = context.deep_view();
    let ghost place = channel.deep_view();
    let mut i: usize = 0;
    assert(all.take(0) =~= Seq::empty());
    assert(start + told.items(place, all.take(0), now) =~= start);
    while i < messages.len()
        invariant
            i <= messages.len(),
            all == messages.deep_view(),
            told == context.deep_view(),
            place == channel.deep_view(),
            items.deep_view() == start + told.items(place, all.take(i as int), now),
        decreases messages.len() - i,
    {
        let ghost before = items.deep_view();
        assert(all.take(i + 1).drop_last() =~= all.take(i as int));
        assert(all.take(i + 1).last() == messages@[i as int].deep_view());
        let attachments = messages[i].1.clone();
        assert(attachments.deep_view() =~= messages@[i as int].1.deep_view());
        let item = history_message_to_timeline_item(
            context.workspace_id.as_str(),
            channel,
            &context.user_id,
            &context.settings,
            &context.user_names,
            &context.user_avatar_paths,
            attachments,
            messages[i].0.clone(),
            now,
        );
        if let Some(item) = item {
            let ghost shown = item.deep_view();
            items.push(item);
            assert(items.deep_view() =~= before.push(shown));
            assert(before.push(shown) =~= start + told.items(place, all.take(i as int), now).push(
                shown,
            ));
        }
        i += 1;
    }
    assert(all.take(i as int) =~= all);
}

/// The pictures of users with those of a page of the directory added, where they are cached.
pub open spec fn with_directory_pictures(
    paths: Names,
    members: Seq<SlackUserModel>,
    cached: Seq<Option<Seq<char>>>,
) -> Names
    decreases members.len(),
{
    if members.len() == 0 {
        paths
    } else {
        let before = with_directory_pictures(paths, members.drop_last(), cached);
        let at = members.len() - 1;
        if is_active(members.last()) && at < cached.len() {
            match cached[at] {
                Some(path) => bind(before, members.last().id, path),
                None => before,
            }
        } else {
            before
        }
    }
}

impl UserDirectoryLoad {
    /// Nothing known yet.
    pub fn new() -> (r: Self)
        ensures
            r.deep_view() == (UserDirectoryLoadModel {
                user_names: Seq::empty(),
                user_avatar_paths: Seq::empty(),
            }),
    {
        UserDirectoryLoad { user_names: TextMap::new(), user_avatar_paths: TextMap::new() }
    }

    /// Learns a page of the directory. `cached` says where the picture of each member is.
    pub fn page_arrived(&mut self, members: &Vec<SlackUser>, cached: &Vec<Option<String>>)
        ensures
            final(self).deep_view() == (UserDirectoryLoadModel {
                user_names: with_directory_page(
                    old(self).deep_view().user_names,
                    members.deep_view(),
                ),
                user_avatar_paths: with_directory_pictures(
                    old(self).deep_view().user_avatar_paths,
                    members.deep_view(),
                    cached.deep_view(),
                ),
            }),
    {
        let ghost start = self.user_avatar_paths.deep_view();
        learn_directory_page(&mut self.user_names, members);
        let ghost names = self.user_names.deep_view();
        let ghost all = members.deep_view();
        let ghost places = cached.deep_view();
        let mut i: usize = 0;
        assert(all.take(0) =~= Seq::empty());
        while i < members.len()
            invariant
                i <= members.len(),
                all == members.deep_view(),
                places == cached.deep_view(),
                self.user_names.deep_view() == names,
                self.user_avatar_paths.deep_view() == with_directory_pictures(
                    start,
                    all.take(i as int),
                    places,
                ),
            decreases members.len() - i,
        {
            assert(all.take(i + 1).drop_last() =~= all.take(i as int));
            assert(all.take(i + 1).last() == members@[i as int].deep_view());
            if is_active_user(&members[i]) && i < cached.len() {
                assert(places[i as int] == cached@[i as int].deep_view());
                if let Some(path) = &cached[i] {
                    self.user_avatar_paths.insert(members[i].id.clone(), path.clone());
                }
            }
            i += 1;
        }
        assert(all.take(i as int) =~= all);
    }
}

impl HistoryLoadingModel {
    /// The channel that is asked for next.
    pub open spec fn next(self) -> Option<SlackConversationModel> {
        if self.asked < self.channels.len() {
            Some(self.channels[self.asked as int])
        } else {
            None
        }
    }

    /// The load after the channel that was asked for answered.
    pub open spec fn with_history(
        self,
        context: HistoryContextModel,
        messages: Seq<(SlackHistoryMessageModel, Seq<AttachmentSummaryModel>)>,
        now: Timestamp,
    ) -> Self {
        match self.next() {
            Some(channel) => HistoryLoadingModel {
                asked: (self.asked + 1) as usize,
                channel_count: (self.channel_count + 1) as usize,
                items: self.items + context.items(channel, messages, now),
                ..self
            },
            None => self,
        }
    }

    /// The load after the request for the channel failed.
    pub open spec fn with_failure(self, error: Seq<char>) -> Self {
        match self.next() {
            Some(channel) => HistoryLoadingModel {
                asked: (self.asked + 1) as usize,
                failures: self.failures.push(channel.id + ": "@ + error),
                ..self
            },
            None => self,
        }
    }

    /// No more channels answered than were asked.
    pub open spec fn wf(self) -> bool {
        self.channel_count <= self.asked <= self.channels.len()
    }
}

impl HistoryLoading {
    /// A load of the histories of channels, of which none was asked for yet.
    pub fn new(channels: Vec<SlackConversation>) -> (r: Self)
        ensures
            r.deep_view() == (HistoryLoadingModel {
                channels: channels.deep_view(),
                asked: 0,
                items: Seq::empty(),
                channel_count: 0,
                failures: Seq::empty(),
            }),
            r.deep_view().wf(),
    {
        let r = HistoryLoading {
            channels,
            asked: 0,
            items: Vec::new(),
            channel_count: 0,
            failures: Vec::new(),
        };
        assert(r.items.deep_view() =~= Seq::empty());
        assert(r.failures.deep_view() =~= Seq::empty());
        r
    }

    /// The channel that is asked for next; `None` when all were.
    pub fn next_channel(&self) -> (r: Option<&SlackConversation>)
        ensures
            match r {
                Some(channel) => self.deep_view().next() == Some(channel.deep_view()),
                None => self.deep_view().next() is None,
            },
    {
        if self.asked < self.channels.len() {
            assert(self.channels.deep_view()[self.asked as int] == self.channels@[self.asked as int]
                .deep_view());
            Some(&self.channels[self.asked])
        } else {
            None
        }
    }

    /// The channel that was asked for answered with its messages, each with its files as they are
    /// listed.
    pub fn history_arrived(
        &mut self,
        context: &HistoryContext,
        messages: &Vec<(SlackHistoryMessage, Vec<AttachmentSummary>)>,
        now: Timestamp,
    )
        requires
            old(self).deep_view().wf(),
        ensures
            final(self).deep_view() == old(self).deep_view().with_history(
                context.deep_view(),
                messages.deep_view(),
                now,
            ),
            final(self).deep_view().wf(),
    {
        if self.asked < self.channels.len() {
            assert(self.channels.deep_view()[self.asked as int] == self.channels@[self.asked as int]
                .deep_view());
            read_history(&mut self.items, context, &self.channels[self.asked], messages, now);
            self.asked = self.asked + 1;
            self.channel_count = self.channel_count + 1;
        }
    }

    /// The request for the channel failed: the others are asked for still.
    pub fn history_failed(&mut self, error: &str)
        requires
            old(self).deep_view().wf(),
        ensures
            final(self).deep_view() == old(self).deep_view().with_failure(error@),
            final(self).deep_view().wf(),
    {
        if self.asked < self.channels.len() {
            assert(self.channels.deep_view()[self.asked as int] == self.channels@[self.asked as int]
                .deep_view());
            let ghost before = self.failures.deep_view();
            let mut failure = self.channels[self.asked].id.clone();
            failure.append(": ");
            failure.append(error);
            let ghost told = failure@;
            self.failures.push(failure);
            assert(self.failures.deep_view() =~= before.push(told));
            self.asked = self.asked + 1;
        }
    }

    /// What the load brought: the latest items, or why there are none if every channel failed.
    pub fn finish(
        self,
        directory: UserDirectoryLoad,
        known_channels: TextMap<String>,
        known_channel_creators: TextMap<String>,
        missing_user_names_scope: bool,
    ) -> (r: Result<InitialHistoryLoad, String>)
        ensures
            match r {
                Ok(load) => {
                    &&& self.items.len() > 0 || self.failures.len() == 0
                    &&& load.deep_view() == (InitialHistoryLoadModel {
                        items: latest_items(self.deep_view().items),
                        channel_count: self.channel_count,
                        user_names: directory.deep_view().user_names,
                        user_avatar_paths: directory.deep_view().user_avatar_paths,
                        known_channels: known_channels.deep_view(),
                        known_channel_creators: known_channel_creators.deep_view(),
                        missing_user_names_scope,
                    })
                },
                Err(message) => {
                    &&& self.items.len() == 0
                    &&& self.failures.len() > 0
                    &&& message@ == "no channel history could be loaded ("@ + join(
                        self.deep_view().failures,
                        " | "@,
                    ) + ")"@
                },
            },
    {
        let items = match finish_initial_load(self.items, &self.failures) {
            Ok(items) => items,
            Err(message) => {
                return Err(message);
            },
        };
        Ok(
            InitialHistoryLoad {
                items,
                channel_count: self.channel_count,
                user_names: directory.user_names,
                user_avatar_paths: directory.user_avatar_paths,
                known_channels,
                known_channel_creators,
                missing_user_names_scope,
            },
        )
    }
}

/// A refresh of channels in the background, one after the other. It ends with the first channel
/// that fails.
#[derive(Debug, PartialEq, Eq)]
pub struct BackgroundRefresh {
    pub channels: Vec<SlackConversation>,
    /// How many of the channels answered.
    pub answered: usize,
    pub items: Vec<TimelineItem>,
    /// The channel that failed.
    pub failed: Option<String>,
}

/// What a [`BackgroundRefresh`] says: its texts as sequences of characters.
#[verifier::ext_equal]
pub struct BackgroundRefreshModel {
    pub channels: Seq<SlackConversationModel>,
    pub answered: usize,
    pub items: Seq<TimelineItemModel>,
    pub failed: Option<Seq<char>>,
}

impl DeepView for BackgroundRefresh {
    type V = BackgroundRefreshModel;

    open spec fn deep_view(&self) -> BackgroundRefreshModel {
        BackgroundRefreshModel {
            channels: self.channels.deep_view(),
            answered: self.answered,
            items: self.items.deep_view(),
            failed: self.failed.deep_view(),
        }
    }
}

impl BackgroundRefreshModel {
    /// The channel that is asked for next.
    pub open spec fn next(self) -> Option<SlackConversationModel> {
        if self.failed is None && self.answered < self.channels.len() {
            Some(self.channels[self.answered as int])
        } else {
            None
        }
    }

    /// The refresh after the channel that was asked for answered.
    pub open spec fn with_history(
        self,
        context: HistoryContextModel,
        messages: Seq<(SlackHistoryMessageModel, Seq<AttachmentSummaryModel>)>,
        now: Timestamp,
    ) -> Self {
        match self.next() {
            Some(channel) => BackgroundRefreshModel {
                answered: (self.answered + 1) as usize,
                items: self.items + context.items(channel, messages, now),
                ..self
            },
            None => self,
        }
    }

    /// The refresh after the request for the channel failed.
    pub open spec fn with_failure(self) -> Self {
        match self.next() {
            Some(channel) => BackgroundRefreshModel { failed: Some(channel.id), ..self },
            None => self,
        }
    }
}

impl BackgroundRefresh {
    /// A refresh of channels, each given by its identifier and name.
    pub fn new(channels: &Vec<(String, String)>) -> (r: Self)
        ensures
            r.deep_view() == (BackgroundRefreshModel {
                channels: channels.deep_view().map_values(
                    |channel: (Seq<char>, Seq<char>)| refreshed_channel(channel.0, channel.1),
                ),
                answered: 0,
                items: Seq::empty(),
                failed: None,
            }),
    {
        let ghost goal = channels.deep_view().map_values(
            |channel: (Seq<char>, Seq<char>)| refreshed_channel(channel.0, channel.1),
        );
        let mut asked: Vec<SlackConversation> = Vec::new();
        let mut i: usize = 0;
        assert(asked.deep_view() =~= goal.take(0));
        while i < channels.len()
            invariant
                i <= channels.len(),
                goal == channels.deep_view().map_values(
                    |channel: (Seq<char>, Seq<char>)| refreshed_channel(channel.0, channel.1),
                ),
                asked.deep_view() == goal.take(i as int),
            decreases channels.len() - i,
        {
            let ghost before = asked.deep_view();
            assert(channels.deep_view()[i as int] == channels@[i as int].deep_view());
            let channel = refreshed_conversation(channels[i].0.as_str(), channels[i].1.as_str());
            let ghost told = channel.deep_view();
            asked.push(channel);
            assert(asked.deep_view() =~= before.push(told));
            assert(goal.take(i + 1) =~= goal.take(i as int).push(goal[i as int]));
            i += 1;
        }
        assert(goal.take(i as int) =~= goal);
        let r = BackgroundRefresh { channels: asked, answered: 0, items: Vec::new(), failed: None };
        assert(r.items.deep_view() =~= Seq::empty());
        r
    }

    /// The channel that is asked for next; `None` when all answered or one failed.
    pub fn next_channel(&self) -> (r: Option<&SlackConversation>)
        ensures
            match r {
                Some(channel) => self.deep_view().next() == Some(channel.deep_view()),
                None => self.deep_view().next() is None,
            },
    {
        if self.failed.is_none() && self.answered < self.channels.len() {
            assert(self.channels.deep_view()[self.answered as int]
                == self.channels@[self.answered as int].deep_view());
            Some(&self.channels[self.answered])
        } else {
            None
        }
    }

    /// The channel that was asked for answered with its messages, each with its files as they are
    /// listed.
    pub fn history_arrived(
        &mut self,
        context: &HistoryContext,
        messages: &Vec<(SlackHistoryMessage, Vec<AttachmentSummary>)>,
        now: Timestamp,
    )
        ensures
            final(self).deep_view() == old(self).deep_view().with_history(
                context.deep_view(),
                messages.deep_view(),
                now,
            ),
    {
        if self.failed.is_none() && self.answered < self.channels.len() {
            assert(self.channels.deep_view()[self.answered as int]
                == self.channels@[self.answered as int].deep_view());
            read_history(&mut self.items, context, &self.channels[self.answered], messages, now);
            self.answered = self.answered + 1;
        }
    }

    /// The request for the channel failed.
    pub fn history_failed(&mut self)
        ensures
            final(self).deep_view() == old(self).deep_view().with_failure(),
    {
        if self.failed.is_none() && self.answered < self.channels.len() {
            assert(self.channels.deep_view()[self.answered as int]
                == self.channels@[self.answered as int].deep_view());
            self.failed = Some(self.channels[self.answered].id.clone());
        }
    }

    /// What the refresh brought: the items of all channels, or which channel failed.
    pub fn finish(self) -> (r: Result<Vec<TimelineItem>, String>)
        ensures
            match r {
                Ok(items) => self.failed is None && items == self.items,
                Err(message) => self.failed matches Some(channel) && message@
                    == "failed to refresh channel "@ + channel@,
            },
    {
        match self.failed {
            Some(channel) => Err(labelled("failed to refresh channel ", channel.as_str())),
            None => Ok(self.items),
        }
    }
}

/// A refresh whose channel failed asks for nothing more.
pub proof fn law_failed_refreshes_end(refresh: BackgroundRefreshModel)
    requires
        refresh.next() is Some,
    ensures
        refresh.with_failure().next() is None,
        refresh.with_failure().failed == Some(refresh.next()->0.id),
{
}

/// Whatever Slack answers, each step leaves one channel fewer to ask for, and a failure takes
/// nothing away from what came before.
pub proof fn law_loads_go_through_every_channel(
    load: HistoryLoadingModel,
    context: HistoryContextModel,
    messages: Seq<(SlackHistoryMessageModel, Seq<AttachmentSummaryModel>)>,
    error: Seq<char>,
    now: Timestamp,
)
    requires
        load.wf(),
        load.channels.len() <= usize::MAX,
        load.next() is Some,
    ensures
        load.with_history(context, messages, now).asked == load.asked + 1,
        load.with_failure(error).asked == load.asked + 1,
        load.with_failure(error).items == load.items,
        load.items.is_prefix_of(load.with_history(context, messages, now).items),
        load.with_history(context, messages, now).failures == load.failures,
        load.with_history(context, messages, now).channels == load.channels,
        load.with_failure(error).channels == load.channels,
{
    let after = load.with_history(context, messages, now);
    assert(load.items =~= after.items.take(load.items.len() as int));
}

} // verus!
