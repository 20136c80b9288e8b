//! The items of the timeline.
use vstd::prelude::*;

use crate::binary64::Binary64;
use crate::json::Json;
use crate::time::{minutes_between, Timestamp};

verus! {

/// What is attached to a message.
#[derive(Clone, Copy, Debug, PartialEq, Eq, Structural)]
pub enum AttachmentKind {
    File,
    Image,
    Link,
}

impl DeepView for AttachmentKind {
    type V = AttachmentKind;

    open spec fn deep_view(&self) -> AttachmentKind {
        *self
    }
}

/// Something attached to a message.
#[derive(Debug, PartialEq, Eq)]
pub struct AttachmentSummary {
    pub kind: AttachmentKind,
    pub title: String,
    pub url: Option<String>,
    pub mime: Option<String>,
}

/// What a [`AttachmentSummary`] says: its texts as sequences of characters.
#[verifier::ext_equal]
pub struct AttachmentSummaryModel {
    pub kind: AttachmentKind,
    pub title: Seq<char>,
    pub url: Option<Seq<char>>,
    pub mime: Option<Seq<char>>,
}

impl DeepView for AttachmentSummary {
    type V = AttachmentSummaryModel;

    open spec fn deep_view(&self) -> AttachmentSummaryModel {
        AttachmentSummaryModel {
            kind: self.kind,
            title: self.title@,
            url: self.url.deep_view(),
            mime: self.mime.deep_view(),
        }
    }
}

impl Clone for AttachmentSummary {
    fn clone(&self) -> (copy: Self)
        ensures
            copy.deep_view() == self.deep_view(),
    {
        let copy = AttachmentSummary {
            kind: self.kind,
            title: self.title.clone(),
            url: self.url.clone(),
            mime: self.mime.clone(),
        };
        assert(copy.url.deep_view() =~= self.url.deep_view());
        assert(copy.mime.deep_view() =~= self.mime.deep_view());
        copy
    }
}

/// How far a reply to a message has come.
#[derive(Debug, PartialEq, Eq)]
pub enum ReplyState {
    Idle,
    Drafting,
    Sending,
    Failed(String),
}

/// What a [`ReplyState`] says: its texts as sequences of characters.
#[verifier::ext_equal]
pub enum ReplyStateModel {
    Idle,
    Drafting,
    Sending,
    Failed(Seq<char>),
}

impl DeepView for ReplyState {
    type V = ReplyStateModel;

    open spec fn deep_view(&self) -> ReplyStateModel {
        match self {
            ReplyState::Idle => ReplyStateModel::Idle,
            ReplyState::Drafting => ReplyStateModel::Drafting,
            ReplyState::Sending => ReplyStateModel::Sending,
            ReplyState::Failed(a) => ReplyStateModel::Failed(a@),
        }
    }
}

impl Clone for ReplyState {
    fn clone(&self) -> (copy: Self)
        ensures
            copy.deep_view() == self.deep_view(),
    {
        match self {
            ReplyState::Idle => ReplyState::Idle,
            ReplyState::Drafting => ReplyState::Drafting,
            ReplyState::Sending => ReplyState::Sending,
            ReplyState::Failed(a) => {
                let copy = ReplyState::Failed(a.clone());
                assert(copy.deep_view() =~= self.deep_view());
                copy
            },
        }
    }
}

/// Why an item has its score.
#[derive(Debug, PartialEq, Eq)]
pub enum RankingReason {
    DirectMention,
    FocusKeyword(String),
    ParticipatingThread,
    WeightedWatchedChannel(u8),
    RecentActivity,
}

/// What a [`RankingReason`] says: its texts as sequences of characters.
#[verifier::ext_equal]
pub enum RankingReasonModel {
    DirectMention,
    FocusKeyword(Seq<char>),
    ParticipatingThread,
    WeightedWatchedChannel(u8),
    RecentActivity,
}

impl DeepView for RankingReason {
    type V = RankingReasonModel;

    open spec fn deep_view(&self) -> RankingReasonModel {
        match self {
            RankingReason::DirectMention => RankingReasonModel::DirectMention,
            RankingReason::FocusKeyword(a) => RankingReasonModel::FocusKeyword(a@),
            RankingReason::ParticipatingThread => RankingReasonModel::ParticipatingThread,
            RankingReason::WeightedWatchedChannel(a) => RankingReasonModel::WeightedWatchedChannel(*a),
            RankingReason::RecentActivity => RankingReasonModel::RecentActivity,
        }
    }
}

impl Clone for RankingReason {
    fn clone(&self) -> (copy: Self)
        ensures
            copy.deep_view() == self.deep_view(),
    {
        match self {
            RankingReason::DirectMention => RankingReason::DirectMention,
            RankingReason::FocusKeyword(a) => {
                let copy = RankingReason::FocusKeyword(a.clone());
                assert(copy.deep_view() =~= self.deep_view());
                copy
            },
            RankingReason::ParticipatingThread => RankingReason::ParticipatingThread,
            RankingReason::WeightedWatchedChannel(a) => {
                let copy = RankingReason::WeightedWatchedChannel(*a);
                assert(copy.deep_view() =~= self.deep_view());
                copy
            },
            RankingReason::RecentActivity => RankingReason::RecentActivity,
        }
    }
}

/// A reaction to a message, with how many gave it and whether the user did.
#[derive(Debug, PartialEq, Eq)]
pub struct ReactionSummary {
    pub name: String,
    pub emoji: String,
    pub count: u32,
    pub me: bool,
}

/// What a [`ReactionSummary`] says: its texts as sequences of characters.
#[verifier::ext_equal]
pub struct ReactionSummaryModel {
    pub name: Seq<char>,
    pub emoji: Seq<char>,
    pub count: u32,
    pub me: bool,
}

impl DeepView for ReactionSummary {
    type V = ReactionSummaryModel;

    open spec fn deep_view(&self) -> ReactionSummaryModel {
        ReactionSummaryModel {
            name: self.name@,
            emoji: self.emoji@,
            count: self.count,
            me: self.me,
        }
    }
}

impl Clone for ReactionSummary {
    fn clone(&self) -> (copy: Self)
        ensures
            copy.deep_view() == self.deep_view(),
    {
        let copy = ReactionSummary {
            name: self.name.clone(),
            emoji: self.emoji.clone(),
            count: self.count,
            me: self.me,
        };
        copy
    }
}

/// A message in the timeline. The root of a thread has its own time stamp as its thread.
#[derive(Debug, PartialEq, Eq)]
pub struct TimelineItem {
    pub workspace_id: String,
    pub channel_id: String,
    pub channel_name: String,
    pub message_ts: String,
    pub thread_ts: String,
    pub author_id: String,
    pub author_name: String,
    pub author_avatar_path: Option<String>,
    pub body: String,
    pub rich_text_blocks: Vec<Json>,
    pub reactions: Vec<ReactionSummary>,
    pub attachments: Vec<AttachmentSummary>,
    pub unread: bool,
    pub participant: bool,
    pub direct_mention: bool,
    pub focus_keyword_hits: Vec<String>,
    pub watch_weight: u8,
    pub last_activity_at: Timestamp,
    pub reply_state: ReplyState,
}

/// What a [`TimelineItem`] says: its texts as sequences of characters.
#[verifier::ext_equal]
pub struct TimelineItemModel {
    pub workspace_id: Seq<char>,
    pub channel_id: Seq<char>,
    pub channel_name: Seq<char>,
    pub message_ts: Seq<char>,
    pub thread_ts: Seq<char>,
    pub author_id: Seq<char>,
    pub author_name: Seq<char>,
    pub author_avatar_path: Option<Seq<char>>,
    pub body: Seq<char>,
    pub rich_text_blocks: Seq<Json>,
    pub reactions: Seq<ReactionSummaryModel>,
    pub attachments: Seq<AttachmentSummaryModel>,
    pub unread: bool,
    pub participant: bool,
    pub direct_mention: bool,
    pub focus_keyword_hits: Seq<Seq<char>>,
    pub watch_weight: u8,
    pub last_activity_at: Timestamp,
    pub reply_state: ReplyStateModel,
}

impl DeepView for TimelineItem {
    type V = TimelineItemModel;

    open spec fn deep_view(&self) -> TimelineItemModel {
        TimelineItemModel {
            workspace_id: self.workspace_id@,
            channel_id: self.channel_id@,
            channel_name: self.channel_name@,
            message_ts: self.message_ts@,
            thread_ts: self.thread_ts@,
            author_id: self.author_id@,
            author_name: self.author_name@,
            author_avatar_path: self.author_avatar_path.deep_view(),
            body: self.body@,
            rich_text_blocks: self.rich_text_blocks.deep_view(),
            reactions: self.reactions.deep_view(),
            attachments: self.attachments.deep_view(),
            unread: self.unread,
            participant: self.participant,
            direct_mention: self.direct_mention,
            focus_keyword_hits: self.focus_keyword_hits.deep_view(),
            watch_weight: self.watch_weight,
            last_activity_at: self.last_activity_at,
            reply_state: self.reply_state.deep_view(),
        }
    }
}

impl Clone for TimelineItem {
    fn clone(&self) -> (copy: Self)
        ensures
            copy.deep_view() == self.deep_view(),
    {
        let copy = TimelineItem {
            workspace_id: self.workspace_id.clone(),
            channel_id: self.channel_id.clone(),
            channel_name: self.channel_name.clone(),
            message_ts: self.message_ts.clone(),
            thread_ts: self.thread_ts.clone(),
            author_id: self.author_id.clone(),
            author_name: self.author_name.clone(),
            author_avatar_path: self.author_avatar_path.clone(),
            body: self.body.clone(),
            rich_text_blocks: self.rich_text_blocks.clone(),
            reactions: self.reactions.clone(),
            attachments: self.attachments.clone(),
            unread: self.unread,
            participant: self.participant,
            direct_mention: self.direct_mention,
            focus_keyword_hits: self.focus_keyword_hits.clone(),
            watch_weight: self.watch_weight,
            last_activity_at: self.last_activity_at,
            reply_state: self.reply_state.clone(),
        };
        assert(copy.author_avatar_path.deep_view() =~= self.author_avatar_path.deep_view());
        assert(copy.rich_text_blocks.deep_view() =~= self.rich_text_blocks.deep_view());
        assert(copy.reactions.deep_view() =~= self.reactions.deep_view());
        assert(copy.attachments.deep_view() =~= self.attachments.deep_view());
        assert(copy.focus_keyword_hits.deep_view() =~= self.focus_keyword_hits.deep_view());
        copy
    }
}

impl TimelineItem {
    /// The whole minutes since the item's last activity.
    pub fn age_minutes(&self, now: Timestamp) -> (age: i64)
        ensures
            age == minutes_between(self.last_activity_at, now),
            0 <= age,
    {
        now.minutes_since(self.last_activity_at)
    }
}

/// An item with its score and the reasons for it.
#[derive(Debug, PartialEq, Eq)]
pub struct RankedTimelineItem {
    pub item: TimelineItem,
    pub score: Binary64,
    pub reasons: Vec<RankingReason>,
}

/// What a [`RankedTimelineItem`] says: its texts as sequences of characters.
#[verifier::ext_equal]
pub struct RankedTimelineItemModel {
    pub item: TimelineItemModel,
    pub score: Binary64,
    pub reasons: Seq<RankingReasonModel>,
}

impl DeepView for RankedTimelineItem {
    type V = RankedTimelineItemModel;

    open spec fn deep_view(&self) -> RankedTimelineItemModel {
        RankedTimelineItemModel {
            item: self.item.deep_view(),
            score: self.score,
            reasons: self.reasons.deep_view(),
        }
    }
}

impl Clone for RankedTimelineItem {
    fn clone(&self) -> (copy: Self)
        ensures
            copy.deep_view() == self.deep_view(),
    {
        let copy = RankedTimelineItem {
            item: self.item.clone(),
            score: self.score,
            reasons: self.reasons.clone(),
        };
        assert(copy.reasons.deep_view() =~= self.reasons.deep_view());
        copy
    }
}

/// Which items the timeline shows.
#[derive(Clone, Copy, Debug, PartialEq, Eq, Structural)]
pub enum TimelineMode {
    Focus,
    Recent,
}

impl DeepView for TimelineMode {
    type V = TimelineMode;

    open spec fn deep_view(&self) -> TimelineMode {
        *self
    }
}

} // verus!
