//! What is shown of messages, in the timeline and in the columns of threads.
use vstd::prelude::*;
use vstd::string::*;

use crate::auth::{SlackAuthStatus, SlackAuthStatusModel};
use crate::collections::first_match;
use crate::display::{
    age_text, avatar_initials, initials, is_principal, item_owned_by_connected_user,
    relative_timestamp_text,
};
use crate::emoji::{render_slack_text, with_emoji};
use crate::items::{is_message, is_reply_in};
use crate::models::{
    AttachmentSummary, AttachmentSummaryModel, ReactionSummary, ReactionSummaryModel, TimelineItem,
    TimelineItemModel,
};
use crate::permalinks::{linked_items, shown_links};
use crate::rich_text::{body_blocks, message_blocks, SlackRenderLookup, SlackRenderLookupModel};
use crate::segments::{SlackRenderBlock, SlackRenderBlockModel};
use crate::stamps::{slack_ts_to_datetime, stamped_point};
use crate::state::{UiState, UiStateModel};
use crate::text::{blank, decimal, is_blank, owned, same_text, to_decimal};
use crate::time::Timestamp;

verus! {

/// A reaction as it is shown under a message.
#[derive(Debug, PartialEq, Eq)]
pub struct ReactionChip {
    pub label: String,
    pub name: String,
    /// Whether the user gave it.
    pub active: bool,
    pub tooltip: String,
}

/// What a [`ReactionChip`] says: its texts as sequences of characters.
#[verifier::ext_equal]
pub struct ReactionChipModel {
    pub label: Seq<char>,
    pub name: Seq<char>,
    pub active: bool,
    pub tooltip: Seq<char>,
}

impl DeepView for ReactionChip {
    type V = ReactionChipModel;

    open spec fn deep_view(&self) -> ReactionChipModel {
        ReactionChipModel {
            label: self.label@,
            name: self.name@,
            active: self.active,
            tooltip: self.tooltip@,
        }
    }
}


/// What is shown of a message.
#[derive(Debug, PartialEq, Eq)]
pub struct MessageCard {
    pub title: String,
    pub author_name: String,
    pub channel_name: String,
    pub avatar_path: Option<String>,
    /// What stands in place of a picture.
    pub initials: String,
    pub shown_at: Timestamp,
    /// How long ago that was, unless it is a week or more.
    pub age: Option<String>,
    pub reply_count: usize,
    pub copy_text: String,
    pub can_copy: bool,
    /// Whether the user may edit and delete it.
    pub can_manage: bool,
    pub blocks: Vec<SlackRenderBlock>,
    /// The messages that it links to.
    pub previews: Vec<TimelineItem>,
    pub attachments: Vec<AttachmentSummary>,
    pub reactions: Vec<ReactionChip>,
}

/// What a [`MessageCard`] says: its texts as sequences of characters.
#[verifier::ext_equal]
pub struct MessageCardModel {
    pub title: Seq<char>,
    pub author_name: Seq<char>,
    pub channel_name: Seq<char>,
    pub avatar_path: Option<Seq<char>>,
    pub initials: Seq<char>,
    pub shown_at: Timestamp,
    pub age: Option<Seq<char>>,
    pub reply_count: usize,
    pub copy_text: Seq<char>,
    pub can_copy: bool,
    pub can_manage: bool,
    pub blocks: Seq<SlackRenderBlockModel>,
    pub previews: Seq<TimelineItemModel>,
    pub attachments: Seq<AttachmentSummaryModel>,
    pub reactions: Seq<ReactionChipModel>,
}

impl DeepView for MessageCard {
    type V = MessageCardModel;

    open spec fn deep_view(&self) -> MessageCardModel {
        MessageCardModel {
            title: self.title@,
            author_name: self.author_name@,
            channel_name: self.channel_name@,
            avatar_path: self.avatar_path.deep_view(),
            initials: self.initials@,
            shown_at: self.shown_at,
            age: self.age.deep_view(),
            reply_count: self.reply_count,
            copy_text: self.copy_text@,
            can_copy: self.can_copy,
            can_manage: self.can_manage,
            blocks: self.blocks.deep_view(),
            previews: self.previews.deep_view(),
            attachments: self.attachments.deep_view(),
            reactions: self.reactions.deep_view(),
        }
    }
}


/// A message as it is shown in the column of its thread.
#[derive(Debug, PartialEq, Eq)]
pub struct ThreadCard {
    pub card: MessageCard,
    pub is_root: bool,
    pub is_focused: bool,
}

/// What a [`ThreadCard`] says: its texts as sequences of characters.
#[verifier::ext_equal]
pub struct ThreadCardModel {
    pub card: MessageCardModel,
    pub is_root: bool,
    pub is_focused: bool,
}

impl DeepView for ThreadCard {
    type V = ThreadCardModel;

    open spec fn deep_view(&self) -> ThreadCardModel {
        ThreadCardModel {
            card: self.card.deep_view(),
            is_root: self.is_root,
            is_focused: self.is_focused,
        }
    }
}


/// A reaction as it is shown.
pub open spec fn chip_of(reaction: ReactionSummaryModel) -> ReactionChipModel {
    ReactionChipModel {
        label: reaction.emoji + " "@ + decimal(reaction.count as nat),
        name: reaction.name,
        active: reaction.me,
        tooltip: if reaction.me {
            "You already reacted"@
        } else {
            "Add this reaction"@
        },
    }
}

/// The reactions as they are shown.
pub open spec fn chips_of(reactions: Seq<ReactionSummaryModel>) -> Seq<ReactionChipModel> {
    reactions.map_values(|reaction: ReactionSummaryModel| chip_of(reaction))
}

fn reaction_chips(reactions: &Vec<ReactionSummary>) -> (r: Vec<ReactionChip>)
    ensures
        r.deep_view() == chips_of(reactions.deep_view()),
{
    let ghost goal = chips_of(reactions.deep_view());
    let mut out: Vec<ReactionChip> = Vec::new();
    let mut i: usize = 0;
    assert(out.deep_view() =~= goal.take(0));
    while i < reactions.len()
        invariant
            i <= reactions.len(),
            goal == chips_of(reactions.deep_view()),
            out.deep_view() == goal.take(i as int),
        decreases reactions.len() - i,
    {
        let ghost before = out.deep_view();
        let reaction = &reactions[i];
        assert(goal[i as int] == chip_of(reaction.deep_view()));
        let mut label = reaction.emoji.clone();
        label.append(" ");
        label.append(to_decimal(reaction.count as u64).as_str());
        let chip = ReactionChip {
            label,
            name: reaction.name.clone(),
            active: reaction.me,
            tooltip: owned(
                if reaction.me {
                    "You already reacted"
                } else {
                    "Add this reaction"
                },
            ),
        };
        assert(chip.deep_view() =~= goal[i as int]);
        out.push(chip);
        assert(out.deep_view() =~= before.push(goal[i as int]));
        i += 1;
        assert(goal.take(i as int) =~= goal.take(i - 1).push(goal[i - 1]));
    }
    assert(goal.take(i as int) =~= goal);
    out
}

impl SlackRenderLookup {
    /// The names that the state knows.
    pub fn from_state(state: &UiState) -> (r: Self)
        ensures
            r.deep_view() == state.deep_view().names(),
    {
        SlackRenderLookup {
            user_names: state.user_names.clone(),
            channel_names: state.known_channels.clone(),
        }
    }
}

impl UiStateModel {
    /// The names that the state knows.
    pub open spec fn names(self) -> SlackRenderLookupModel {
        SlackRenderLookupModel {
            user_names: self.user_names,
            channel_names: self.known_channels,
        }
    }

    /// What is shown of a message.
    pub open spec fn card(
        self,
        item: TimelineItemModel,
        status: SlackAuthStatusModel,
        shown_at: Timestamp,
        now: Timestamp,
    ) -> MessageCardModel {
        MessageCardModel {
            title: item.author_name + " \u{2022} "@ + item.channel_name,
            author_name: item.author_name,
            channel_name: item.channel_name,
            avatar_path: item.author_avatar_path,
            initials: initials(item.author_name),
            shown_at,
            age: age_text(shown_at, now),
            reply_count: self.source_items.filter(is_reply_in(item.thread_ts)).len() as usize,
            copy_text: with_emoji(item.body),
            can_copy: !is_blank(item.body),
            can_manage: is_principal(status, item.author_id),
            blocks: body_blocks(item.body, item.rich_text_blocks, self.names()),
            previews: shown_links(self, item.body),
            attachments: item.attachments,
            reactions: chips_of(item.reactions),
        }
    }

    /// What is shown of a message in the column of its thread: its own time counts.
    pub open spec fn thread_card(
        self,
        item: TimelineItemModel,
        status: SlackAuthStatusModel,
        now: Timestamp,
    ) -> ThreadCardModel {
        ThreadCardModel {
            card: self.card(
                item,
                status,
                match stamped_point(item.message_ts) {
                    Some(point) => point,
                    None => item.last_activity_at,
                },
                now,
            ),
            is_root: item.message_ts == item.thread_ts,
            is_focused: self.focused_thread_message_ts == Some(item.message_ts),
        }
    }
}

/// What is shown of a message, with the time that counts for it.
pub fn message_card(
    state: &UiState,
    item: &TimelineItem,
    status: &SlackAuthStatus,
    shown_at: Timestamp,
    now: Timestamp,
) -> (r: MessageCard)
    ensures
        r.deep_view() == state.deep_view().card(
            item.deep_view(),
            status.deep_view(),
            shown_at,
            now,
        ),
{
    let mut title = item.author_name.clone();
    title.append(" \u{2022} ");
    title.append(item.channel_name.as_str());
    let names = SlackRenderLookup::from_state(state);
    assert(item.rich_text_blocks.deep_view() =~= item.rich_text_blocks@);
    let attachments = item.attachments.clone();
    assert(attachments.deep_view() =~= item.attachments.deep_view());
    MessageCard {
        title,
        author_name: item.author_name.clone(),
        channel_name: item.channel_name.clone(),
        avatar_path: item.author_avatar_path.clone(),
        initials: avatar_initials(item.author_name.as_str()),
        shown_at,
        age: relative_timestamp_text(shown_at, now),
        reply_count: state.thread_reply_count(item.thread_ts.as_str()),
        copy_text: render_slack_text(item.body.as_str()),
        can_copy: !blank(item.body.as_str()),
        can_manage: item_owned_by_connected_user(item, status),
        blocks: message_blocks(item.body.as_str(), &item.rich_text_blocks, &names),
        previews: linked_items(state, item.body.as_str()),
        attachments,
        reactions: reaction_chips(&item.reactions),
    }
}

/// What is shown in the column of a thread: its messages, in the order of their time stamps.
pub fn thread_cards(
    state: &UiState,
    thread_ts: &str,
    status: &SlackAuthStatus,
    now: Timestamp,
) -> (r: Vec<ThreadCard>)
    ensures
        r.deep_view() == state.deep_view().thread(thread_ts@).map_values(
            |item: TimelineItemModel|
                state.deep_view().thread_card(item, status.deep_view(), now),
        ),
{
    let items = state.thread_items(thread_ts);
    let ghost all = items.deep_view();
    let ghost goal = all.map_values(
        |item: TimelineItemModel| state.deep_view().thread_card(item, status.deep_view(), now),
    );
    let mut out: Vec<ThreadCard> = Vec::new();
    let mut i: usize = 0;
    assert(out.deep_view() =~= goal.take(0));
    while i < items.len()
        invariant
            i <= items.len(),
            all == items.deep_view(),
            goal == all.map_values(
                |item: TimelineItemModel|
                    state.deep_view().thread_card(item, status.deep_view(), now),
            ),
            out.deep_view() == goal.take(i as int),
        decreases items.len() - i,
    {
        let ghost before = out.deep_view();
        let item = &items[i];
        assert(all[i as int] == item.deep_view());
        let shown_at = match slack_ts_to_datetime(item.message_ts.as_str()) {
            Some(point) => point,
            None => item.last_activity_at,
        };
        let is_focused = match &state.focused_thread_message_ts {
            Some(ts) => same_text(ts.as_str(), item.message_ts.as_str()),
            None => false,
        };
        let card = ThreadCard {
            card: message_card(state, item, status, shown_at, now),
            is_root: same_text(item.message_ts.as_str(), item.thread_ts.as_str()),
            is_focused,
        };
        assert(card.deep_view() =~= goal[i as int]);
        out.push(card);
        assert(out.deep_view() =~= before.push(goal[i as int]));
        i += 1;
        assert(goal.take(i as int) =~= goal.take(i - 1).push(goal[i - 1]));
    }
    assert(goal.take(i as int) =~= goal);
    out
}

/// Whether a reply to a thread can be sent: its root is cached, its channel may be written to, and
/// Slack is connected.
pub fn can_reply(state: &UiState, thread_ts: &str, status: &SlackAuthStatus) -> (r: bool)
    ensures
        r == (status.deep_view().connected() && (first_match(
            state.deep_view().source_items,
            is_message(thread_ts@),
        ) matches Some(root) && state.deep_view().settings.permission(root.channel_id).writable())),
{
    match state.root_item(thread_ts) {
        Some(root) => status.is_connected() && state.settings.can_write_channel(
            root.channel_id.as_str(),
        ),
        None => false,
    }
}

} // verus!
