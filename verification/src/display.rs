//! What the window shows of items: times, initials, entries of the timeline, sizes of pictures.
use vstd::prelude::*;
use vstd::string::*;

use crate::api::labelled;
use crate::auth::{SlackAuthStatus, SlackAuthStatusModel};
use crate::collections::TextSet;
use crate::emoji::{render_slack_text, with_emoji};
use crate::models::{RankedTimelineItem, RankedTimelineItemModel, TimelineItem, TimelineItemModel};
use crate::settings::{ShortcutBindings, ShortcutBindingsModel};
use crate::state::{Names, UiState, UiStateModel};
use crate::text::{
    decimal, is_space, join, join_texts, owned, same_text, slice_text, space, to_chars, to_decimal,
    trim, trimmed, uppercase,
};
use crate::time::{elapsed, Timestamp};

verus! {

/// How many characters of a linked message are shown.
pub const SHARED_PREVIEW_BODY_LIMIT: usize = 180;

/// The emoji that are offered first for a reaction.
pub const QUICK_REACTION_NAMES: [&'static str; 8] = [
    "+1",
    "heart",
    "tada",
    "rocket",
    "eyes",
    "white_check_mark",
    "thinking_face",
    "fire",
];

/// How long ago a point was, in short; nothing if it was a week or more ago.
pub open spec fn age_text(timestamp: Timestamp, now: Timestamp) -> Option<Seq<char>> {
    let passed = elapsed(timestamp, now);
    let seconds = if passed < 0 {
        0
    } else {
        passed / 1_000_000_000
    };
    if seconds < 45 {
        Some("now"@)
    } else if seconds < 3_600 {
        Some(decimal((seconds / 60) as nat) + "m"@)
    } else if seconds < 86_400 {
        Some(decimal((seconds / 3_600) as nat) + "h"@)
    } else if seconds < 604_800 {
        Some(decimal((seconds / 86_400) as nat) + "d"@)
    } else {
        None
    }
}

/// How long ago a point was, in short; nothing if it was a week or more ago and its date is to be
/// shown.
pub fn relative_timestamp_text(timestamp: Timestamp, now: Timestamp) -> (r: Option<String>)
    ensures
        r.deep_view() == age_text(timestamp, now),
{
    let passed: i128 = now.nanos_since(timestamp);
    let seconds: i128 = if passed < 0 {
        0
    } else {
        passed / 1_000_000_000
    };
    assert(passed >= 0 ==> seconds == passed as int / 1_000_000_000);
    if seconds < 45 {
        return Some(owned("now"));
    }
    if seconds >= 604_800 {
        return None;
    }
    let whole: u64 = seconds as u64;
    if whole < 3_600 {
        let mut out = to_decimal(whole / 60);
        out.append("m");
        Some(out)
    } else if whole < 86_400 {
        let mut out = to_decimal(whole / 3_600);
        out.append("h");
        Some(out)
    } else {
        let mut out = to_decimal(whole / 86_400);
        out.append("d");
        Some(out)
    }
}

/// Whether a character separates the parts of a name.
pub open spec fn parts_names(c: char) -> bool {
    is_space(c) || c == '-' || c == '_'
}

/// The first characters of the parts of a name. `fresh` says whether a part starts here.
pub open spec fn part_starts(name: Seq<char>, fresh: bool) -> Seq<char>
    decreases name.len(),
{
    if name.len() == 0 {
        Seq::empty()
    } else if parts_names(name.first()) {
        part_starts(name.skip(1), true)
    } else if fresh {
        seq![name.first()] + part_starts(name.skip(1), false)
    } else {
        part_starts(name.skip(1), false)
    }
}

/// At most the first two characters.
pub open spec fn first_two(text: Seq<char>) -> Seq<char> {
    if text.len() > 2 {
        text.take(2)
    } else {
        text
    }
}

/// The initials of a name: those of its first two parts, else its first two characters.
pub open spec fn initials(name: Seq<char>) -> Seq<char> {
    let of_parts = uppercase(first_two(part_starts(name, true)));
    let of_name = uppercase(first_two(name));
    if of_parts.len() > 0 {
        of_parts
    } else if of_name.len() > 0 {
        of_name
    } else {
        "?"@
    }
}

/// The first characters of the parts of a name.
fn collect_part_starts(name: &str) -> (r: String)
    ensures
        r@ == part_starts(name@, true),
{
    let chars = to_chars(name);
    let mut out = String::new();
    let mut fresh = true;
    let mut i: usize = 0;
    assert(name@.skip(0) =~= name@);
    assert(out@ + part_starts(name@, true) =~= part_starts(name@, true));
    while i < chars.len()
        invariant
            i <= chars.len(),
            chars@ == name@,
            part_starts(name@, true) == out@ + part_starts(name@.skip(i as int), fresh),
        decreases chars.len() - i,
    {
        let c = chars[i];
        let ghost rest = name@.skip(i as int);
        assert(rest.first() == c);
        assert(rest.skip(1) =~= name@.skip(i + 1));
        if space(c) || c == '-' || c == '_' {
            fresh = true;
        } else {
            if fresh {
                let ghost before = out@;
                out.push(c);
                assert(out@ + part_starts(rest.skip(1), false) =~= before + (seq![c] + part_starts(
                    rest.skip(1),
                    false,
                )));
            }
            fresh = false;
        }
        i += 1;
    }
    assert(name@.skip(i as int) =~= Seq::empty());
    assert(out@ =~= part_starts(name@, true));
    out
}

/// At most the first two characters.
fn keep_two(text: &str) -> (r: String)
    ensures
        r@ == first_two(text@),
{
    let chars = to_chars(text);
    if chars.len() > 2 {
        let out = slice_text(&chars, 0, 2);
        assert(out@ =~= text@.take(2));
        out
    } else {
        owned(text)
    }
}

/// The initials of a name.
pub fn avatar_initials(display_name: &str) -> (r: String)
    ensures
        r@ == initials(display_name@),
{
    let starts = collect_part_starts(display_name);
    let of_parts = keep_two(starts.as_str()).as_str().to_uppercase();
    if !of_parts.as_str().is_empty() {
        return of_parts;
    }
    let of_name = keep_two(display_name).as_str().to_uppercase();
    if of_name.as_str().is_empty() {
        owned("?")
    } else {
        of_name
    }
}

/// What is shown of a linked message: the start of its body, else how many files it has.
pub open spec fn link_preview(item: TimelineItemModel) -> Seq<char> {
    let body = trim(with_emoji(item.body));
    if body.len() > SHARED_PREVIEW_BODY_LIMIT {
        body.take(SHARED_PREVIEW_BODY_LIMIT as int).push('…')
    } else if body.len() > 0 {
        body
    } else if item.attachments.len() == 0 {
        "Shared Slack message"@
    } else if item.attachments.len() == 1 {
        "1 attachment"@
    } else {
        decimal(item.attachments.len()) + " attachments"@
    }
}

/// What is shown of a linked message.
pub fn shared_message_preview_text(item: &TimelineItem) -> (r: String)
    ensures
        r@ == link_preview(item.deep_view()),
{
    let body = trimmed(render_slack_text(item.body.as_str()).as_str());
    let chars = to_chars(body.as_str());
    if chars.len() > SHARED_PREVIEW_BODY_LIMIT {
        let mut out = slice_text(&chars, 0, SHARED_PREVIEW_BODY_LIMIT);
        out.push('…');
        assert(out@ =~= body@.take(SHARED_PREVIEW_BODY_LIMIT as int).push('…'));
        return out;
    }
    if chars.len() > 0 {
        return body;
    }
    if item.attachments.len() == 0 {
        owned("Shared Slack message")
    } else if item.attachments.len() == 1 {
        owned("1 attachment")
    } else {
        let mut out = to_decimal(item.attachments.len() as u64);
        out.append(" attachments");
        out
    }
}

/// The height of a picture that is shown with a width: as its sides are related, within bounds.
pub open spec fn shown_height(width: int, raw_width: int, raw_height: int, max_height: int) -> int {
    let w = if raw_width < 1 {
        1
    } else {
        raw_width
    };
    let h = if raw_height < 1 {
        1
    } else {
        raw_height
    };
    let highest = if max_height < 1 {
        1
    } else {
        max_height
    };
    let lowest = if highest < 96 {
        highest
    } else {
        96
    };
    let scaled = width * h / w;
    if scaled < lowest {
        lowest
    } else if scaled > highest {
        highest
    } else {
        scaled
    }
}

/// The height of a picture that is shown with a width.
pub fn picture_height(width: i32, raw_width: i32, raw_height: i32, max_height: i32) -> (r: i32)
    ensures
        r == shown_height(
            width as int,
            raw_width as int,
            raw_height as int,
            max_height as int,
        ),
{
    let w: i64 = if raw_width < 1 {
        1
    } else {
        raw_width as i64
    };
    let h: i64 = if raw_height < 1 {
        1
    } else {
        raw_height as i64
    };
    let highest: i64 = if max_height < 1 {
        1
    } else {
        max_height as i64
    };
    let lowest: i64 = if highest < 96 {
        highest
    } else {
        96
    };
    if width <= 0 {
        assert(width as int * h as int / w as int <= 0) by (nonlinear_arith)
            requires
                width <= 0,
                h >= 1,
                w >= 1,
        ;
        return lowest as i32;
    }
    assert(0 <= width as int * h as int <= 0x7fff_ffff * 0x7fff_ffff) by (nonlinear_arith)
        requires
            0 <= width <= 0x7fff_ffff,
            0 <= h <= 0x7fff_ffff,
    ;
    let scaled: i64 = (width as i64) * h / w;
    if scaled < lowest {
        lowest as i32
    } else if scaled > highest {
        highest as i32
    } else {
        scaled as i32
    }
}

/// A line for each action of the window, with its keys.
pub open spec fn shortcut_lines(shortcuts: ShortcutBindingsModel) -> Seq<Seq<char>> {
    seq![
        "Open settings: "@ + join(shortcuts.open_settings, ", "@),
        "Open admin: "@ + join(shortcuts.open_admin, ", "@),
        "Focus search: "@ + join(shortcuts.focus_search, ", "@),
        "Focus composer: "@ + join(shortcuts.focus_composer, ", "@),
        "Close right column: "@ + join(shortcuts.close_column, ", "@),
    ]
}

/// A line for each action of the window, with its keys.
pub fn shortcut_summary_lines(shortcuts: &ShortcutBindings) -> (r: Vec<String>)
    ensures
        r.deep_view() == shortcut_lines(shortcuts.deep_view()),
{
    let lines = vec![
        labelled("Open settings: ", join_texts(&shortcuts.open_settings, ", ").as_str()),
        labelled("Open admin: ", join_texts(&shortcuts.open_admin, ", ").as_str()),
        labelled("Focus search: ", join_texts(&shortcuts.focus_search, ", ").as_str()),
        labelled("Focus composer: ", join_texts(&shortcuts.focus_composer, ", ").as_str()),
        labelled("Close right column: ", join_texts(&shortcuts.close_column, ", ").as_str()),
    ];
    assert(lines.deep_view() =~= shortcut_lines(shortcuts.deep_view()));
    lines
}

/// What a key does in the window.
#[derive(Clone, Copy, Debug, PartialEq, Eq, Structural)]
pub enum WindowAction {
    OpenSettings,
    OpenAdmin,
    FocusSearch,
    FocusComposer,
    CloseColumn,
    Pass,
}

/// What a key does, given which of the bindings it matches and how many columns are open. The
/// first binding that matches counts.
pub fn handle_window_shortcuts(
    opens_settings: bool,
    opens_admin: bool,
    focuses_search: bool,
    focuses_composer: bool,
    closes_column: bool,
    columns: usize,
) -> (r: WindowAction)
    ensures
        r == (if opens_settings {
            WindowAction::OpenSettings
        } else if opens_admin {
            WindowAction::OpenAdmin
        } else if focuses_search {
            WindowAction::FocusSearch
        } else if focuses_composer {
            WindowAction::FocusComposer
        } else if closes_column && columns > 0 {
            WindowAction::CloseColumn
        } else {
            WindowAction::Pass
        }),
{
    if opens_settings {
        WindowAction::OpenSettings
    } else if opens_admin {
        WindowAction::OpenAdmin
    } else if focuses_search {
        WindowAction::FocusSearch
    } else if focuses_composer {
        WindowAction::FocusComposer
    } else if closes_column && columns > 0 {
        WindowAction::CloseColumn
    } else {
        WindowAction::Pass
    }
}

/// What is shown in place of a timeline without messages: a title and a sentence.
pub open spec fn placeholder(cached: bool, status: SlackAuthStatusModel) -> (Seq<char>, Seq<char>) {
    if cached {
        (
            "No messages match the current view"@,
            "Try clearing the search or filter, or wait for new Slack activity."@,
        )
    } else {
        status.placeholder()
    }
}

/// What is shown in place of a timeline without messages.
pub fn empty_state_content(has_cached_items: bool, auth_state: &SlackAuthStatus) -> (r: (
    String,
    String,
))
    ensures
        r.deep_view() == placeholder(has_cached_items, auth_state.deep_view()),
{
    if has_cached_items {
        (
            owned("No messages match the current view"),
            owned("Try clearing the search or filter, or wait for new Slack activity."),
        )
    } else {
        let (title, body) = auth_state.empty_state();
        (owned(title), body)
    }
}

/// An entry of the timeline.
#[derive(Debug)]
pub enum TimelineListEntry {
    Empty { title: String, body: String },
    Item { ranked: RankedTimelineItem, is_active: bool, animate_insert: bool },
}

/// What a [`TimelineListEntry`] says: its texts as sequences of characters.
#[verifier::ext_equal]
pub enum TimelineListEntryModel {
    Empty { title: Seq<char>, body: Seq<char> },
    Item { ranked: RankedTimelineItemModel, is_active: bool, animate_insert: bool },
}

impl DeepView for TimelineListEntry {
    type V = TimelineListEntryModel;

    open spec fn deep_view(&self) -> TimelineListEntryModel {
        match self {
            TimelineListEntry::Empty { title, body } => TimelineListEntryModel::Empty {
                title: title@,
                body: body@,
            },
            TimelineListEntry::Item { ranked, is_active, animate_insert } =>
                TimelineListEntryModel::Item {
                ranked: ranked.deep_view(),
                is_active: *is_active,
                animate_insert: *animate_insert,
            },
        }
    }
}

impl UiStateModel {
    /// The entry for an item of the timeline.
    pub open spec fn entry(self, ranked: RankedTimelineItemModel, fresh: Seq<Seq<char>>) ->
        TimelineListEntryModel {
        TimelineListEntryModel::Item {
            ranked,
            is_active: self.highlighted_timeline_message_ts == Some(ranked.item.message_ts),
            animate_insert: fresh.contains(ranked.item.message_ts),
        }
    }

    /// The entries of the timeline; `fresh` are the messages that just came.
    pub open spec fn entries(self, status: SlackAuthStatusModel, fresh: Seq<Seq<char>>) -> Seq<
        TimelineListEntryModel,
    > {
        if self.filtered_ranked_items.len() == 0 {
            let content = placeholder(self.source_items.len() > 0, status);
            seq![TimelineListEntryModel::Empty { title: content.0, body: content.1 }]
        } else {
            self.loaded().map_values(
                |ranked: RankedTimelineItemModel| self.entry(ranked, fresh),
            )
        }
    }
}

/// The entries of the timeline; `fresh` are the messages that just came.
pub fn sync_timeline_store(state: &UiState, auth_state: &SlackAuthStatus, fresh: &TextSet) -> (r:
    Vec<TimelineListEntry>)
    ensures
        r.deep_view() == state.deep_view().entries(auth_state.deep_view(), fresh.deep_view()),
{
    let mut out: Vec<TimelineListEntry> = Vec::new();
    if state.filtered_ranked_items.len() == 0 {
        let (title, body) = empty_state_content(state.has_cached_items(), auth_state);
        out.push(TimelineListEntry::Empty { title, body });
        assert(out.deep_view() =~= state.deep_view().entries(
            auth_state.deep_view(),
            fresh.deep_view(),
        ));
        return out;
    }
    let loaded = state.loaded_visible_items();
    let ghost said = state.deep_view();
    let mut i: usize = 0;
    while i < loaded.len()
        invariant
            i <= loaded.len(),
            out.len() == i,
            said == state.deep_view(),
            forall|k: int|
                0 <= k < i ==> (#[trigger] out.deep_view()[k]) == said.entry(
                    loaded.deep_view()[k],
                    fresh.deep_view(),
                ),
        decreases loaded.len() - i,
    {
        let ghost before = out.deep_view();
        assert(loaded.deep_view()[i as int] == loaded@[i as int].deep_view());
        let ranked = loaded[i].clone();
        let is_active = match &state.highlighted_timeline_message_ts {
            Some(selected) => same_text(selected.as_str(), ranked.item.message_ts.as_str()),
            None => false,
        };
        let animate_insert = fresh.contains(ranked.item.message_ts.as_str());
        let entry = TimelineListEntry::Item { ranked, is_active, animate_insert };
        out.push(entry);
        assert(out.deep_view() =~= before.push(entry.deep_view()));
        i += 1;
    }
    assert(out.deep_view() =~= said.entries(auth_state.deep_view(), fresh.deep_view()));
    out
}

/// Who is signed in, if anyone: the user or their bot.
pub open spec fn is_principal(status: SlackAuthStatusModel, id: Seq<char>) -> bool {
    match status {
        SlackAuthStatusModel::Connected(session) => session.user_id == Some(id)
            || session.bot_user_id == Some(id),
        _ => false,
    }
}

/// Whether an item was written by who is signed in, so that it can be edited and deleted.
pub fn item_owned_by_connected_user(item: &TimelineItem, auth_state: &SlackAuthStatus) -> (r: bool)
    ensures
        r == is_principal(auth_state.deep_view(), item.author_id@),
{
    match auth_state {
        SlackAuthStatus::Connected(session) => {
            if let Some(user) = &session.user_id {
                if same_text(user.as_str(), item.author_id.as_str()) {
                    return true;
                }
            }
            match &session.bot_user_id {
                Some(bot) => same_text(bot.as_str(), item.author_id.as_str()),
                None => false,
            }
        },
        _ => false,
    }
}

/// The channel that the composer posts to: the one that is picked, else the first.
pub open spec fn composer_channel(picked: Option<Seq<char>>, channels: Names) -> Option<Seq<char>> {
    match picked {
        Some(id) if id.len() > 0 => Some(id),
        _ => if channels.len() > 0 {
            Some(channels[0].0)
        } else {
            None
        },
    }
}

/// The channel that the composer posts to.
pub fn selected_post_channel(picked: Option<&str>, channels: &Vec<(String, String)>) -> (r: Option<
    String,
>)
    ensures
        r.deep_view() == composer_channel(picked.deep_view(), channels.deep_view()),
{
    if let Some(id) = picked {
        if !id.is_empty() {
            return Some(owned(id));
        }
    }
    if channels.len() > 0 {
        assert(channels.deep_view()[0] == channels@[0].deep_view());
        Some(channels[0].0.clone())
    } else {
        None
    }
}

/// How lively a desk of the office is.
pub fn office_signal(activity_count: usize) -> (r: &'static str)
    ensures
        r@ == (if activity_count >= 8 {
            "!!"@
        } else if activity_count >= 4 {
            "!"@
        } else {
            "·"@
        }),
{
    if activity_count >= 8 {
        "!!"
    } else if activity_count >= 4 {
        "!"
    } else {
        "·"
    }
}

} // verus!
