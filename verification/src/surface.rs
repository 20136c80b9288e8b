//! What the controls of the window show, and what picking in them changes.
use vstd::prelude::*;
use vstd::string::*;

use crate::api::labelled;
use crate::auth::SlackAuthStatus;
use crate::models::{AttachmentKind, AttachmentSummary, RankedTimelineItem};
use crate::segments::SlackTableAlignment;
use crate::state::{MainView, UiState, UiStateModel};
use crate::text::{decimal, owned, same_option, same_text, to_decimal};
use crate::time::Timestamp;
use crate::updates::{non_empty, unless_empty};

verus! {

/// How a column is aligned: to the left unless the table says otherwise.
pub fn column_alignment(alignments: &Vec<SlackTableAlignment>, column: usize) -> (r:
    SlackTableAlignment)
    ensures
        r == (if column < alignments.len() {
            alignments[column as int]
        } else {
            SlackTableAlignment::Left
        }),
{
    if column < alignments.len() {
        alignments[column]
    } else {
        SlackTableAlignment::Left
    }
}

/// What stands above the main view.
pub fn main_view_title(view: MainView) -> (r: &'static str)
    ensures
        r@ == (match view {
            MainView::Office => "Office"@,
            MainView::Timeline => "Recent"@,
        }),
{
    match view {
        MainView::Office => "Office",
        MainView::Timeline => "Recent",
    }
}

impl UiStateModel {
    /// What is said of the office view.
    pub open spec fn office_words(self, now: Timestamp) -> Seq<char> {
        let source = match self.office_profile() {
            Some(profile) => profile.label,
            None => "No office channel profile selected."@,
        };
        let desks = self.desks(now);
        "Office source: "@ + source + (if desks.len() == 0 {
            ". Pick a channel profile in Settings and make sure it matches readable channels."@
        } else {
            ". "@ + decimal(desks.len()) + " desks are currently active."@
        })
    }
}

impl UiState {
    /// The items that the filters let through.
    pub fn visible_items(&self) -> (r: &Vec<RankedTimelineItem>)
        ensures
            r.deep_view() == self.deep_view().filtered_ranked_items,
    {
        &self.filtered_ranked_items
    }

    /// What is said of the office view.
    pub fn office_summary(&self, now: Timestamp) -> (r: String)
        ensures
            r@ == self.deep_view().office_words(now),
    {
        let mut out = owned("Office source: ");
        match self.office_channel_profile() {
            Some(profile) => {
                out.append(profile.label.as_str());
            },
            None => {
                out.append("No office channel profile selected.");
            },
        }
        let presence = self.office_presence_items(now);
        assert(presence.deep_view().len() == presence.len());
        if presence.len() == 0 {
            out.append(
                ". Pick a channel profile in Settings and make sure it matches readable channels.",
            );
        } else {
            out.append(". ");
            out.append(to_decimal(presence.len() as u64).as_str());
            out.append(" desks are currently active.");
        }
        assert(out@ =~= self.deep_view().office_words(now));
        out
    }

    /// The user typed in the search; true if that is another query.
    pub fn search_changed(&mut self, query: String) -> (changed: bool)
        ensures
            changed == (old(self).deep_view().search_query != query@),
            final(self).deep_view() == (if changed {
                (UiStateModel { search_query: query@, ..old(self).deep_view() }).filtered(true)
            } else {
                old(self).deep_view()
            }),
            old(self).deep_view().wf() ==> final(self).deep_view().wf(),
    {
        if same_text(self.search_query.as_str(), query.as_str()) {
            return false;
        }
        self.set_search_query(query);
        true
    }

    /// The user picked a section, or none; true if that is another one.
    pub fn section_picked(&mut self, picked: Option<String>) -> (changed: bool)
        ensures
            changed == (old(self).deep_view().section_filter != non_empty(picked.deep_view())),
            final(self).deep_view() == (if changed {
                (UiStateModel {
                    section_filter: old(self).deep_view().chosen_section(
                        non_empty(picked.deep_view()),
                    ),
                    ..old(self).deep_view()
                }).filtered(true)
            } else {
                old(self).deep_view()
            }),
            old(self).deep_view().wf() ==> final(self).deep_view().wf(),
    {
        let wanted = unless_empty(picked);
        if same_option(&self.section_filter, &wanted) {
            return false;
        }
        self.set_section_filter(wanted);
        true
    }

    /// The user picked a channel, or none; true if that is another one.
    pub fn channel_picked(&mut self, picked: Option<String>) -> (changed: bool)
        ensures
            changed == (old(self).deep_view().channel_filter != non_empty(picked.deep_view())),
            final(self).deep_view() == (if changed {
                (UiStateModel {
                    channel_filter: non_empty(picked.deep_view()),
                    ..old(self).deep_view()
                }).filtered(true)
            } else {
                old(self).deep_view()
            }),
            old(self).deep_view().wf() ==> final(self).deep_view().wf(),
    {
        let wanted = unless_empty(picked);
        if same_option(&self.channel_filter, &wanted) {
            return false;
        }
        self.set_channel_filter(wanted);
        true
    }

    /// The user picked an author, or none; true if that is another one.
    pub fn author_picked(&mut self, picked: Option<String>) -> (changed: bool)
        ensures
            changed == (old(self).deep_view().author_filter != non_empty(picked.deep_view())),
            final(self).deep_view() == (if changed {
                (UiStateModel {
                    author_filter: non_empty(picked.deep_view()),
                    ..old(self).deep_view()
                }).filtered(true)
            } else {
                old(self).deep_view()
            }),
            old(self).deep_view().wf() ==> final(self).deep_view().wf(),
    {
        let wanted = unless_empty(picked);
        if same_option(&self.author_filter, &wanted) {
            return false;
        }
        self.set_author_filter(wanted);
        true
    }
}

/// Whether the composer takes text: Slack is connected and there is a channel to post to.
pub fn can_compose(status: &SlackAuthStatus, channels: &Vec<(String, String)>) -> (r: bool)
    ensures
        r == (status.deep_view().connected() && channels.len() > 0),
{
    status.is_connected() && channels.len() > 0
}

/// Whether the composer sends: Slack is connected and a channel is picked.
pub fn can_send(status: &SlackAuthStatus, picked: &Option<String>) -> (r: bool)
    ensures
        r == (status.deep_view().connected() && non_empty(picked.deep_view()) is Some),
{
    status.is_connected() && match picked {
        Some(id) => !id.as_str().is_empty(),
        None => false,
    }
}

/// Which entry of a picker is shown: the one that is selected, or the first, which stands for all.
pub fn picked_entry(ids: &Vec<String>, selected: &Option<String>) -> (r: Option<usize>)
    ensures
        match r {
            Some(at) => at < ids.len() && selected.deep_view() == Some(ids.deep_view()[at as int])
                && forall|k: int|
                0 <= k < at ==> selected.deep_view() != Some(#[trigger] ids.deep_view()[k]),
            None => forall|k: int|
                0 <= k < ids.len() ==> selected.deep_view() != Some(#[trigger] ids.deep_view()[k]),
        },
{
    let wanted = match selected {
        Some(id) => id,
        None => {
            return None;
        },
    };
    let mut i: usize = 0;
    while i < ids.len()
        invariant
            i <= ids.len(),
            selected.deep_view() == Some(wanted@),
            forall|k: int| 0 <= k < i ==> wanted@ != #[trigger] ids.deep_view()[k],
        decreases ids.len() - i,
    {
        assert(ids.deep_view()[i as int] == ids[i as int]@);
        if same_text(ids[i].as_str(), wanted.as_str()) {
            return Some(i);
        }
        i += 1;
    }
    None
}

/// Whether the cached picture of an attachment is fetched again: it is one that does not show.
pub fn attachment_image_needs_refresh(attachment: &AttachmentSummary, renderable: bool) -> (r: bool)
    ensures
        r == (attachment.kind == AttachmentKind::Image && attachment.deep_view().url is Some
            && !renderable),
{
    attachment.kind == AttachmentKind::Image && attachment.url.is_some() && !renderable
}

/// What is said of a desk of the office view.
pub fn desk_label(speaker_name: &str, channel_name: &str) -> (r: String)
    ensures
        r@ == speaker_name@ + " in "@ + channel_name@,
{
    let place = labelled(" in ", channel_name);
    let r = labelled(speaker_name, place.as_str());
    assert(r@ =~= speaker_name@ + " in "@ + channel_name@);
    r
}

} // verus!
