//! How much of the cache the profiles of the settings would hit.
use vstd::prelude::*;
use vstd::string::*;

use crate::api::labelled;
use crate::auth::enclosed;
use crate::choices::{mode_label, profile_mode_label};
use crate::collections::{with_text, TextSet};
use crate::matching::channel_listed_outcome;
use crate::models::{TimelineItem, TimelineItemModel};
use crate::patterns::{any_matches, any_outcome, PatternMatcherModel, RegexError};
use crate::queries::{channel_profile_matches_channel, section_profile_matches_channel};
use crate::settings::{
    AppSettings, AppSettingsModel, AuthorProfile, AuthorProfileModel, ChannelProfile,
    ChannelProfileModel, KeywordProfile, KeywordProfileModel, SearchProfile, SearchProfileModel,
    SectionProfile, SectionProfileModel,
};
use crate::state::{UiState, UiStateModel};
use crate::text::{decimal, owned, to_decimal};

verus! {

/// Beyond how many channels a preview stops counting.
pub const PROFILE_SUMMARY_CHANNEL_CAP: usize = 10;

/// A count, or the cap and a plus sign if it is higher.
pub open spec fn capped_count(count: nat, cap: nat) -> Seq<char> {
    if count > cap {
        decimal(cap) + "+"@
    } else {
        decimal(count)
    }
}

/// A count, or the cap and a plus sign if it is higher.
pub fn capped_count_label(count: usize, cap: usize) -> (r: String)
    ensures
        r@ == capped_count(count as nat, cap as nat),
{
    if count > cap {
        let mut out = to_decimal(cap as u64);
        out.append("+");
        out
    } else {
        to_decimal(count as u64)
    }
}

/// How many messages, threads and channels are hit, in words.
pub open spec fn match_summary(messages: nat, threads: nat, channels: nat) -> Seq<char> {
    decimal(messages) + " cached messages across "@ + decimal(threads) + " threads in "@
        + capped_count(channels, PROFILE_SUMMARY_CHANNEL_CAP as nat) + " channels."@
}

/// How many messages, threads and channels are hit, in words.
pub fn format_match_summary(messages: usize, threads: usize, channels: usize) -> (r: String)
    ensures
        r@ == match_summary(messages as nat, threads as nat, channels as nat),
{
    let mut out = to_decimal(messages as u64);
    out.append(" cached messages across ");
    out.append(to_decimal(threads as u64).as_str());
    out.append(" threads in ");
    out.append(capped_count_label(channels, PROFILE_SUMMARY_CHANNEL_CAP).as_str());
    out.append(" channels.");
    out
}

/// A judgement of items that can fail.
pub type Judgement = spec_fn(TimelineItemModel) -> Result<bool, Seq<char>>;

/// What items hit: how many there are, in which threads and in which channels.
#[verifier::ext_equal]
pub struct Tally {
    pub messages: nat,
    pub threads: Seq<Seq<char>>,
    pub channels: Seq<Seq<char>>,
}

/// The items in channels that may be read which pass the judgement; the first failure, if one fails.
pub open spec fn tally(
    settings: AppSettingsModel,
    items: Seq<TimelineItemModel>,
    judgement: Judgement,
) -> Result<Tally, Seq<char>>
    decreases items.len(),
{
    if items.len() == 0 {
        Ok(Tally { messages: 0, threads: Seq::empty(), channels: Seq::empty() })
    } else {
        let item = items.last();
        match tally(settings, items.drop_last(), judgement) {
            Ok(before) => if !settings.permission(item.channel_id).readable() {
                Ok(before)
            } else {
                match judgement(item) {
                    Ok(true) => Ok(
                        Tally {
                            messages: before.messages + 1,
                            threads: with_text(before.threads, item.thread_ts),
                            channels: with_text(before.channels, item.channel_id),
                        },
                    ),
                    Ok(false) => Ok(before),
                    Err(error) => Err(error),
                }
            },
            Err(error) => Err(error),
        }
    }
}

/// Items after one that fails do not change the outcome.
proof fn lemma_tally_error_stays(
    settings: AppSettingsModel,
    items: Seq<TimelineItemModel>,
    judgement: Judgement,
    at: int,
)
    requires
        0 <= at <= items.len(),
        tally(settings, items.take(at), judgement) is Err,
    ensures
        tally(settings, items, judgement) == tally(settings, items.take(at), judgement),
    decreases items.len() - at,
{
    if at < items.len() {
        assert(items.take(at + 1).drop_last() =~= items.take(at));
        lemma_tally_error_stays(settings, items, judgement, at + 1);
    } else {
        assert(items.take(at) =~= items);
    }
}

/// What a judgement of an item says.
pub open spec fn verdict(r: Result<bool, String>) -> Result<bool, Seq<char>> {
    match r {
        Ok(hit) => Ok(hit),
        Err(message) => Err(message@),
    }
}

/// Judges items.
pub trait ItemJudge {
    /// The judgement.
    spec fn judgement(&self) -> Judgement;

    /// Judges an item.
    fn judge(&self, item: &TimelineItem) -> (r: Result<bool, String>)
        ensures
            verdict(r) == (self.judgement())(item.deep_view()),
    ;
}

/// How many of the cached messages in channels that may be read pass the judgement, in how many
/// threads and channels they are; or why one could not be judged.
pub fn summarize_matching_items<J: ItemJudge>(state: &UiState, judge: &J) -> (r: Result<
    (usize, usize, usize),
    String,
>)
    ensures
        match tally(
            state.deep_view().settings,
            state.deep_view().source_items,
            judge.judgement(),
        ) {
            Ok(hits) => r matches Ok(counts) && counts.0 == hits.messages && counts.1
                == hits.threads.len() && counts.2 == hits.channels.len(),
            Err(error) => r matches Err(message) && message@ == error,
        },
{
    let ghost all = state.source_items.deep_view();
    let ghost settings = state.settings.deep_view();
    let mut messages: usize = 0;
    let mut threads = TextSet::new();
    let mut channels = TextSet::new();
    let mut i: usize = 0;
    assert(all.take(0) =~= Seq::empty());
    while i < state.source_items.len()
        invariant
            i <= state.source_items.len(),
            all == state.source_items.deep_view(),
            settings == state.settings.deep_view(),
            messages <= i,
            tally(settings, all.take(i as int), judge.judgement()) == Ok::<Tally, Seq<char>>(
                Tally {
                    messages: messages as nat,
                    threads: threads.deep_view(),
                    channels: channels.deep_view(),
                },
            ),
        decreases state.source_items.len() - i,
    {
        let item = &state.source_items[i];
        assert(all.take(i + 1).drop_last() =~= all.take(i as int));
        assert(all.take(i + 1).last() == item.deep_view());
        if state.settings.can_read_channel(item.channel_id.as_str()) {
            match judge.judge(item) {
                Ok(true) => {
                    messages += 1;
                    threads.insert(item.thread_ts.clone());
                    channels.insert(item.channel_id.clone());
                },
                Ok(false) => {},
                Err(error) => {
                    proof {
                        lemma_tally_error_stays(settings, all, judge.judgement(), i + 1);
                    }
                    return Err(error);
                },
            }
        }
        i += 1;
    }
    assert(all.take(i as int) =~= all);
    Ok((messages, threads.len(), channels.len()))
}

/// A result as words: what was hit after a start, or an error after another.
pub open spec fn preview(
    hits: Result<Tally, Seq<char>>,
    start: Seq<char>,
    error_start: Seq<char>,
) -> Seq<char> {
    match hits {
        Ok(hits) => start + match_summary(hits.messages, hits.threads.len(), hits.channels.len()),
        Err(error) => error_start + error,
    }
}

/// A result as words.
fn preview_text<J: ItemJudge>(state: &UiState, judge: &J, start: &str, error_start: &str) -> (r:
    String)
    ensures
        r@ == preview(
            tally(state.deep_view().settings, state.deep_view().source_items, judge.judgement()),
            start@,
            error_start@,
        ),
{
    match summarize_matching_items(state, judge) {
        Ok((messages, threads, channels)) => labelled(
            start,
            format_match_summary(messages, threads, channels).as_str(),
        ),
        Err(error) => labelled(error_start, error.as_str()),
    }
}

/// An outcome of a pattern with its error as a text.
fn as_verdict(r: Result<bool, RegexError>) -> (v: Result<bool, String>)
    ensures
        verdict(v) == crate::patterns::said(r),
{
    match r {
        Ok(hit) => Ok(hit),
        Err(error) => Err(error.message),
    }
}

/// Judges by the patterns of a keyword profile.
pub struct ByKeywords<'a>(pub &'a KeywordProfile);

impl<'a> ItemJudge for ByKeywords<'a> {
    open spec fn judgement(&self) -> Judgement {
        by_keywords(self.0.deep_view().matchers)
    }

    fn judge(&self, item: &TimelineItem) -> Result<bool, String> {
        as_verdict(any_matches(&self.0.matchers, item.body.as_str()))
    }
}

/// Whether one of the patterns matches the body.
pub open spec fn by_keywords(matchers: Seq<PatternMatcherModel>) -> Judgement {
    |item: TimelineItemModel| any_outcome(matchers, item.body)
}

/// Whether the channel is listed, by identifier or by name.
pub open spec fn by_channel(
    channels: Seq<Seq<char>>,
    matchers: Seq<PatternMatcherModel>,
) -> Judgement {
    |item: TimelineItemModel|
        channel_listed_outcome(channels, matchers, item.channel_id, item.channel_name)
}

/// Judges by a section.
pub struct BySection<'a>(pub &'a SectionProfile);

impl<'a> ItemJudge for BySection<'a> {
    open spec fn judgement(&self) -> Judgement {
        by_channel(self.0.deep_view().channels, self.0.deep_view().channel_name_matchers)
    }

    fn judge(&self, item: &TimelineItem) -> Result<bool, String> {
        as_verdict(
            section_profile_matches_channel(
                self.0,
                item.channel_id.as_str(),
                item.channel_name.as_str(),
            ),
        )
    }
}

/// Judges by a channel profile.
pub struct ByChannels<'a>(pub &'a ChannelProfile);

impl<'a> ItemJudge for ByChannels<'a> {
    open spec fn judgement(&self) -> Judgement {
        by_channel(self.0.deep_view().channels, self.0.deep_view().channel_name_matchers)
    }

    fn judge(&self, item: &TimelineItem) -> Result<bool, String> {
        as_verdict(
            channel_profile_matches_channel(
                self.0,
                item.channel_id.as_str(),
                item.channel_name.as_str(),
            ),
        )
    }
}

/// Whether the author is among the authors.
pub open spec fn by_authors(authors: Seq<Seq<char>>) -> Judgement {
    |item: TimelineItemModel| Ok(authors.contains(item.author_id))
}

/// Judges by an author profile.
pub struct ByAuthors<'a>(pub &'a AuthorProfile);

impl<'a> ItemJudge for ByAuthors<'a> {
    open spec fn judgement(&self) -> Judgement {
        by_authors(self.0.deep_view().authors)
    }

    fn judge(&self, item: &TimelineItem) -> Result<bool, String> {
        Ok(self.0.authors.contains(item.author_id.as_str()))
    }
}

/// Whether a search profile matches.
pub open spec fn by_search(settings: AppSettingsModel, id: Seq<char>) -> Judgement {
    |item: TimelineItemModel|
        match settings.search_outcome(id, item) {
            Ok(hit) => Ok(hit),
            Err(error) => Err(error.message()),
        }
}

/// Judges by a search profile.
pub struct BySearch<'a> {
    pub settings: &'a AppSettings,
    pub id: &'a str,
}

impl<'a> ItemJudge for BySearch<'a> {
    open spec fn judgement(&self) -> Judgement {
        by_search(self.settings.deep_view(), self.id@)
    }

    fn judge(&self, item: &TimelineItem) -> Result<bool, String> {
        match self.settings.search_profile_matches(self.id, item) {
            Ok(hit) => Ok(hit),
            Err(error) => Err(error.message()),
        }
    }
}

/// How many of the channels are listed, by identifier or by name.
pub open spec fn covered(
    pairs: Seq<(Seq<char>, Seq<char>)>,
    channels: Seq<Seq<char>>,
    matchers: Seq<PatternMatcherModel>,
) -> nat
    decreases pairs.len(),
{
    if pairs.len() == 0 {
        0
    } else {
        covered(pairs.drop_last(), channels, matchers) + if channel_listed_outcome(
            channels,
            matchers,
            pairs.last().0,
            pairs.last().1,
        ) == Ok::<bool, Seq<char>>(true) {
            1nat
        } else {
            0nat
        }
    }
}

/// How many of the channels a section lists.
fn covered_by_section(pairs: &Vec<(String, String)>, profile: &SectionProfile) -> (r: usize)
    ensures
        r == covered(
            pairs.deep_view(),
            profile.deep_view().channels,
            profile.deep_view().channel_name_matchers,
        ),
{
    let ghost all = pairs.deep_view();
    let mut count: usize = 0;
    let mut i: usize = 0;
    while i < pairs.len()
        invariant
            i <= pairs.len(),
            count <= i,
            all == pairs.deep_view(),
            count == covered(
                all.take(i as int),
                profile.deep_view().channels,
                profile.deep_view().channel_name_matchers,
            ),
        decreases pairs.len() - i,
    {
        assert(all.take(i + 1).drop_last() =~= all.take(i as int));
        assert(all.take(i + 1).last() == pairs@[i as int].deep_view());
        if let Ok(true) = section_profile_matches_channel(
            profile,
            pairs[i].0.as_str(),
            pairs[i].1.as_str(),
        ) {
            count += 1;
        }
        i += 1;
    }
    assert(all.take(i as int) =~= all);
    count
}

/// How many of the channels a channel profile lists.
fn covered_by_profile(pairs: &Vec<(String, String)>, profile: &ChannelProfile) -> (r: usize)
    ensures
        r == covered(
            pairs.deep_view(),
            profile.deep_view().channels,
            profile.deep_view().channel_name_matchers,
        ),
{
    let ghost all = pairs.deep_view();
    let mut count: usize = 0;
    let mut i: usize = 0;
    while i < pairs.len()
        invariant
            i <= pairs.len(),
            count <= i,
            all == pairs.deep_view(),
            count == covered(
                all.take(i as int),
                profile.deep_view().channels,
                profile.deep_view().channel_name_matchers,
            ),
        decreases pairs.len() - i,
    {
        assert(all.take(i + 1).drop_last() =~= all.take(i as int));
        assert(all.take(i + 1).last() == pairs@[i as int].deep_view());
        if let Ok(true) = channel_profile_matches_channel(
            profile,
            pairs[i].0.as_str(),
            pairs[i].1.as_str(),
        ) {
            count += 1;
        }
        i += 1;
    }
    assert(all.take(i as int) =~= all);
    count
}

impl UiStateModel {
    /// What a judgement hits in the cache.
    pub open spec fn hits(self, judgement: Judgement) -> Result<Tally, Seq<char>> {
        tally(self.settings, self.source_items, judgement)
    }

    /// How much a keyword profile would hit.
    pub open spec fn keyword_preview(self, profile: Option<KeywordProfileModel>) -> Seq<char> {
        match profile {
            None => "Pick a keyword profile to preview cached hits."@,
            Some(profile) => if profile.matchers.len() == 0 {
                "No matcher configured yet."@
            } else {
                preview(
                    self.hits(by_keywords(profile.matchers)),
                    mode_label(profile.mode) + " profile hits "@,
                    "Matcher error: "@,
                )
            },
        }
    }

    /// How much a section would hit.
    pub open spec fn section_preview(self, profile: Option<SectionProfileModel>) -> Seq<char> {
        match profile {
            None => "Pick a section to preview cached hits."@,
            Some(profile) => if profile.channels.len() == 0 && profile.channel_name_matchers.len()
                == 0 {
                "No channel target configured yet."@
            } else {
                preview(
                    self.hits(by_channel(profile.channels, profile.channel_name_matchers)),
                    "Section covers "@ + capped_count(
                        covered(self.channels(), profile.channels, profile.channel_name_matchers),
                        PROFILE_SUMMARY_CHANNEL_CAP as nat,
                    ) + " channels and hits "@,
                    "Matcher error: "@,
                )
            },
        }
    }

    /// How much a channel profile would hit.
    pub open spec fn channel_preview(self, profile: Option<ChannelProfileModel>) -> Seq<char> {
        match profile {
            None => "Pick a channel profile to preview cached hits."@,
            Some(profile) => if profile.channels.len() == 0 && profile.channel_name_matchers.len()
                == 0 {
                "No channel target configured yet."@
            } else {
                preview(
                    self.hits(by_channel(profile.channels, profile.channel_name_matchers)),
                    mode_label(profile.mode) + " profile covers "@ + capped_count(
                        covered(self.channels(), profile.channels, profile.channel_name_matchers),
                        PROFILE_SUMMARY_CHANNEL_CAP as nat,
                    ) + " channels and hits "@,
                    "Matcher error: "@,
                )
            },
        }
    }

    /// How much an author profile would hit.
    pub open spec fn author_preview(self, profile: Option<AuthorProfileModel>) -> Seq<char> {
        match profile {
            None => "Pick an author profile to preview cached hits."@,
            Some(profile) => if profile.authors.len() == 0 {
                "No author configured yet."@
            } else {
                preview(
                    self.hits(by_authors(profile.authors)),
                    mode_label(profile.mode) + " profile targets "@ + decimal(
                        profile.authors.len(),
                    ) + " authors and hits "@,
                    "Matcher error: "@,
                )
            },
        }
    }

    /// How much a search profile would hit.
    pub open spec fn search_preview(self, profile: Option<SearchProfileModel>) -> Seq<char> {
        match profile {
            None => "Pick a search profile to preview cached hits."@,
            Some(profile) => preview(
                self.hits(by_search(self.settings, profile.id)),
                "Search profile hits "@,
                "Profile error: "@,
            ),
        }
    }
}

/// How much a keyword profile would hit, in words.
pub fn keyword_profile_preview_summary(state: &UiState, profile: Option<&KeywordProfile>) -> (r:
    String)
    ensures
        r@ == state.deep_view().keyword_preview(profile.deep_view()),
{
    match profile {
        None => owned("Pick a keyword profile to preview cached hits."),
        Some(profile) => {
            if profile.matchers.len() == 0 {
                return owned("No matcher configured yet.");
            }
            let start = labelled(profile_mode_label(profile.mode), " profile hits ");
            preview_text(state, &ByKeywords(profile), start.as_str(), "Matcher error: ")
        },
    }
}

/// How much a section would hit, in words.
pub fn section_profile_preview_summary(state: &UiState, profile: Option<&SectionProfile>) -> (r:
    String)
    ensures
        r@ == state.deep_view().section_preview(profile.deep_view()),
{
    match profile {
        None => owned("Pick a section to preview cached hits."),
        Some(profile) => {
            if profile.channels.is_empty() && profile.channel_name_matchers.len() == 0 {
                return owned("No channel target configured yet.");
            }
            let count = covered_by_section(&state.available_channels(), profile);
            let start = enclosed(
                "Section covers ",
                capped_count_label(count, PROFILE_SUMMARY_CHANNEL_CAP).as_str(),
                " channels and hits ",
            );
            preview_text(state, &BySection(profile), start.as_str(), "Matcher error: ")
        },
    }
}

/// How much a channel profile would hit, in words.
pub fn channel_profile_preview_summary(state: &UiState, profile: Option<&ChannelProfile>) -> (r:
    String)
    ensures
        r@ == state.deep_view().channel_preview(profile.deep_view()),
{
    match profile {
        None => owned("Pick a channel profile to preview cached hits."),
        Some(profile) => {
            if profile.channels.is_empty() && profile.channel_name_matchers.len() == 0 {
                return owned("No channel target configured yet.");
            }
            let count = covered_by_profile(&state.available_channels(), profile);
            let mut start = labelled(profile_mode_label(profile.mode), " profile covers ");
            start.append(capped_count_label(count, PROFILE_SUMMARY_CHANNEL_CAP).as_str());
            start.append(" channels and hits ");
            preview_text(state, &ByChannels(profile), start.as_str(), "Matcher error: ")
        },
    }
}

/// How much an author profile would hit, in words.
pub fn author_profile_preview_summary(state: &UiState, profile: Option<&AuthorProfile>) -> (r:
    String)
    ensures
        r@ == state.deep_view().author_preview(profile.deep_view()),
{
    match profile {
        None => owned("Pick an author profile to preview cached hits."),
        Some(profile) => {
            if profile.authors.is_empty() {
                return owned("No author configured yet.");
            }
            let mut start = labelled(profile_mode_label(profile.mode), " profile targets ");
            start.append(to_decimal(profile.authors.len() as u64).as_str());
            start.append(" authors and hits ");
            preview_text(state, &ByAuthors(profile), start.as_str(), "Matcher error: ")
        },
    }
}

/// How much a search profile would hit, in words.
pub fn search_profile_preview_summary(state: &UiState, profile: Option<&SearchProfile>) -> (r:
    String)
    ensures
        r@ == state.deep_view().search_preview(profile.deep_view()),
{
    match profile {
        None => owned("Pick a search profile to preview cached hits."),
        Some(profile) => preview_text(
            state,
            &BySearch { settings: &state.settings, id: profile.id.as_str() },
            "Search profile hits ",
            "Profile error: ",
        ),
    }
}

/// A preview never counts more threads or channels than messages, and counts none in a channel
/// that may not be read.
pub proof fn law_previews_count_readable_messages(
    settings: AppSettingsModel,
    items: Seq<TimelineItemModel>,
    judgement: Judgement,
)
    ensures
        tally(settings, items, judgement) matches Ok(hits) ==> {
            &&& hits.messages <= items.len()
            &&& hits.threads.len() <= hits.messages
            &&& hits.channels.len() <= hits.messages
            &&& forall|k: int|
                0 <= k < hits.channels.len() ==> settings.permission(
                    #[trigger] hits.channels[k],
                ).readable()
        },
    decreases items.len(),
{
    if items.len() > 0 {
        law_previews_count_readable_messages(settings, items.drop_last(), judgement);
        if let Ok(before) = tally(settings, items.drop_last(), judgement) {
            lemma_with_text_adds_one(before.threads, items.last().thread_ts);
            lemma_with_text_adds_one(before.channels, items.last().channel_id);
        }
    }
}

/// Adding a text adds at most one, and nothing else.
proof fn lemma_with_text_adds_one(texts: Seq<Seq<char>>, value: Seq<char>)
    ensures
        with_text(texts, value).len() <= texts.len() + 1,
        forall|k: int|
            0 <= k < with_text(texts, value).len() ==> (#[trigger] with_text(texts, value)[k])
                == value || texts.contains(with_text(texts, value)[k]),
    decreases texts.len(),
{
    if texts.len() > 0 {
        lemma_with_text_adds_one(texts.skip(1), value);
        let after = with_text(texts, value);
        assert forall|k: int| 0 <= k < after.len() implies (#[trigger] after[k]) == value
            || texts.contains(after[k]) by {
            let rest = with_text(texts.skip(1), value);
            if texts.contains(after[k]) || after[k] == value {
            } else {
                assert(after[k] != texts[0]);
                assert(k > 0);
                if exists|j: int| 0 <= j < rest.len() && rest[j] == after[k] {
                    let j = choose|j: int| 0 <= j < rest.len() && rest[j] == after[k];
                    assert(texts.skip(1).contains(rest[j]));
                    let m = choose|m: int| 0 <= m < texts.skip(1).len() && texts.skip(1)[m]
                        == rest[j];
                    assert(texts[m + 1] == rest[j]);
                } else if after == seq![value] + texts {
                    assert(after[k] == texts[k - 1]);
                } else {
                    assert(rest[k - 1] == after[k]);
                }
            }
        }
    }
}

} // verus!
