//! What is loaded from Slack: at the start, in the background and over the socket.
use vstd::prelude::*;
use vstd::string::*;

use crate::api::{labelled, SlackError, SlackErrorModel};
use crate::attachments::slack_user_display_name;
use crate::auth::enclosed;
use crate::collections::{bind, find_by_id, order_of, sort_values, sorted, with_id, Order, TextMap};
use crate::history::{is_syncable_conversation, INITIAL_CHANNEL_SYNC_LIMIT};
use crate::json::Json;
use crate::matching::{channel_listed_outcome, SettingsErrorModel};
use crate::models::{TimelineItem, TimelineItemModel};
use crate::queries::channel_profile_matches_channel;
use crate::settings::{AppSettings, AppSettingsModel, ChannelProfile};
use crate::slack::{
    given, ResponseMetadata, SlackConversation, SlackConversationModel, SlackUser, SlackUserModel,
    SocketModeEnvelope, SocketModeEnvelopeModel,
};
use crate::startup::TIMELINE_LIMIT;
use crate::state::Names;
use crate::text::{
    join, join_texts, owned, precedes, same_text, strip_leading, text_before, trimmed_non_blank,
    without_leading, non_blank,
};

verus! {

/// How a channel is called in the timeline.
fn title_of(channel: &SlackConversation) -> (r: String)
    ensures
        r@ == channel.deep_view().title(),
{
    match channel.display_name() {
        Some(name) => labelled("#", name),
        None => channel.id.clone(),
    }
}

/// Whether the search profile that is active matches a channel.
pub open spec fn in_active_profile(
    settings: AppSettingsModel,
    channel: SlackConversationModel,
) -> bool {
    settings.active_channel_outcome(channel.id, channel.title()) == Ok::<bool, SettingsErrorModel>(
        true,
    )
}

/// Whether the search profile that is active matches a channel.
pub fn conversation_matches_active_search_profile(
    settings: &AppSettings,
    channel: &SlackConversation,
) -> (r: bool)
    ensures
        r == in_active_profile(settings.deep_view(), channel.deep_view()),
{
    match settings.channel_matches_active_search_profile(
        channel.id.as_str(),
        title_of(channel).as_str(),
    ) {
        Ok(matched) => matched,
        Err(_) => false,
    }
}

/// Whether the channel profile of the office view lists a channel: the one that is configured,
/// else the one for channels of times.
pub open spec fn in_office_profile(
    settings: AppSettingsModel,
    channel: SlackConversationModel,
) -> bool {
    let id = match settings.office.channel_profile_id {
        Some(id) => id,
        None => "times_channels"@,
    };
    match with_id::<ChannelProfile>(settings.channel_profiles, id) {
        Some(profile) => channel_listed_outcome(
            profile.channels,
            profile.channel_name_matchers,
            channel.id,
            channel.title(),
        ) == Ok::<bool, Seq<char>>(true),
        None => false,
    }
}

/// Whether the channel profile of the office view lists a channel.
pub fn conversation_matches_office_profile(
    settings: &AppSettings,
    channel: &SlackConversation,
) -> (r: bool)
    ensures
        r == in_office_profile(settings.deep_view(), channel.deep_view()),
{
    let found = match &settings.office.channel_profile_id {
        Some(id) => find_by_id(&settings.channel_profiles, id.as_str()),
        None => find_by_id(&settings.channel_profiles, "times_channels"),
    };
    match found {
        Some(profile) => match channel_profile_matches_channel(
            profile,
            channel.id.as_str(),
            title_of(channel).as_str(),
        ) {
            Ok(matched) => matched,
            Err(_) => false,
        },
        None => false,
    }
}

/// Whether the history of a channel is loaded before that of others.
pub open spec fn has_priority(settings: AppSettingsModel, channel: SlackConversationModel) -> bool {
    in_active_profile(settings, channel) || in_office_profile(settings, channel)
}

/// Whether the history of a channel is loaded before that of others.
pub fn conversation_matches_initial_priority(
    settings: &AppSettings,
    channel: &SlackConversation,
) -> (r: bool)
    ensures
        r == has_priority(settings.deep_view(), channel.deep_view()),
{
    conversation_matches_active_search_profile(settings, channel)
        || conversation_matches_office_profile(settings, channel)
}

/// Channels that have priority first, then by identifier.
pub struct PriorityFirst;

impl Order<(bool, SlackConversation)> for PriorityFirst {
    open spec fn before(
        left: (bool, SlackConversationModel),
        right: (bool, SlackConversationModel),
    ) -> bool {
        (left.0 && !right.0) || (left.0 == right.0 && text_before(left.1.id, right.1.id))
    }

    fn stands_before(left: &(bool, SlackConversation), right: &(bool, SlackConversation)) -> bool {
        (left.0 && !right.0) || (left.0 == right.0 && precedes(
            left.1.id.as_str(),
            right.1.id.as_str(),
        ))
    }
}

/// Channels, each with whether it has priority.
pub open spec fn with_priority(
    settings: AppSettingsModel,
    channels: Seq<SlackConversationModel>,
) -> Seq<(bool, SlackConversationModel)> {
    channels.map_values(
        |channel: SlackConversationModel| (has_priority(settings, channel), channel),
    )
}

/// Channels in the order in which their history is loaded, each with whether it has priority.
pub open spec fn ordered_for_sync(
    settings: AppSettingsModel,
    channels: Seq<SlackConversationModel>,
) -> Seq<(bool, SlackConversationModel)> {
    sorted(
        with_priority(settings, channels),
        order_of::<(bool, SlackConversation), PriorityFirst>(),
    )
}

/// The channels without the marks.
pub open spec fn without_marks(pairs: Seq<(bool, SlackConversationModel)>) -> Seq<
    SlackConversationModel,
> {
    pairs.map_values(|pair: (bool, SlackConversationModel)| pair.1)
}

/// Channels in the order in which their history is loaded, each with whether it has priority.
fn order_for_sync(channels: &Vec<SlackConversation>, settings: &AppSettings) -> (r: Vec<
    (bool, SlackConversation),
>)
    ensures
        r.deep_view() == ordered_for_sync(settings.deep_view(), channels.deep_view()),
{
    let mut pairs: Vec<(bool, SlackConversation)> = Vec::new();
    let mut i: usize = 0;
    while i < channels.len()
        invariant
            i <= channels.len(),
            pairs.len() == i,
            forall|k: int|
                0 <= k < i ==> (#[trigger] pairs.deep_view()[k]) == (
                    has_priority(settings.deep_view(), channels.deep_view()[k]),
                    channels.deep_view()[k],
                ),
        decreases channels.len() - i,
    {
        let ghost before = pairs.deep_view();
        assert(channels.deep_view()[i as int] == channels@[i as int].deep_view());
        let pair = (
            conversation_matches_initial_priority(settings, &channels[i]),
            channels[i].clone(),
        );
        pairs.push(pair);
        assert(pairs.deep_view() =~= before.push(pair.deep_view()));
        i += 1;
    }
    assert(pairs.deep_view() =~= with_priority(settings.deep_view(), channels.deep_view()));
    sort_values::<(bool, SlackConversation), PriorityFirst>(pairs)
}

/// Channels in the order in which their history is loaded.
pub fn prioritize_initial_sync_conversations(
    channels: Vec<SlackConversation>,
    settings: &AppSettings,
) -> (r: Vec<SlackConversation>)
    ensures
        r.deep_view() == without_marks(
            ordered_for_sync(settings.deep_view(), channels.deep_view()),
        ),
{
    let pairs = order_for_sync(&channels, settings);
    first_channels(&pairs, pairs.len())
}

/// The first of the channels, without the marks.
fn first_channels(pairs: &Vec<(bool, SlackConversation)>, count: usize) -> (r: Vec<
    SlackConversation,
>)
    requires
        count <= pairs.len(),
    ensures
        r.deep_view() == without_marks(pairs.deep_view()).take(count as int),
        count == pairs.len() ==> r.deep_view() == without_marks(pairs.deep_view()),
{
    let ghost all = without_marks(pairs.deep_view());
    let mut out: Vec<SlackConversation> = Vec::new();
    let mut i: usize = 0;
    assert(out.deep_view() =~= all.take(0));
    while i < count
        invariant
            i <= count <= pairs.len(),
            all == without_marks(pairs.deep_view()),
            out.deep_view() == all.take(i as int),
        decreases count - i,
    {
        let ghost before = out.deep_view();
        assert(pairs.deep_view()[i as int] == pairs@[i as int].deep_view());
        let channel = pairs[i].1.clone();
        out.push(channel);
        assert(out.deep_view() =~= before.push(channel.deep_view()));
        i += 1;
        assert(all.take(i as int) =~= before.push(channel.deep_view()));
    }
    assert(all.take(all.len() as int) =~= all);
    out
}

/// How many channels at the start have priority.
pub open spec fn leading_priority(pairs: Seq<(bool, SlackConversationModel)>) -> nat
    decreases pairs.len(),
{
    if pairs.len() > 0 && pairs.first().0 {
        1 + leading_priority(pairs.skip(1))
    } else {
        0
    }
}

/// How many channels at the start have priority.
fn count_leading_priority(pairs: &Vec<(bool, SlackConversation)>) -> (r: usize)
    ensures
        r == leading_priority(pairs.deep_view()),
        r <= pairs.len(),
{
    let ghost all = pairs.deep_view();
    let mut i: usize = 0;
    assert(all.skip(0) =~= all);
    while i < pairs.len() && pairs[i].0
        invariant
            i <= pairs.len(),
            all == pairs.deep_view(),
            leading_priority(all) == i + leading_priority(all.skip(i as int)),
        decreases pairs.len() - i,
    {
        assert(all.skip(i as int).first() == pairs@[i as int].deep_view());
        assert(all.skip(i as int).skip(1) =~= all.skip(i + 1));
        i += 1;
    }
    if i < pairs.len() {
        assert(all.skip(i as int).first() == pairs@[i as int].deep_view());
    }
    i
}

/// The channels that can be loaded.
pub open spec fn syncable_channels(channels: Seq<SlackConversationModel>) -> Seq<
    SlackConversationModel,
> {
    channels.filter(|channel: SlackConversationModel| channel.syncable())
}

/// The channels that can be loaded.
fn keep_syncable(channels: Vec<SlackConversation>) -> (r: Vec<SlackConversation>)
    ensures
        r.deep_view() == syncable_channels(channels.deep_view()),
{
    let ghost all = channels.deep_view();
    let ghost test = |channel: SlackConversationModel| channel.syncable();
    let mut out: Vec<SlackConversation> = Vec::new();
    let mut i: usize = 0;
    proof {
        reveal(Seq::filter);
        assert(all.take(0) =~= Seq::empty());
        assert(out.deep_view() =~= all.take(0).filter(test));
    }
    while i < channels.len()
        invariant
            i <= channels.len(),
            all == channels.deep_view(),
            test == (|channel: SlackConversationModel| channel.syncable()),
            out.deep_view() == all.take(i as int).filter(test),
        decreases channels.len() - i,
    {
        let ghost before = out.deep_view();
        proof {
            reveal(Seq::filter);
            assert(all.take(i + 1).drop_last() =~= all.take(i as int));
            assert(all.take(i + 1).last() == channels@[i as int].deep_view());
        }
        if is_syncable_conversation(&channels[i]) {
            let channel = channels[i].clone();
            out.push(channel);
            assert(out.deep_view() =~= before.push(channel.deep_view()));
        }
        i += 1;
    }
    assert(all.take(i as int) =~= all);
    out
}

/// The creators of channels, by channel.
pub open spec fn creators_of(channels: Seq<SlackConversationModel>) -> Names
    decreases channels.len(),
{
    if channels.len() == 0 {
        Seq::empty()
    } else {
        let before = creators_of(channels.drop_last());
        match given(channels.last().creator) {
            Some(creator) => bind(before, channels.last().id, creator),
            None => before,
        }
    }
}

/// The creators of channels, by channel.
fn collect_creators(channels: &Vec<SlackConversation>) -> (r: TextMap<String>)
    ensures
        r.deep_view() == creators_of(channels.deep_view()),
{
    let ghost all = channels.deep_view();
    let mut out: TextMap<String> = TextMap::new();
    let mut i: usize = 0;
    assert(all.take(0) =~= Seq::empty());
    while i < channels.len()
        invariant
            i <= channels.len(),
            all == channels.deep_view(),
            out.deep_view() == creators_of(all.take(i as int)),
        decreases channels.len() - i,
    {
        assert(all.take(i + 1).drop_last() =~= all.take(i as int));
        assert(all.take(i + 1).last() == channels@[i as int].deep_view());
        if let Some(creator) = &channels[i].creator {
            if !creator.as_str().is_empty() {
                out.insert(channels[i].id.clone(), creator.clone());
            }
        }
        i += 1;
    }
    assert(all.take(i as int) =~= all);
    out
}

/// The names of channels, by identifier; a channel without a name is called by its identifier.
pub open spec fn names_of(channels: Seq<SlackConversationModel>) -> Names
    decreases channels.len(),
{
    if channels.len() == 0 {
        Seq::empty()
    } else {
        bind(
            names_of(channels.drop_last()),
            channels.last().id,
            match channels.last().shown_name() {
                Some(name) => name,
                None => channels.last().id,
            },
        )
    }
}

/// The names of channels, by identifier.
fn collect_names(channels: &Vec<SlackConversation>) -> (r: TextMap<String>)
    ensures
        r.deep_view() == names_of(channels.deep_view()),
{
    let ghost all = channels.deep_view();
    let mut out: TextMap<String> = TextMap::new();
    let mut i: usize = 0;
    assert(all.take(0) =~= Seq::empty());
    while i < channels.len()
        invariant
            i <= channels.len(),
            all == channels.deep_view(),
            out.deep_view() == names_of(all.take(i as int)),
        decreases channels.len() - i,
    {
        assert(all.take(i + 1).drop_last() =~= all.take(i as int));
        assert(all.take(i + 1).last() == channels@[i as int].deep_view());
        let name = match channels[i].display_name() {
            Some(name) => owned(name),
            None => channels[i].id.clone(),
        };
        out.insert(channels[i].id.clone(), name);
        i += 1;
    }
    assert(all.take(i as int) =~= all);
    out
}

/// What is loaded at the start: the channels whose history is asked for, and what is known of all
/// channels.
#[derive(Debug)]
pub struct InitialSyncPlan {
    pub channels: Vec<SlackConversation>,
    pub known_channels: TextMap<String>,
    pub known_channel_creators: TextMap<String>,
}

/// Of how many channels the history is loaded: all that have priority, and at least the limit.
pub open spec fn sync_count(pairs: Seq<(bool, SlackConversationModel)>) -> int {
    let wanted = if leading_priority(pairs) > INITIAL_CHANNEL_SYNC_LIMIT {
        leading_priority(pairs) as int
    } else {
        INITIAL_CHANNEL_SYNC_LIMIT as int
    };
    if wanted < pairs.len() {
        wanted
    } else {
        pairs.len() as int
    }
}

/// What is loaded at the start, given the channels that Slack lists.
pub fn plan_initial_sync(listed: Vec<SlackConversation>, settings: &AppSettings) -> (r:
    InitialSyncPlan)
    ensures
        r.channels.deep_view() == ({
            let pairs = ordered_for_sync(
                settings.deep_view(),
                syncable_channels(listed.deep_view()),
            );
            without_marks(pairs).take(sync_count(pairs))
        }),
        r.known_channels.deep_view() == names_of(
            without_marks(
                ordered_for_sync(settings.deep_view(), syncable_channels(listed.deep_view())),
            ),
        ),
        r.known_channel_creators.deep_view() == creators_of(
            syncable_channels(listed.deep_view()),
        ),
{
    let channels = keep_syncable(listed);
    let known_channel_creators = collect_creators(&channels);
    let pairs = order_for_sync(&channels, settings);
    let priority: usize = count_leading_priority(&pairs);
    let wanted: usize = if priority > INITIAL_CHANNEL_SYNC_LIMIT {
        priority
    } else {
        INITIAL_CHANNEL_SYNC_LIMIT
    };
    let count: usize = if wanted < pairs.len() {
        wanted
    } else {
        pairs.len()
    };
    let all = first_channels(&pairs, pairs.len());
    InitialSyncPlan {
        channels: first_channels(&pairs, count),
        known_channels: collect_names(&all),
        known_channel_creators,
    }
}

/// Items with the latest activity first, then those with the latest timestamp.
pub struct LatestFirst;

impl Order<TimelineItem> for LatestFirst {
    open spec fn before(left: TimelineItemModel, right: TimelineItemModel) -> bool {
        right.last_activity_at.before(left.last_activity_at) || (left.last_activity_at
            == right.last_activity_at && text_before(
            right.message_ts,
            left.message_ts,
        ))
    }

    fn stands_before(left: &TimelineItem, right: &TimelineItem) -> bool {
        right.last_activity_at.is_before(left.last_activity_at) || (left.last_activity_at
            == right.last_activity_at && precedes(
            right.message_ts.as_str(),
            left.message_ts.as_str(),
        ))
    }
}

/// The items that are kept of a load: the latest.
pub open spec fn latest_items(items: Seq<TimelineItemModel>) -> Seq<TimelineItemModel> {
    let ordered = sorted(items, order_of::<TimelineItem, LatestFirst>());
    if ordered.len() > TIMELINE_LIMIT {
        ordered.take(TIMELINE_LIMIT as int)
    } else {
        ordered
    }
}

/// The items of a load: the latest, or why there are none if every channel failed.
pub fn finish_initial_load(items: Vec<TimelineItem>, failures: &Vec<String>) -> (r: Result<
    Vec<TimelineItem>,
    String,
>)
    ensures
        match r {
            Ok(kept) => (items.len() > 0 || failures.len() == 0) && kept.deep_view()
                == latest_items(items.deep_view()),
            Err(message) => items.len() == 0 && failures.len() > 0 && message@
                == "no channel history could be loaded ("@ + join(failures.deep_view(), " | "@)
                + ")"@,
        },
{
    let mut ordered = sort_values::<TimelineItem, LatestFirst>(items);
    proof {
        crate::collections::lemma_sorted_multiset(
            items.deep_view(),
            order_of::<TimelineItem, LatestFirst>(),
        );
    }
    if ordered.len() == 0 && failures.len() > 0 {
        return Err(
            enclosed(
                "no channel history could be loaded (",
                join_texts(failures, " | ").as_str(),
                ")",
            ),
        );
    }
    if ordered.len() > TIMELINE_LIMIT {
        let ghost before = ordered.deep_view();
        ordered.truncate(TIMELINE_LIMIT);
        assert(ordered.deep_view() =~= before.take(TIMELINE_LIMIT as int));
    }
    Ok(ordered)
}

/// Whether a request failed because the app lacks a scope.
pub fn is_missing_scope(error: &SlackError) -> (r: bool)
    ensures
        r == (error.deep_view() == SlackErrorModel::Api("missing_scope"@)),
{
    match error {
        SlackError::Api(code) => same_text(code.as_str(), "missing_scope"),
        _ => false,
    }
}

/// Whether a user still has an account.
pub open spec fn is_active(user: SlackUserModel) -> bool {
    user.deleted != Some(true)
}

/// Whether a user still has an account.
pub fn is_active_user(user: &SlackUser) -> (r: bool)
    ensures
        r == is_active(user.deep_view()),
{
    match user.deleted {
        Some(deleted) => !deleted,
        None => true,
    }
}

/// The names of users with those of a page of the directory added; of users without an account or
/// a name nothing is learned.
pub open spec fn with_directory_page(names: Names, members: Seq<SlackUserModel>) -> Names
    decreases members.len(),
{
    if members.len() == 0 {
        names
    } else {
        let before = with_directory_page(names, members.drop_last());
        let user = members.last();
        match user.shown_name() {
            Some(name) => if is_active(user) {
                bind(before, user.id, name)
            } else {
                before
            },
            None => before,
        }
    }
}

/// Learns the names of the users on a page of the directory.
pub fn learn_directory_page(names: &mut TextMap<String>, members: &Vec<SlackUser>)
    ensures
        final(names).deep_view() == with_directory_page(
            old(names).deep_view(),
            members.deep_view(),
        ),
{
    let ghost start = names.deep_view();
    let ghost all = members.deep_view();
    let mut i: usize = 0;
    assert(all.take(0) =~= Seq::empty());
    while i < members.len()
        invariant
            i <= members.len(),
            all == members.deep_view(),
            names.deep_view() == with_directory_page(start, all.take(i as int)),
        decreases members.len() - i,
    {
        assert(all.take(i + 1).drop_last() =~= all.take(i as int));
        assert(all.take(i + 1).last() == members@[i as int].deep_view());
        if is_active_user(&members[i]) {
            if let Some(name) = slack_user_display_name(&members[i]) {
                names.insert(members[i].id.clone(), name);
            }
        }
        i += 1;
    }
    assert(all.take(i as int) =~= all);
}

/// Where the next page of a reply starts, if there is one.
pub fn next_cursor(metadata: &Option<ResponseMetadata>) -> (r: Option<String>)
    ensures
        r.deep_view() == (match metadata.deep_view() {
            Some(metadata) => given(metadata.next_cursor),
            None => None,
        }),
{
    if let Some(metadata) = metadata {
        if let Some(cursor) = &metadata.next_cursor {
            if !cursor.as_str().is_empty() {
                return Some(cursor.clone());
            }
        }
    }
    None
}

/// The channel that a refresh in the background asks for.
pub open spec fn refreshed_channel(
    channel_id: Seq<char>,
    channel_name: Seq<char>,
) -> SlackConversationModel {
    SlackConversationModel {
        id: channel_id,
        name: Some(strip_leading(channel_name, '#')),
        name_normalized: Some(strip_leading(channel_name, '#')),
        creator: None,
        is_member: Some(true),
        is_private: None,
        is_archived: Some(false),
    }
}

/// The channel that a refresh in the background asks for.
pub fn refreshed_conversation(channel_id: &str, channel_name: &str) -> (r: SlackConversation)
    ensures
        r.deep_view() == refreshed_channel(channel_id@, channel_name@),
{
    SlackConversation {
        id: owned(channel_id),
        name: Some(without_leading(channel_name, '#')),
        name_normalized: Some(without_leading(channel_name, '#')),
        creator: None,
        is_member: Some(true),
        is_private: None,
        is_archived: Some(false),
    }
}

/// What the user is told while the history is loaded, or nothing if it is not: it is when Slack is
/// connected and nothing is cached or names are missing.
pub open spec fn loading_status(
    connected: bool,
    cached: bool,
    lacks_users: bool,
    lacks_channels: bool,
) -> Option<Seq<char>> {
    if !connected || cached && !lacks_users && !lacks_channels {
        None
    } else if !cached {
        Some("Loading recent Slack history..."@)
    } else if lacks_channels {
        Some("Refreshing Slack channel names..."@)
    } else {
        Some("Refreshing Slack display names..."@)
    }
}

/// What the user is told while the history is loaded, or nothing if it is not.
pub fn initial_history_status(
    connected: bool,
    has_cached_items: bool,
    needs_user_directory_refresh: bool,
    needs_channel_directory_refresh: bool,
) -> (r: Option<&'static str>)
    ensures
        r.deep_view() == loading_status(
            connected,
            has_cached_items,
            needs_user_directory_refresh,
            needs_channel_directory_refresh,
        ),
{
    if !connected {
        return None;
    }
    if has_cached_items {
        if needs_channel_directory_refresh {
            Some("Refreshing Slack channel names...")
        } else if needs_user_directory_refresh {
            Some("Refreshing Slack display names...")
        } else {
            None
        }
    } else {
        Some("Loading recent Slack history...")
    }
}

/// Whether a refresh in the background is started: none is running, Slack is connected, something
/// is cached and there is a channel to ask for.
pub fn starts_background_refresh(
    in_flight: bool,
    connected: bool,
    has_cached_items: bool,
    channels: usize,
) -> (r: bool)
    ensures
        r == (!in_flight && connected && has_cached_items && channels > 0),
{
    !in_flight && connected && has_cached_items && channels > 0
}

/// Which run of the socket is current, and whether one was started.
#[derive(Clone, Copy, Debug, PartialEq, Eq, Structural)]
pub struct LiveSync {
    pub generation: u64,
    pub started: Option<u64>,
}

impl LiveSync {
    /// No run yet.
    pub fn new() -> (r: Self)
        ensures
            r == (LiveSync { generation: 0, started: None }),
    {
        LiveSync { generation: 0, started: None }
    }

    /// The number of a new run, if one is started: none is running, Slack is connected and there
    /// is a token for the socket.
    pub fn start(&mut self, connected: bool, has_token: bool) -> (r: Option<u64>)
        requires
            old(self).started is None && connected && has_token ==> old(self).generation
                < u64::MAX,
        ensures
            r == (if old(self).started is None && connected && has_token {
                Some((old(self).generation + 1) as u64)
            } else {
                None
            }),
            r is Some ==> *final(self) == (LiveSync { generation: r->0, started: r }),
            r is None ==> *final(self) == *old(self),
    {
        if self.started.is_some() || !connected || !has_token {
            return None;
        }
        self.generation = self.generation + 1;
        self.started = Some(self.generation);
        self.started
    }

    /// Ends the run that is current.
    pub fn stop(&mut self)
        requires
            old(self).generation < u64::MAX,
        ensures
            *final(self) == (LiveSync {
                generation: (old(self).generation + 1) as u64,
                started: None,
            }),
    {
        self.generation = self.generation + 1;
        self.started = None;
    }

    /// Whether a run goes on.
    pub fn is_current(&self, generation: u64) -> (r: bool)
        ensures
            r == (self.generation == generation),
    {
        self.generation == generation
    }
}

/// After the next start or stop, which count up by one, no run so far is current.
pub proof fn law_earlier_runs_are_not_current(before: LiveSync, after: LiveSync, run: u64)
    requires
        run <= before.generation,
        after.generation == before.generation + 1,
    ensures
        after.generation != run,
{
}

/// The token of the socket, if one is set.
pub fn slack_app_token(value: Option<&str>) -> (r: Option<String>)
    ensures
        r.deep_view() == (match value.deep_view() {
            Some(value) => trimmed_non_blank(value),
            None => None,
        }),
{
    match value {
        Some(value) => non_blank(value),
        None => None,
    }
}

/// What a message of the socket leads to.
#[derive(Debug)]
pub enum LiveStep {
    /// Nothing.
    Skip,
    /// The socket belongs to another app; the user is told.
    Mismatch(String),
    /// It carries an event.
    Event(Json),
}

/// The app that a greeting of the socket names.
pub open spec fn greeting_app(envelope: SocketModeEnvelopeModel) -> Option<Seq<char>> {
    match envelope.connection_info {
        Some(info) => info.app_id,
        None => None,
    }
}

/// What a message of the socket leads to: events are delivered, and a greeting of another app than
/// the one that the user signed in with is reported.
pub fn live_step(envelope: &SocketModeEnvelope, session_app_id: &Option<String>) -> (r: LiveStep)
    ensures
        ({
            let said = envelope.deep_view();
            if said.kind == "events_api"@ {
                match said.payload {
                    Some(payload) => if payload.kind == "event_callback"@ {
                        r matches LiveStep::Event(event) && event == payload.event
                    } else {
                        r is Skip
                    },
                    None => r is Skip,
                }
            } else if said.kind == "hello"@ {
                match (session_app_id.deep_view(), greeting_app(said)) {
                    (Some(expected), Some(live)) => if expected == live {
                        r is Skip
                    } else {
                        r matches LiveStep::Mismatch(message) && message@
                            == "Socket Mode app mismatch: OAuth app "@ + expected
                            + ", app token connected to "@ + live
                    },
                    _ => r is Skip,
                }
            } else {
                r is Skip
            }
        }),
{
    if same_text(envelope.kind.as_str(), "events_api") {
        if let Some(payload) = &envelope.payload {
            if same_text(payload.kind.as_str(), "event_callback") {
                return LiveStep::Event(payload.event.clone());
            }
        }
        return LiveStep::Skip;
    }
    if same_text(envelope.kind.as_str(), "hello") {
        if let Some(info) = &envelope.connection_info {
            if let (Some(expected), Some(live)) = (session_app_id, &info.app_id) {
                if !same_text(expected.as_str(), live.as_str()) {
                    let mut message = enclosed(
                        "Socket Mode app mismatch: OAuth app ",
                        expected.as_str(),
                        ", app token connected to ",
                    );
                    message.append(live.as_str());
                    return LiveStep::Mismatch(message);
                }
            }
        }
    }
    LiveStep::Skip
}

/// The order in which history is loaded is one of keys.
pub proof fn lemma_priority_order()
    ensures
        crate::collections::is_weak_order(order_of::<(bool, SlackConversation), PriorityFirst>()),
{
    let before = order_of::<(bool, SlackConversation), PriorityFirst>();
    assert forall|a: (bool, SlackConversationModel), b: (bool, SlackConversationModel)| #[trigger]
        before(a, b) implies !before(b, a) by {
        crate::text::lemma_text_before_asymmetric(a.1.id, b.1.id);
    }
    assert forall|
        a: (bool, SlackConversationModel),
        b: (bool, SlackConversationModel),
        c: (bool, SlackConversationModel),
    |
        !#[trigger] before(a, b) && !#[trigger] before(b, c) implies !before(a, c) by {
        crate::text::lemma_text_before_connected(a.1.id, b.1.id, c.1.id);
    }
}

/// Every channel that has priority stands before every one that has none.
pub proof fn law_priority_channels_come_first(
    settings: AppSettingsModel,
    channels: Seq<SlackConversationModel>,
    i: int,
    j: int,
)
    requires
        0 <= i < j < ordered_for_sync(settings, channels).len(),
    ensures
        ordered_for_sync(settings, channels)[j].0 ==> ordered_for_sync(settings, channels)[i].0,
        ordered_for_sync(settings, channels).len() == channels.len(),
{
    let marked = with_priority(settings, channels);
    let order = order_of::<(bool, SlackConversation), PriorityFirst>();
    lemma_priority_order();
    crate::collections::lemma_sorted_in_order(marked, order);
    crate::collections::lemma_sorted_multiset(marked, order);
}

/// As many channels stand at the start with priority as stand before the first that has none.
proof fn lemma_leading_priority(pairs: Seq<(bool, SlackConversationModel)>, at: int)
    requires
        0 <= at < pairs.len(),
        forall|k: int| 0 <= k <= at ==> (#[trigger] pairs[k]).0,
    ensures
        at < leading_priority(pairs),
    decreases pairs.len(),
{
    assert(pairs[0].0);
    if at > 0 {
        let rest = pairs.skip(1);
        assert forall|k: int| 0 <= k <= at - 1 implies (#[trigger] rest[k]).0 by {
            assert(pairs[k + 1].0);
        }
        lemma_leading_priority(rest, at - 1);
    }
}

/// The history of every channel that has priority is loaded at the start, however many there are.
pub proof fn law_priority_channels_are_loaded(
    settings: AppSettingsModel,
    channels: Seq<SlackConversationModel>,
    channel: SlackConversationModel,
)
    requires
        channels.contains(channel),
        has_priority(settings, channel),
    ensures
        ({
            let pairs = ordered_for_sync(settings, channels);
            without_marks(pairs).take(sync_count(pairs)).contains(channel)
        }),
{
    broadcast use vstd::seq_lib::group_to_multiset_ensures;

    let marked = with_priority(settings, channels);
    let order = order_of::<(bool, SlackConversation), PriorityFirst>();
    let pairs = ordered_for_sync(settings, channels);
    let at = choose|i: int| 0 <= i < channels.len() && channels[i] == channel;
    assert(marked[at] == (true, channel));
    crate::collections::lemma_sorted_multiset(marked, order);
    assert(marked.to_multiset().count((true, channel)) > 0);
    assert(pairs.contains((true, channel)));
    let i = choose|i: int| 0 <= i < pairs.len() && pairs[i] == (true, channel);
    assert forall|k: int| 0 <= k <= i implies (#[trigger] pairs[k]).0 by {
        if k < i {
            law_priority_channels_come_first(settings, channels, k, i);
        }
    }
    lemma_leading_priority(pairs, i);
    assert(without_marks(pairs).take(sync_count(pairs))[i] == channel);
}

} // verus!
