//! Which items and channels profiles and notification rules match.
use vstd::prelude::*;
use vstd::string::*;

use crate::collections::{
    contains_text, find_by_id, first_match, lemma_first_match, lookup, with_id,
};
use crate::models::{TimelineItem, TimelineItemModel};
use crate::patterns::{
    any_channel_name_matches, any_channel_name_outcome, any_matches, any_outcome, check_regex,
    regex_error_text, regex_valid, PatternMatcher, PatternMatcherModel, RegexError,
};
use crate::settings::{
    AppSettings, AppSettingsModel, AuthorProfile, AuthorProfileModel, ChannelPermission,
    ChannelProfile, ChannelProfileModel, KeywordProfile, KeywordProfileModel, NotificationRule,
    NotificationRuleModel, ProfileMode, SearchProfile, SearchProfileModel, SectionProfile,
    SectionProfileModel, TimelinePolicy, TimelinePolicyModel,
};
use crate::text::{
    blank, contains_ignoring_case, holds, holds_ignoring_case, is_blank, lowercase, owned, trim,
    trimmed,
};

verus! {

/// What can be wrong with settings when they are used.
#[derive(Debug, PartialEq, Eq)]
pub enum SettingsError {
    InvalidRegex { pattern: String, source: RegexError },
    InvalidQuietHours,
    MissingProfileReference { kind: String, id: String },
    Matcher(String),
}

/// What a [`SettingsError`] says: its texts as sequences of characters.
#[verifier::ext_equal]
pub enum SettingsErrorModel {
    InvalidRegex { pattern: Seq<char>, source: Seq<char> },
    InvalidQuietHours,
    MissingProfileReference { kind: Seq<char>, id: Seq<char> },
    Matcher(Seq<char>),
}

impl DeepView for SettingsError {
    type V = SettingsErrorModel;

    open spec fn deep_view(&self) -> SettingsErrorModel {
        match self {
            SettingsError::InvalidRegex { pattern, source } => SettingsErrorModel::InvalidRegex {
                pattern: pattern@,
                source: source.message@,
            },
            SettingsError::InvalidQuietHours => SettingsErrorModel::InvalidQuietHours,
            SettingsError::MissingProfileReference { kind, id } => {
                SettingsErrorModel::MissingProfileReference { kind: kind@, id: id@ }
            },
            SettingsError::Matcher(message) => SettingsErrorModel::Matcher(message@),
        }
    }
}

impl SettingsErrorModel {
    /// The message for the user.
    pub open spec fn message(self) -> Seq<char> {
        match self {
            SettingsErrorModel::InvalidRegex { pattern, .. } => "invalid regex `"@ + pattern
                + "`"@,
            SettingsErrorModel::InvalidQuietHours => "invalid quiet hours"@,
            SettingsErrorModel::MissingProfileReference { kind, id } => "missing "@ + kind + " `"@
                + id + "`"@,
            SettingsErrorModel::Matcher(text) => "matcher error: "@ + text,
        }
    }
}

impl SettingsError {
    /// The message for the user.
    pub fn message(&self) -> (r: String)
        ensures
            r@ == self.deep_view().message(),
    {
        let mut out = String::new();
        match self {
            SettingsError::InvalidRegex { pattern, source } => {
                out.append("invalid regex `");
                out.append(pattern.as_str());
                out.append("`");
            },
            SettingsError::InvalidQuietHours => {
                out.append("invalid quiet hours");
            },
            SettingsError::MissingProfileReference { kind, id } => {
                out.append("missing ");
                out.append(kind.as_str());
                out.append(" `");
                out.append(id.as_str());
                out.append("`");
            },
            SettingsError::Matcher(text) => {
                out.append("matcher error: ");
                out.append(text.as_str());
            },
        }
        assert(out@ =~= self.deep_view().message());
        out
    }
}

/// What the result of a check says.
pub open spec fn outcome<T>(result: Result<T, SettingsError>) -> Result<T, SettingsErrorModel> {
    match result {
        Ok(value) => Ok(value),
        Err(error) => Err(error.deep_view()),
    }
}

/// The outcome of matching with a wrong pattern as an error of the settings.
pub open spec fn as_settings_outcome(result: Result<bool, Seq<char>>) -> Result<
    bool,
    SettingsErrorModel,
> {
    match result {
        Ok(found) => Ok(found),
        Err(message) => Err(SettingsErrorModel::Matcher(message)),
    }
}

/// One outcome and then another: the second counts where the first is that there is a match.
pub open spec fn both(
    first: Result<bool, SettingsErrorModel>,
    second: Result<bool, SettingsErrorModel>,
) -> Result<bool, SettingsErrorModel> {
    match first {
        Ok(true) => second,
        _ => first,
    }
}

fn as_settings_error(error: RegexError) -> (r: SettingsError)
    ensures
        r.deep_view() == SettingsErrorModel::Matcher(error.message@),
{
    SettingsError::Matcher(error.message)
}

/// The first matcher that is a regular expression which is not accepted.
pub open spec fn first_invalid(matchers: Seq<PatternMatcherModel>) -> Option<PatternMatcherModel> {
    first_match(
        matchers,
        |matcher: PatternMatcherModel|
            matcher matches PatternMatcherModel::Regex(pattern) && !regex_valid(pattern),
    )
}

/// The error that a wrong regular expression gives.
pub open spec fn invalid_regex(matcher: PatternMatcherModel) -> SettingsErrorModel {
    match matcher {
        PatternMatcherModel::Regex(pattern) => SettingsErrorModel::InvalidRegex {
            pattern,
            source: regex_error_text(pattern),
        },
        PatternMatcherModel::Text(pattern) => SettingsErrorModel::InvalidRegex {
            pattern,
            source: Seq::empty(),
        },
    }
}

impl NotificationRuleModel {
    /// Whether the rule can be used: its regular expressions are accepted and its quiet hours
    /// are hours of the day. The first fault counts.
    pub open spec fn validity(self) -> Result<(), SettingsErrorModel> {
        match first_invalid(self.includes) {
            Some(matcher) => Err(invalid_regex(matcher)),
            None => match first_invalid(self.exclude) {
                Some(matcher) => Err(invalid_regex(matcher)),
                None => match self.quiet_hours {
                    Some(hours) if hours.start_hour > 23 || hours.end_hour > 23 => Err(
                        SettingsErrorModel::InvalidQuietHours,
                    ),
                    _ => Ok(()),
                },
            },
        }
    }

    /// Whether the filters of the rule itself let an item through.
    pub open spec fn item_outcome(self, item: TimelineItemModel) -> Result<
        bool,
        SettingsErrorModel,
    > {
        match self.validity() {
            Err(error) => Err(error),
            Ok(_) => if !self.enabled || (self.channels.len() > 0 && !self.channels.contains(
                item.channel_id,
            )) || (self.authors.len() > 0 && !self.authors.contains(item.author_id)) || (
            self.thread_participation_only && !item.participant) {
                Ok(false)
            } else {
                match if self.includes.len() > 0 {
                    any_outcome(self.includes, item.body)
                } else {
                    Ok(true)
                } {
                    Err(message) => Err(SettingsErrorModel::Matcher(message)),
                    Ok(false) => Ok(false),
                    Ok(true) => match any_outcome(self.exclude, item.body) {
                        Err(message) => Err(SettingsErrorModel::Matcher(message)),
                        Ok(excluded) => Ok(!excluded),
                    },
                }
            },
        }
    }
}

/// Checks the regular expressions among the matchers.
fn check_matchers(matchers: &Vec<PatternMatcher>) -> (r: Result<(), SettingsError>)
    ensures
        outcome(r) == (match first_invalid(matchers.deep_view()) {
            Some(matcher) => Err(invalid_regex(matcher)),
            None => Ok(()),
        }),
{
    let ghost all = matchers.deep_view();
    let ghost invalid = |matcher: PatternMatcherModel|
        matcher matches PatternMatcherModel::Regex(pattern) && !regex_valid(pattern);
    let mut i: usize = 0;
    while i < matchers.len()
        invariant
            i <= matchers.len(),
            all == matchers.deep_view(),
            invalid == (|matcher: PatternMatcherModel|
                matcher matches PatternMatcherModel::Regex(pattern) && !regex_valid(pattern)),
            forall|k: int| 0 <= k < i ==> !invalid(#[trigger] all[k]),
        decreases matchers.len() - i,
    {
        assert(all[i as int] == matchers[i as int].deep_view());
        if let PatternMatcher::Regex(pattern) = &matchers[i] {
            match check_regex(pattern.as_str()) {
                Ok(_) => {},
                Err(message) => {
                    proof {
                        lemma_first_match(all, invalid, i as int);
                    }
                    return Err(
                        SettingsError::InvalidRegex {
                            pattern: pattern.clone(),
                            source: RegexError { message },
                        },
                    );
                },
            }
        }
        i += 1;
    }
    proof {
        lemma_first_match(all, invalid, i as int);
    }
    Ok(())
}

impl NotificationRule {
    /// Whether the rule can be used.
    pub fn validate(&self) -> (r: Result<(), SettingsError>)
        ensures
            outcome(r) == self.deep_view().validity(),
    {
        match check_matchers(&self.includes) {
            Ok(_) => {},
            Err(error) => {
                return Err(error);
            },
        }
        match check_matchers(&self.exclude) {
            Ok(_) => {},
            Err(error) => {
                return Err(error);
            },
        }
        if let Some(quiet_hours) = &self.quiet_hours {
            if quiet_hours.start_hour > 23 || quiet_hours.end_hour > 23 {
                return Err(SettingsError::InvalidQuietHours);
            }
        }
        Ok(())
    }

    /// Whether the filters of the rule itself let an item through.
    pub fn matches(&self, item: &TimelineItem) -> (r: Result<bool, SettingsError>)
        ensures
            outcome(r) == self.deep_view().item_outcome(item.deep_view()),
    {
        match self.validate() {
            Ok(_) => {},
            Err(error) => {
                return Err(error);
            },
        }
        if !self.enabled {
            return Ok(false);
        }
        if !self.channels.is_empty() && !self.channels.contains(item.channel_id.as_str()) {
            return Ok(false);
        }
        if !self.authors.is_empty() && !self.authors.contains(item.author_id.as_str()) {
            return Ok(false);
        }
        if self.thread_participation_only && !item.participant {
            return Ok(false);
        }
        if self.includes.len() > 0 {
            match any_matches(&self.includes, item.body.as_str()) {
                Ok(true) => {},
                Ok(false) => {
                    return Ok(false);
                },
                Err(error) => {
                    return Err(as_settings_error(error));
                },
            }
        }
        match any_matches(&self.exclude, item.body.as_str()) {
            Ok(excluded) => Ok(!excluded),
            Err(error) => Err(as_settings_error(error)),
        }
    }
}

/// The channels of the sections, one section after the other.
pub open spec fn section_channels(
    sections: Seq<SectionProfileModel>,
    ids: Seq<Seq<char>>,
) -> Seq<Seq<char>>
    decreases ids.len(),
{
    if ids.len() == 0 {
        Seq::empty()
    } else {
        section_channels(sections, ids.drop_last()) + match with_id::<SectionProfile>(
            sections,
            ids.last(),
        ) {
            Some(section) => section.channels,
            None => Seq::empty(),
        }
    }
}

/// The name matchers of the sections, one section after the other.
pub open spec fn section_matchers(
    sections: Seq<SectionProfileModel>,
    ids: Seq<Seq<char>>,
) -> Seq<PatternMatcherModel>
    decreases ids.len(),
{
    if ids.len() == 0 {
        Seq::empty()
    } else {
        section_matchers(sections, ids.drop_last()) + match with_id::<SectionProfile>(
            sections,
            ids.last(),
        ) {
            Some(section) => section.channel_name_matchers,
            None => Seq::empty(),
        }
    }
}

/// The channels of the profiles that have the mode, one profile after the other.
pub open spec fn profile_channels(
    profiles: Seq<ChannelProfileModel>,
    ids: Seq<Seq<char>>,
    mode: ProfileMode,
) -> Seq<Seq<char>>
    decreases ids.len(),
{
    if ids.len() == 0 {
        Seq::empty()
    } else {
        profile_channels(profiles, ids.drop_last(), mode) + match with_id::<ChannelProfile>(
            profiles,
            ids.last(),
        ) {
            Some(profile) if profile.mode == mode => profile.channels,
            _ => Seq::empty(),
        }
    }
}

/// The name matchers of the profiles that have the mode, one profile after the other.
pub open spec fn profile_matchers(
    profiles: Seq<ChannelProfileModel>,
    ids: Seq<Seq<char>>,
    mode: ProfileMode,
) -> Seq<PatternMatcherModel>
    decreases ids.len(),
{
    if ids.len() == 0 {
        Seq::empty()
    } else {
        profile_matchers(profiles, ids.drop_last(), mode) + match with_id::<ChannelProfile>(
            profiles,
            ids.last(),
        ) {
            Some(profile) if profile.mode == mode => profile.channel_name_matchers,
            _ => Seq::empty(),
        }
    }
}

/// The authors of the profiles that have the mode, one profile after the other.
pub open spec fn profile_authors(
    profiles: Seq<AuthorProfileModel>,
    ids: Seq<Seq<char>>,
    mode: ProfileMode,
) -> Seq<Seq<char>>
    decreases ids.len(),
{
    if ids.len() == 0 {
        Seq::empty()
    } else {
        profile_authors(profiles, ids.drop_last(), mode) + match with_id::<AuthorProfile>(
            profiles,
            ids.last(),
        ) {
            Some(profile) if profile.mode == mode => profile.authors,
            _ => Seq::empty(),
        }
    }
}

/// The error for a reference to a profile that there is not.
pub open spec fn missing(kind: Seq<char>, id: Seq<char>) -> SettingsErrorModel {
    SettingsErrorModel::MissingProfileReference { kind, id }
}

fn missing_reference(kind: &str, id: &str) -> (r: SettingsError)
    ensures
        r.deep_view() == missing(kind@, id@),
{
    SettingsError::MissingProfileReference { kind: owned(kind), id: owned(id) }
}

/// The first of the identifiers that no section has.
pub open spec fn missing_section(
    sections: Seq<SectionProfileModel>,
    ids: Seq<Seq<char>>,
) -> Option<Seq<char>> {
    first_match(ids, |id: Seq<char>| with_id::<SectionProfile>(sections, id) is None)
}

/// The first of the identifiers that no channel profile has.
pub open spec fn missing_channel_profile(
    profiles: Seq<ChannelProfileModel>,
    ids: Seq<Seq<char>>,
) -> Option<Seq<char>> {
    first_match(ids, |id: Seq<char>| with_id::<ChannelProfile>(profiles, id) is None)
}

/// The first of the identifiers that no author profile has.
pub open spec fn missing_author_profile(
    profiles: Seq<AuthorProfileModel>,
    ids: Seq<Seq<char>>,
) -> Option<Seq<char>> {
    first_match(ids, |id: Seq<char>| with_id::<AuthorProfile>(profiles, id) is None)
}

/// Whether a channel passes allow and deny lists of identifiers and of name matchers. Denial goes
/// first; with nothing allowed in particular, all that is not denied is.
pub open spec fn channel_lists_outcome(
    allow: Seq<Seq<char>>,
    allow_names: Seq<PatternMatcherModel>,
    deny: Seq<Seq<char>>,
    deny_names: Seq<PatternMatcherModel>,
    channel_id: Seq<char>,
    channel_name: Seq<char>,
) -> Result<bool, SettingsErrorModel> {
    if deny.contains(channel_id) {
        Ok(false)
    } else {
        match any_channel_name_outcome(deny_names, channel_name) {
            Err(message) => Err(SettingsErrorModel::Matcher(message)),
            Ok(true) => Ok(false),
            Ok(false) => if (allow.len() == 0 && allow_names.len() == 0) || allow.contains(
                channel_id,
            ) {
                Ok(true)
            } else {
                as_settings_outcome(any_channel_name_outcome(allow_names, channel_name))
            },
        }
    }
}

/// Whether a channel passes the channels, sections and channel profiles of a search profile.
pub open spec fn channel_outcome(
    settings: AppSettingsModel,
    profile: SearchProfileModel,
    channel_id: Seq<char>,
    channel_name: Seq<char>,
) -> Result<bool, SettingsErrorModel> {
    match missing_section(settings.section_profiles, profile.section_profiles) {
        Some(id) => Err(missing("section_profile"@, id)),
        None => match missing_channel_profile(
            settings.channel_profiles,
            profile.channel_profiles,
        ) {
            Some(id) => Err(missing("channel_profile"@, id)),
            None => channel_lists_outcome(
                profile.channels + section_channels(
                    settings.section_profiles,
                    profile.section_profiles,
                ) + profile_channels(
                    settings.channel_profiles,
                    profile.channel_profiles,
                    ProfileMode::Allow,
                ),
                section_matchers(settings.section_profiles, profile.section_profiles)
                    + profile_matchers(
                    settings.channel_profiles,
                    profile.channel_profiles,
                    ProfileMode::Allow,
                ),
                profile_channels(
                    settings.channel_profiles,
                    profile.channel_profiles,
                    ProfileMode::Deny,
                ),
                profile_matchers(
                    settings.channel_profiles,
                    profile.channel_profiles,
                    ProfileMode::Deny,
                ),
                channel_id,
                channel_name,
            ),
        },
    }
}

/// Whether an author passes the authors and author profiles of a search profile.
pub open spec fn author_outcome(
    settings: AppSettingsModel,
    profile: SearchProfileModel,
    author_id: Seq<char>,
) -> Result<bool, SettingsErrorModel> {
    match missing_author_profile(settings.author_profiles, profile.author_profiles) {
        Some(id) => Err(missing("author_profile"@, id)),
        None => {
            let allow = profile.authors + profile_authors(
                settings.author_profiles,
                profile.author_profiles,
                ProfileMode::Allow,
            );
            let deny = profile_authors(
                settings.author_profiles,
                profile.author_profiles,
                ProfileMode::Deny,
            );
            Ok(
                !deny.contains(author_id) && (allow.len() == 0 || allow.contains(author_id)),
            )
        },
    }
}

/// Whether a text passes keyword profiles, taken in order: a profile that there is not and a
/// pattern that is not accepted are errors where they are met, a match of a denying profile is a
/// refusal, and of the allowing profiles at least one must match if there are any.
pub open spec fn keyword_outcome(
    profiles: Seq<KeywordProfileModel>,
    ids: Seq<Seq<char>>,
    body: Seq<char>,
    wanted: bool,
    found: bool,
) -> Result<bool, SettingsErrorModel>
    decreases ids.len(),
{
    if ids.len() == 0 {
        Ok(!wanted || found)
    } else {
        match with_id::<KeywordProfile>(profiles, ids.first()) {
            None => Err(missing("keyword_profile"@, ids.first())),
            Some(profile) => match any_outcome(profile.matchers, body) {
                Err(message) => Err(SettingsErrorModel::Matcher(message)),
                Ok(matched) => match profile.mode {
                    ProfileMode::Allow => keyword_outcome(
                        profiles,
                        ids.skip(1),
                        body,
                        true,
                        found || matched,
                    ),
                    ProfileMode::Deny => if matched {
                        Ok(false)
                    } else {
                        keyword_outcome(profiles, ids.skip(1), body, wanted, found)
                    },
                },
            },
        }
    }
}

/// Whether an item passes the profiles that a search profile refers to.
pub open spec fn profiles_outcome(
    settings: AppSettingsModel,
    profile: SearchProfileModel,
    item: TimelineItemModel,
) -> Result<bool, SettingsErrorModel> {
    both(
        channel_outcome(settings, profile, item.channel_id, item.channel_name),
        both(
            author_outcome(settings, profile, item.author_id),
            keyword_outcome(
                settings.keyword_profiles,
                profile.keyword_profiles,
                item.body,
                false,
                false,
            ),
        ),
    )
}

/// Whether an item holds a query in its text or in the name of its author or channel.
pub open spec fn query_matches(item: TimelineItemModel, query: Seq<char>) -> bool {
    contains_ignoring_case(item.body, query) || contains_ignoring_case(item.author_name, query)
        || contains_ignoring_case(item.channel_name, query)
}

impl AppSettingsModel {
    /// The search profile with the identifier.
    pub open spec fn search_profile(self, id: Seq<char>) -> Option<SearchProfileModel> {
        with_id::<SearchProfile>(self.search_profiles, id)
    }

    /// The section with the identifier.
    pub open spec fn section_profile(self, id: Seq<char>) -> Option<SectionProfileModel> {
        with_id::<SectionProfile>(self.section_profiles, id)
    }

    /// What the user may do in a channel.
    pub open spec fn permission(self, channel_id: Seq<char>) -> ChannelPermission {
        match lookup(self.channel_permissions, channel_id) {
            Some(permission) => permission,
            None => self.default_channel_permission,
        }
    }

    /// Whether an item passes a search profile.
    pub open spec fn search_outcome(self, id: Seq<char>, item: TimelineItemModel) -> Result<
        bool,
        SettingsErrorModel,
    > {
        match self.search_profile(id) {
            None => Err(missing("search_profile"@, id)),
            Some(profile) => both(
                profiles_outcome(self, profile, item),
                match profile.query {
                    Some(query) if !is_blank(query) => Ok(query_matches(item, trim(query))),
                    _ => Ok(true),
                },
            ),
        }
    }

    /// Whether an item passes one of the search profiles, tried in order up to the first.
    pub open spec fn any_search_outcome(
        self,
        ids: Seq<Seq<char>>,
        item: TimelineItemModel,
    ) -> Result<bool, SettingsErrorModel>
        decreases ids.len(),
    {
        if ids.len() == 0 {
            Ok(false)
        } else {
            match self.search_outcome(ids.first(), item) {
                Ok(false) => self.any_search_outcome(ids.skip(1), item),
                outcome => outcome,
            }
        }
    }

    /// Whether a rule matches an item: its own filters, the profiles that it refers to, and one
    /// of its search profiles if it has any.
    pub open spec fn rule_outcome(
        self,
        rule: NotificationRuleModel,
        item: TimelineItemModel,
    ) -> Result<bool, SettingsErrorModel> {
        both(
            rule.item_outcome(item),
            both(
                if rule.keyword_profile_ids.len() > 0 || rule.section_profile_ids.len() > 0
                    || rule.channel_profile_ids.len() > 0 || rule.author_profile_ids.len() > 0 {
                    profiles_outcome(self, rule_profile(rule), item)
                } else {
                    Ok(true)
                },
                if rule.search_profile_ids.len() == 0 {
                    Ok(true)
                } else {
                    self.any_search_outcome(rule.search_profile_ids, item)
                },
            ),
        )
    }

    /// Whether a channel passes the active search profile; without one none does.
    pub open spec fn active_channel_outcome(
        self,
        channel_id: Seq<char>,
        channel_name: Seq<char>,
    ) -> Result<bool, SettingsErrorModel> {
        match self.active_search_profile_id {
            None => Ok(false),
            Some(id) => match self.search_profile(id) {
                None => Err(missing("search_profile"@, id)),
                Some(profile) => channel_outcome(self, profile, channel_id, channel_name),
            },
        }
    }
}

/// The profiles that a rule refers to, as a search profile.
pub open spec fn rule_profile(rule: NotificationRuleModel) -> SearchProfileModel {
    SearchProfileModel {
        id: Seq::empty(),
        label: Seq::empty(),
        query: None,
        keyword_profiles: rule.keyword_profile_ids,
        section_profiles: rule.section_profile_ids,
        channel_profiles: rule.channel_profile_ids,
        author_profiles: rule.author_profile_ids,
        channels: Seq::empty(),
        authors: Seq::empty(),
    }
}

/// Appends copies of the values.
fn append_copies<T: DeepView + Clone>(target: &mut Vec<T>, more: &Vec<T>)
    requires
        crate::collections::clones_say_the_same::<T>(),
    ensures
        final(target).deep_view() == old(target).deep_view() + more.deep_view(),
{
    let mut i: usize = 0;
    assert(more.deep_view().take(0) =~= Seq::empty());
    assert(target.deep_view() + Seq::<T::V>::empty() =~= target.deep_view());
    while i < more.len()
        invariant
            i <= more.len(),
            crate::collections::clones_say_the_same::<T>(),
            target.deep_view() == old(target).deep_view() + more.deep_view().take(i as int),
        decreases more.len() - i,
    {
        let ghost before = target.deep_view();
        let value = more[i].clone();
        assert(cloned(more[i as int], value));
        let ghost meaning = value.deep_view();
        target.push(value);
        i += 1;
        assert(target.deep_view() =~= before.push(meaning));
        assert(more.deep_view().take(i as int) =~= more.deep_view().take(i - 1).push(meaning));
        assert(target.deep_view() =~= old(target).deep_view() + more.deep_view().take(i as int));
    }
    assert(more.deep_view().take(i as int) =~= more.deep_view());
}

/// Whether a channel passes the channels, sections and channel profiles of a search profile.
pub fn profile_channel_matches_candidate(
    settings: &AppSettings,
    profile: &SearchProfile,
    channel_id: &str,
    channel_name: &str,
) -> (r: Result<bool, SettingsError>)
    ensures
        outcome(r) == channel_outcome(
            settings.deep_view(),
            profile.deep_view(),
            channel_id@,
            channel_name@,
        ),
{
    let ghost sections = settings.section_profiles.deep_view();
    let ghost profiles = settings.channel_profiles.deep_view();
    let ghost section_ids = profile.section_profiles.deep_view();
    let ghost profile_ids = profile.channel_profiles.deep_view();
    let mut allow: Vec<String> = Vec::new();
    let mut allow_names: Vec<PatternMatcher> = Vec::new();
    let mut deny: Vec<String> = Vec::new();
    let mut deny_names: Vec<PatternMatcher> = Vec::new();
    assert(allow.deep_view() =~= Seq::empty());
    append_copies(&mut allow, profile.channels.members());
    assert(allow.deep_view() =~= profile.channels.deep_view());
    assert(section_ids.take(0) =~= Seq::empty());
    assert(allow.deep_view() + Seq::<Seq<char>>::empty() =~= allow.deep_view());
    assert(allow_names.deep_view() =~= Seq::empty());
    let mut i: usize = 0;
    while i < profile.section_profiles.len()
        invariant
            i <= profile.section_profiles.len(),
            sections == settings.section_profiles.deep_view(),
            section_ids == profile.section_profiles.deep_view(),
            forall|k: int|
                0 <= k < i ==> with_id::<SectionProfile>(sections, #[trigger] section_ids[k]) is Some,
            allow.deep_view() == profile.channels.deep_view() + section_channels(
                sections,
                section_ids.take(i as int),
            ),
            allow_names.deep_view() == section_matchers(sections, section_ids.take(i as int)),
        decreases profile.section_profiles.len() - i,
    {
        let id = profile.section_profiles[i].as_str();
        assert(section_ids[i as int] == id@);
        match find_by_id(&settings.section_profiles, id) {
            None => {
                proof {
                    lemma_first_match(
                        section_ids,
                        |id: Seq<char>| with_id::<SectionProfile>(sections, id) is None,
                        i as int,
                    );
                }
                return Err(missing_reference("section_profile", id));
            },
            Some(section) => {
                proof {
                    let next = section_ids.take(i as int + 1);
                    assert(next.drop_last() =~= section_ids.take(i as int));
                    assert(next.last() == id@);
                }
                let ghost allow_before = allow.deep_view();
                append_copies(&mut allow, section.channels.members());
                append_copies(&mut allow_names, &section.channel_name_matchers);
                assert(allow.deep_view() =~= profile.channels.deep_view() + section_channels(
                    sections,
                    section_ids.take(i as int + 1),
                ));
                assert(allow_names.deep_view() =~= section_matchers(
                    sections,
                    section_ids.take(i as int + 1),
                ));
            },
        }
        i += 1;
    }
    proof {
        lemma_first_match(
            section_ids,
            |id: Seq<char>| with_id::<SectionProfile>(sections, id) is None,
            i as int,
        );
        assert(section_ids.take(i as int) =~= section_ids);
        assert(profile_ids.take(0) =~= Seq::empty());
    }
    let ghost allow_base = allow.deep_view();
    let ghost names_base = allow_names.deep_view();
    assert(allow_base + Seq::<Seq<char>>::empty() =~= allow_base);
    assert(names_base + Seq::<PatternMatcherModel>::empty() =~= names_base);
    assert(deny.deep_view() =~= Seq::empty());
    assert(deny_names.deep_view() =~= Seq::empty());
    let mut j: usize = 0;
    while j < profile.channel_profiles.len()
        invariant
            j <= profile.channel_profiles.len(),
            profiles == settings.channel_profiles.deep_view(),
            profile_ids == profile.channel_profiles.deep_view(),
            forall|k: int|
                0 <= k < j ==> with_id::<ChannelProfile>(profiles, #[trigger] profile_ids[k]) is Some,
            allow.deep_view() == allow_base + profile_channels(
                profiles,
                profile_ids.take(j as int),
                ProfileMode::Allow,
            ),
            allow_names.deep_view() == names_base + profile_matchers(
                profiles,
                profile_ids.take(j as int),
                ProfileMode::Allow,
            ),
            deny.deep_view() == profile_channels(
                profiles,
                profile_ids.take(j as int),
                ProfileMode::Deny,
            ),
            deny_names.deep_view() == profile_matchers(
                profiles,
                profile_ids.take(j as int),
                ProfileMode::Deny,
            ),
            missing_section(
                settings.section_profiles.deep_view(),
                profile.section_profiles.deep_view(),
            ) is None,
        decreases profile.channel_profiles.len() - j,
    {
        let id = profile.channel_profiles[j].as_str();
        assert(profile_ids[j as int] == id@);
        match find_by_id(&settings.channel_profiles, id) {
            None => {
                proof {
                    lemma_first_match(
                        profile_ids,
                        |id: Seq<char>| with_id::<ChannelProfile>(profiles, id) is None,
                        j as int,
                    );
                }
                return Err(missing_reference("channel_profile", id));
            },
            Some(found) => {
                let ghost next = profile_ids.take(j as int + 1);
                proof {
                    assert(next.drop_last() =~= profile_ids.take(j as int));
                    assert(next.last() == id@);
                }
                match found.mode {
                    ProfileMode::Allow => {
                        append_copies(&mut allow, found.channels.members());
                        append_copies(&mut allow_names, &found.channel_name_matchers);
                    },
                    ProfileMode::Deny => {
                        append_copies(&mut deny, found.channels.members());
                        append_copies(&mut deny_names, &found.channel_name_matchers);
                    },
                }
                assert(allow.deep_view() =~= allow_base + profile_channels(
                    profiles,
                    next,
                    ProfileMode::Allow,
                ));
                assert(allow_names.deep_view() =~= names_base + profile_matchers(
                    profiles,
                    next,
                    ProfileMode::Allow,
                ));
                assert(deny.deep_view() =~= profile_channels(profiles, next, ProfileMode::Deny));
                assert(deny_names.deep_view() =~= profile_matchers(
                    profiles,
                    next,
                    ProfileMode::Deny,
                ));
            },
        }
        j += 1;
    }
    proof {
        lemma_first_match(
            profile_ids,
            |id: Seq<char>| with_id::<ChannelProfile>(profiles, id) is None,
            j as int,
        );
        assert(profile_ids.take(j as int) =~= profile_ids);
    }
    if contains_text(&deny, channel_id) {
        return Ok(false);
    }
    match any_channel_name_matches(&deny_names, channel_name) {
        Ok(true) => {
            return Ok(false);
        },
        Ok(false) => {},
        Err(error) => {
            return Err(as_settings_error(error));
        },
    }
    if allow.len() == 0 && allow_names.len() == 0 {
        return Ok(true);
    }
    if contains_text(&allow, channel_id) {
        return Ok(true);
    }
    match any_channel_name_matches(&allow_names, channel_name) {
        Ok(found) => Ok(found),
        Err(error) => Err(as_settings_error(error)),
    }
}

/// Whether an author passes the authors and author profiles of a search profile.
pub fn profile_author_matches(
    settings: &AppSettings,
    profile: &SearchProfile,
    item: &TimelineItem,
) -> (r: Result<bool, SettingsError>)
    ensures
        outcome(r) == author_outcome(settings.deep_view(), profile.deep_view(), item.author_id@),
{
    let ghost profiles = settings.author_profiles.deep_view();
    let ghost ids = profile.author_profiles.deep_view();
    let mut allow: Vec<String> = Vec::new();
    let mut deny: Vec<String> = Vec::new();
    assert(allow.deep_view() =~= Seq::empty());
    assert(deny.deep_view() =~= Seq::empty());
    append_copies(&mut allow, profile.authors.members());
    assert(ids.take(0) =~= Seq::empty());
    assert(allow.deep_view() =~= profile.authors.deep_view() + Seq::<Seq<char>>::empty());
    let mut i: usize = 0;
    while i < profile.author_profiles.len()
        invariant
            i <= profile.author_profiles.len(),
            profiles == settings.author_profiles.deep_view(),
            ids == profile.author_profiles.deep_view(),
            forall|k: int|
                0 <= k < i ==> with_id::<AuthorProfile>(profiles, #[trigger] ids[k]) is Some,
            allow.deep_view() == profile.authors.deep_view() + profile_authors(
                profiles,
                ids.take(i as int),
                ProfileMode::Allow,
            ),
            deny.deep_view() == profile_authors(profiles, ids.take(i as int), ProfileMode::Deny),
        decreases profile.author_profiles.len() - i,
    {
        let id = profile.author_profiles[i].as_str();
        assert(ids[i as int] == id@);
        match find_by_id(&settings.author_profiles, id) {
            None => {
                proof {
                    lemma_first_match(
                        ids,
                        |id: Seq<char>| with_id::<AuthorProfile>(profiles, id) is None,
                        i as int,
                    );
                }
                return Err(missing_reference("author_profile", id));
            },
            Some(found) => {
                let ghost next = ids.take(i as int + 1);
                proof {
                    assert(next.drop_last() =~= ids.take(i as int));
                    assert(next.last() == id@);
                }
                match found.mode {
                    ProfileMode::Allow => append_copies(&mut allow, found.authors.members()),
                    ProfileMode::Deny => append_copies(&mut deny, found.authors.members()),
                }
                assert(allow.deep_view() =~= profile.authors.deep_view() + profile_authors(
                    profiles,
                    next,
                    ProfileMode::Allow,
                ));
                assert(deny.deep_view() =~= profile_authors(profiles, next, ProfileMode::Deny));
            },
        }
        i += 1;
    }
    proof {
        lemma_first_match(
            ids,
            |id: Seq<char>| with_id::<AuthorProfile>(profiles, id) is None,
            i as int,
        );
        assert(ids.take(i as int) =~= ids);
    }
    if contains_text(&deny, item.author_id.as_str()) {
        return Ok(false);
    }
    Ok(allow.len() == 0 || contains_text(&allow, item.author_id.as_str()))
}

/// Whether an item's text passes the keyword profiles of a search profile.
pub fn profile_keyword_matches(
    settings: &AppSettings,
    profile: &SearchProfile,
    item: &TimelineItem,
) -> (r: Result<bool, SettingsError>)
    ensures
        outcome(r) == keyword_outcome(
            settings.keyword_profiles.deep_view(),
            profile.keyword_profiles.deep_view(),
            item.body@,
            false,
            false,
        ),
{
    let ghost profiles = settings.keyword_profiles.deep_view();
    let ghost ids = profile.keyword_profiles.deep_view();
    let mut wanted = false;
    let mut found = false;
    let mut i: usize = 0;
    assert(ids.skip(0) =~= ids);
    while i < profile.keyword_profiles.len()
        invariant
            i <= profile.keyword_profiles.len(),
            profiles == settings.keyword_profiles.deep_view(),
            ids == profile.keyword_profiles.deep_view(),
            keyword_outcome(profiles, ids, item.body@, false, false) == keyword_outcome(
                profiles,
                ids.skip(i as int),
                item.body@,
                wanted,
                found,
            ),
        decreases profile.keyword_profiles.len() - i,
    {
        let id = profile.keyword_profiles[i].as_str();
        assert(ids.skip(i as int).first() == id@);
        assert(ids.skip(i as int).skip(1) =~= ids.skip(i as int + 1));
        match find_by_id(&settings.keyword_profiles, id) {
            None => {
                return Err(missing_reference("keyword_profile", id));
            },
            Some(keyword_profile) => {
                match any_matches(&keyword_profile.matchers, item.body.as_str()) {
                    Err(error) => {
                        return Err(as_settings_error(error));
                    },
                    Ok(matched) => {
                        match keyword_profile.mode {
                            ProfileMode::Allow => {
                                wanted = true;
                                found = found || matched;
                            },
                            ProfileMode::Deny => {
                                if matched {
                                    return Ok(false);
                                }
                            },
                        }
                    },
                }
            },
        }
        i += 1;
    }
    Ok(!wanted || found)
}

/// Whether an item passes the profiles that a search profile refers to.
fn profile_matches_item(settings: &AppSettings, profile: &SearchProfile, item: &TimelineItem) -> (r:
    Result<bool, SettingsError>)
    ensures
        outcome(r) == profiles_outcome(
            settings.deep_view(),
            profile.deep_view(),
            item.deep_view(),
        ),
{
    match profile_channel_matches_candidate(
        settings,
        profile,
        item.channel_id.as_str(),
        item.channel_name.as_str(),
    ) {
        Ok(true) => {},
        other => {
            return other;
        },
    }
    match profile_author_matches(settings, profile, item) {
        Ok(true) => {},
        other => {
            return other;
        },
    }
    profile_keyword_matches(settings, profile, item)
}

/// Whether an item holds a query in its text or in the name of its author or channel.
pub fn item_matches_text_query(item: &TimelineItem, query: &str) -> (r: bool)
    ensures
        r == query_matches(item.deep_view(), query@),
{
    holds_ignoring_case(item.body.as_str(), query) || holds_ignoring_case(
        item.author_name.as_str(),
        query,
    ) || holds_ignoring_case(item.channel_name.as_str(), query)
}

impl AppSettings {
    /// The search profile with the identifier.
    pub fn search_profile(&self, profile_id: &str) -> (r: Option<&SearchProfile>)
        ensures
            match r {
                Some(profile) => self.deep_view().search_profile(profile_id@) == Some(
                    profile.deep_view(),
                ),
                None => self.deep_view().search_profile(profile_id@) is None,
            },
    {
        find_by_id(&self.search_profiles, profile_id)
    }

    /// The section with the identifier.
    pub fn section_profile(&self, profile_id: &str) -> (r: Option<&SectionProfile>)
        ensures
            match r {
                Some(profile) => self.deep_view().section_profile(profile_id@) == Some(
                    profile.deep_view(),
                ),
                None => self.deep_view().section_profile(profile_id@) is None,
            },
    {
        find_by_id(&self.section_profiles, profile_id)
    }

    /// Whether a channel passes the active search profile.
    pub fn channel_matches_active_search_profile(
        &self,
        channel_id: &str,
        channel_name: &str,
    ) -> (r: Result<bool, SettingsError>)
        ensures
            outcome(r) == self.deep_view().active_channel_outcome(channel_id@, channel_name@),
    {
        match &self.active_search_profile_id {
            None => Ok(false),
            Some(profile_id) => match self.search_profile(profile_id.as_str()) {
                None => Err(missing_reference("search_profile", profile_id.as_str())),
                Some(profile) => profile_channel_matches_candidate(
                    self,
                    profile,
                    channel_id,
                    channel_name,
                ),
            },
        }
    }

    /// What the user may do in a channel.
    pub fn channel_permission(&self, channel_id: &str) -> (r: ChannelPermission)
        ensures
            r == self.deep_view().permission(channel_id@),
    {
        match self.channel_permissions.get(channel_id) {
            Some(permission) => *permission,
            None => self.default_channel_permission,
        }
    }

    /// Whether a channel may be read.
    pub fn can_read_channel(&self, channel_id: &str) -> (r: bool)
        ensures
            r == self.deep_view().permission(channel_id@).readable(),
    {
        self.channel_permission(channel_id).can_read()
    }

    /// Whether a channel may be written to.
    pub fn can_write_channel(&self, channel_id: &str) -> (r: bool)
        ensures
            r == self.deep_view().permission(channel_id@).writable(),
    {
        self.channel_permission(channel_id).can_write()
    }

    /// Whether a rule matches an item.
    pub fn notification_rule_matches(&self, rule: &NotificationRule, item: &TimelineItem) -> (r:
        Result<bool, SettingsError>)
        ensures
            outcome(r) == self.deep_view().rule_outcome(rule.deep_view(), item.deep_view()),
    {
        match rule.matches(item) {
            Ok(true) => {},
            other => {
                return other;
            },
        }
        if rule.keyword_profile_ids.len() > 0 || rule.section_profile_ids.len() > 0
            || rule.channel_profile_ids.len() > 0 || rule.author_profile_ids.len() > 0 {
            let mut profile = SearchProfile::default();
            append_copies(&mut profile.keyword_profiles, &rule.keyword_profile_ids);
            append_copies(&mut profile.section_profiles, &rule.section_profile_ids);
            append_copies(&mut profile.channel_profiles, &rule.channel_profile_ids);
            append_copies(&mut profile.author_profiles, &rule.author_profile_ids);
            assert(profile.deep_view() =~= rule_profile(rule.deep_view()));
            match profile_matches_item(self, &profile, item) {
                Ok(true) => {},
                other => {
                    return other;
                },
            }
        }
        if rule.search_profile_ids.len() == 0 {
            return Ok(true);
        }
        let ghost ids = rule.search_profile_ids.deep_view();
        let mut i: usize = 0;
        assert(ids.skip(0) =~= ids);
        while i < rule.search_profile_ids.len()
            invariant
                i <= rule.search_profile_ids.len(),
                ids == rule.search_profile_ids.deep_view(),
                self.deep_view().rule_outcome(rule.deep_view(), item.deep_view())
                    == self.deep_view().any_search_outcome(ids.skip(i as int), item.deep_view()),
            decreases rule.search_profile_ids.len() - i,
        {
            assert(ids.skip(i as int).first() == rule.search_profile_ids[i as int]@);
            assert(ids.skip(i as int).skip(1) =~= ids.skip(i as int + 1));
            match self.search_profile_matches(rule.search_profile_ids[i].as_str(), item) {
                Ok(false) => {},
                other => {
                    return other;
                },
            }
            i += 1;
        }
        Ok(false)
    }

    /// Whether an item passes a search profile.
    pub fn search_profile_matches(&self, profile_id: &str, item: &TimelineItem) -> (r: Result<
        bool,
        SettingsError,
    >)
        ensures
            outcome(r) == self.deep_view().search_outcome(profile_id@, item.deep_view()),
    {
        match self.search_profile(profile_id) {
            None => Err(missing_reference("search_profile", profile_id)),
            Some(profile) => {
                match profile_matches_item(self, profile, item) {
                    Ok(true) => {},
                    other => {
                        return other;
                    },
                }
                match &profile.query {
                    Some(query) => {
                        if blank(query.as_str()) {
                            Ok(true)
                        } else {
                            Ok(item_matches_text_query(item, trimmed(query.as_str()).as_str()))
                        }
                    },
                    None => Ok(true),
                }
            },
        }
    }
}

/// Whether a channel passes a single channel profile: its identifier is listed or its name
/// matches.
pub open spec fn channel_listed_outcome(
    channels: Seq<Seq<char>>,
    matchers: Seq<PatternMatcherModel>,
    channel_id: Seq<char>,
    channel_name: Seq<char>,
) -> Result<bool, Seq<char>> {
    if channels.contains(channel_id) {
        Ok(true)
    } else {
        any_channel_name_outcome(matchers, channel_name)
    }
}

impl TimelinePolicyModel {
    /// Whether a channel is watched: with none listed, all are.
    pub open spec fn effectively_watched(self, channel_id: Seq<char>) -> bool {
        self.watched_channels.len() == 0 || self.watched_channels.contains(channel_id)
    }

    /// The weight of a channel; one if none is set.
    pub open spec fn weight(self, channel_id: Seq<char>) -> u8 {
        match lookup(self.channel_weights, channel_id) {
            Some(weight) => weight,
            None => 1,
        }
    }

    /// The keywords that a text holds, in the order of the settings.
    pub open spec fn keywords_in(self, body: Seq<char>) -> Seq<Seq<char>> {
        self.focus_keywords.filter(|keyword: Seq<char>| contains_ignoring_case(body, keyword))
    }
}

impl TimelinePolicy {
    /// Whether a channel is on the list of watched channels.
    pub fn is_watched(&self, channel_id: &str) -> (r: bool)
        ensures
            r == self.deep_view().watched_channels.contains(channel_id@),
    {
        self.watched_channels.contains(channel_id)
    }

    /// Whether a channel is watched: with none listed, all are.
    pub fn is_effectively_watched(&self, channel_id: &str) -> (r: bool)
        ensures
            r == self.deep_view().effectively_watched(channel_id@),
    {
        self.watched_channels.is_empty() || self.is_watched(channel_id)
    }

    /// The weight of a channel.
    pub fn weight_for(&self, channel_id: &str) -> (r: u8)
        ensures
            r == self.deep_view().weight(channel_id@),
    {
        match self.channel_weights.get(channel_id) {
            Some(weight) => *weight,
            None => 1,
        }
    }

    /// The keywords that a text holds, in the order of the settings.
    pub fn matching_keywords(&self, body: &str) -> (r: Vec<String>)
        ensures
            r.deep_view() == self.deep_view().keywords_in(body@),
    {
        let lower = body.to_lowercase();
        let ghost all = self.focus_keywords.deep_view();
        let ghost keep = |keyword: Seq<char>| contains_ignoring_case(body@, keyword);
        let mut found: Vec<String> = Vec::new();
        let mut i: usize = 0;
        proof {
            reveal(Seq::filter);
            assert(all.take(0) =~= Seq::empty());
            assert(found.deep_view() =~= all.take(0).filter(keep));
        }
        while i < self.focus_keywords.len()
            invariant
                i <= self.focus_keywords.len(),
                lower@ == lowercase(body@),
                all == self.focus_keywords.deep_view(),
                keep == (|keyword: Seq<char>| contains_ignoring_case(body@, keyword)),
                found.deep_view() == all.take(i as int).filter(keep),
            decreases self.focus_keywords.len() - i,
        {
            let ghost before = found.deep_view();
            let keyword = self.focus_keywords[i].as_str();
            proof {
                reveal(Seq::filter);
                assert(all.take(i as int + 1).drop_last() =~= all.take(i as int));
                assert(all.take(i as int + 1).last() == keyword@);
            }
            if holds(lower.as_str(), keyword.to_lowercase().as_str()) {
                found.push(owned(keyword));
                assert(found.deep_view() =~= before.push(keyword@));
            }
            i += 1;
        }
        assert(all.take(i as int) =~= all);
        found
    }
}

/// Matchers whose regular expressions are all accepted give an answer on every text.
proof fn lemma_accepted_matchers_answer(matchers: Seq<PatternMatcherModel>, haystack: Seq<char>)
    requires
        first_invalid(matchers) is None,
    ensures
        any_outcome(matchers, haystack) is Ok,
    decreases matchers.len(),
{
    if matchers.len() > 0 {
        lemma_accepted_matchers_answer(matchers.skip(1), haystack);
    }
}

/// A rule that is found valid gives an answer on every item.
pub proof fn law_valid_rules_answer(rule: NotificationRuleModel, item: TimelineItemModel)
    ensures
        rule.validity() is Ok <==> rule.item_outcome(item) is Ok,
{
    if rule.validity() is Ok {
        lemma_accepted_matchers_answer(rule.includes, item.body);
        lemma_accepted_matchers_answer(rule.exclude, item.body);
    }
}

/// A rule that is switched off matches nothing, unless one of its patterns or hours is wrong.
pub proof fn law_disabled_rule_never_matches(
    settings: AppSettingsModel,
    rule: NotificationRuleModel,
    item: TimelineItemModel,
)
    requires
        !rule.enabled,
    ensures
        settings.rule_outcome(rule, item) != Ok::<bool, SettingsErrorModel>(true),
{
}

/// A channel that is written to is also read.
pub proof fn law_writable_channels_are_readable(settings: AppSettingsModel, channel_id: Seq<char>)
    ensures
        settings.permission(channel_id).writable() ==> settings.permission(
            channel_id,
        ).readable(),
{
}

/// A denied channel passes no search profile, whatever the profile allows.
pub proof fn law_denial_goes_before_allowance(
    allow: Seq<Seq<char>>,
    allow_names: Seq<PatternMatcherModel>,
    deny: Seq<Seq<char>>,
    deny_names: Seq<PatternMatcherModel>,
    channel_id: Seq<char>,
    channel_name: Seq<char>,
)
    requires
        deny.contains(channel_id),
    ensures
        channel_lists_outcome(
            allow,
            allow_names,
            deny,
            deny_names,
            channel_id,
            channel_name,
        ) == Ok::<bool, SettingsErrorModel>(false),
{
}

} // verus!
