//! The editor of the settings: profiles, notification rules and access to channels.
use vstd::prelude::*;
use vstd::string::*;

use crate::actions::{checked, typed};
use crate::api::labelled;
use crate::auth::enclosed;
use crate::choices::{channel_permission_id, parse_quiet_hours, permission_id};
use crate::collections::{
    bind, find_by_id, first_match, order_of, remove_id, sort_values, sorted, unbind, upsert,
    upserted, with_id, without_id, Identified, Order, TextSet,
};
use crate::patterns::{PatternMatcher, PatternMatcherModel};
use crate::queries::ByLabelThenId;
use crate::rule_ids::{default_rule_label, written_id};
use crate::settings::{
    AppSettings, AppSettingsModel, AuthorProfile, AuthorProfileModel, ChannelPermission,
    ChannelProfile, ChannelProfileModel, KeywordProfile, KeywordProfileModel, NotificationAction,
    NotificationRule, NotificationRuleModel, ProfileMode, QuietHours, RuleId, SearchProfile,
    SearchProfileModel, SectionProfile, SectionProfileModel,
};
use crate::state::{Names, UiState, UiStateModel};
use crate::text::{
    join, join_texts, non_blank, owned, precedes, same_text, text_before, trimmed_non_blank,
};

verus! {

/// The kinds of profile that search profiles and notification rules refer to.
#[derive(Clone, Copy, Debug, PartialEq, Eq, Structural)]
pub enum ProfileKind {
    Keyword,
    Section,
    Channel,
    Author,
}

/// The condition of not being an identifier.
pub open spec fn other_than(id: Seq<char>) -> spec_fn(Seq<char>) -> bool {
    |existing: Seq<char>| existing != id
}

/// References without those to an identifier.
pub open spec fn without_reference(ids: Seq<Seq<char>>, id: Seq<char>) -> Seq<Seq<char>> {
    ids.filter(other_than(id))
}

/// References without those to an identifier.
fn drop_reference(ids: &Vec<String>, id: &str) -> (r: Vec<String>)
    ensures
        r.deep_view() == without_reference(ids.deep_view(), id@),
{
    let ghost all = ids.deep_view();
    let ghost keep = other_than(id@);
    let mut out: Vec<String> = Vec::new();
    let mut i: usize = 0;
    proof {
        reveal(Seq::filter);
        assert(all.take(0) =~= Seq::empty());
        assert(out.deep_view() =~= all.take(0).filter(keep));
    }
    while i < ids.len()
        invariant
            i <= ids.len(),
            all == ids.deep_view(),
            keep == other_than(id@),
            out.deep_view() == all.take(i as int).filter(keep),
        decreases ids.len() - i,
    {
        let ghost before = out.deep_view();
        proof {
            reveal(Seq::filter);
            assert(all.take(i + 1).drop_last() =~= all.take(i as int));
            assert(all.take(i + 1).last() == ids@[i as int]@);
        }
        if !same_text(ids[i].as_str(), id) {
            out.push(ids[i].clone());
            assert(out.deep_view() =~= before.push(ids@[i as int]@));
        }
        i += 1;
    }
    assert(all.take(i as int) =~= all);
    out
}

/// A search profile without its references to a profile.
pub open spec fn search_without(profile: SearchProfileModel, kind: ProfileKind, id: Seq<char>) ->
    SearchProfileModel {
    match kind {
        ProfileKind::Keyword => SearchProfileModel {
            keyword_profiles: without_reference(profile.keyword_profiles, id),
            ..profile
        },
        ProfileKind::Section => SearchProfileModel {
            section_profiles: without_reference(profile.section_profiles, id),
            ..profile
        },
        ProfileKind::Channel => SearchProfileModel {
            channel_profiles: without_reference(profile.channel_profiles, id),
            ..profile
        },
        ProfileKind::Author => SearchProfileModel {
            author_profiles: without_reference(profile.author_profiles, id),
            ..profile
        },
    }
}

/// A notification rule without its references to a profile.
pub open spec fn rule_without(rule: NotificationRuleModel, kind: ProfileKind, id: Seq<char>) ->
    NotificationRuleModel {
    match kind {
        ProfileKind::Keyword => NotificationRuleModel {
            keyword_profile_ids: without_reference(rule.keyword_profile_ids, id),
            ..rule
        },
        ProfileKind::Section => NotificationRuleModel {
            section_profile_ids: without_reference(rule.section_profile_ids, id),
            ..rule
        },
        ProfileKind::Channel => NotificationRuleModel {
            channel_profile_ids: without_reference(rule.channel_profile_ids, id),
            ..rule
        },
        ProfileKind::Author => NotificationRuleModel {
            author_profile_ids: without_reference(rule.author_profile_ids, id),
            ..rule
        },
    }
}

/// Settings without references to a profile.
pub open spec fn forgotten(settings: AppSettingsModel, kind: ProfileKind, id: Seq<char>) ->
    AppSettingsModel {
    AppSettingsModel {
        search_profiles: settings.search_profiles.map_values(
            |profile: SearchProfileModel| search_without(profile, kind, id),
        ),
        notification_rules: settings.notification_rules.map_values(
            |rule: NotificationRuleModel| rule_without(rule, kind, id),
        ),
        ..settings
    }
}

/// A search profile without its references to a profile.
fn clean_search(profile: &SearchProfile, kind: ProfileKind, id: &str) -> (r: SearchProfile)
    ensures
        r.deep_view() == search_without(profile.deep_view(), kind, id@),
{
    let mut copy = profile.clone();
    match kind {
        ProfileKind::Keyword => {
            copy.keyword_profiles = drop_reference(&profile.keyword_profiles, id);
        },
        ProfileKind::Section => {
            copy.section_profiles = drop_reference(&profile.section_profiles, id);
        },
        ProfileKind::Channel => {
            copy.channel_profiles = drop_reference(&profile.channel_profiles, id);
        },
        ProfileKind::Author => {
            copy.author_profiles = drop_reference(&profile.author_profiles, id);
        },
    }
    copy
}

/// A notification rule without its references to a profile.
fn clean_rule(rule: &NotificationRule, kind: ProfileKind, id: &str) -> (r: NotificationRule)
    ensures
        r.deep_view() == rule_without(rule.deep_view(), kind, id@),
{
    let mut copy = rule.clone();
    match kind {
        ProfileKind::Keyword => {
            copy.keyword_profile_ids = drop_reference(&rule.keyword_profile_ids, id);
        },
        ProfileKind::Section => {
            copy.section_profile_ids = drop_reference(&rule.section_profile_ids, id);
        },
        ProfileKind::Channel => {
            copy.channel_profile_ids = drop_reference(&rule.channel_profile_ids, id);
        },
        ProfileKind::Author => {
            copy.author_profile_ids = drop_reference(&rule.author_profile_ids, id);
        },
    }
    copy
}

/// Takes the references to a profile out of search profiles and notification rules.
fn forget_references(settings: &mut AppSettings, kind: ProfileKind, id: &str)
    ensures
        final(settings).deep_view() == forgotten(old(settings).deep_view(), kind, id@),
{
    let ghost start = settings.deep_view();
    let mut searches: Vec<SearchProfile> = Vec::new();
    let mut i: usize = 0;
    while i < settings.search_profiles.len()
        invariant
            i <= settings.search_profiles.len(),
            searches.len() == i,
            settings.deep_view() == start,
            forall|k: int|
                0 <= k < i ==> (#[trigger] searches.deep_view()[k]) == search_without(
                    start.search_profiles[k],
                    kind,
                    id@,
                ),
        decreases settings.search_profiles.len() - i,
    {
        let ghost before = searches.deep_view();
        assert(start.search_profiles[i as int] == settings.search_profiles@[i as int].deep_view());
        let clean = clean_search(&settings.search_profiles[i], kind, id);
        searches.push(clean);
        assert(searches.deep_view() =~= before.push(clean.deep_view()));
        i += 1;
    }
    let mut rules: Vec<NotificationRule> = Vec::new();
    let mut k: usize = 0;
    while k < settings.notification_rules.len()
        invariant
            k <= settings.notification_rules.len(),
            rules.len() == k,
            settings.deep_view() == start,
            forall|j: int|
                0 <= j < k ==> (#[trigger] rules.deep_view()[j]) == rule_without(
                    start.notification_rules[j],
                    kind,
                    id@,
                ),
        decreases settings.notification_rules.len() - k,
    {
        let ghost before = rules.deep_view();
        assert(start.notification_rules[k as int]
            == settings.notification_rules@[k as int].deep_view());
        let clean = clean_rule(&settings.notification_rules[k], kind, id);
        rules.push(clean);
        assert(rules.deep_view() =~= before.push(clean.deep_view()));
        k += 1;
    }
    settings.search_profiles = searches;
    settings.notification_rules = rules;
    assert(settings.search_profiles.deep_view() =~= forgotten(start, kind, id@).search_profiles);
    assert(settings.notification_rules.deep_view() =~= forgotten(
        start,
        kind,
        id@,
    ).notification_rules);
}

/// The label that was typed, else the identifier.
pub open spec fn label_or(label: Seq<char>, id: Seq<char>) -> Seq<char> {
    match trimmed_non_blank(label) {
        Some(label) => label,
        None => id,
    }
}

/// The label that was typed, else the identifier.
fn label_or_id(label: &str, id: &str) -> (r: String)
    ensures
        r@ == label_or(label@, id@),
{
    match non_blank(label) {
        Some(label) => label,
        None => owned(id),
    }
}

/// The identifier that was typed, or what the user is told if there is none.
fn typed_id(id: &str, message: &str) -> (r: Result<String, String>)
    ensures
        checked(r) == typed(id@, message@),
{
    match non_blank(id) {
        Some(id) => Ok(id),
        None => Err(owned(message)),
    }
}

/// What was picked, or what the user is told if nothing was.
pub open spec fn picked(id: Option<Seq<char>>, message: Seq<char>) -> Result<Seq<char>, Seq<char>> {
    crate::actions::chosen(id, message)
}

/// What was picked, or what the user is told if nothing was.
fn pick(id: Option<&str>, message: &str) -> (r: Result<String, String>)
    ensures
        checked(r) == picked(id.deep_view(), message@),
{
    match id {
        Some(id) => if id.is_empty() {
            Err(owned(message))
        } else {
            Ok(owned(id))
        },
        None => Err(owned(message)),
    }
}

impl UiStateModel {
    /// The state with other settings.
    pub open spec fn with_settings(self, settings: AppSettingsModel) -> Self {
        UiStateModel { settings, ..self }
    }
}

/// What a change of the settings does: it is made and the user told, or refused and the user told
/// why.
pub open spec fn changes(
    before: UiStateModel,
    after: UiStateModel,
    told: Result<Seq<char>, Seq<char>>,
    change: Result<UiStateModel, Seq<char>>,
    done: Seq<char>,
) -> bool {
    match change {
        Ok(changed) => after == changed && told == Ok::<Seq<char>, Seq<char>>(done),
        Err(message) => after == before && told == Err::<Seq<char>, Seq<char>>(message),
    }
}

/// A keyword profile as it was typed and picked, or what is missing or wrong.
pub open spec fn keyword_form(
    id: Seq<char>,
    label: Seq<char>,
    mode: ProfileMode,
    matchers: Result<Seq<PatternMatcherModel>, Seq<char>>,
) -> Result<KeywordProfileModel, Seq<char>> {
    match typed(id, "Keyword profile ID is required."@) {
        Ok(id) => match matchers {
            Ok(matchers) => Ok(KeywordProfileModel { id, label: label_or(label, id), mode, matchers }),
            Err(message) => Err(message),
        },
        Err(message) => Err(message),
    }
}

/// A section as it was typed and picked, or what is missing or wrong.
pub open spec fn section_form(
    id: Seq<char>,
    label: Seq<char>,
    channels: Seq<Seq<char>>,
    matchers: Result<Seq<PatternMatcherModel>, Seq<char>>,
) -> Result<SectionProfileModel, Seq<char>> {
    match typed(id, "Section ID is required."@) {
        Ok(id) => match matchers {
            Ok(matchers) => Ok(SectionProfileModel { id, label: label_or(label, id), channels, channel_name_matchers: matchers }),
            Err(message) => Err(message),
        },
        Err(message) => Err(message),
    }
}

/// A channel profile as it was typed and picked, or what is missing or wrong.
pub open spec fn channel_form(
    id: Seq<char>,
    label: Seq<char>,
    mode: ProfileMode,
    channels: Seq<Seq<char>>,
    matchers: Result<Seq<PatternMatcherModel>, Seq<char>>,
) -> Result<ChannelProfileModel, Seq<char>> {
    match typed(id, "Channel profile ID is required."@) {
        Ok(id) => match matchers {
            Ok(matchers) => Ok(ChannelProfileModel { id, label: label_or(label, id), mode, channels, channel_name_matchers: matchers }),
            Err(message) => Err(message),
        },
        Err(message) => Err(message),
    }
}

/// An author profile as it was typed and picked, or what is missing or wrong.
pub open spec fn author_form(
    id: Seq<char>,
    label: Seq<char>,
    mode: ProfileMode,
    authors: Seq<Seq<char>>,
) -> Result<AuthorProfileModel, Seq<char>> {
    match typed(id, "Author profile ID is required."@) {
        Ok(id) => Ok(AuthorProfileModel { id, label: label_or(label, id), mode, authors }),
        Err(message) => Err(message),
    }
}

/// The state with the default permission for channels set.
pub open spec fn with_default_permission(state: UiStateModel, permission: ChannelPermission) ->
    UiStateModel {
    state.with_settings(
        AppSettingsModel { default_channel_permission: permission, ..state.settings },
    ).filtered(true)
}

/// The state with the permission for a channel set.
pub open spec fn with_override(
    state: UiStateModel,
    channel_id: Seq<char>,
    permission: ChannelPermission,
) -> UiStateModel {
    state.with_settings(
        AppSettingsModel {
            channel_permissions: bind(state.settings.channel_permissions, channel_id, permission),
            ..state.settings
        },
    ).filtered(true)
}

/// The state without a permission for a channel of its own.
pub open spec fn without_override(state: UiStateModel, channel_id: Seq<char>) -> UiStateModel {
    state.with_settings(
        AppSettingsModel {
            channel_permissions: unbind(state.settings.channel_permissions, channel_id),
            ..state.settings
        },
    ).filtered(true)
}

/// The state with a keyword profile saved.
pub open spec fn with_keyword(state: UiStateModel, profile: KeywordProfileModel) -> UiStateModel {
    state.with_settings(
        AppSettingsModel {
            keyword_profiles: upserted::<KeywordProfile>(state.settings.keyword_profiles, profile),
            ..state.settings
        },
    ).filtered(true)
}

/// The state with a keyword profile deleted, and every reference to it.
pub open spec fn without_keyword(state: UiStateModel, id: Seq<char>) -> UiStateModel {
    let settings = forgotten(
        AppSettingsModel {
            keyword_profiles: without_id::<KeywordProfile>(state.settings.keyword_profiles, id),
            ..state.settings
        },
        ProfileKind::Keyword,
        id,
    );
    state.with_settings(settings).filtered(true)
}

/// The state with a section saved.
pub open spec fn with_section(state: UiStateModel, profile: SectionProfileModel) -> UiStateModel {
    state.with_settings(
        AppSettingsModel {
            section_profiles: upserted::<SectionProfile>(state.settings.section_profiles, profile),
            ..state.settings
        },
    ).filtered(true)
}

/// The state with a section deleted, and every reference to it.
pub open spec fn without_section(state: UiStateModel, id: Seq<char>) -> UiStateModel {
    let settings = forgotten(
        AppSettingsModel {
            section_profiles: without_id::<SectionProfile>(state.settings.section_profiles, id),
            ..state.settings
        },
        ProfileKind::Section,
        id,
    );
    UiStateModel {
        section_filter: if state.section_filter == Some(id) {
            None
        } else {
            state.section_filter
        },
        settings,
        ..state
    }.filtered(true)
}

/// The state with a channel profile saved.
pub open spec fn with_channel(state: UiStateModel, profile: ChannelProfileModel) -> UiStateModel {
    state.with_settings(
        AppSettingsModel {
            channel_profiles: upserted::<ChannelProfile>(state.settings.channel_profiles, profile),
            ..state.settings
        },
    ).filtered(true)
}

/// The state with a channel profile deleted, and every reference to it.
pub open spec fn without_channel(state: UiStateModel, id: Seq<char>) -> UiStateModel {
    let settings = forgotten(
        AppSettingsModel {
            channel_profiles: without_id::<ChannelProfile>(state.settings.channel_profiles, id),
            ..state.settings
        },
        ProfileKind::Channel,
        id,
    );
    state.with_settings(settings).filtered(true)
}

/// The state with a author profile saved.
pub open spec fn with_author(state: UiStateModel, profile: AuthorProfileModel) -> UiStateModel {
    state.with_settings(
        AppSettingsModel {
            author_profiles: upserted::<AuthorProfile>(state.settings.author_profiles, profile),
            ..state.settings
        },
    ).filtered(true)
}

/// The state with a author profile deleted, and every reference to it.
pub open spec fn without_author(state: UiStateModel, id: Seq<char>) -> UiStateModel {
    let settings = forgotten(
        AppSettingsModel {
            author_profiles: without_id::<AuthorProfile>(state.settings.author_profiles, id),
            ..state.settings
        },
        ProfileKind::Author,
        id,
    );
    state.with_settings(settings).filtered(true)
}

/// The first of the identifiers that no value has.
pub open spec fn unknown_id<T: Identified>(values: Seq<T::V>, ids: Seq<Seq<char>>) -> Option<
    Seq<char>,
> {
    first_match(ids, |id: Seq<char>| with_id::<T>(values, id) is None)
}

/// The first of the identifiers that no value has.
fn find_unknown<T: Identified>(values: &Vec<T>, ids: &Vec<String>) -> (r: Option<String>)
    ensures
        r.deep_view() == unknown_id::<T>(values.deep_view(), ids.deep_view()),
{
    let ghost all = ids.deep_view();
    let ghost unknown = |id: Seq<char>| with_id::<T>(values.deep_view(), id) is None;
    let mut i: usize = 0;
    assert(all.skip(0) =~= all);
    while i < ids.len()
        invariant
            i <= ids.len(),
            all == ids.deep_view(),
            unknown == (|id: Seq<char>| with_id::<T>(values.deep_view(), id) is None),
            first_match(all, unknown) == first_match(all.skip(i as int), unknown),
        decreases ids.len() - i,
    {
        assert(all.skip(i as int).first() == ids@[i as int]@);
        assert(all.skip(i as int).skip(1) =~= all.skip(i + 1));
        if find_by_id(values, ids[i].as_str()).is_none() {
            return Some(ids[i].clone());
        }
        i += 1;
    }
    assert(all.skip(i as int) =~= Seq::empty());
    None
}

/// What the user is told of references to profiles that are not there: of the first.
pub open spec fn unknown_reference(
    settings: AppSettingsModel,
    keywords: Seq<Seq<char>>,
    sections: Seq<Seq<char>>,
    channels: Seq<Seq<char>>,
    authors: Seq<Seq<char>>,
) -> Option<Seq<char>> {
    if let Some(id) = unknown_id::<KeywordProfile>(settings.keyword_profiles, keywords) {
        Some("Unknown keyword profile reference: "@ + id)
    } else if let Some(id) = unknown_id::<SectionProfile>(settings.section_profiles, sections) {
        Some("Unknown section reference: "@ + id)
    } else if let Some(id) = unknown_id::<ChannelProfile>(settings.channel_profiles, channels) {
        Some("Unknown channel profile reference: "@ + id)
    } else if let Some(id) = unknown_id::<AuthorProfile>(settings.author_profiles, authors) {
        Some("Unknown author profile reference: "@ + id)
    } else {
        None
    }
}

/// What the user is told of references to profiles that are not there.
fn find_unknown_reference(
    settings: &AppSettings,
    keywords: &Vec<String>,
    sections: &Vec<String>,
    channels: &Vec<String>,
    authors: &Vec<String>,
) -> (r: Option<String>)
    ensures
        r.deep_view() == unknown_reference(
            settings.deep_view(),
            keywords.deep_view(),
            sections.deep_view(),
            channels.deep_view(),
            authors.deep_view(),
        ),
{
    if let Some(id) = find_unknown(&settings.keyword_profiles, keywords) {
        return Some(labelled("Unknown keyword profile reference: ", id.as_str()));
    }
    if let Some(id) = find_unknown(&settings.section_profiles, sections) {
        return Some(labelled("Unknown section reference: ", id.as_str()));
    }
    if let Some(id) = find_unknown(&settings.channel_profiles, channels) {
        return Some(labelled("Unknown channel profile reference: ", id.as_str()));
    }
    if let Some(id) = find_unknown(&settings.author_profiles, authors) {
        return Some(labelled("Unknown author profile reference: ", id.as_str()));
    }
    None
}

/// A search profile as it was typed and picked, or what is missing or wrong.
pub open spec fn search_form(
    settings: AppSettingsModel,
    id: Seq<char>,
    label: Seq<char>,
    query: Seq<char>,
    keywords: Seq<Seq<char>>,
    sections: Seq<Seq<char>>,
    channels: Seq<Seq<char>>,
    authors: Seq<Seq<char>>,
) -> Result<SearchProfileModel, Seq<char>> {
    match typed(id, "Search profile ID is required."@) {
        Ok(id) => match unknown_reference(settings, keywords, sections, channels, authors) {
            Some(message) => Err(message),
            None => Ok(
                SearchProfileModel {
                    id,
                    label: label_or(label, id),
                    query: trimmed_non_blank(query),
                    keyword_profiles: keywords,
                    section_profiles: sections,
                    channel_profiles: channels,
                    author_profiles: authors,
                    channels: Seq::empty(),
                    authors: Seq::empty(),
                },
            ),
        },
        Err(message) => Err(message),
    }
}

/// The state with a search profile saved.
pub open spec fn with_search(state: UiStateModel, profile: SearchProfileModel) -> UiStateModel {
    state.with_settings(
        AppSettingsModel {
            search_profiles: upserted::<SearchProfile>(state.settings.search_profiles, profile),
            ..state.settings
        },
    ).filtered(true)
}

/// A notification rule without a reference to a search profile.
pub open spec fn rule_without_search(rule: NotificationRuleModel, id: Seq<char>) ->
    NotificationRuleModel {
    NotificationRuleModel {
        search_profile_ids: without_reference(rule.search_profile_ids, id),
        ..rule
    }
}

/// The state with a search profile deleted, and every reference to it; if it was active, none is.
pub open spec fn without_search(state: UiStateModel, id: Seq<char>) -> UiStateModel {
    state.with_settings(
        AppSettingsModel {
            search_profiles: without_id::<SearchProfile>(state.settings.search_profiles, id),
            active_search_profile_id: if state.settings.active_search_profile_id == Some(id) {
                None
            } else {
                state.settings.active_search_profile_id
            },
            notification_rules: state.settings.notification_rules.map_values(
                |rule: NotificationRuleModel| rule_without_search(rule, id),
            ),
            ..state.settings
        },
    ).filtered(true)
}

/// The rules with one replaced: the first that has the new one's identifier, or none and the new
/// one added at the end.
pub open spec fn with_rule(rules: Seq<NotificationRuleModel>, rule: NotificationRuleModel) -> Seq<
    NotificationRuleModel,
>
    decreases rules.len(),
{
    if rules.len() == 0 {
        seq![rule]
    } else if rules.first().id == rule.id {
        seq![rule] + rules.skip(1)
    } else {
        seq![rules.first()] + with_rule(rules.skip(1), rule)
    }
}

/// The rules that do not have an identifier.
pub open spec fn without_rule(rules: Seq<NotificationRuleModel>, id: RuleId) -> Seq<
    NotificationRuleModel,
> {
    rules.filter(|rule: NotificationRuleModel| rule.id != id)
}

/// The rules with one replaced.
fn put_rule(rules: &Vec<NotificationRule>, rule: NotificationRule) -> (r: Vec<NotificationRule>)
    ensures
        r.deep_view() == with_rule(rules.deep_view(), rule.deep_view()),
{
    let ghost all = rules.deep_view();
    let ghost new = rule.deep_view();
    let mut out: Vec<NotificationRule> = Vec::new();
    let mut i: usize = 0;
    assert(all.skip(0) =~= all);
    assert(out.deep_view() + with_rule(all, new) =~= with_rule(all, new));
    while i < rules.len() && rules[i].id != rule.id
        invariant
            i <= rules.len(),
            all == rules.deep_view(),
            new == rule.deep_view(),
            out.deep_view() + with_rule(all.skip(i as int), new) == with_rule(all, new),
        decreases rules.len() - i,
    {
        let ghost before = out.deep_view();
        let ghost rest = all.skip(i as int);
        assert(rest.first() == rules@[i as int].deep_view());
        assert(rest.skip(1) =~= all.skip(i + 1));
        let copy = rules[i].clone();
        out.push(copy);
        assert(out.deep_view() =~= before.push(copy.deep_view()));
        assert(out.deep_view() + with_rule(rest.skip(1), new) =~= before + (seq![rest.first()]
            + with_rule(rest.skip(1), new)));
        i += 1;
    }
    let ghost head = out.deep_view();
    let ghost rest = all.skip(i as int);
    out.push(rule);
    assert(out.deep_view() =~= head + seq![new]);
    if i < rules.len() {
        assert(rest.first() == rules@[i as int].deep_view());
        let mut k: usize = i + 1;
        assert(all.subrange(i + 1, k as int) =~= Seq::empty());
        assert(out.deep_view() =~= head + seq![new] + all.subrange(i + 1, k as int));
        while k < rules.len()
            invariant
                i < k <= rules.len(),
                all == rules.deep_view(),
                out.deep_view() == head + seq![new] + all.subrange(i + 1, k as int),
            decreases rules.len() - k,
        {
            let ghost before = out.deep_view();
            let copy = rules[k].clone();
            assert(all[k as int] == rules@[k as int].deep_view());
            out.push(copy);
            assert(out.deep_view() =~= before.push(copy.deep_view()));
            k += 1;
            assert(all.subrange(i + 1, k as int) =~= all.subrange(i + 1, k - 1).push(
                copy.deep_view(),
            ));
            assert(out.deep_view() =~= head + seq![new] + all.subrange(i + 1, k as int));
        }
        assert(all.subrange(i + 1, k as int) =~= rest.skip(1));
        assert(out.deep_view() =~= head + (seq![new] + rest.skip(1)));
    } else {
        assert(rest =~= Seq::empty());
    }
    out
}

/// The rules that do not have an identifier.
fn drop_rule(rules: &Vec<NotificationRule>, id: RuleId) -> (r: Vec<NotificationRule>)
    ensures
        r.deep_view() == without_rule(rules.deep_view(), id),
{
    let ghost all = rules.deep_view();
    let ghost keep = |rule: NotificationRuleModel| rule.id != id;
    let mut out: Vec<NotificationRule> = Vec::new();
    let mut i: usize = 0;
    proof {
        reveal(Seq::filter);
        assert(all.take(0) =~= Seq::empty());
        assert(out.deep_view() =~= all.take(0).filter(keep));
    }
    while i < rules.len()
        invariant
            i <= rules.len(),
            all == rules.deep_view(),
            keep == (|rule: NotificationRuleModel| rule.id != id),
            out.deep_view() == all.take(i as int).filter(keep),
        decreases rules.len() - i,
    {
        let ghost before = out.deep_view();
        proof {
            reveal(Seq::filter);
            assert(all.take(i + 1).drop_last() =~= all.take(i as int));
            assert(all.take(i + 1).last() == rules@[i as int].deep_view());
        }
        if rules[i].id != id {
            let copy = rules[i].clone();
            out.push(copy);
            assert(out.deep_view() =~= before.push(copy.deep_view()));
        }
        i += 1;
    }
    assert(all.take(i as int) =~= all);
    out
}

/// What the user typed and picked for a notification rule.
#[derive(Debug)]
pub struct RuleForm {
    pub label: String,
    pub enabled: bool,
    pub action: NotificationAction,
    pub keyword_profile_ids: Vec<String>,
    pub section_profile_ids: Vec<String>,
    pub channel_profile_ids: Vec<String>,
    pub author_profile_ids: Vec<String>,
    pub search_profile_ids: Vec<String>,
    pub thread_participation_only: bool,
    pub quiet_hours_enabled: bool,
    pub quiet_start_hour: Option<u8>,
    pub quiet_end_hour: Option<u8>,
}

/// The quiet hours of a form, or what is missing.
pub open spec fn form_quiet_hours(enabled: bool, start: Option<u8>, end: Option<u8>) -> Result<
    Option<QuietHours>,
    Seq<char>,
> {
    match (start, end) {
        _ if !enabled => Ok(None),
        (Some(start_hour), Some(end_hour)) => Ok(Some(QuietHours { start_hour, end_hour })),
        _ => Err("Quiet hours require both start and end time."@),
    }
}

impl RuleForm {
    /// Whether the form shows a rule as it is, or, without one, what a new rule starts with.
    pub open spec fn shows(&self, rule: Option<NotificationRuleModel>) -> bool {
        match rule {
            Some(rule) => {
                &&& self.label@ == rule.label
                &&& self.enabled == rule.enabled
                &&& self.action == rule.action
                &&& self.keyword_profile_ids.deep_view() == rule.keyword_profile_ids
                &&& self.section_profile_ids.deep_view() == rule.section_profile_ids
                &&& self.channel_profile_ids.deep_view() == rule.channel_profile_ids
                &&& self.author_profile_ids.deep_view() == rule.author_profile_ids
                &&& self.search_profile_ids.deep_view() == rule.search_profile_ids
                &&& self.thread_participation_only == rule.thread_participation_only
                &&& self.quiet_hours_enabled == (rule.quiet_hours is Some)
                &&& self.quiet_start_hour == (match rule.quiet_hours {
                    Some(hours) => Some(hours.start_hour),
                    None => None,
                })
                &&& self.quiet_end_hour == (match rule.quiet_hours {
                    Some(hours) => Some(hours.end_hour),
                    None => None,
                })
            },
            None => {
                &&& self.label@ == Seq::<char>::empty()
                &&& self.enabled
                &&& self.action == NotificationAction::Notify
                &&& self.keyword_profile_ids.deep_view() == Seq::<Seq<char>>::empty()
                &&& self.section_profile_ids.deep_view() == Seq::<Seq<char>>::empty()
                &&& self.channel_profile_ids.deep_view() == Seq::<Seq<char>>::empty()
                &&& self.author_profile_ids.deep_view() == Seq::<Seq<char>>::empty()
                &&& self.search_profile_ids.deep_view() == Seq::<Seq<char>>::empty()
                &&& !self.thread_participation_only
                &&& !self.quiet_hours_enabled
                &&& self.quiet_start_hour is None
                &&& self.quiet_end_hour is None
            },
        }
    }

    /// The form for a rule, or for a new one.
    pub fn of(rule: Option<&NotificationRule>) -> (r: Self)
        ensures
            r.shows(rule.deep_view()),
    {
        let form = match rule {
            Some(rule) => {
                let rule = rule.clone();
                let (start, end) = match rule.quiet_hours {
                    Some(hours) => (Some(hours.start_hour), Some(hours.end_hour)),
                    None => (None, None),
                };
                RuleForm {
                    label: rule.label,
                    enabled: rule.enabled,
                    action: rule.action,
                    keyword_profile_ids: rule.keyword_profile_ids,
                    section_profile_ids: rule.section_profile_ids,
                    channel_profile_ids: rule.channel_profile_ids,
                    author_profile_ids: rule.author_profile_ids,
                    search_profile_ids: rule.search_profile_ids,
                    thread_participation_only: rule.thread_participation_only,
                    quiet_hours_enabled: rule.quiet_hours.is_some(),
                    quiet_start_hour: start,
                    quiet_end_hour: end,
                }
            },
            None => RuleForm {
                label: String::new(),
                enabled: true,
                action: NotificationAction::Notify,
                keyword_profile_ids: Vec::new(),
                section_profile_ids: Vec::new(),
                channel_profile_ids: Vec::new(),
                author_profile_ids: Vec::new(),
                search_profile_ids: Vec::new(),
                thread_participation_only: false,
                quiet_hours_enabled: false,
                quiet_start_hour: None,
                quiet_end_hour: None,
            },
        };
        proof {
            let none = Seq::<Seq<char>>::empty();
            if rule is None {
                assert(form.keyword_profile_ids.deep_view() =~= none);
                assert(form.section_profile_ids.deep_view() =~= none);
                assert(form.channel_profile_ids.deep_view() =~= none);
                assert(form.author_profile_ids.deep_view() =~= none);
                assert(form.search_profile_ids.deep_view() =~= none);
            }
        }
        form
    }

    /// The rule that the form describes, with an identifier.
    pub open spec fn rule(&self, id: RuleId, quiet_hours: Option<QuietHours>) ->
        NotificationRuleModel {
        NotificationRuleModel {
            id,
            label: label_or(self.label@, "Rule "@ + written_id(id.bits).take(8)),
            enabled: self.enabled,
            channels: Seq::empty(),
            authors: Seq::empty(),
            includes: Seq::empty(),
            exclude: Seq::empty(),
            keyword_profile_ids: self.keyword_profile_ids.deep_view(),
            section_profile_ids: self.section_profile_ids.deep_view(),
            channel_profile_ids: self.channel_profile_ids.deep_view(),
            author_profile_ids: self.author_profile_ids.deep_view(),
            search_profile_ids: self.search_profile_ids.deep_view(),
            thread_participation_only: self.thread_participation_only,
            quiet_hours,
            action: self.action,
        }
    }

    /// The rule that the form describes, or what is missing or wrong.
    pub open spec fn outcome(&self, settings: AppSettingsModel, id: RuleId) -> Result<
        NotificationRuleModel,
        Seq<char>,
    > {
        if let Some(message) = unknown_reference(
            settings,
            self.keyword_profile_ids.deep_view(),
            self.section_profile_ids.deep_view(),
            self.channel_profile_ids.deep_view(),
            self.author_profile_ids.deep_view(),
        ) {
            Err(message)
        } else if let Some(missing) = unknown_id::<SearchProfile>(
            settings.search_profiles,
            self.search_profile_ids.deep_view(),
        ) {
            Err("Unknown search profile reference: "@ + missing)
        } else {
            match form_quiet_hours(
                self.quiet_hours_enabled,
                self.quiet_start_hour,
                self.quiet_end_hour,
            ) {
                Ok(quiet_hours) => match self.rule(id, quiet_hours).validity() {
                    Ok(_) => Ok(self.rule(id, quiet_hours)),
                    Err(error) => Err(error.message()),
                },
                Err(message) => Err(message),
            }
        }
    }

    /// The rule that the form describes, or what is missing or wrong.
    fn read(self, settings: &AppSettings, id: RuleId) -> (r: Result<NotificationRule, String>)
        ensures
            checked(r) == self.outcome(settings.deep_view(), id),
    {
        if let Some(message) = find_unknown_reference(
            settings,
            &self.keyword_profile_ids,
            &self.section_profile_ids,
            &self.channel_profile_ids,
            &self.author_profile_ids,
        ) {
            return Err(message);
        }
        if let Some(missing) = find_unknown(&settings.search_profiles, &self.search_profile_ids) {
            return Err(labelled("Unknown search profile reference: ", missing.as_str()));
        }
        let quiet_hours = match parse_quiet_hours(
            self.quiet_hours_enabled,
            self.quiet_start_hour,
            self.quiet_end_hour,
        ) {
            Ok(quiet_hours) => quiet_hours,
            Err(message) => return Err(message),
        };
        assert(form_quiet_hours(
            self.quiet_hours_enabled,
            self.quiet_start_hour,
            self.quiet_end_hour,
        ) == Ok::<Option<QuietHours>, Seq<char>>(quiet_hours));
        let rule = NotificationRule {
            id,
            label: label_or_id(self.label.as_str(), default_rule_label(id).as_str()),
            enabled: self.enabled,
            channels: TextSet::new(),
            authors: TextSet::new(),
            includes: Vec::new(),
            exclude: Vec::new(),
            keyword_profile_ids: self.keyword_profile_ids,
            section_profile_ids: self.section_profile_ids,
            channel_profile_ids: self.channel_profile_ids,
            author_profile_ids: self.author_profile_ids,
            search_profile_ids: self.search_profile_ids,
            thread_participation_only: self.thread_participation_only,
            quiet_hours,
            action: self.action,
        };
        assert(rule.includes.deep_view() =~= Seq::empty());
        assert(rule.exclude.deep_view() =~= Seq::empty());
        assert(rule.deep_view() =~= self.rule(id, quiet_hours));
        match rule.validate() {
            Ok(_) => Ok(rule),
            Err(error) => Err(error.message()),
        }
    }
}

impl UiState {
    /// Sets the default permission for channels.
    pub fn save_default_permission(&mut self, permission: ChannelPermission) -> (r: &'static str)
        ensures
            final(self).deep_view() == with_default_permission(old(self).deep_view(), permission),
            final(self).deep_view().wf(),
            r@ == "Saved default channel permission."@,
    {
        self.settings.default_channel_permission = permission;
        self.apply_filters(true);
        "Saved default channel permission."
    }

    /// Sets the permission for a channel that was picked.
    pub fn save_channel_override(
        &mut self,
        channel_id: Option<&str>,
        permission: ChannelPermission,
    ) -> (r: Result<&'static str, String>)
        ensures
            changes(
                old(self).deep_view(),
                final(self).deep_view(),
                checked(r),
                match picked(channel_id.deep_view(), "Pick a channel for the override."@) {
                    Ok(id) => Ok(with_override(old(self).deep_view(), id, permission)),
                    Err(message) => Err(message),
                },
                "Saved channel permission override."@,
            ),
    {
        match pick(channel_id, "Pick a channel for the override.") {
            Ok(id) => {
                self.settings.channel_permissions.insert(id, permission);
                self.apply_filters(true);
                Ok("Saved channel permission override.")
            },
            Err(message) => Err(message),
        }
    }

    /// Takes the permission of a channel that was picked back to the default one.
    pub fn clear_channel_override(&mut self, channel_id: Option<&str>) -> (r: Result<
        &'static str,
        String,
    >)
        ensures
            changes(
                old(self).deep_view(),
                final(self).deep_view(),
                checked(r),
                match picked(channel_id.deep_view(), "Pick a channel override to clear."@) {
                    Ok(id) => Ok(without_override(old(self).deep_view(), id)),
                    Err(message) => Err(message),
                },
                "Cleared channel permission override."@,
            ),
    {
        match pick(channel_id, "Pick a channel override to clear.") {
            Ok(id) => {
                self.settings.channel_permissions.remove(id.as_str());
                self.apply_filters(true);
                Ok("Cleared channel permission override.")
            },
            Err(message) => Err(message),
        }
    }

    /// Saves a keyword profile as it was typed and picked. `matchers` are the patterns of its
    /// rows.
    pub fn save_keyword_profile(
        &mut self,
        id: &str,
        label: &str,
        mode: ProfileMode,
        matchers: Result<Vec<PatternMatcher>, String>,
    ) -> (r: Result<&'static str, String>)
        ensures
            changes(
                old(self).deep_view(),
                final(self).deep_view(),
                checked(r),
                match keyword_form(
                    id@,
                    label@,
                    mode,
                    checked(matchers),
                ) {
                    Ok(profile) => Ok(with_keyword(old(self).deep_view(), profile)),
                    Err(message) => Err(message),
                },
                "Saved keyword profile."@,
            ),
    {
        let id = match typed_id(id, "Keyword profile ID is required.") {
            Ok(id) => id,
            Err(message) => return Err(message),
        };
        let matchers = match matchers {
            Ok(matchers) => matchers,
            Err(message) => return Err(message),
        };
        let label = label_or_id(label, id.as_str());
        let profile = KeywordProfile { id, label, mode, matchers };
        upsert(&mut self.settings.keyword_profiles, profile);
        self.apply_filters(true);
        Ok("Saved keyword profile.")
    }

    /// Deletes a keyword profile that was picked, and every reference to it.
    pub fn delete_keyword_profile(&mut self, id: Option<&str>) -> (r: Result<&'static str, String>)
        ensures
            changes(
                old(self).deep_view(),
                final(self).deep_view(),
                checked(r),
                match picked(id.deep_view(), "Pick a keyword profile to delete."@) {
                    Ok(id) => Ok(without_keyword(old(self).deep_view(), id)),
                    Err(message) => Err(message),
                },
                "Deleted keyword profile."@,
            ),
    {
        let id = match pick(id, "Pick a keyword profile to delete.") {
            Ok(id) => id,
            Err(message) => return Err(message),
        };
        remove_id(&mut self.settings.keyword_profiles, id.as_str());
        forget_references(&mut self.settings, ProfileKind::Keyword, id.as_str());
        self.apply_filters(true);
        Ok("Deleted keyword profile.")
    }

    /// Saves a section as it was typed and picked. `matchers` are the patterns of its
    /// rows.
    pub fn save_section_profile(
        &mut self,
        id: &str,
        label: &str,
        channels: TextSet,
        matchers: Result<Vec<PatternMatcher>, String>,
    ) -> (r: Result<&'static str, String>)
        ensures
            changes(
                old(self).deep_view(),
                final(self).deep_view(),
                checked(r),
                match section_form(
                    id@,
                    label@,
                    channels.deep_view(),
                    checked(matchers),
                ) {
                    Ok(profile) => Ok(with_section(old(self).deep_view(), profile)),
                    Err(message) => Err(message),
                },
                "Saved section."@,
            ),
    {
        let id = match typed_id(id, "Section ID is required.") {
            Ok(id) => id,
            Err(message) => return Err(message),
        };
        let channel_name_matchers = match matchers {
            Ok(matchers) => matchers,
            Err(message) => return Err(message),
        };
        let label = label_or_id(label, id.as_str());
        let profile = SectionProfile { id, label, channels, channel_name_matchers };
        upsert(&mut self.settings.section_profiles, profile);
        self.apply_filters(true);
        Ok("Saved section.")
    }

    /// Deletes a section that was picked, and every reference to it.
    pub fn delete_section_profile(&mut self, id: Option<&str>) -> (r: Result<&'static str, String>)
        ensures
            changes(
                old(self).deep_view(),
                final(self).deep_view(),
                checked(r),
                match picked(id.deep_view(), "Pick a section to delete."@) {
                    Ok(id) => Ok(without_section(old(self).deep_view(), id)),
                    Err(message) => Err(message),
                },
                "Deleted section."@,
            ),
    {
        let id = match pick(id, "Pick a section to delete.") {
            Ok(id) => id,
            Err(message) => return Err(message),
        };
        remove_id(&mut self.settings.section_profiles, id.as_str());
        forget_references(&mut self.settings, ProfileKind::Section, id.as_str());
        let shown = match &self.section_filter {
            Some(shown) => same_text(shown.as_str(), id.as_str()),
            None => false,
        };
        if shown {
            self.section_filter = None;
        }
        self.apply_filters(true);
        Ok("Deleted section.")
    }

    /// Saves a channel profile as it was typed and picked. `matchers` are the patterns of its
    /// rows.
    pub fn save_channel_profile(
        &mut self,
        id: &str,
        label: &str,
        mode: ProfileMode,
        channels: TextSet,
        matchers: Result<Vec<PatternMatcher>, String>,
    ) -> (r: Result<&'static str, String>)
        ensures
            changes(
                old(self).deep_view(),
                final(self).deep_view(),
                checked(r),
                match channel_form(
                    id@,
                    label@,
                    mode,
                    channels.deep_view(),
                    checked(matchers),
                ) {
                    Ok(profile) => Ok(with_channel(old(self).deep_view(), profile)),
                    Err(message) => Err(message),
                },
                "Saved channel profile."@,
            ),
    {
        let id = match typed_id(id, "Channel profile ID is required.") {
            Ok(id) => id,
            Err(message) => return Err(message),
        };
        let channel_name_matchers = match matchers {
            Ok(matchers) => matchers,
            Err(message) => return Err(message),
        };
        let label = label_or_id(label, id.as_str());
        let profile = ChannelProfile { id, label, mode, channels, channel_name_matchers };
        upsert(&mut self.settings.channel_profiles, profile);
        self.apply_filters(true);
        Ok("Saved channel profile.")
    }

    /// Deletes a channel profile that was picked, and every reference to it.
    pub fn delete_channel_profile(&mut self, id: Option<&str>) -> (r: Result<&'static str, String>)
        ensures
            changes(
                old(self).deep_view(),
                final(self).deep_view(),
                checked(r),
                match picked(id.deep_view(), "Pick a channel profile to delete."@) {
                    Ok(id) => Ok(without_channel(old(self).deep_view(), id)),
                    Err(message) => Err(message),
                },
                "Deleted channel profile."@,
            ),
    {
        let id = match pick(id, "Pick a channel profile to delete.") {
            Ok(id) => id,
            Err(message) => return Err(message),
        };
        remove_id(&mut self.settings.channel_profiles, id.as_str());
        forget_references(&mut self.settings, ProfileKind::Channel, id.as_str());
        self.apply_filters(true);
        Ok("Deleted channel profile.")
    }

    /// Saves a author profile as it was typed and picked.
    pub fn save_author_profile(
        &mut self,
        id: &str,
        label: &str,
        mode: ProfileMode,
        authors: TextSet,
    ) -> (r: Result<&'static str, String>)
        ensures
            changes(
                old(self).deep_view(),
                final(self).deep_view(),
                checked(r),
                match author_form(
                    id@,
                    label@,
                    mode,
                    authors.deep_view(),
                ) {
                    Ok(profile) => Ok(with_author(old(self).deep_view(), profile)),
                    Err(message) => Err(message),
                },
                "Saved author profile."@,
            ),
    {
        let id = match typed_id(id, "Author profile ID is required.") {
            Ok(id) => id,
            Err(message) => return Err(message),
        };
        let label = label_or_id(label, id.as_str());
        let profile = AuthorProfile { id, label, mode, authors };
        upsert(&mut self.settings.author_profiles, profile);
        self.apply_filters(true);
        Ok("Saved author profile.")
    }

    /// Deletes a author profile that was picked, and every reference to it.
    pub fn delete_author_profile(&mut self, id: Option<&str>) -> (r: Result<&'static str, String>)
        ensures
            changes(
                old(self).deep_view(),
                final(self).deep_view(),
                checked(r),
                match picked(id.deep_view(), "Pick an author profile to delete."@) {
                    Ok(id) => Ok(without_author(old(self).deep_view(), id)),
                    Err(message) => Err(message),
                },
                "Deleted author profile."@,
            ),
    {
        let id = match pick(id, "Pick an author profile to delete.") {
            Ok(id) => id,
            Err(message) => return Err(message),
        };
        remove_id(&mut self.settings.author_profiles, id.as_str());
        forget_references(&mut self.settings, ProfileKind::Author, id.as_str());
        self.apply_filters(true);
        Ok("Deleted author profile.")
    }

    /// Saves a search profile as it was typed and picked.
    pub fn save_search_profile(
        &mut self,
        id: &str,
        label: &str,
        query: &str,
        keyword_profiles: Vec<String>,
        section_profiles: Vec<String>,
        channel_profiles: Vec<String>,
        author_profiles: Vec<String>,
    ) -> (r: Result<&'static str, String>)
        ensures
            changes(
                old(self).deep_view(),
                final(self).deep_view(),
                checked(r),
                match search_form(
                    old(self).deep_view().settings,
                    id@,
                    label@,
                    query@,
                    keyword_profiles.deep_view(),
                    section_profiles.deep_view(),
                    channel_profiles.deep_view(),
                    author_profiles.deep_view(),
                ) {
                    Ok(profile) => Ok(with_search(old(self).deep_view(), profile)),
                    Err(message) => Err(message),
                },
                "Saved search profile."@,
            ),
    {
        let id = match typed_id(id, "Search profile ID is required.") {
            Ok(id) => id,
            Err(message) => return Err(message),
        };
        if let Some(message) = find_unknown_reference(
            &self.settings,
            &keyword_profiles,
            &section_profiles,
            &channel_profiles,
            &author_profiles,
        ) {
            return Err(message);
        }
        let label = label_or_id(label, id.as_str());
        let profile = SearchProfile {
            id,
            label,
            query: non_blank(query),
            keyword_profiles,
            section_profiles,
            channel_profiles,
            author_profiles,
            channels: TextSet::new(),
            authors: TextSet::new(),
        };
        upsert(&mut self.settings.search_profiles, profile);
        self.apply_filters(true);
        Ok("Saved search profile.")
    }

    /// Deletes a search profile that was picked, and every reference to it.
    pub fn delete_search_profile(&mut self, id: Option<&str>) -> (r: Result<&'static str, String>)
        ensures
            changes(
                old(self).deep_view(),
                final(self).deep_view(),
                checked(r),
                match picked(id.deep_view(), "Pick a search profile to delete."@) {
                    Ok(id) => Ok(without_search(old(self).deep_view(), id)),
                    Err(message) => Err(message),
                },
                "Deleted search profile."@,
            ),
    {
        let id = match pick(id, "Pick a search profile to delete.") {
            Ok(id) => id,
            Err(message) => return Err(message),
        };
        remove_id(&mut self.settings.search_profiles, id.as_str());
        let active = match &self.settings.active_search_profile_id {
            Some(active) => same_text(active.as_str(), id.as_str()),
            None => false,
        };
        if active {
            self.settings.active_search_profile_id = None;
        }
        self.settings.notification_rules = rules_without_search(
            &self.settings.notification_rules,
            id.as_str(),
        );
        self.apply_filters(true);
        Ok("Deleted search profile.")
    }

    /// Saves a notification rule as it was typed and picked. `id` is that of the rule that was
    /// picked, or a fresh one.
    pub fn save_notification_rule(&mut self, form: RuleForm, id: RuleId) -> (r: Result<
        &'static str,
        String,
    >)
        ensures
            changes(
                old(self).deep_view(),
                final(self).deep_view(),
                checked(r),
                match form.outcome(old(self).deep_view().settings, id) {
                    Ok(rule) => Ok(
                        old(self).deep_view().with_settings(
                            AppSettingsModel {
                                notification_rules: with_rule(
                                    old(self).deep_view().settings.notification_rules,
                                    rule,
                                ),
                                ..old(self).deep_view().settings
                            },
                        ),
                    ),
                    Err(message) => Err(message),
                },
                "Saved notification rule."@,
            ),
    {
        match form.read(&self.settings, id) {
            Ok(rule) => {
                self.settings.notification_rules = put_rule(
                    &self.settings.notification_rules,
                    rule,
                );
                Ok("Saved notification rule.")
            },
            Err(message) => Err(message),
        }
    }

    /// Deletes the notification rule that was picked.
    pub fn delete_notification_rule(&mut self, id: Option<RuleId>) -> (r: Result<
        &'static str,
        String,
    >)
        ensures
            changes(
                old(self).deep_view(),
                final(self).deep_view(),
                checked(r),
                match id {
                    Some(id) => Ok(
                        old(self).deep_view().with_settings(
                            AppSettingsModel {
                                notification_rules: without_rule(
                                    old(self).deep_view().settings.notification_rules,
                                    id,
                                ),
                                ..old(self).deep_view().settings
                            },
                        ),
                    ),
                    None => Err("Pick a notification rule to delete."@),
                },
                "Deleted notification rule."@,
            ),
    {
        match id {
            Some(id) => {
                self.settings.notification_rules = drop_rule(&self.settings.notification_rules, id);
                Ok("Deleted notification rule.")
            },
            None => Err(owned("Pick a notification rule to delete.")),
        }
    }
}

/// The rules without references to a search profile.
fn rules_without_search(rules: &Vec<NotificationRule>, id: &str) -> (r: Vec<NotificationRule>)
    ensures
        r.deep_view() == rules.deep_view().map_values(
            |rule: NotificationRuleModel| rule_without_search(rule, id@),
        ),
{
    let mut out: Vec<NotificationRule> = Vec::new();
    let mut i: usize = 0;
    while i < rules.len()
        invariant
            i <= rules.len(),
            out.len() == i,
            forall|k: int|
                0 <= k < i ==> (#[trigger] out.deep_view()[k]) == rule_without_search(
                    rules.deep_view()[k],
                    id@,
                ),
        decreases rules.len() - i,
    {
        let ghost before = out.deep_view();
        assert(rules.deep_view()[i as int] == rules@[i as int].deep_view());
        let mut copy = rules[i].clone();
        copy.search_profile_ids = drop_reference(&rules[i].search_profile_ids, id);
        out.push(copy);
        assert(out.deep_view() =~= before.push(copy.deep_view()));
        i += 1;
    }
    assert(out.deep_view() =~= rules.deep_view().map_values(
        |rule: NotificationRuleModel| rule_without_search(rule, id@),
    ));
    out
}

/// A profile that the editor lists.
pub trait Listed: Identified {
    /// The label of a profile.
    spec fn label_of(value: Self::V) -> Seq<char>;

    /// The label of the profile.
    fn listed_label(&self) -> (r: &str)
        ensures
            r@ == Self::label_of(self.deep_view()),
    ;
}

impl Listed for KeywordProfile {
    open spec fn label_of(value: KeywordProfileModel) -> Seq<char> {
        value.label
    }

    fn listed_label(&self) -> &str {
        self.label.as_str()
    }
}

impl Listed for SectionProfile {
    open spec fn label_of(value: SectionProfileModel) -> Seq<char> {
        value.label
    }

    fn listed_label(&self) -> &str {
        self.label.as_str()
    }
}

impl Listed for ChannelProfile {
    open spec fn label_of(value: ChannelProfileModel) -> Seq<char> {
        value.label
    }

    fn listed_label(&self) -> &str {
        self.label.as_str()
    }
}

impl Listed for AuthorProfile {
    open spec fn label_of(value: AuthorProfileModel) -> Seq<char> {
        value.label
    }

    fn listed_label(&self) -> &str {
        self.label.as_str()
    }
}

impl Listed for SearchProfile {
    open spec fn label_of(value: SearchProfileModel) -> Seq<char> {
        value.label
    }

    fn listed_label(&self) -> &str {
        self.label.as_str()
    }
}

/// Profiles in the order of their labels, then of their identifiers.
pub struct InListOrder;

impl<T: Listed> Order<T> for InListOrder {
    open spec fn before(left: T::V, right: T::V) -> bool {
        text_before(T::label_of(left), T::label_of(right)) || (T::label_of(left) == T::label_of(
            right,
        ) && text_before(T::identity(left), T::identity(right)))
    }

    fn stands_before(left: &T, right: &T) -> bool {
        precedes(left.listed_label(), right.listed_label()) || (same_text(
            left.listed_label(),
            right.listed_label(),
        ) && precedes(left.identifier(), right.identifier()))
    }
}

/// The profiles as the editor lists them. Of those with one identifier, the first is edited.
pub fn listed_profiles<T: Listed>(profiles: Vec<T>) -> (r: Vec<T>)
    ensures
        r.deep_view() == sorted(profiles.deep_view(), order_of::<T, InListOrder>()),
{
    sort_values::<T, InListOrder>(profiles)
}

/// A choice of the editor: an identifier, and a label with the identifier.
pub open spec fn choice(pair: (Seq<char>, Seq<char>)) -> (Seq<char>, Seq<char>) {
    (pair.0, pair.1 + " ("@ + pair.0 + ")"@)
}

/// The choices of the editor: profiles in the order of their labels, then of their identifiers.
pub open spec fn editor_choices<T: Listed>(profiles: Seq<T::V>) -> Names {
    sorted(
        profiles.map_values(|profile: T::V| (T::identity(profile), T::label_of(profile))),
        order_of::<(String, String), ByLabelThenId>(),
    ).map_values(|pair: (Seq<char>, Seq<char>)| choice(pair))
}

/// The choices of the editor.
pub fn profile_choices<T: Listed>(profiles: &Vec<T>) -> (r: Vec<(String, String)>)
    ensures
        r.deep_view() == editor_choices::<T>(profiles.deep_view()),
{
    let mut pairs: Vec<(String, String)> = Vec::new();
    let mut i: usize = 0;
    while i < profiles.len()
        invariant
            i <= profiles.len(),
            pairs.len() == i,
            forall|k: int|
                0 <= k < i ==> (#[trigger] pairs.deep_view()[k]) == (
                    T::identity(profiles.deep_view()[k]),
                    T::label_of(profiles.deep_view()[k]),
                ),
        decreases profiles.len() - i,
    {
        let ghost before = pairs.deep_view();
        assert(profiles.deep_view()[i as int] == profiles@[i as int].deep_view());
        let pair = (owned(profiles[i].identifier()), owned(profiles[i].listed_label()));
        pairs.push(pair);
        assert(pairs.deep_view() =~= before.push(pair.deep_view()));
        i += 1;
    }
    assert(pairs.deep_view() =~= profiles.deep_view().map_values(
        |profile: T::V| (T::identity(profile), T::label_of(profile)),
    ));
    let ordered = sort_values::<(String, String), ByLabelThenId>(pairs);
    let mut out: Vec<(String, String)> = Vec::new();
    let mut k: usize = 0;
    while k < ordered.len()
        invariant
            k <= ordered.len(),
            out.len() == k,
            forall|j: int|
                0 <= j < k ==> (#[trigger] out.deep_view()[j]) == choice(ordered.deep_view()[j]),
        decreases ordered.len() - k,
    {
        let ghost before = out.deep_view();
        assert(ordered.deep_view()[k as int] == ordered@[k as int].deep_view());
        let option = labelled_choice(ordered[k].0.as_str(), ordered[k].1.as_str());
        out.push(option);
        assert(out.deep_view() =~= before.push(option.deep_view()));
        k += 1;
    }
    assert(out.deep_view() =~= ordered.deep_view().map_values(
        |pair: (Seq<char>, Seq<char>)| choice(pair),
    ));
    out
}

/// A choice of the editor.
fn labelled_choice(id: &str, label: &str) -> (r: (String, String))
    ensures
        r.deep_view() == choice((id@, label@)),
{
    let mut text = enclosed(label, " (", id);
    text.append(")");
    (owned(id), text)
}

/// The choices of the editor for notification rules, in their order.
pub fn rule_choices(rules: &Vec<NotificationRule>) -> (r: Vec<(String, String)>)
    ensures
        r.deep_view() == rules.deep_view().map_values(
            |rule: NotificationRuleModel| choice((written_id(rule.id.bits), rule.label)),
        ),
{
    let mut out: Vec<(String, String)> = Vec::new();
    let mut i: usize = 0;
    while i < rules.len()
        invariant
            i <= rules.len(),
            out.len() == i,
            forall|k: int|
                0 <= k < i ==> (#[trigger] out.deep_view()[k]) == choice(
                    (written_id(rules.deep_view()[k].id.bits), rules.deep_view()[k].label),
                ),
        decreases rules.len() - i,
    {
        let ghost before = out.deep_view();
        assert(rules.deep_view()[i as int] == rules@[i as int].deep_view());
        let option = labelled_choice(rules[i].id.text().as_str(), rules[i].label.as_str());
        out.push(option);
        assert(out.deep_view() =~= before.push(option.deep_view()));
        i += 1;
    }
    assert(out.deep_view() =~= rules.deep_view().map_values(
        |rule: NotificationRuleModel| choice((written_id(rule.id.bits), rule.label)),
    ));
    out
}

/// A line for a channel with a permission of its own.
pub open spec fn override_line(state: UiStateModel, entry: (Seq<char>, ChannelPermission)) -> Seq<
    char,
> {
    (match state.channel_name(entry.0) {
        Some(name) => name,
        None => entry.0,
    }) + " ("@ + entry.0 + ") = "@ + permission_id(entry.1)
}

/// What the editor says of the channels with a permission of their own: a line for each.
pub open spec fn override_lines(state: UiStateModel) -> Seq<char> {
    let entries = state.settings.channel_permissions;
    if entries.len() == 0 {
        "No channel overrides yet."@
    } else {
        join(
            entries.map_values(
                |entry: (Seq<char>, ChannelPermission)| override_line(state, entry),
            ),
            "\n"@,
        )
    }
}

/// What the editor says of the channels with a permission of their own.
pub fn override_summary(state: &UiState) -> (r: String)
    ensures
        r@ == override_lines(state.deep_view()),
{
    let entries = state.settings.channel_permissions.entries();
    let ghost all = state.deep_view().settings.channel_permissions;
    if entries.len() == 0 {
        return owned("No channel overrides yet.");
    }
    let mut lines: Vec<String> = Vec::new();
    let mut i: usize = 0;
    while i < entries.len()
        invariant
            i <= entries.len(),
            lines.len() == i,
            entries.deep_view() == all,
            forall|k: int|
                0 <= k < i ==> (#[trigger] lines.deep_view()[k]) == override_line(
                    state.deep_view(),
                    all[k],
                ),
        decreases entries.len() - i,
    {
        let ghost before = lines.deep_view();
        assert(all[i as int] == entries@[i as int].deep_view());
        let mut line = match state.channel_name_for(entries[i].0.as_str()) {
            Some(name) => name,
            None => entries[i].0.clone(),
        };
        line.append(" (");
        line.append(entries[i].0.as_str());
        line.append(") = ");
        line.append(channel_permission_id(entries[i].1));
        lines.push(line);
        assert(lines.deep_view() =~= before.push(line@));
        i += 1;
    }
    assert(lines.deep_view() =~= all.map_values(
        |entry: (Seq<char>, ChannelPermission)| override_line(state.deep_view(), entry),
    ));
    join_texts(&lines, "\n")
}

/// A reference that is taken out is gone, and the others stay.
pub proof fn law_taken_references_are_gone(ids: Seq<Seq<char>>, id: Seq<char>, other: Seq<char>)
    ensures
        !without_reference(ids, id).contains(id),
        other != id ==> (without_reference(ids, id).contains(other) <==> ids.contains(other)),
{
    let keep = other_than(id);
    broadcast use vstd::seq_lib::group_filter_ensures;

    let kept = ids.filter(keep);
    if kept.contains(id) {
        let k = choose|k: int| 0 <= k < kept.len() && kept[k] == id;
        assert(keep(kept[k]));
    }
    if other != id && ids.contains(other) {
        let k = choose|k: int| 0 <= k < ids.len() && ids[k] == other;
        assert(keep(ids[k]));
        ids.lemma_filter_contains(keep, k);
        assert(kept.contains(other));
    }
    if kept.contains(other) {
        ids.lemma_filter_contains_rev(keep, other);
    }
}

/// After a profile is deleted, no search profile and no notification rule refers to it.
pub proof fn law_deleted_profiles_are_not_referred_to(
    settings: AppSettingsModel,
    kind: ProfileKind,
    id: Seq<char>,
    k: int,
)
    ensures
        0 <= k < settings.search_profiles.len() ==> !references(
            forgotten(settings, kind, id).search_profiles[k],
            kind,
        ).contains(id),
        0 <= k < settings.notification_rules.len() ==> !rule_references(
            forgotten(settings, kind, id).notification_rules[k],
            kind,
        ).contains(id),
{
    if 0 <= k < settings.search_profiles.len() {
        law_taken_references_are_gone(references(settings.search_profiles[k], kind), id, id);
    }
    if 0 <= k < settings.notification_rules.len() {
        law_taken_references_are_gone(
            rule_references(settings.notification_rules[k], kind),
            id,
            id,
        );
    }
}

/// The profiles of a kind that a search profile refers to.
pub open spec fn references(profile: SearchProfileModel, kind: ProfileKind) -> Seq<Seq<char>> {
    match kind {
        ProfileKind::Keyword => profile.keyword_profiles,
        ProfileKind::Section => profile.section_profiles,
        ProfileKind::Channel => profile.channel_profiles,
        ProfileKind::Author => profile.author_profiles,
    }
}

/// The profiles of a kind that a notification rule refers to.
pub open spec fn rule_references(rule: NotificationRuleModel, kind: ProfileKind) -> Seq<Seq<char>> {
    match kind {
        ProfileKind::Keyword => rule.keyword_profile_ids,
        ProfileKind::Section => rule.section_profile_ids,
        ProfileKind::Channel => rule.channel_profile_ids,
        ProfileKind::Author => rule.author_profile_ids,
    }
}

/// A profile that was saved is found under its identifier, and the others as before.
pub proof fn law_saved_profiles_are_found<T: Identified>(
    profiles: Seq<T::V>,
    profile: T::V,
    id: Seq<char>,
)
    ensures
        with_id::<T>(upserted::<T>(profiles, profile), id) == (if id == T::identity(profile) {
            Some(profile)
        } else {
            with_id::<T>(profiles, id)
        }),
{
    crate::collections::lemma_with_id_upserted::<T>(profiles, profile, id);
}

/// A rule that is saved as its form shows it keeps all that the form holds: only the channels, the
/// authors and the patterns that stand in the rule itself are dropped.
pub proof fn law_unchanged_forms_keep_rules(
    form: RuleForm,
    rule: NotificationRuleModel,
    settings: AppSettingsModel,
)
    requires
        form.shows(Some(rule)),
        trimmed_non_blank(rule.label) == Some(rule.label),
    ensures
        form.outcome(settings, rule.id) matches Ok(saved) ==> saved == (NotificationRuleModel {
            channels: Seq::empty(),
            authors: Seq::empty(),
            includes: Seq::empty(),
            exclude: Seq::empty(),
            ..rule
        }),
{
}

/// A permission that was set for a channel is what the channel has, and clearing it brings the
/// default one back; other channels keep theirs.
pub proof fn law_overrides_decide(
    settings: AppSettingsModel,
    channel_id: Seq<char>,
    other: Seq<char>,
    permission: ChannelPermission,
)
    ensures
        (AppSettingsModel {
            channel_permissions: bind(settings.channel_permissions, channel_id, permission),
            ..settings
        }).permission(channel_id) == permission,
        (AppSettingsModel {
            channel_permissions: unbind(settings.channel_permissions, channel_id),
            ..settings
        }).permission(channel_id) == settings.default_channel_permission,
        other != channel_id ==> (AppSettingsModel {
            channel_permissions: bind(settings.channel_permissions, channel_id, permission),
            ..settings
        }).permission(other) == settings.permission(other),
        other != channel_id ==> (AppSettingsModel {
            channel_permissions: unbind(settings.channel_permissions, channel_id),
            ..settings
        }).permission(other) == settings.permission(other),
{
    let entries = settings.channel_permissions;
    crate::collections::lemma_lookup_bind(entries, channel_id, permission, channel_id);
    crate::collections::lemma_lookup_bind(entries, channel_id, permission, other);
    crate::collections::lemma_lookup_unbind(entries, channel_id, channel_id);
    crate::collections::lemma_lookup_unbind(entries, channel_id, other);
}

} // verus!
