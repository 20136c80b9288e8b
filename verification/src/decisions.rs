//! What the settings decide, said of single messages, channels and authors: what passes a search
//! profile, what a notification rule matches, what has a score, and which messages mention a user.
use vstd::prelude::*;

use crate::collections::{first_match, lookup, with_id};
use crate::matching::{
    author_outcome, channel_outcome, keyword_outcome, missing_author_profile,
    missing_channel_profile, missing_section, profile_authors, profile_channels, profile_matchers,
    query_matches, rule_profile, section_channels, section_matchers, SettingsErrorModel,
};
use crate::models::TimelineItemModel;
use crate::patterns::{
    any_channel_name_outcome, any_outcome, channel_name_outcome, matcher_outcome, regex_matches,
    regex_rejection, PatternMatcherModel,
};
use crate::settings::{
    AppSettingsModel, AuthorProfile, AuthorProfileModel, ChannelPermission, ChannelProfile,
    ChannelProfileModel, KeywordProfile, KeywordProfileModel, NotificationRuleModel, ProfileMode,
    SearchProfile, SearchProfileModel, SectionProfile, SectionProfileModel,
};
use crate::text::lowercase;

verus! {

/// Whether a text stands somewhere in another.
pub open spec fn stands_in(text: Seq<char>, part: Seq<char>) -> bool {
    exists|at: int|
        0 <= at && at + part.len() <= text.len() && #[trigger] text.subrange(at, at + part.len())
            == part
}

/// Whether a matcher finds something in a text: its words without regard to case, or what its
/// regular expression describes.
pub open spec fn finds(matcher: PatternMatcherModel, text: Seq<char>) -> bool {
    match matcher {
        PatternMatcherModel::Text(words) => stands_in(lowercase(text), lowercase(words)),
        PatternMatcherModel::Regex(pattern) => regex_matches(pattern, text),
    }
}

/// Whether a matcher can be used at all.
pub open spec fn usable(matcher: PatternMatcherModel) -> bool {
    matcher matches PatternMatcherModel::Regex(pattern) ==> regex_rejection(pattern) is None
}

/// Whether all matchers can be used.
pub open spec fn all_usable(matchers: Seq<PatternMatcherModel>) -> bool {
    forall|i: int| 0 <= i < matchers.len() ==> usable(#[trigger] matchers[i])
}

/// Whether one of the matchers finds something in a text.
pub open spec fn one_finds(matchers: Seq<PatternMatcherModel>, text: Seq<char>) -> bool {
    exists|i: int| 0 <= i < matchers.len() && finds(#[trigger] matchers[i], text)
}

/// Whether a name is another behind a run of `#`.
pub open spec fn is_name_behind(bare: Seq<char>, name: Seq<char>) -> bool {
    &&& bare.len() <= name.len()
    &&& bare == name.skip(name.len() - bare.len())
    &&& forall|k: int| 0 <= k < name.len() - bare.len() ==> #[trigger] name[k] == '#'
    &&& bare.len() > 0 ==> bare[0] != '#'
}

/// Whether one of the matchers finds something in the name of a channel, with or without the `#`
/// that it starts with.
pub open spec fn one_finds_channel(matchers: Seq<PatternMatcherModel>, name: Seq<char>) -> bool {
    exists|i: int, bare: Seq<char>|
        0 <= i < matchers.len() && #[trigger] is_name_behind(bare, name) && (finds(
            #[trigger] matchers[i],
            name,
        ) || finds(matchers[i], bare))
}

/// What a run of `#` stands before.
proof fn lemma_bare_name(name: Seq<char>)
    ensures
        is_name_behind(crate::patterns::bare_channel_name(name), name),
        forall|bare: Seq<char>| #[trigger]
            is_name_behind(bare, name) ==> bare == crate::patterns::bare_channel_name(name),
    decreases name.len(),
{
    let stripped = crate::patterns::bare_channel_name(name);
    if name.len() > 0 && name[0] == '#' {
        let rest = name.skip(1);
        lemma_bare_name(rest);
        assert(stripped == crate::patterns::bare_channel_name(rest));
        assert(rest.skip(rest.len() - stripped.len()) =~= name.skip(name.len() - stripped.len()));
        assert forall|k: int| 0 <= k < name.len() - stripped.len() implies #[trigger] name[k]
            == '#' by {
            if k > 0 {
                assert(rest[k - 1] == '#');
            }
        }
        assert forall|bare: Seq<char>| #[trigger] is_name_behind(bare, name) implies bare
            == stripped by {
            if bare.len() == name.len() {
                assert(bare[0] == name[0]);
            }
            assert(rest.skip(rest.len() - bare.len()) =~= name.skip(name.len() - bare.len()));
            assert forall|k: int| 0 <= k < rest.len() - bare.len() implies #[trigger] rest[k]
                == '#' by {
                assert(name[k + 1] == '#');
            }
            assert(is_name_behind(bare, rest));
        }
    } else {
        assert(name.skip(0) =~= name);
        assert forall|bare: Seq<char>| #[trigger] is_name_behind(bare, name) implies bare
            == stripped by {
            if bare.len() < name.len() {
                assert(name[0] == '#');
            }
        }
    }
}

/// One matcher on one text.
proof fn lemma_matcher(matcher: PatternMatcherModel, text: Seq<char>)
    requires
        usable(matcher),
    ensures
        matcher_outcome(matcher, text) == Ok::<bool, Seq<char>>(finds(matcher, text)),
{
    if let PatternMatcherModel::Text(words) = matcher {
        let (long, short) = (lowercase(text), lowercase(words));
        if stands_in(long, short) {
            let at = choose|at: int|
                0 <= at && at + short.len() <= long.len() && #[trigger] long.subrange(
                    at,
                    at + short.len(),
                ) == short;
            assert(crate::text::occurs_at(long, short, at));
        }
        if crate::text::occurs(long, short) {
            let at = choose|at: int| #[trigger] crate::text::occurs_at(long, short, at);
            assert(long.subrange(at, at + short.len()) == short);
        }
    }
}

/// Matchers find something in a text exactly if one of them does.
pub proof fn law_matchers_find_what_one_finds(
    matchers: Seq<PatternMatcherModel>,
    text: Seq<char>,
)
    requires
        all_usable(matchers),
    ensures
        any_outcome(matchers, text) == Ok::<bool, Seq<char>>(one_finds(matchers, text)),
    decreases matchers.len(),
{
    if matchers.len() > 0 {
        let rest = matchers.skip(1);
        assert forall|i: int| 0 <= i < rest.len() implies usable(#[trigger] rest[i]) by {
            assert(usable(matchers[i + 1]));
        }
        assert(usable(matchers[0]));
        lemma_matcher(matchers[0], text);
        law_matchers_find_what_one_finds(rest, text);
        if one_finds(matchers, text) && !finds(matchers[0], text) {
            let i = choose|i: int| 0 <= i < matchers.len() && finds(#[trigger] matchers[i], text);
            assert(rest[i - 1] == matchers[i]);
        }
        if one_finds(rest, text) {
            let i = choose|i: int| 0 <= i < rest.len() && finds(#[trigger] rest[i], text);
            assert(matchers[i + 1] == rest[i]);
        }
    }
}

/// Matchers find something in the name of a channel exactly if one of them finds something in the
/// name with or without the `#` that it starts with.
pub proof fn law_matchers_find_channels(matchers: Seq<PatternMatcherModel>, name: Seq<char>)
    requires
        all_usable(matchers),
    ensures
        any_channel_name_outcome(matchers, name) == Ok::<bool, Seq<char>>(
            one_finds_channel(matchers, name),
        ),
    decreases matchers.len(),
{
    let bare = crate::patterns::bare_channel_name(name);
    lemma_bare_name(name);
    if matchers.len() > 0 {
        let rest = matchers.skip(1);
        assert forall|i: int| 0 <= i < rest.len() implies usable(#[trigger] rest[i]) by {
            assert(usable(matchers[i + 1]));
        }
        assert(usable(matchers[0]));
        lemma_matcher(matchers[0], name);
        lemma_matcher(matchers[0], bare);
        law_matchers_find_channels(rest, name);
        let first = finds(matchers[0], name) || finds(matchers[0], bare);
        assert(channel_name_outcome(matchers[0], name) == Ok::<bool, Seq<char>>(first));
        if first {
            assert(is_name_behind(bare, name) && (finds(matchers[0], name) || finds(
                matchers[0],
                bare,
            )));
        }
        if one_finds_channel(matchers, name) && !first {
            let (i, found) = choose|i: int, found: Seq<char>|
                0 <= i < matchers.len() && #[trigger] is_name_behind(found, name) && (finds(
                    #[trigger] matchers[i],
                    name,
                ) || finds(matchers[i], found));
            assert(rest[i - 1] == matchers[i]);
            assert(is_name_behind(found, name));
        }
        if one_finds_channel(rest, name) {
            let (i, found) = choose|i: int, found: Seq<char>|
                0 <= i < rest.len() && #[trigger] is_name_behind(found, name) && (finds(
                    #[trigger] rest[i],
                    name,
                ) || finds(rest[i], found));
            assert(matchers[i + 1] == rest[i]);
            assert(is_name_behind(found, name));
        }
    }
}

/// A profile is found by its identifier: it is one of those that are set, has the identifier, and
/// is the first that has it; none is found exactly if none has it.
pub proof fn law_profiles_are_found_by_identifier(settings: AppSettingsModel, id: Seq<char>)
    ensures
        match with_id::<KeywordProfile>(settings.keyword_profiles, id) {
            Some(p) => exists|i: int|
                0 <= i < settings.keyword_profiles.len() && #[trigger] settings.keyword_profiles[i]
                    == p && p.id == id && forall|k: int|
                    0 <= k < i ==> (#[trigger] settings.keyword_profiles[k]).id != id,
            None => forall|k: int|
                0 <= k < settings.keyword_profiles.len() ==> (
                #[trigger] settings.keyword_profiles[k]).id != id,
        },
        match with_id::<SectionProfile>(settings.section_profiles, id) {
            Some(p) => exists|i: int|
                0 <= i < settings.section_profiles.len() && #[trigger] settings.section_profiles[i]
                    == p && p.id == id && forall|k: int|
                    0 <= k < i ==> (#[trigger] settings.section_profiles[k]).id != id,
            None => forall|k: int|
                0 <= k < settings.section_profiles.len() ==> (
                #[trigger] settings.section_profiles[k]).id != id,
        },
        match with_id::<ChannelProfile>(settings.channel_profiles, id) {
            Some(p) => exists|i: int|
                0 <= i < settings.channel_profiles.len() && #[trigger] settings.channel_profiles[i]
                    == p && p.id == id && forall|k: int|
                    0 <= k < i ==> (#[trigger] settings.channel_profiles[k]).id != id,
            None => forall|k: int|
                0 <= k < settings.channel_profiles.len() ==> (
                #[trigger] settings.channel_profiles[k]).id != id,
        },
        match with_id::<AuthorProfile>(settings.author_profiles, id) {
            Some(p) => exists|i: int|
                0 <= i < settings.author_profiles.len() && #[trigger] settings.author_profiles[i]
                    == p && p.id == id && forall|k: int|
                    0 <= k < i ==> (#[trigger] settings.author_profiles[k]).id != id,
            None => forall|k: int|
                0 <= k < settings.author_profiles.len() ==> (
                #[trigger] settings.author_profiles[k]).id != id,
        },
        match with_id::<SearchProfile>(settings.search_profiles, id) {
            Some(p) => exists|i: int|
                0 <= i < settings.search_profiles.len() && #[trigger] settings.search_profiles[i]
                    == p && p.id == id && forall|k: int|
                    0 <= k < i ==> (#[trigger] settings.search_profiles[k]).id != id,
            None => forall|k: int|
                0 <= k < settings.search_profiles.len() ==> (
                #[trigger] settings.search_profiles[k]).id != id,
        },
{
    lemma_first(settings.keyword_profiles, |p: KeywordProfileModel| p.id == id);
    lemma_first(settings.section_profiles, |p: SectionProfileModel| p.id == id);
    lemma_first(settings.channel_profiles, |p: ChannelProfileModel| p.id == id);
    lemma_first(settings.author_profiles, |p: AuthorProfileModel| p.id == id);
    lemma_first(settings.search_profiles, |p: SearchProfileModel| p.id == id);
    assert(crate::collections::has_id::<KeywordProfile>(id) =~= |p: KeywordProfileModel|
        p.id == id);
    assert(crate::collections::has_id::<SectionProfile>(id) =~= |p: SectionProfileModel|
        p.id == id);
    assert(crate::collections::has_id::<ChannelProfile>(id) =~= |p: ChannelProfileModel|
        p.id == id);
    assert(crate::collections::has_id::<AuthorProfile>(id) =~= |p: AuthorProfileModel| p.id == id);
    assert(crate::collections::has_id::<SearchProfile>(id) =~= |p: SearchProfileModel| p.id == id);
}

/// What comes first of what a condition holds of.
pub proof fn lemma_first<V>(values: Seq<V>, condition: spec_fn(V) -> bool)
    ensures
        match first_match(values, condition) {
            Some(v) => condition(v) && exists|i: int|
                0 <= i < values.len() && #[trigger] values[i] == v && forall|k: int|
                    0 <= k < i ==> !condition(#[trigger] values[k]),
            None => forall|k: int| 0 <= k < values.len() ==> !condition(#[trigger] values[k]),
        },
    decreases values.len(),
{
    if values.len() > 0 {
        if condition(values.first()) {
            assert(values[0] == values.first());
        } else {
            let rest = values.skip(1);
            lemma_first(rest, condition);
            match first_match(rest, condition) {
                Some(v) => {
                    let i = choose|i: int|
                        0 <= i < rest.len() && #[trigger] rest[i] == v && forall|k: int|
                            0 <= k < i ==> !condition(#[trigger] rest[k]);
                    assert(values[i + 1] == v);
                    assert forall|k: int| 0 <= k < i + 1 implies !condition(
                        #[trigger] values[k],
                    ) by {
                        if k > 0 {
                            assert(!condition(rest[k - 1]));
                        }
                    }
                },
                None => {
                    assert forall|k: int| 0 <= k < values.len() implies !condition(
                        #[trigger] values[k],
                    ) by {
                        if k > 0 {
                            assert(!condition(rest[k - 1]));
                        }
                    }
                },
            }
        }
    }
}

/// The keyword profile that an identifier of a list refers to.
pub open spec fn keyword_at(settings: AppSettingsModel, ids: Seq<Seq<char>>, i: int) -> Option<
    KeywordProfileModel,
> {
    with_id::<KeywordProfile>(settings.keyword_profiles, ids[i])
}

/// The section that an identifier of a list refers to.
pub open spec fn section_at(settings: AppSettingsModel, ids: Seq<Seq<char>>, i: int) -> Option<
    SectionProfileModel,
> {
    with_id::<SectionProfile>(settings.section_profiles, ids[i])
}

/// The channel profile that an identifier of a list refers to.
pub open spec fn channels_at(settings: AppSettingsModel, ids: Seq<Seq<char>>, i: int) -> Option<
    ChannelProfileModel,
> {
    with_id::<ChannelProfile>(settings.channel_profiles, ids[i])
}

/// The author profile that an identifier of a list refers to.
pub open spec fn authors_at(settings: AppSettingsModel, ids: Seq<Seq<char>>, i: int) -> Option<
    AuthorProfileModel,
> {
    with_id::<AuthorProfile>(settings.author_profiles, ids[i])
}

/// Whether all that a search profile refers to is there and can be used.
pub open spec fn sound(settings: AppSettingsModel, profile: SearchProfileModel) -> bool {
    &&& forall|i: int|
        0 <= i < profile.keyword_profiles.len() ==> (#[trigger] keyword_at(
            settings,
            profile.keyword_profiles,
            i,
        ) matches Some(p) && all_usable(p.matchers))
    &&& forall|i: int|
        0 <= i < profile.section_profiles.len() ==> (#[trigger] section_at(
            settings,
            profile.section_profiles,
            i,
        ) matches Some(p) && all_usable(p.channel_name_matchers))
    &&& forall|i: int|
        0 <= i < profile.channel_profiles.len() ==> (#[trigger] channels_at(
            settings,
            profile.channel_profiles,
            i,
        ) matches Some(p) && all_usable(p.channel_name_matchers))
    &&& forall|i: int|
        0 <= i < profile.author_profiles.len() ==> #[trigger] authors_at(
            settings,
            profile.author_profiles,
            i,
        ) is Some
}

/// Whether a list of keyword profiles has one of a mode.
pub open spec fn has_keywords(settings: AppSettingsModel, ids: Seq<Seq<char>>, mode: ProfileMode)
    -> bool {
    exists|i: int|
        0 <= i < ids.len() && (#[trigger] keyword_at(settings, ids, i) matches Some(p) && p.mode
            == mode)
}

/// Whether a list of keyword profiles has one of a mode that finds something in a text.
pub open spec fn keywords_find(
    settings: AppSettingsModel,
    ids: Seq<Seq<char>>,
    mode: ProfileMode,
    text: Seq<char>,
) -> bool {
    exists|i: int|
        0 <= i < ids.len() && (#[trigger] keyword_at(settings, ids, i) matches Some(p) && p.mode
            == mode && one_finds(p.matchers, text))
}

/// Whether a list of channel profiles has one of a mode that lists a channel.
pub open spec fn channel_profiles_list(
    settings: AppSettingsModel,
    ids: Seq<Seq<char>>,
    mode: ProfileMode,
    channel_id: Seq<char>,
    channel_name: Seq<char>,
) -> bool {
    exists|i: int|
        0 <= i < ids.len() && (#[trigger] channels_at(settings, ids, i) matches Some(p) && p.mode
            == mode && (p.channels.contains(channel_id) || one_finds_channel(
            p.channel_name_matchers,
            channel_name,
        )))
}

/// Whether a list of sections has one that lists a channel.
pub open spec fn sections_list(
    settings: AppSettingsModel,
    ids: Seq<Seq<char>>,
    channel_id: Seq<char>,
    channel_name: Seq<char>,
) -> bool {
    exists|i: int|
        0 <= i < ids.len() && (#[trigger] section_at(settings, ids, i) matches Some(p) && (
        p.channels.contains(channel_id) || one_finds_channel(
            p.channel_name_matchers,
            channel_name,
        )))
}

/// Whether a search profile allows channels in particular.
pub open spec fn narrows_channels(settings: AppSettingsModel, profile: SearchProfileModel) -> bool {
    ||| profile.channels.len() > 0
    ||| exists|i: int|
        0 <= i < profile.section_profiles.len() && (#[trigger] section_at(
            settings,
            profile.section_profiles,
            i,
        ) matches Some(p) && (p.channels.len() > 0 || p.channel_name_matchers.len() > 0))
    ||| exists|i: int|
        0 <= i < profile.channel_profiles.len() && (#[trigger] channels_at(
            settings,
            profile.channel_profiles,
            i,
        ) matches Some(p) && p.mode == ProfileMode::Allow && (p.channels.len() > 0
            || p.channel_name_matchers.len() > 0))
}

/// Whether a list of author profiles has one of a mode that lists an author.
pub open spec fn author_profiles_list(
    settings: AppSettingsModel,
    ids: Seq<Seq<char>>,
    mode: ProfileMode,
    author_id: Seq<char>,
) -> bool {
    exists|i: int|
        0 <= i < ids.len() && (#[trigger] authors_at(settings, ids, i) matches Some(p) && p.mode
            == mode && p.authors.contains(author_id))
}

/// Whether a search profile allows authors in particular.
pub open spec fn narrows_authors(settings: AppSettingsModel, profile: SearchProfileModel) -> bool {
    ||| profile.authors.len() > 0
    ||| exists|i: int|
        0 <= i < profile.author_profiles.len() && (#[trigger] authors_at(
            settings,
            profile.author_profiles,
            i,
        ) matches Some(p) && p.mode == ProfileMode::Allow && p.authors.len() > 0)
}

/// What parts give, one after the other.
spec fn gathered<V>(ids: Seq<Seq<char>>, part: spec_fn(Seq<char>) -> Seq<V>) -> Seq<V>
    decreases ids.len(),
{
    if ids.len() == 0 {
        Seq::empty()
    } else {
        gathered(ids.drop_last(), part) + part(ids.last())
    }
}

/// What is gathered is what the parts hold.
proof fn lemma_gathered<V>(ids: Seq<Seq<char>>, part: spec_fn(Seq<char>) -> Seq<V>)
    ensures
        forall|v: V| #[trigger]
            gathered(ids, part).contains(v) <==> exists|i: int|
                0 <= i < ids.len() && part(#[trigger] ids[i]).contains(v),
        gathered(ids, part).len() > 0 <==> exists|i: int|
            0 <= i < ids.len() && part(#[trigger] ids[i]).len() > 0,
    decreases ids.len(),
{
    if ids.len() > 0 {
        let shorter = ids.drop_last();
        lemma_gathered(shorter, part);
        let before = gathered(shorter, part);
        let last = part(ids.last());
        let all = gathered(ids, part);
        assert(ids[ids.len() - 1] == ids.last());
        assert forall|v: V| #[trigger] all.contains(v) <==> exists|i: int|
            0 <= i < ids.len() && part(#[trigger] ids[i]).contains(v) by {
            if all.contains(v) {
                let at = choose|at: int| 0 <= at < all.len() && all[at] == v;
                if at < before.len() {
                    assert(before[at] == v);
                    assert(before.contains(v));
                    let i = choose|i: int|
                        0 <= i < shorter.len() && part(#[trigger] shorter[i]).contains(v);
                    assert(ids[i] == shorter[i]);
                } else {
                    assert(last[at - before.len()] == v);
                    assert(part(ids[ids.len() - 1]).contains(v));
                }
            }
            if exists|i: int| 0 <= i < ids.len() && part(#[trigger] ids[i]).contains(v) {
                let i = choose|i: int| 0 <= i < ids.len() && part(#[trigger] ids[i]).contains(v);
                if i < shorter.len() {
                    assert(part(shorter[i]).contains(v));
                    assert(before.contains(v));
                    let at = choose|at: int| 0 <= at < before.len() && before[at] == v;
                    assert(all[at] == v);
                } else {
                    let at = choose|at: int| 0 <= at < last.len() && last[at] == v;
                    assert(all[before.len() + at] == v);
                }
            }
        }
        if before.len() > 0 {
            let i = choose|i: int| 0 <= i < shorter.len() && part(#[trigger] shorter[i]).len() > 0;
            assert(part(ids[i]).len() > 0);
        }
        if exists|i: int| 0 <= i < ids.len() && part(#[trigger] ids[i]).len() > 0 {
            let i = choose|i: int| 0 <= i < ids.len() && part(#[trigger] ids[i]).len() > 0;
            if i < shorter.len() {
                assert(part(shorter[i]).len() > 0);
            }
        }
    }
}

/// The lists of channels that profiles give are gathered from them.
proof fn lemma_lists_are_gathered(
    settings: AppSettingsModel,
    ids: Seq<Seq<char>>,
    mode: ProfileMode,
)
    ensures
        section_channels(settings.section_profiles, ids) == gathered(
            ids,
            section_channels_of(settings),
        ),
        section_matchers(settings.section_profiles, ids) == gathered(
            ids,
            section_matchers_of(settings),
        ),
        profile_channels(settings.channel_profiles, ids, mode) == gathered(
            ids,
            profile_channels_of(settings, mode),
        ),
        profile_matchers(settings.channel_profiles, ids, mode) == gathered(
            ids,
            profile_matchers_of(settings, mode),
        ),
        profile_authors(settings.author_profiles, ids, mode) == gathered(
            ids,
            profile_authors_of(settings, mode),
        ),
    decreases ids.len(),
{
    if ids.len() > 0 {
        lemma_lists_are_gathered(settings, ids.drop_last(), mode);
    }
}

spec fn section_channels_of(settings: AppSettingsModel) -> spec_fn(Seq<char>) -> Seq<Seq<char>> {
    |id: Seq<char>|
        match with_id::<SectionProfile>(settings.section_profiles, id) {
            Some(p) => p.channels,
            None => Seq::empty(),
        }
}

spec fn section_matchers_of(settings: AppSettingsModel) -> spec_fn(Seq<char>) -> Seq<
    PatternMatcherModel,
> {
    |id: Seq<char>|
        match with_id::<SectionProfile>(settings.section_profiles, id) {
            Some(p) => p.channel_name_matchers,
            None => Seq::empty(),
        }
}

spec fn profile_channels_of(settings: AppSettingsModel, mode: ProfileMode) -> spec_fn(
    Seq<char>,
) -> Seq<Seq<char>> {
    |id: Seq<char>|
        match with_id::<ChannelProfile>(settings.channel_profiles, id) {
            Some(p) if p.mode == mode => p.channels,
            _ => Seq::empty(),
        }
}

spec fn profile_matchers_of(settings: AppSettingsModel, mode: ProfileMode) -> spec_fn(
    Seq<char>,
) -> Seq<PatternMatcherModel> {
    |id: Seq<char>|
        match with_id::<ChannelProfile>(settings.channel_profiles, id) {
            Some(p) if p.mode == mode => p.channel_name_matchers,
            _ => Seq::empty(),
        }
}

spec fn profile_authors_of(settings: AppSettingsModel, mode: ProfileMode) -> spec_fn(
    Seq<char>,
) -> Seq<Seq<char>> {
    |id: Seq<char>|
        match with_id::<AuthorProfile>(settings.author_profiles, id) {
            Some(p) if p.mode == mode => p.authors,
            _ => Seq::empty(),
        }
}

/// Matchers that are gathered find a channel exactly if those of a part do.
proof fn lemma_gathered_matchers(
    ids: Seq<Seq<char>>,
    part: spec_fn(Seq<char>) -> Seq<PatternMatcherModel>,
    name: Seq<char>,
)
    requires
        forall|i: int| 0 <= i < ids.len() ==> all_usable(part(#[trigger] ids[i])),
    ensures
        all_usable(gathered(ids, part)),
        one_finds_channel(gathered(ids, part), name) <==> exists|i: int|
            0 <= i < ids.len() && one_finds_channel(part(#[trigger] ids[i]), name),
{
    lemma_gathered(ids, part);
    let all = gathered(ids, part);
    assert forall|j: int| 0 <= j < all.len() implies usable(#[trigger] all[j]) by {
        assert(all.contains(all[j]));
        let i = choose|i: int| 0 <= i < ids.len() && part(#[trigger] ids[i]).contains(all[j]);
        let some = part(ids[i]);
        let k = choose|k: int| 0 <= k < some.len() && some[k] == all[j];
        assert(usable(some[k]));
    }
    if one_finds_channel(all, name) {
        let (j, bare) = choose|j: int, bare: Seq<char>|
            0 <= j < all.len() && #[trigger] is_name_behind(bare, name) && (finds(
                #[trigger] all[j],
                name,
            ) || finds(all[j], bare));
        assert(all.contains(all[j]));
        let i = choose|i: int| 0 <= i < ids.len() && part(#[trigger] ids[i]).contains(all[j]);
        let some = part(ids[i]);
        let k = choose|k: int| 0 <= k < some.len() && some[k] == all[j];
        assert(is_name_behind(bare, name) && (finds(some[k], name) || finds(some[k], bare)));
        assert(one_finds_channel(part(ids[i]), name));
    }
    if exists|i: int| 0 <= i < ids.len() && one_finds_channel(part(#[trigger] ids[i]), name) {
        let i = choose|i: int|
            0 <= i < ids.len() && one_finds_channel(part(#[trigger] ids[i]), name);
        let some = part(ids[i]);
        let (j, bare) = choose|j: int, bare: Seq<char>|
            0 <= j < some.len() && #[trigger] is_name_behind(bare, name) && (finds(
                #[trigger] some[j],
                name,
            ) || finds(some[j], bare));
        assert(part(ids[i]).contains(some[j]));
        assert(all.contains(some[j]));
        let k = choose|k: int| 0 <= k < all.len() && all[k] == some[j];
        assert(is_name_behind(bare, name) && (finds(all[k], name) || finds(all[k], bare)));
    }
}

/// Two lists of matchers find a channel exactly if one of them does.
proof fn lemma_joined_matchers(
    first: Seq<PatternMatcherModel>,
    second: Seq<PatternMatcherModel>,
    name: Seq<char>,
)
    requires
        all_usable(first),
        all_usable(second),
    ensures
        all_usable(first + second),
        one_finds_channel(first + second, name) <==> one_finds_channel(first, name)
            || one_finds_channel(second, name),
{
    let all = first + second;
    assert forall|j: int| 0 <= j < all.len() implies usable(#[trigger] all[j]) by {
        if j < first.len() {
            assert(usable(first[j]));
        } else {
            assert(usable(second[j - first.len()]));
        }
    }
    if one_finds_channel(all, name) {
        let (j, bare) = choose|j: int, bare: Seq<char>|
            0 <= j < all.len() && #[trigger] is_name_behind(bare, name) && (finds(
                #[trigger] all[j],
                name,
            ) || finds(all[j], bare));
        if j < first.len() {
            assert(first[j] == all[j]);
            assert(is_name_behind(bare, name));
        } else {
            assert(second[j - first.len()] == all[j]);
            assert(is_name_behind(bare, name));
        }
    }
    if one_finds_channel(first, name) {
        let (j, bare) = choose|j: int, bare: Seq<char>|
            0 <= j < first.len() && #[trigger] is_name_behind(bare, name) && (finds(
                #[trigger] first[j],
                name,
            ) || finds(first[j], bare));
        assert(all[j] == first[j]);
        assert(is_name_behind(bare, name));
    }
    if one_finds_channel(second, name) {
        let (j, bare) = choose|j: int, bare: Seq<char>|
            0 <= j < second.len() && #[trigger] is_name_behind(bare, name) && (finds(
                #[trigger] second[j],
                name,
            ) || finds(second[j], bare));
        assert(all[first.len() + j] == second[j]);
        assert(is_name_behind(bare, name));
    }
}

/// A channel passes a search profile exactly if no denying channel profile lists it, and, where
/// the profile allows channels in particular, the profile itself, one of its sections or one of
/// its allowing channel profiles lists it.
pub proof fn law_channels_pass_search_profiles(
    settings: AppSettingsModel,
    profile: SearchProfileModel,
    channel_id: Seq<char>,
    channel_name: Seq<char>,
)
    requires
        sound(settings, profile),
    ensures
        channel_outcome(settings, profile, channel_id, channel_name) == Ok::<
            bool,
            SettingsErrorModel,
        >(
            !channel_profiles_list(
                settings,
                profile.channel_profiles,
                ProfileMode::Deny,
                channel_id,
                channel_name,
            ) && (!narrows_channels(settings, profile) || profile.channels.contains(channel_id)
                || sections_list(settings, profile.section_profiles, channel_id, channel_name)
                || channel_profiles_list(
                settings,
                profile.channel_profiles,
                ProfileMode::Allow,
                channel_id,
                channel_name,
            )),
        ),
{
    let (sections, profiles) = (profile.section_profiles, profile.channel_profiles);
    lemma_first(
        sections,
        |id: Seq<char>| with_id::<SectionProfile>(settings.section_profiles, id) is None,
    );
    lemma_first(
        profiles,
        |id: Seq<char>| with_id::<ChannelProfile>(settings.channel_profiles, id) is None,
    );
    assert(missing_section(settings.section_profiles, sections) is None) by {
        if let Some(id) = missing_section(settings.section_profiles, sections) {
            let i = choose|i: int| 0 <= i < sections.len() && #[trigger] sections[i] == id;
            assert(section_at(settings, sections, i) is Some);
        }
    }
    assert(missing_channel_profile(settings.channel_profiles, profiles) is None) by {
        if let Some(id) = missing_channel_profile(settings.channel_profiles, profiles) {
            let i = choose|i: int| 0 <= i < profiles.len() && #[trigger] profiles[i] == id;
            assert(channels_at(settings, profiles, i) is Some);
        }
    }
    lemma_lists_are_gathered(settings, sections, ProfileMode::Allow);
    lemma_lists_are_gathered(settings, profiles, ProfileMode::Allow);
    lemma_lists_are_gathered(settings, profiles, ProfileMode::Deny);
    let (sc, sm) = (section_channels_of(settings), section_matchers_of(settings));
    let (ac, am) = (
        profile_channels_of(settings, ProfileMode::Allow),
        profile_matchers_of(settings, ProfileMode::Allow),
    );
    let (dc, dm) = (
        profile_channels_of(settings, ProfileMode::Deny),
        profile_matchers_of(settings, ProfileMode::Deny),
    );
    assert forall|i: int| 0 <= i < sections.len() implies all_usable(sm(#[trigger] sections[i])) by {
        assert(section_at(settings, sections, i) is Some);
    }
    assert forall|i: int| 0 <= i < profiles.len() implies all_usable(am(#[trigger] profiles[i]))
        && all_usable(dm(profiles[i])) by {
        assert(channels_at(settings, profiles, i) is Some);
    }
    lemma_gathered(sections, sc);
    lemma_gathered(sections, sm);
    lemma_gathered(profiles, ac);
    lemma_gathered(profiles, am);
    lemma_gathered(profiles, dc);
    lemma_gathered_matchers(sections, sm, channel_name);
    lemma_gathered_matchers(profiles, am, channel_name);
    lemma_gathered_matchers(profiles, dm, channel_name);
    let (gsc, gsm) = (gathered(sections, sc), gathered(sections, sm));
    let (gac, gam) = (gathered(profiles, ac), gathered(profiles, am));
    let (gdc, gdm) = (gathered(profiles, dc), gathered(profiles, dm));
    lemma_joined_matchers(gsm, gam, channel_name);
    law_matchers_find_channels(gdm, channel_name);
    law_matchers_find_channels(gsm + gam, channel_name);
    let allow = profile.channels + gsc + gac;
    assert(allow.contains(channel_id) <==> profile.channels.contains(channel_id) || gsc.contains(
        channel_id,
    ) || gac.contains(channel_id)) by {
        lemma_joined_contains(profile.channels + gsc, gac, channel_id);
        lemma_joined_contains(profile.channels, gsc, channel_id);
    }
    let denied = channel_profiles_list(
        settings,
        profiles,
        ProfileMode::Deny,
        channel_id,
        channel_name,
    );
    let allowed = channel_profiles_list(
        settings,
        profiles,
        ProfileMode::Allow,
        channel_id,
        channel_name,
    );
    let listed = sections_list(settings, sections, channel_id, channel_name);
    assert(denied <==> gdc.contains(channel_id) || one_finds_channel(gdm, channel_name)) by {
        if denied {
            let i = choose|i: int|
                0 <= i < profiles.len() && (#[trigger] channels_at(settings, profiles, i) matches Some(
                    p,
                ) && p.mode == ProfileMode::Deny && (p.channels.contains(channel_id)
                    || one_finds_channel(p.channel_name_matchers, channel_name)));
            assert(dc(profiles[i]).contains(channel_id) || one_finds_channel(
                dm(profiles[i]),
                channel_name,
            ));
        }
        if gdc.contains(channel_id) {
            let i = choose|i: int|
                0 <= i < profiles.len() && dc(#[trigger] profiles[i]).contains(channel_id);
            assert(channels_at(settings, profiles, i) is Some);
        }
        if one_finds_channel(gdm, channel_name) {
            let i = choose|i: int|
                0 <= i < profiles.len() && one_finds_channel(
                    dm(#[trigger] profiles[i]),
                    channel_name,
                );
            assert(channels_at(settings, profiles, i) is Some);
        }
    }
    assert(allowed <==> gac.contains(channel_id) || one_finds_channel(gam, channel_name)) by {
        if allowed {
            let i = choose|i: int|
                0 <= i < profiles.len() && (#[trigger] channels_at(settings, profiles, i) matches Some(
                    p,
                ) && p.mode == ProfileMode::Allow && (p.channels.contains(channel_id)
                    || one_finds_channel(p.channel_name_matchers, channel_name)));
            assert(ac(profiles[i]).contains(channel_id) || one_finds_channel(
                am(profiles[i]),
                channel_name,
            ));
        }
        if gac.contains(channel_id) {
            let i = choose|i: int|
                0 <= i < profiles.len() && ac(#[trigger] profiles[i]).contains(channel_id);
            assert(channels_at(settings, profiles, i) is Some);
        }
        if one_finds_channel(gam, channel_name) {
            let i = choose|i: int|
                0 <= i < profiles.len() && one_finds_channel(
                    am(#[trigger] profiles[i]),
                    channel_name,
                );
            assert(channels_at(settings, profiles, i) is Some);
        }
    }
    assert(listed <==> gsc.contains(channel_id) || one_finds_channel(gsm, channel_name)) by {
        if listed {
            let i = choose|i: int|
                0 <= i < sections.len() && (#[trigger] section_at(settings, sections, i) matches Some(
                    p,
                ) && (p.channels.contains(channel_id) || one_finds_channel(
                    p.channel_name_matchers,
                    channel_name,
                )));
            assert(sc(sections[i]).contains(channel_id) || one_finds_channel(
                sm(sections[i]),
                channel_name,
            ));
        }
        if gsc.contains(channel_id) {
            let i = choose|i: int|
                0 <= i < sections.len() && sc(#[trigger] sections[i]).contains(channel_id);
            assert(section_at(settings, sections, i) is Some);
        }
        if one_finds_channel(gsm, channel_name) {
            let i = choose|i: int|
                0 <= i < sections.len() && one_finds_channel(
                    sm(#[trigger] sections[i]),
                    channel_name,
                );
            assert(section_at(settings, sections, i) is Some);
        }
    }
    assert(narrows_channels(settings, profile) <==> allow.len() > 0 || (gsm + gam).len() > 0) by {
        if gsc.len() > 0 {
            let i = choose|i: int| 0 <= i < sections.len() && sc(#[trigger] sections[i]).len() > 0;
            assert(section_at(settings, sections, i) is Some);
        }
        if gsm.len() > 0 {
            let i = choose|i: int| 0 <= i < sections.len() && sm(#[trigger] sections[i]).len() > 0;
            assert(section_at(settings, sections, i) is Some);
        }
        if gac.len() > 0 {
            let i = choose|i: int| 0 <= i < profiles.len() && ac(#[trigger] profiles[i]).len() > 0;
            assert(channels_at(settings, profiles, i) is Some);
        }
        if gam.len() > 0 {
            let i = choose|i: int| 0 <= i < profiles.len() && am(#[trigger] profiles[i]).len() > 0;
            assert(channels_at(settings, profiles, i) is Some);
        }
        if exists|i: int|
            0 <= i < sections.len() && (#[trigger] section_at(settings, sections, i) matches Some(p)
                && (p.channels.len() > 0 || p.channel_name_matchers.len() > 0)) {
            let i = choose|i: int|
                0 <= i < sections.len() && (#[trigger] section_at(settings, sections, i) matches Some(
                    p,
                ) && (p.channels.len() > 0 || p.channel_name_matchers.len() > 0));
            assert(sc(sections[i]).len() > 0 || sm(sections[i]).len() > 0);
        }
        if exists|i: int|
            0 <= i < profiles.len() && (#[trigger] channels_at(settings, profiles, i) matches Some(p)
                && p.mode == ProfileMode::Allow && (p.channels.len() > 0
                || p.channel_name_matchers.len() > 0)) {
            let i = choose|i: int|
                0 <= i < profiles.len() && (#[trigger] channels_at(settings, profiles, i) matches Some(
                    p,
                ) && p.mode == ProfileMode::Allow && (p.channels.len() > 0
                    || p.channel_name_matchers.len() > 0));
            assert(ac(profiles[i]).len() > 0 || am(profiles[i]).len() > 0);
        }
    }
}

/// What two sequences hold together.
pub proof fn lemma_joined_contains<V>(first: Seq<V>, second: Seq<V>, v: V)
    ensures
        (first + second).contains(v) <==> first.contains(v) || second.contains(v),
{
    let all = first + second;
    if first.contains(v) {
        let i = choose|i: int| 0 <= i < first.len() && first[i] == v;
        assert(all[i] == v);
    }
    if second.contains(v) {
        let i = choose|i: int| 0 <= i < second.len() && second[i] == v;
        assert(all[first.len() + i] == v);
    }
    if all.contains(v) {
        let i = choose|i: int| 0 <= i < all.len() && all[i] == v;
        if i < first.len() {
            assert(first[i] == v);
        } else {
            assert(second[i - first.len()] == v);
        }
    }
}

/// An author passes a search profile exactly if no denying author profile lists them, and, where
/// the profile allows authors in particular, the profile itself or one of its allowing author
/// profiles lists them.
pub proof fn law_authors_pass_search_profiles(
    settings: AppSettingsModel,
    profile: SearchProfileModel,
    author_id: Seq<char>,
)
    requires
        sound(settings, profile),
    ensures
        author_outcome(settings, profile, author_id) == Ok::<bool, SettingsErrorModel>(
            !author_profiles_list(settings, profile.author_profiles, ProfileMode::Deny, author_id)
                && (!narrows_authors(settings, profile) || profile.authors.contains(author_id)
                || author_profiles_list(
                settings,
                profile.author_profiles,
                ProfileMode::Allow,
                author_id,
            )),
        ),
{
    let ids = profile.author_profiles;
    lemma_first(
        ids,
        |id: Seq<char>| with_id::<AuthorProfile>(settings.author_profiles, id) is None,
    );
    assert(missing_author_profile(settings.author_profiles, ids) is None) by {
        if let Some(id) = missing_author_profile(settings.author_profiles, ids) {
            let i = choose|i: int| 0 <= i < ids.len() && #[trigger] ids[i] == id;
            assert(authors_at(settings, ids, i) is Some);
        }
    }
    lemma_lists_are_gathered(settings, ids, ProfileMode::Allow);
    lemma_lists_are_gathered(settings, ids, ProfileMode::Deny);
    let (a, d) = (
        profile_authors_of(settings, ProfileMode::Allow),
        profile_authors_of(settings, ProfileMode::Deny),
    );
    lemma_gathered(ids, a);
    lemma_gathered(ids, d);
    let (ga, gd) = (gathered(ids, a), gathered(ids, d));
    lemma_joined_contains(profile.authors, ga, author_id);
    if gd.contains(author_id) {
        let i = choose|i: int| 0 <= i < ids.len() && d(#[trigger] ids[i]).contains(author_id);
        assert(authors_at(settings, ids, i) is Some);
    }
    if ga.contains(author_id) {
        let i = choose|i: int| 0 <= i < ids.len() && a(#[trigger] ids[i]).contains(author_id);
        assert(authors_at(settings, ids, i) is Some);
    }
    if ga.len() > 0 {
        let i = choose|i: int| 0 <= i < ids.len() && a(#[trigger] ids[i]).len() > 0;
        assert(authors_at(settings, ids, i) is Some);
    }
    assert(author_profiles_list(settings, ids, ProfileMode::Deny, author_id) ==> gd.contains(
        author_id,
    )) by {
        if author_profiles_list(settings, ids, ProfileMode::Deny, author_id) {
            let i = choose|i: int|
                0 <= i < ids.len() && (#[trigger] authors_at(settings, ids, i) matches Some(p)
                    && p.mode == ProfileMode::Deny && p.authors.contains(author_id));
            assert(d(ids[i]).contains(author_id));
        }
    }
    assert(author_profiles_list(settings, ids, ProfileMode::Allow, author_id) ==> ga.contains(
        author_id,
    )) by {
        if author_profiles_list(settings, ids, ProfileMode::Allow, author_id) {
            let i = choose|i: int|
                0 <= i < ids.len() && (#[trigger] authors_at(settings, ids, i) matches Some(p)
                    && p.mode == ProfileMode::Allow && p.authors.contains(author_id));
            assert(a(ids[i]).contains(author_id));
        }
    }
    assert(narrows_authors(settings, profile) ==> (profile.authors + ga).len() > 0) by {
        if profile.authors.len() == 0 && narrows_authors(settings, profile) {
            let i = choose|i: int|
                0 <= i < ids.len() && (#[trigger] authors_at(settings, ids, i) matches Some(p)
                    && p.mode == ProfileMode::Allow && p.authors.len() > 0);
            assert(a(ids[i]).len() > 0);
        }
    }
}

/// What a list of keyword profiles says, given what those before it said.
proof fn lemma_keywords(
    settings: AppSettingsModel,
    ids: Seq<Seq<char>>,
    text: Seq<char>,
    wanted: bool,
    found: bool,
)
    requires
        forall|i: int|
            0 <= i < ids.len() ==> (#[trigger] keyword_at(settings, ids, i) matches Some(p)
                && all_usable(p.matchers)),
    ensures
        keyword_outcome(settings.keyword_profiles, ids, text, wanted, found) == Ok::<
            bool,
            SettingsErrorModel,
        >(
            !keywords_find(settings, ids, ProfileMode::Deny, text) && (found || keywords_find(
                settings,
                ids,
                ProfileMode::Allow,
                text,
            ) || !(wanted || has_keywords(settings, ids, ProfileMode::Allow))),
        ),
    decreases ids.len(),
{
    if ids.len() > 0 {
        let rest = ids.skip(1);
        assert forall|i: int| 0 <= i < rest.len() implies (#[trigger] keyword_at(
            settings,
            rest,
            i,
        ) matches Some(p) && all_usable(p.matchers)) by {
            assert(keyword_at(settings, ids, i + 1) == keyword_at(settings, rest, i));
        }
        assert(keyword_at(settings, ids, 0) is Some);
        let p = keyword_at(settings, ids, 0)->0;
        assert(ids.first() == ids[0]);
        law_matchers_find_what_one_finds(p.matchers, text);
        let matched = one_finds(p.matchers, text);
        let allows = p.mode == ProfileMode::Allow;
        lemma_keywords(settings, rest, text, wanted || allows, found || (allows && matched));
        assert forall|mode: ProfileMode| #[trigger]
            keywords_find(settings, ids, mode, text) == ((p.mode == mode && matched)
                || keywords_find(settings, rest, mode, text)) by {
            lemma_keywords_step(settings, ids, mode, text);
        }
        lemma_keywords_step(settings, ids, ProfileMode::Allow, text);
        lemma_keywords_step(settings, ids, ProfileMode::Deny, text);
    }
}

/// The first of a list of keyword profiles, and the others.
proof fn lemma_keywords_step(
    settings: AppSettingsModel,
    ids: Seq<Seq<char>>,
    mode: ProfileMode,
    text: Seq<char>,
)
    requires
        ids.len() > 0,
    ensures
        keywords_find(settings, ids, mode, text) <==> (keyword_at(settings, ids, 0) matches Some(p)
            && p.mode == mode && one_finds(p.matchers, text)) || keywords_find(
            settings,
            ids.skip(1),
            mode,
            text,
        ),
        has_keywords(settings, ids, mode) <==> (keyword_at(settings, ids, 0) matches Some(p)
            && p.mode == mode) || has_keywords(settings, ids.skip(1), mode),
{
    let rest = ids.skip(1);
    if keywords_find(settings, ids, mode, text) {
        let i = choose|i: int|
            0 <= i < ids.len() && (#[trigger] keyword_at(settings, ids, i) matches Some(p) && p.mode
                == mode && one_finds(p.matchers, text));
        if i > 0 {
            assert(keyword_at(settings, rest, i - 1) == keyword_at(settings, ids, i));
        }
    }
    if keywords_find(settings, rest, mode, text) {
        let i = choose|i: int|
            0 <= i < rest.len() && (#[trigger] keyword_at(settings, rest, i) matches Some(p)
                && p.mode == mode && one_finds(p.matchers, text));
        assert(keyword_at(settings, ids, i + 1) == keyword_at(settings, rest, i));
    }
    if has_keywords(settings, ids, mode) {
        let i = choose|i: int|
            0 <= i < ids.len() && (#[trigger] keyword_at(settings, ids, i) matches Some(p) && p.mode
                == mode);
        if i > 0 {
            assert(keyword_at(settings, rest, i - 1) == keyword_at(settings, ids, i));
        }
    }
    if has_keywords(settings, rest, mode) {
        let i = choose|i: int|
            0 <= i < rest.len() && (#[trigger] keyword_at(settings, rest, i) matches Some(p)
                && p.mode == mode);
        assert(keyword_at(settings, ids, i + 1) == keyword_at(settings, rest, i));
    }
}

/// A text passes the keyword profiles of a search profile exactly if no denying one finds
/// something in it and, where there are allowing ones, one of them does.
pub proof fn law_texts_pass_keyword_profiles(
    settings: AppSettingsModel,
    profile: SearchProfileModel,
    text: Seq<char>,
)
    requires
        sound(settings, profile),
    ensures
        keyword_outcome(
            settings.keyword_profiles,
            profile.keyword_profiles,
            text,
            false,
            false,
        ) == Ok::<bool, SettingsErrorModel>(
            !keywords_find(settings, profile.keyword_profiles, ProfileMode::Deny, text) && (
            has_keywords(settings, profile.keyword_profiles, ProfileMode::Allow)
                ==> keywords_find(settings, profile.keyword_profiles, ProfileMode::Allow, text)),
        ),
{
    lemma_keywords(settings, profile.keyword_profiles, text, false, false);
    lemma_found_is_there(settings, profile.keyword_profiles, ProfileMode::Allow, text);
}

/// Profiles that find something are there.
proof fn lemma_found_is_there(
    settings: AppSettingsModel,
    ids: Seq<Seq<char>>,
    mode: ProfileMode,
    text: Seq<char>,
)
    ensures
        keywords_find(settings, ids, mode, text) ==> has_keywords(settings, ids, mode),
{
}

/// Whether a message passes all that a search profile refers to, in words: its channel, its
/// author and its text do.
pub open spec fn passes_profiles(
    settings: AppSettingsModel,
    profile: SearchProfileModel,
    item: TimelineItemModel,
) -> bool {
    &&& !channel_profiles_list(
        settings,
        profile.channel_profiles,
        ProfileMode::Deny,
        item.channel_id,
        item.channel_name,
    )
    &&& narrows_channels(settings, profile) ==> profile.channels.contains(item.channel_id)
        || sections_list(
        settings,
        profile.section_profiles,
        item.channel_id,
        item.channel_name,
    ) || channel_profiles_list(
        settings,
        profile.channel_profiles,
        ProfileMode::Allow,
        item.channel_id,
        item.channel_name,
    )
    &&& !author_profiles_list(settings, profile.author_profiles, ProfileMode::Deny, item.author_id)
    &&& narrows_authors(settings, profile) ==> profile.authors.contains(item.author_id)
        || author_profiles_list(
        settings,
        profile.author_profiles,
        ProfileMode::Allow,
        item.author_id,
    )
    &&& !keywords_find(settings, profile.keyword_profiles, ProfileMode::Deny, item.body)
    &&& has_keywords(settings, profile.keyword_profiles, ProfileMode::Allow) ==> keywords_find(
        settings,
        profile.keyword_profiles,
        ProfileMode::Allow,
        item.body,
    )
}

/// Whether a message holds words in its text, its author's name or its channel's name, without
/// regard to case.
pub open spec fn message_holds(item: TimelineItemModel, words: Seq<char>) -> bool {
    stands_in(lowercase(item.body), lowercase(words)) || stands_in(
        lowercase(item.author_name),
        lowercase(words),
    ) || stands_in(lowercase(item.channel_name), lowercase(words))
}

/// A query matches exactly the messages that hold its words.
pub proof fn law_queries_find_words(item: TimelineItemModel, words: Seq<char>)
    ensures
        query_matches(item, words) == message_holds(item, words),
{
    let matcher = PatternMatcherModel::Text(words);
    lemma_matcher(matcher, item.body);
    lemma_matcher(matcher, item.author_name);
    lemma_matcher(matcher, item.channel_name);
}

/// A message passes a search profile exactly if its channel, its author and its text pass all that
/// the profile refers to, and it holds the words of the profile's query, if there are any.
pub proof fn law_search_profiles_decide(
    settings: AppSettingsModel,
    id: Seq<char>,
    profile: SearchProfileModel,
    item: TimelineItemModel,
)
    requires
        with_id::<SearchProfile>(settings.search_profiles, id) == Some(profile),
        sound(settings, profile),
    ensures
        settings.search_outcome(id, item) == Ok::<bool, SettingsErrorModel>(
            passes_profiles(settings, profile, item) && (profile.query matches Some(query)
                ==> crate::text::trim(query).len() == 0 || message_holds(
                item,
                crate::text::trim(query),
            )),
        ),
{
    law_channels_pass_search_profiles(settings, profile, item.channel_id, item.channel_name);
    law_authors_pass_search_profiles(settings, profile, item.author_id);
    law_texts_pass_keyword_profiles(settings, profile, item.body);
    if let Some(query) = profile.query {
        law_queries_find_words(item, crate::text::trim(query));
    }
}

/// A denying keyword profile that finds something is never passed.
proof fn lemma_denied(
    settings: AppSettingsModel,
    ids: Seq<Seq<char>>,
    text: Seq<char>,
    wanted: bool,
    found: bool,
    at: int,
)
    requires
        0 <= at < ids.len(),
        keyword_at(settings, ids, at) matches Some(p) && p.mode == ProfileMode::Deny && all_usable(
            p.matchers,
        ) && one_finds(p.matchers, text),
    ensures
        keyword_outcome(settings.keyword_profiles, ids, text, wanted, found) != Ok::<
            bool,
            SettingsErrorModel,
        >(true),
    decreases ids.len(),
{
    assert(ids.first() == ids[0]);
    if at == 0 {
        law_matchers_find_what_one_finds(keyword_at(settings, ids, 0)->0.matchers, text);
    } else {
        let rest = ids.skip(1);
        assert(keyword_at(settings, rest, at - 1) == keyword_at(settings, ids, at));
        lemma_denied(settings, rest, text, true, found, at - 1);
        lemma_denied(settings, rest, text, true, true, at - 1);
        lemma_denied(settings, rest, text, wanted, found, at - 1);
    }
}

/// A denying keyword profile that finds something in a message refuses it, whatever else a search
/// profile allows or refers to.
pub proof fn law_denied_keywords_refuse_searches(
    settings: AppSettingsModel,
    id: Seq<char>,
    profile: SearchProfileModel,
    item: TimelineItemModel,
    at: int,
)
    requires
        with_id::<SearchProfile>(settings.search_profiles, id) == Some(profile),
        0 <= at < profile.keyword_profiles.len(),
        keyword_at(settings, profile.keyword_profiles, at) matches Some(p) && p.mode
            == ProfileMode::Deny && all_usable(p.matchers) && one_finds(p.matchers, item.body),
    ensures
        settings.search_outcome(id, item) != Ok::<bool, SettingsErrorModel>(true),
{
    lemma_denied(settings, profile.keyword_profiles, item.body, false, false, at);
}

/// A denying keyword profile that finds something in a message keeps a rule from matching it,
/// whatever else the rule asks for.
pub proof fn law_denied_keywords_refuse_rules(
    settings: AppSettingsModel,
    rule: NotificationRuleModel,
    item: TimelineItemModel,
    at: int,
)
    requires
        0 <= at < rule.keyword_profile_ids.len(),
        keyword_at(settings, rule.keyword_profile_ids, at) matches Some(p) && p.mode
            == ProfileMode::Deny && all_usable(p.matchers) && one_finds(p.matchers, item.body),
    ensures
        settings.rule_outcome(rule, item) != Ok::<bool, SettingsErrorModel>(true),
{
    lemma_denied(settings, rule.keyword_profile_ids, item.body, false, false, at);
}

/// A rule matches a message exactly if it is on; the message is in one of its channels and by one
/// of its authors, where it names any; the user takes part, where it asks for that; one of its
/// wanted patterns finds something in the text, where there are any, and none of its unwanted
/// ones; and all that it refers to is passed, of search profiles at least one.
pub proof fn law_rules_decide(
    settings: AppSettingsModel,
    rule: NotificationRuleModel,
    item: TimelineItemModel,
)
    requires
        all_usable(rule.includes),
        all_usable(rule.exclude),
        rule.quiet_hours matches Some(hours) ==> hours.start_hour < 24 && hours.end_hour < 24,
        sound(settings, rule_profile(rule)),
        forall|i: int|
            0 <= i < rule.search_profile_ids.len() ==> (#[trigger] search_at(
                settings,
                rule.search_profile_ids,
                i,
            ) matches Some(p) && sound(settings, p)),
    ensures
        settings.rule_outcome(rule, item) == Ok::<bool, SettingsErrorModel>(
            rule.enabled && (rule.channels.len() > 0 ==> rule.channels.contains(item.channel_id))
                && (rule.authors.len() > 0 ==> rule.authors.contains(item.author_id)) && (
            rule.thread_participation_only ==> item.participant) && (rule.includes.len() > 0
                ==> one_finds(rule.includes, item.body)) && !one_finds(rule.exclude, item.body)
                && passes_profiles(
                settings,
                SearchProfileModel {
                    id: Seq::empty(),
                    label: Seq::empty(),
                    query: None,
                    keyword_profiles: rule.keyword_profile_ids,
                    section_profiles: rule.section_profile_ids,
                    channel_profiles: rule.channel_profile_ids,
                    author_profiles: rule.author_profile_ids,
                    channels: Seq::empty(),
                    authors: Seq::empty(),
                },
                item,
            ) && (rule.search_profile_ids.len() > 0 ==> exists|i: int|
                0 <= i < rule.search_profile_ids.len() && (#[trigger] search_at(
                    settings,
                    rule.search_profile_ids,
                    i,
                ) matches Some(p) && passes_profiles(settings, p, item) && (p.query matches Some(
                    query,
                ) ==> crate::text::trim(query).len() == 0 || message_holds(
                    item,
                    crate::text::trim(query),
                )))),
        ),
{
    let profile = rule_profile(rule);
    lemma_valid(rule.includes);
    lemma_valid(rule.exclude);
    law_matchers_find_what_one_finds(rule.includes, item.body);
    law_matchers_find_what_one_finds(rule.exclude, item.body);
    law_channels_pass_search_profiles(settings, profile, item.channel_id, item.channel_name);
    law_authors_pass_search_profiles(settings, profile, item.author_id);
    law_texts_pass_keyword_profiles(settings, profile, item.body);
    lemma_any_search(settings, rule.search_profile_ids, item);
}

/// The search profile that an identifier of a list refers to.
pub open spec fn search_at(settings: AppSettingsModel, ids: Seq<Seq<char>>, i: int) -> Option<
    SearchProfileModel,
> {
    with_id::<SearchProfile>(settings.search_profiles, ids[i])
}

/// Whether a message passes the search profile that an identifier of a list refers to.
spec fn passed_at(
    settings: AppSettingsModel,
    ids: Seq<Seq<char>>,
    item: TimelineItemModel,
    i: int,
) -> bool {
    search_at(settings, ids, i) matches Some(p) && passes_profiles(settings, p, item) && (
    p.query matches Some(query) ==> crate::text::trim(query).len() == 0 || message_holds(
        item,
        crate::text::trim(query),
    ))
}

/// One of several search profiles is passed exactly if there is one that is.
proof fn lemma_any_search(
    settings: AppSettingsModel,
    ids: Seq<Seq<char>>,
    item: TimelineItemModel,
)
    requires
        forall|i: int|
            0 <= i < ids.len() ==> (#[trigger] search_at(settings, ids, i) matches Some(p) && sound(
                settings,
                p,
            )),
    ensures
        settings.any_search_outcome(ids, item) == Ok::<bool, SettingsErrorModel>(
            exists|i: int|
                0 <= i < ids.len() && (#[trigger] search_at(settings, ids, i) matches Some(p)
                    && passes_profiles(settings, p, item) && (p.query matches Some(query)
                    ==> crate::text::trim(query).len() == 0 || message_holds(
                    item,
                    crate::text::trim(query),
                ))),
        ),
    decreases ids.len(),
{
    if ids.len() > 0 {
        let rest = ids.skip(1);
        assert forall|i: int| 0 <= i < rest.len() implies (#[trigger] search_at(
            settings,
            rest,
            i,
        ) matches Some(p) && sound(settings, p)) by {
            assert(search_at(settings, ids, i + 1) == search_at(settings, rest, i));
        }
        assert(search_at(settings, ids, 0) is Some);
        assert(ids.first() == ids[0]);
        let p = search_at(settings, ids, 0)->0;
        law_search_profiles_decide(settings, ids[0], p, item);
        lemma_any_search(settings, rest, item);
        if passed_at(settings, ids, item, 0) {
            assert(search_at(settings, ids, 0) is Some);
        }
        assert(forall|i: int|
            0 <= i < rest.len() ==> #[trigger] search_at(settings, rest, i) == search_at(
                settings,
                ids,
                i + 1,
            ));
        assert(forall|i: int|
            0 < i < ids.len() ==> #[trigger] search_at(settings, ids, i) == search_at(
                settings,
                rest,
                i - 1,
            ));
    }
}

/// Matchers that can be used are valid.
proof fn lemma_valid(matchers: Seq<PatternMatcherModel>)
    requires
        all_usable(matchers),
    ensures
        crate::matching::first_invalid(matchers) is None,
{
    let wrong = |matcher: PatternMatcherModel|
        matcher matches PatternMatcherModel::Regex(pattern) && !crate::patterns::regex_valid(
            pattern,
        );
    lemma_first(matchers, wrong);
    if let Some(m) = first_match(matchers, wrong) {
        let i = choose|i: int| 0 <= i < matchers.len() && #[trigger] matchers[i] == m;
        assert(usable(matchers[i]));
    }
}

/// What the settings refer to and does not exist is an error, and no answer.
pub proof fn law_missing_references_are_errors(
    settings: AppSettingsModel,
    id: Seq<char>,
    profile: SearchProfileModel,
    item: TimelineItemModel,
)
    requires
        with_id::<SearchProfile>(settings.search_profiles, id) == Some(profile),
        (exists|i: int|
            0 <= i < profile.section_profiles.len() && #[trigger] section_at(
                settings,
                profile.section_profiles,
                i,
            ) is None) || (exists|i: int|
            0 <= i < profile.channel_profiles.len() && #[trigger] channels_at(
                settings,
                profile.channel_profiles,
                i,
            ) is None),
    ensures
        settings.search_outcome(id, item) is Err,
{
    let (sections, profiles) = (profile.section_profiles, profile.channel_profiles);
    lemma_first(
        sections,
        |id: Seq<char>| with_id::<SectionProfile>(settings.section_profiles, id) is None,
    );
    lemma_first(
        profiles,
        |id: Seq<char>| with_id::<ChannelProfile>(settings.channel_profiles, id) is None,
    );
    if exists|i: int|
        0 <= i < sections.len() && #[trigger] section_at(settings, sections, i) is None {
        let i = choose|i: int|
            0 <= i < sections.len() && #[trigger] section_at(settings, sections, i) is None;
        assert(with_id::<SectionProfile>(settings.section_profiles, sections[i]) is None);
    } else {
        let i = choose|i: int|
            0 <= i < profiles.len() && #[trigger] channels_at(settings, profiles, i) is None;
        assert(with_id::<ChannelProfile>(settings.channel_profiles, profiles[i]) is None);
    }
}

/// What the user may do in a channel is what is set for the channel, or else for all.
pub proof fn law_permissions_are_those_set(settings: AppSettingsModel, channel_id: Seq<char>)
    ensures
        (forall|i: int|
            0 <= i < settings.channel_permissions.len() ==> (
            #[trigger] settings.channel_permissions[i]).0 != channel_id) ==> settings.permission(
            channel_id,
        ) == settings.default_channel_permission,
        forall|i: int|
            0 <= i < settings.channel_permissions.len() && (
            #[trigger] settings.channel_permissions[i]).0 == channel_id && (forall|k: int|
                0 <= k < i ==> (#[trigger] settings.channel_permissions[k]).0 != channel_id)
                ==> settings.permission(channel_id) == settings.channel_permissions[i].1,
{
    lemma_lookup_first(settings.channel_permissions, channel_id);
}

/// What is found under a key is what stands first under it.
pub proof fn lemma_lookup_first<V>(entries: Seq<(Seq<char>, V)>, key: Seq<char>)
    ensures
        (forall|i: int| 0 <= i < entries.len() ==> (#[trigger] entries[i]).0 != key) ==> lookup(
            entries,
            key,
        ) is None,
        forall|i: int|
            0 <= i < entries.len() && (#[trigger] entries[i]).0 == key && (forall|k: int|
                0 <= k < i ==> (#[trigger] entries[k]).0 != key) ==> lookup(entries, key) == Some(
                entries[i].1,
            ),
    decreases entries.len(),
{
    if entries.len() > 0 {
        let rest = entries.skip(1);
        lemma_lookup_first(rest, key);
        assert(entries.first() == entries[0]);
        if entries[0].0 != key {
            if forall|i: int| 0 <= i < entries.len() ==> (#[trigger] entries[i]).0 != key {
                assert forall|i: int| 0 <= i < rest.len() implies (#[trigger] rest[i]).0 != key by {
                    assert(entries[i + 1].0 != key);
                }
            }
            assert forall|i: int|
                0 <= i < entries.len() && (#[trigger] entries[i]).0 == key && (forall|k: int|
                    0 <= k < i ==> (#[trigger] entries[k]).0 != key) implies lookup(entries, key)
                == Some(entries[i].1) by {
                assert(rest[i - 1] == entries[i]);
                assert forall|k: int| 0 <= k < i - 1 implies (#[trigger] rest[k]).0 != key by {
                    assert(entries[k + 1].0 != key);
                }
            }
        } else {
            assert forall|i: int|
                0 <= i < entries.len() && (#[trigger] entries[i]).0 == key && (forall|k: int|
                    0 <= k < i ==> (#[trigger] entries[k]).0 != key) implies lookup(entries, key)
                == Some(entries[i].1) by {
                if i > 0 {
                    assert(entries[0].0 != key);
                }
            }
        }
    }
}

/// Only a channel that is hidden cannot be read, and only one that may be both read and written to
/// takes posts.
pub proof fn law_permissions_mean_what_they_say(permission: ChannelPermission)
    ensures
        permission.readable() <==> permission != ChannelPermission::Hidden,
        permission.writable() <==> permission == ChannelPermission::ReadWrite,
{
}

/// A channel is in the search profile that is active exactly if that profile lets it pass; without
/// an active one it is in none.
pub proof fn law_channels_are_in_the_active_profile(
    settings: AppSettingsModel,
    channel_id: Seq<char>,
    channel_name: Seq<char>,
    at: int,
)
    requires
        0 <= at < settings.search_profiles.len(),
        forall|k: int|
            0 <= k < at ==> (#[trigger] settings.search_profiles[k]).id
                != settings.search_profiles[at].id,
    ensures
        settings.active_search_profile_id is None ==> settings.active_channel_outcome(
            channel_id,
            channel_name,
        ) == Ok::<bool, SettingsErrorModel>(false),
        settings.active_search_profile_id == Some(settings.search_profiles[at].id)
            ==> settings.active_channel_outcome(channel_id, channel_name) == channel_outcome(
            settings,
            settings.search_profiles[at],
            channel_id,
            channel_name,
        ),
{
    let profile = settings.search_profiles[at];
    let has = crate::collections::has_id::<SearchProfile>(profile.id);
    assert(has(profile));
    crate::collections::lemma_first_match(settings.search_profiles, has, at);
}

} // verus!
