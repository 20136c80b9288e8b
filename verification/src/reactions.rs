//! Counting reactions.
use vstd::prelude::*;

use crate::collections::{order_of, sort_values, sorted, Order};
use crate::emoji::{
    normalize_reaction_name, reaction_display, reaction_emoji, reaction_name,
};
use crate::models::{ReactionSummary, ReactionSummaryModel};
use crate::text::{owned, same_text};

verus! {

/// The reactions that most gave come first.
pub struct MostGivenFirst;

impl Order<ReactionSummary> for MostGivenFirst {
    open spec fn before(left: ReactionSummaryModel, right: ReactionSummaryModel) -> bool {
        left.count > right.count
    }

    fn stands_before(left: &ReactionSummary, right: &ReactionSummary) -> bool {
        left.count > right.count
    }
}

/// Reactions, the ones that most gave first.
pub open spec fn by_count(reactions: Seq<ReactionSummaryModel>) -> Seq<ReactionSummaryModel> {
    sorted(reactions, order_of::<ReactionSummary, MostGivenFirst>())
}

/// The first position at or after `from` of a reaction with the name.
pub open spec fn reaction_from(
    reactions: Seq<ReactionSummaryModel>,
    name: Seq<char>,
    from: int,
) -> Option<int>
    decreases reactions.len() - from,
{
    if from < 0 || from >= reactions.len() {
        None
    } else if reaction_name(reactions[from].name) == Some(name) {
        Some(from)
    } else {
        reaction_from(reactions, name, from + 1)
    }
}

/// The normal name of a reaction; a name without one is its own.
pub open spec fn normal_reaction(name: Seq<char>) -> Seq<char> {
    match reaction_name(name) {
        Some(normal) => normal,
        None => name,
    }
}

/// A reaction that one more user gave. The user's own reaction counts once.
pub open spec fn given_once_more(
    reaction: ReactionSummaryModel,
    name: Seq<char>,
    mine: bool,
) -> ReactionSummaryModel {
    ReactionSummaryModel {
        count: if mine && reaction.me {
            reaction.count
        } else if reaction.count < u32::MAX {
            (reaction.count + 1) as u32
        } else {
            reaction.count
        },
        me: reaction.me || mine,
        emoji: reaction_display(name),
        ..reaction
    }
}

/// Reactions after a user gave the one with the name.
pub open spec fn reactions_with(
    reactions: Seq<ReactionSummaryModel>,
    name: Seq<char>,
    mine: bool,
) -> Seq<ReactionSummaryModel> {
    by_count(
        match reaction_from(reactions, name, 0) {
            Some(at) => reactions.update(at, given_once_more(reactions[at], name, mine)),
            None => reactions.push(
                ReactionSummaryModel { name, emoji: reaction_display(name), count: 1, me: mine },
            ),
        },
    )
}

/// Reactions after a user took back the one with the name. One that nobody gives any more is
/// gone; one that the user still gives counts at least once.
pub open spec fn reactions_without(
    reactions: Seq<ReactionSummaryModel>,
    name: Seq<char>,
    mine: bool,
) -> Seq<ReactionSummaryModel> {
    match reaction_from(reactions, name, 0) {
        None => reactions,
        Some(at) => {
            let me = reactions[at].me && !mine;
            let count = if reactions[at].count > 0 {
                (reactions[at].count - 1) as u32
            } else {
                0
            };
            by_count(
                if count == 0 && !me {
                    reactions.remove(at)
                } else {
                    reactions.update(
                        at,
                        ReactionSummaryModel {
                            me,
                            count: if count == 0 {
                                1
                            } else {
                                count
                            },
                            ..reactions[at]
                        },
                    )
                },
            )
        },
    }
}

/// The position of a reaction with the name.
pub fn position_of_reaction(reactions: &Vec<ReactionSummary>, name: &str) -> (r: Option<usize>)
    ensures
        match r {
            Some(at) => reaction_from(reactions.deep_view(), name@, 0) == Some(at as int) && at
                < reactions.len(),
            None => reaction_from(reactions.deep_view(), name@, 0) is None,
        },
{
    let ghost all = reactions.deep_view();
    let mut at: usize = 0;
    while at < reactions.len()
        invariant
            at <= reactions.len(),
            all == reactions.deep_view(),
            reaction_from(all, name@, 0) == reaction_from(all, name@, at as int),
        decreases reactions.len() - at,
    {
        assert(all[at as int] == reactions[at as int].deep_view());
        if let Some(normal) = normalize_reaction_name(reactions[at].name.as_str()) {
            if same_text(normal.as_str(), name) {
                return Some(at);
            }
        }
        at += 1;
    }
    None
}

/// The normal name of a reaction; a name without one is its own.
pub fn normal_reaction_name(name: &str) -> (r: String)
    ensures
        r@ == normal_reaction(name@),
{
    match normalize_reaction_name(name) {
        Some(normal) => normal,
        None => owned(name),
    }
}

/// Reactions in the order of their counts.
pub fn sort_by_count(reactions: Vec<ReactionSummary>) -> (r: Vec<ReactionSummary>)
    ensures
        r.deep_view() == by_count(reactions.deep_view()),
{
    sort_values::<ReactionSummary, MostGivenFirst>(reactions)
}

/// Counts the reaction that a user gave.
pub fn add_reaction(reactions: &Vec<ReactionSummary>, name: &str, mine: bool) -> (r: Vec<
    ReactionSummary,
>)
    ensures
        r.deep_view() == reactions_with(reactions.deep_view(), name@, mine),
{
    let ghost before = reactions.deep_view();
    let mut changed = reactions.clone();
    assert(changed.deep_view() =~= before);
    match position_of_reaction(reactions, name) {
        Some(at) => {
            let entry = &reactions[at];
            let grown = ReactionSummary {
                name: entry.name.clone(),
                emoji: reaction_emoji(name),
                count: if mine && entry.me {
                    entry.count
                } else if entry.count < u32::MAX {
                    entry.count + 1
                } else {
                    entry.count
                },
                me: entry.me || mine,
            };
            let ghost meaning = grown.deep_view();
            assert(meaning == given_once_more(before[at as int], name@, mine));
            changed.set(at, grown);
            assert(changed.deep_view() =~= before.update(at as int, meaning));
        },
        None => {
            let added = ReactionSummary {
                name: owned(name),
                emoji: reaction_emoji(name),
                count: 1,
                me: mine,
            };
            let ghost meaning = added.deep_view();
            changed.push(added);
            assert(changed.deep_view() =~= before.push(meaning));
        },
    }
    sort_by_count(changed)
}

/// Takes back the reaction that a user gave.
pub fn remove_reaction(reactions: &Vec<ReactionSummary>, name: &str, mine: bool) -> (r: Vec<
    ReactionSummary,
>)
    ensures
        r.deep_view() == reactions_without(reactions.deep_view(), name@, mine),
{
    let ghost before = reactions.deep_view();
    let mut changed = reactions.clone();
    assert(changed.deep_view() =~= before);
    match position_of_reaction(reactions, name) {
        None => changed,
        Some(at) => {
            let entry = &reactions[at];
            assert(before[at as int] == entry.deep_view());
            let me = entry.me && !mine;
            let count: u32 = if entry.count > 0 {
                entry.count - 1
            } else {
                0
            };
            if count == 0 && !me {
                changed.remove(at);
                assert(changed.deep_view() =~= before.remove(at as int));
            } else {
                let kept = ReactionSummary {
                    name: entry.name.clone(),
                    emoji: entry.emoji.clone(),
                    count: if count == 0 {
                        1
                    } else {
                        count
                    },
                    me,
                };
                let ghost meaning = kept.deep_view();
                changed.set(at, kept);
                assert(changed.deep_view() =~= before.update(at as int, meaning));
            }
            sort_by_count(changed)
        },
    }
}

pub proof fn lemma_reaction_from(reactions: Seq<ReactionSummaryModel>, name: Seq<char>, from: int)
    requires
        0 <= from,
    ensures
        reaction_from(reactions, name, from) matches Some(at) ==> from <= at < reactions.len()
            && reaction_name(reactions[at].name) == Some(name),
        reaction_from(reactions, name, from) is None ==> forall|k: int|
            from <= k < reactions.len() ==> reaction_name((#[trigger] reactions[k]).name) != Some(
                name,
            ),
    decreases reactions.len() - from,
{
    if from < reactions.len() && reaction_name(reactions[from].name) != Some(name) {
        lemma_reaction_from(reactions, name, from + 1);
    }
}

/// Giving a reaction a second time does not count the user a second time.
pub proof fn law_own_reaction_counts_once(reaction: ReactionSummaryModel, name: Seq<char>)
    ensures
        given_once_more(given_once_more(reaction, name, true), name, true).count
            == given_once_more(reaction, name, true).count,
        given_once_more(reaction, name, true).me,
{
}

/// Taking back a reaction that there is not changes nothing.
pub proof fn law_removing_unknown_reaction_changes_nothing(
    reactions: Seq<ReactionSummaryModel>,
    name: Seq<char>,
    mine: bool,
)
    requires
        forall|i: int|
            0 <= i < reactions.len() ==> reaction_name((#[trigger] reactions[i]).name) != Some(
                name,
            ),
    ensures
        reactions_without(reactions, name, mine) == reactions,
{
    lemma_reaction_from(reactions, name, 0);
}

/// A reaction that one user gave and took back is gone.
pub proof fn law_taking_back_a_new_reaction_removes_it(name: Seq<char>, mine: bool)
    requires
        reaction_name(name) == Some(name),
    ensures
        reactions_without(reactions_with(Seq::empty(), name, mine), name, mine).len() == 0,
{
    let one = ReactionSummaryModel { name, emoji: reaction_display(name), count: 1, me: mine };
    let before = order_of::<ReactionSummary, MostGivenFirst>();
    reveal_with_fuel(sorted, 3);
    assert(Seq::<ReactionSummaryModel>::empty().push(one).drop_last() =~= Seq::empty());
    assert(reactions_with(Seq::empty(), name, mine) =~= seq![one]);
    assert(seq![one].remove(0) =~= Seq::empty());
}

} // verus!
