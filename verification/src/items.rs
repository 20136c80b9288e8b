//! Finding, keeping and changing the items of a list.
use vstd::prelude::*;

use crate::collections::{first_match, lemma_first_match};
use crate::models::{TimelineItem, TimelineItemModel};
use crate::text::same_text;

verus! {

/// The condition of being a message.
pub open spec fn is_message(message_ts: Seq<char>) -> spec_fn(TimelineItemModel) -> bool {
    |item: TimelineItemModel| item.message_ts == message_ts
}

/// The condition of being in a thread.
pub open spec fn in_thread(thread_ts: Seq<char>) -> spec_fn(TimelineItemModel) -> bool {
    |item: TimelineItemModel| item.thread_ts == thread_ts
}

/// The condition of being in a channel.
pub open spec fn in_channel(channel_id: Seq<char>) -> spec_fn(TimelineItemModel) -> bool {
    |item: TimelineItemModel| item.channel_id == channel_id
}

/// The condition of being from an author.
pub open spec fn by_author(author_id: Seq<char>) -> spec_fn(TimelineItemModel) -> bool {
    |item: TimelineItemModel| item.author_id == author_id
}

/// The condition of being from an author whose name is known.
pub open spec fn by_named_author(author_id: Seq<char>) -> spec_fn(TimelineItemModel) -> bool {
    |item: TimelineItemModel| item.author_id == author_id && item.author_name != item.author_id
}

/// The condition of being a message in a channel.
pub open spec fn is_message_in(channel_id: Seq<char>, message_ts: Seq<char>) -> spec_fn(
    TimelineItemModel,
) -> bool {
    |item: TimelineItemModel| item.channel_id == channel_id && item.message_ts == message_ts
}

/// The condition of being a reply in a thread.
pub open spec fn is_reply_in(thread_ts: Seq<char>) -> spec_fn(TimelineItemModel) -> bool {
    |item: TimelineItemModel| item.thread_ts == thread_ts && item.message_ts != thread_ts
}

/// The opposite of a condition.
pub open spec fn not(condition: spec_fn(TimelineItemModel) -> bool) -> spec_fn(
    TimelineItemModel,
) -> bool {
    |item: TimelineItemModel| !condition(item)
}

/// A condition on items that can be tested.
pub trait ItemTest {
    /// The condition.
    spec fn condition(&self) -> spec_fn(TimelineItemModel) -> bool;

    /// Whether the condition holds of an item.
    fn holds(&self, item: &TimelineItem) -> (r: bool)
        ensures
            r == (self.condition())(item.deep_view()),
    ;
}

/// Tests for a message.
pub struct MessageIs<'a>(pub &'a str);

impl<'a> ItemTest for MessageIs<'a> {
    open spec fn condition(&self) -> spec_fn(TimelineItemModel) -> bool {
        is_message(self.0@)
    }

    fn holds(&self, item: &TimelineItem) -> bool {
        same_text(item.message_ts.as_str(), self.0)
    }
}

/// Tests for a thread.
pub struct ThreadIs<'a>(pub &'a str);

impl<'a> ItemTest for ThreadIs<'a> {
    open spec fn condition(&self) -> spec_fn(TimelineItemModel) -> bool {
        in_thread(self.0@)
    }

    fn holds(&self, item: &TimelineItem) -> bool {
        same_text(item.thread_ts.as_str(), self.0)
    }
}

/// Tests for a channel.
pub struct ChannelIs<'a>(pub &'a str);

impl<'a> ItemTest for ChannelIs<'a> {
    open spec fn condition(&self) -> spec_fn(TimelineItemModel) -> bool {
        in_channel(self.0@)
    }

    fn holds(&self, item: &TimelineItem) -> bool {
        same_text(item.channel_id.as_str(), self.0)
    }
}

/// Tests for an author.
pub struct AuthorIs<'a>(pub &'a str);

impl<'a> ItemTest for AuthorIs<'a> {
    open spec fn condition(&self) -> spec_fn(TimelineItemModel) -> bool {
        by_author(self.0@)
    }

    fn holds(&self, item: &TimelineItem) -> bool {
        same_text(item.author_id.as_str(), self.0)
    }
}

/// Tests for an author whose name is known.
pub struct NamedAuthorIs<'a>(pub &'a str);

impl<'a> ItemTest for NamedAuthorIs<'a> {
    open spec fn condition(&self) -> spec_fn(TimelineItemModel) -> bool {
        by_named_author(self.0@)
    }

    fn holds(&self, item: &TimelineItem) -> bool {
        same_text(item.author_id.as_str(), self.0) && !same_text(
            item.author_name.as_str(),
            item.author_id.as_str(),
        )
    }
}

/// Tests for a message in a channel.
pub struct MessageInChannel<'a>(pub &'a str, pub &'a str);

impl<'a> ItemTest for MessageInChannel<'a> {
    open spec fn condition(&self) -> spec_fn(TimelineItemModel) -> bool {
        is_message_in(self.0@, self.1@)
    }

    fn holds(&self, item: &TimelineItem) -> bool {
        same_text(item.channel_id.as_str(), self.0) && same_text(item.message_ts.as_str(), self.1)
    }
}

/// Tests for a reply in a thread.
pub struct ReplyIn<'a>(pub &'a str);

impl<'a> ItemTest for ReplyIn<'a> {
    open spec fn condition(&self) -> spec_fn(TimelineItemModel) -> bool {
        is_reply_in(self.0@)
    }

    fn holds(&self, item: &TimelineItem) -> bool {
        same_text(item.thread_ts.as_str(), self.0) && !same_text(item.message_ts.as_str(), self.0)
    }
}

/// Tests for the opposite.
pub struct Not<T>(pub T);

impl<T: ItemTest> ItemTest for Not<T> {
    open spec fn condition(&self) -> spec_fn(TimelineItemModel) -> bool {
        not(self.0.condition())
    }

    fn holds(&self, item: &TimelineItem) -> bool {
        !self.0.holds(item)
    }
}

/// The position of the first item that passes a test.
pub fn position_of_item<T: ItemTest>(items: &Vec<TimelineItem>, test: &T) -> (r: Option<usize>)
    ensures
        match r {
            Some(at) => at < items.len() && first_match(items.deep_view(), test.condition())
                == Some(items[at as int].deep_view()) && (test.condition())(
                items[at as int].deep_view(),
            ) && forall|k: int|
                0 <= k < at ==> !(test.condition())(#[trigger] items.deep_view()[k]),
            None => first_match(items.deep_view(), test.condition()) is None && forall|k: int|
                0 <= k < items.len() ==> !(test.condition())(#[trigger] items.deep_view()[k]),
        },
{
    let ghost all = items.deep_view();
    let mut at: usize = 0;
    while at < items.len()
        invariant
            at <= items.len(),
            all == items.deep_view(),
            forall|k: int| 0 <= k < at ==> !(test.condition())(#[trigger] all[k]),
        decreases items.len() - at,
    {
        assert(all[at as int] == items[at as int].deep_view());
        if test.holds(&items[at]) {
            proof {
                lemma_first_match(all, test.condition(), at as int);
            }
            return Some(at);
        }
        at += 1;
    }
    proof {
        lemma_first_match(all, test.condition(), at as int);
    }
    None
}

/// The first item that passes a test.
pub fn find_item<'a, T: ItemTest>(items: &'a Vec<TimelineItem>, test: &T) -> (r: Option<
    &'a TimelineItem,
>)
    ensures
        match r {
            Some(item) => first_match(items.deep_view(), test.condition()) == Some(
                item.deep_view(),
            ) && (test.condition())(item.deep_view()),
            None => first_match(items.deep_view(), test.condition()) is None,
        },
{
    match position_of_item(items, test) {
        Some(at) => Some(&items[at]),
        None => None,
    }
}

/// Whether a condition holds of one of the items.
pub open spec fn any_item(
    items: Seq<TimelineItemModel>,
    condition: spec_fn(TimelineItemModel) -> bool,
) -> bool {
    exists|i: int| 0 <= i < items.len() && condition(#[trigger] items[i])
}

/// There is a first match exactly if there is any.
pub proof fn lemma_any_item(
    items: Seq<TimelineItemModel>,
    condition: spec_fn(TimelineItemModel) -> bool,
)
    ensures
        any_item(items, condition) <==> first_match(items, condition) is Some,
    decreases items.len(),
{
    if items.len() > 0 {
        if condition(items.first()) {
            assert(condition(items[0]));
        } else {
            let rest = items.skip(1);
            lemma_any_item(rest, condition);
            if any_item(items, condition) {
                let i = choose|i: int| 0 <= i < items.len() && condition(#[trigger] items[i]);
                assert(rest[i - 1] == items[i]);
            }
            if any_item(rest, condition) {
                let i = choose|i: int| 0 <= i < rest.len() && condition(#[trigger] rest[i]);
                assert(items[i + 1] == rest[i]);
            }
        }
    }
}

/// Whether one of the items passes a test.
pub fn any_passes<T: ItemTest>(items: &Vec<TimelineItem>, test: &T) -> (r: bool)
    ensures
        r == any_item(items.deep_view(), test.condition()),
{
    proof {
        lemma_any_item(items.deep_view(), test.condition());
    }
    position_of_item(items, test).is_some()
}

/// Copies of the items that pass a test, in order.
pub fn select_items<T: ItemTest>(items: &Vec<TimelineItem>, test: &T) -> (r: Vec<TimelineItem>)
    ensures
        r.deep_view() == items.deep_view().filter(test.condition()),
{
    let ghost all = items.deep_view();
    let mut kept: Vec<TimelineItem> = Vec::new();
    let mut i: usize = 0;
    proof {
        reveal(Seq::filter);
        assert(all.take(0) =~= Seq::empty());
        assert(kept.deep_view() =~= all.take(0).filter(test.condition()));
    }
    while i < items.len()
        invariant
            i <= items.len(),
            all == items.deep_view(),
            kept.deep_view() == all.take(i as int).filter(test.condition()),
        decreases items.len() - i,
    {
        let ghost before = kept.deep_view();
        proof {
            reveal(Seq::filter);
            assert(all.take(i as int + 1).drop_last() =~= all.take(i as int));
            assert(all.take(i as int + 1).last() == items[i as int].deep_view());
        }
        if test.holds(&items[i]) {
            let copy = items[i].clone();
            let ghost meaning = copy.deep_view();
            kept.push(copy);
            assert(kept.deep_view() =~= before.push(meaning));
        }
        i += 1;
    }
    assert(all.take(i as int) =~= all);
    kept
}

/// How many items pass a test.
pub fn count_items<T: ItemTest>(items: &Vec<TimelineItem>, test: &T) -> (r: usize)
    ensures
        r == items.deep_view().filter(test.condition()).len(),
{
    let ghost all = items.deep_view();
    let mut count: usize = 0;
    let mut i: usize = 0;
    proof {
        reveal(Seq::filter);
        assert(all.take(0) =~= Seq::empty());
    }
    while i < items.len()
        invariant
            i <= items.len(),
            count <= i,
            all == items.deep_view(),
            count == all.take(i as int).filter(test.condition()).len(),
        decreases items.len() - i,
    {
        proof {
            reveal(Seq::filter);
            assert(all.take(i as int + 1).drop_last() =~= all.take(i as int));
            assert(all.take(i as int + 1).last() == items[i as int].deep_view());
        }
        if test.holds(&items[i]) {
            count += 1;
        }
        i += 1;
    }
    assert(all.take(i as int) =~= all);
    count
}

/// Keeps the items that pass a test, in order.
pub fn retain_items<T: ItemTest>(items: &mut Vec<TimelineItem>, test: &T)
    ensures
        final(items).deep_view() == old(items).deep_view().filter(test.condition()),
{
    let ghost before = items.deep_view();
    let ghost keep = test.condition();
    let ghost mut seen: int = 0;
    let mut at: usize = 0;
    proof {
        reveal(Seq::filter);
        assert(before.take(0) =~= Seq::empty());
        assert(before.skip(0) =~= before);
    }
    while at < items.len()
        invariant
            at <= items.len(),
            0 <= seen <= before.len(),
            keep == test.condition(),
            items.deep_view().take(at as int) == before.take(seen).filter(keep),
            items.deep_view().skip(at as int) == before.skip(seen),
        decreases items.len() - at,
    {
        let ghost current = items.deep_view();
        proof {
            reveal(Seq::filter);
            assert(current.skip(at as int).len() == current.len() - at);
            assert(current.skip(at as int)[0] == before.skip(seen)[0]);
            assert(before.take(seen + 1).drop_last() =~= before.take(seen));
            assert(before.skip(seen + 1) =~= before.skip(seen).skip(1));
            assert(current.skip(at as int + 1) =~= current.skip(at as int).skip(1));
            seen = seen + 1;
        }
        if !test.holds(&items[at]) {
            items.remove(at);
            assert(items.deep_view() =~= current.remove(at as int));
            assert(items.deep_view().take(at as int) =~= current.take(at as int));
            assert(items.deep_view().skip(at as int) =~= current.skip(at as int + 1));
        } else {
            at += 1;
            assert(current.take(at as int) =~= current.take(at - 1).push(current[at - 1]));
        }
    }
    assert(items.deep_view().take(at as int) =~= items.deep_view());
    assert(items.deep_view().skip(at as int).len() == 0);
    assert(before.take(seen) =~= before);
}

/// A change of items that can be made.
pub trait ItemEdit {
    /// The change.
    spec fn change(&self) -> spec_fn(TimelineItemModel) -> TimelineItemModel;

    /// Changes an item.
    fn edit(&self, item: &mut TimelineItem)
        ensures
            final(item).deep_view() == (self.change())(old(item).deep_view()),
    ;
}

/// Changes every item.
pub fn edit_items<E: ItemEdit>(items: &mut Vec<TimelineItem>, edit: &E)
    ensures
        final(items).deep_view() == old(items).deep_view().map_values(edit.change()),
        final(items).len() == old(items).len(),
{
    let ghost before = items.deep_view();
    let ghost goal = before.map_values(edit.change());
    let mut i: usize = 0;
    assert(items.deep_view() =~= goal.take(0) + before.skip(0));
    while i < items.len()
        invariant
            i <= items.len(),
            items.len() == before.len(),
            goal == before.map_values(edit.change()),
            items.deep_view() == goal.take(i as int) + before.skip(i as int),
        decreases items.len() - i,
    {
        let ghost current = items.deep_view();
        assert(current[i as int] == before[i as int]);
        let item = &mut items[i];
        edit.edit(item);
        assert(items.deep_view() =~= current.update(i as int, goal[i as int]));
        i += 1;
        assert(items.deep_view() =~= goal.take(i as int) + before.skip(i as int));
    }
    assert(goal.take(i as int) + before.skip(i as int) =~= goal);
}

} // verus!
