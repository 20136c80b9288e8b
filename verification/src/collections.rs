//! Ordered sets and maps of texts, and stable sorting.
use vstd::prelude::*;

use crate::text::{
    lemma_text_before_irreflexive, lemma_text_before_total, lemma_text_before_transitive, precedes,
    same_text, text_before,
};

verus! {

/// A list of texts in strictly ascending order: no text occurs twice.
pub open spec fn ascending(texts: Seq<Seq<char>>) -> bool {
    forall|i: int, j: int|
        0 <= i < j < texts.len() ==> text_before(#[trigger] texts[i], #[trigger] texts[j])
}

/// An ascending list with one more text in its place, or the same list if it holds the text.
pub open spec fn with_text(texts: Seq<Seq<char>>, value: Seq<char>) -> Seq<Seq<char>>
    decreases texts.len(),
{
    if texts.len() == 0 {
        seq![value]
    } else if texts.first() == value {
        texts
    } else if text_before(value, texts.first()) {
        seq![value] + texts
    } else {
        seq![texts.first()] + with_text(texts.skip(1), value)
    }
}

/// The list with all of `more` added, one after the other.
pub open spec fn with_texts(texts: Seq<Seq<char>>, more: Seq<Seq<char>>) -> Seq<Seq<char>>
    decreases more.len(),
{
    if more.len() == 0 {
        texts
    } else {
        with_text(with_texts(texts, more.drop_last()), more.last())
    }
}

/// Adding a text adds that text and no other.
pub proof fn lemma_with_text_members(texts: Seq<Seq<char>>, value: Seq<char>)
    ensures
        forall|t: Seq<char>| #[trigger]
            with_text(texts, value).contains(t) <==> texts.contains(t) || t == value,
        with_text(texts, value).len() > 0,
    decreases texts.len(),
{
    if texts.len() == 0 {
        assert forall|t: Seq<char>| #[trigger]
            with_text(texts, value).contains(t) <==> texts.contains(t) || t == value by {
            assert(seq![value][0] == value);
        }
    } else if texts.first() == value {
        assert(texts[0] == value);
    } else if text_before(value, texts.first()) {
        let result = seq![value] + texts;
        assert forall|t: Seq<char>| #[trigger]
            result.contains(t) <==> texts.contains(t) || t == value by {
            assert(result[0] == value);
            if texts.contains(t) {
                let i = choose|i: int| 0 <= i < texts.len() && texts[i] == t;
                assert(result[i + 1] == t);
            }
        }
    } else {
        lemma_with_text_members(texts.skip(1), value);
        let tail = with_text(texts.skip(1), value);
        let result = seq![texts.first()] + tail;
        assert forall|t: Seq<char>| #[trigger]
            result.contains(t) <==> texts.contains(t) || t == value by {
            assert(result[0] == texts.first());
            if texts.contains(t) {
                let i = choose|i: int| 0 <= i < texts.len() && texts[i] == t;
                if i > 0 {
                    assert(texts.skip(1)[i - 1] == t);
                    assert(texts.skip(1).contains(t));
                }
            }
            if tail.contains(t) {
                let i = choose|i: int| 0 <= i < tail.len() && tail[i] == t;
                assert(result[i + 1] == t);
                if texts.skip(1).contains(t) {
                    let k = choose|k: int| 0 <= k < texts.skip(1).len() && texts.skip(1)[k] == t;
                    assert(texts[k + 1] == t);
                }
            }
            if result.contains(t) {
                let i = choose|i: int| 0 <= i < result.len() && result[i] == t;
                if i > 0 {
                    assert(tail[i - 1] == t);
                    assert(tail.contains(t));
                } else {
                    assert(texts[0] == t);
                }
            }
        }
    }
}

/// Adding a text keeps a list ascending.
pub proof fn lemma_with_text_ascending(texts: Seq<Seq<char>>, value: Seq<char>)
    requires
        ascending(texts),
    ensures
        ascending(with_text(texts, value)),
    decreases texts.len(),
{
    if texts.len() > 0 && texts.first() != value {
        if text_before(value, texts.first()) {
            let result = seq![value] + texts;
            assert forall|i: int, j: int| 0 <= i < j < result.len() implies text_before(
                #[trigger] result[i],
                #[trigger] result[j],
            ) by {
                if i == 0 && j > 1 {
                    assert(text_before(texts[0], texts[j - 1]));
                    lemma_text_before_transitive(value, texts[0], texts[j - 1]);
                } else if i > 0 {
                    assert(text_before(texts[i - 1], texts[j - 1]));
                }
            }
        } else {
            let rest = texts.skip(1);
            assert forall|i: int, j: int| 0 <= i < j < rest.len() implies text_before(
                #[trigger] rest[i],
                #[trigger] rest[j],
            ) by {
                assert(text_before(texts[i + 1], texts[j + 1]));
            }
            lemma_with_text_ascending(rest, value);
            lemma_with_text_members(rest, value);
            lemma_text_before_total(value, texts.first());
            let tail = with_text(rest, value);
            let result = seq![texts.first()] + tail;
            assert forall|i: int, j: int| 0 <= i < j < result.len() implies text_before(
                #[trigger] result[i],
                #[trigger] result[j],
            ) by {
                if i == 0 {
                    assert(tail.contains(tail[j - 1]));
                    if rest.contains(tail[j - 1]) {
                        let k = choose|k: int| 0 <= k < rest.len() && rest[k] == tail[j - 1];
                        assert(text_before(texts[0], texts[k + 1]));
                    }
                } else {
                    assert(text_before(tail[i - 1], tail[j - 1]));
                }
            }
        }
    }
}

/// What is added is in the list, beside what was.
pub proof fn lemma_with_texts_members(texts: Seq<Seq<char>>, more: Seq<Seq<char>>)
    ensures
        forall|t: Seq<char>| #[trigger]
            with_texts(texts, more).contains(t) <==> texts.contains(t) || more.contains(t),
    decreases more.len(),
{
    if more.len() > 0 {
        lemma_with_texts_members(texts, more.drop_last());
        lemma_with_text_members(with_texts(texts, more.drop_last()), more.last());
        assert forall|t: Seq<char>| #[trigger]
            with_texts(texts, more).contains(t) <==> texts.contains(t) || more.contains(t) by {
            if more.contains(t) && t != more.last() {
                let i = choose|i: int| 0 <= i < more.len() && more[i] == t;
                assert(more.drop_last()[i] == t);
            }
            if more.drop_last().contains(t) {
                let i = choose|i: int| 0 <= i < more.drop_last().len() && more.drop_last()[i] == t;
                assert(more[i] == t);
            }
            assert(more[more.len() - 1] == more.last());
        }
    }
}

/// A set of texts, held in ascending order.
#[derive(Debug, PartialEq, Eq)]
pub struct TextSet {
    items: Vec<String>,
}

impl DeepView for TextSet {
    type V = Seq<Seq<char>>;

    closed spec fn deep_view(&self) -> Seq<Seq<char>> {
        self.items.deep_view()
    }
}

impl Clone for TextSet {
    fn clone(&self) -> (copy: Self)
        ensures
            copy.deep_view() == self.deep_view(),
    {
        let copy = TextSet { items: self.items.clone() };
        assert(copy.items.deep_view() =~= self.items.deep_view());
        copy
    }
}

impl Default for TextSet {
    fn default() -> (value: Self)
        ensures
            value.deep_view() == Seq::<Seq<char>>::empty(),
    {
        TextSet::new()
    }
}

impl TextSet {
    /// The members are in strictly ascending order.
    pub open spec fn wf(&self) -> bool {
        ascending(self.deep_view())
    }

    /// The set without members.
    pub fn new() -> (set: Self)
        ensures
            set.deep_view() == Seq::<Seq<char>>::empty(),
            set.wf(),
    {
        let set = TextSet { items: Vec::new() };
        assert(set.items.deep_view() =~= Seq::<Seq<char>>::empty());
        set
    }

    /// Adds a text; true if it was not in the set.
    pub fn insert(&mut self, value: String) -> (added: bool)
        ensures
            final(self).deep_view() == with_text(old(self).deep_view(), value@),
            old(self).wf() ==> final(self).wf(),
            old(self).wf() ==> added == !old(self).deep_view().contains(value@),
    {
        let ghost before = self.items.deep_view();
        proof {
            if self.wf() {
                lemma_with_text_ascending(before, value@);
            }
        }
        let mut at: usize = 0;
        assert(before.skip(0) =~= before);
        assert(before.take(0) + with_text(before, value@) =~= with_text(before, value@));
        while at < self.items.len() && !same_text(self.items[at].as_str(), value.as_str())
            && !precedes(value.as_str(), self.items[at].as_str())
            invariant
                at <= self.items.len(),
                before == self.items.deep_view(),
                before == old(self).deep_view(),
                with_text(before, value@) == before.take(at as int) + with_text(
                    before.skip(at as int),
                    value@,
                ),
                forall|k: int| 0 <= k < at ==> before[k] != value@,
            decreases self.items.len() - at,
        {
            let ghost rest = before.skip(at as int);
            assert(rest.first() == self.items[at as int]@);
            assert(rest.skip(1) =~= before.skip(at as int + 1));
            assert(before.take(at as int + 1) =~= before.take(at as int) + seq![rest.first()]);
            assert(before.take(at as int) + (seq![rest.first()] + with_text(rest.skip(1), value@))
                =~= before.take(at as int + 1) + with_text(rest.skip(1), value@));
            at += 1;
        }
        let ghost rest = before.skip(at as int);
        if at < self.items.len() {
            assert(rest.first() == self.items[at as int]@);
            assert(before[at as int] == self.items[at as int]@);
            if same_text(self.items[at].as_str(), value.as_str()) {
                assert(before.take(at as int) + rest =~= before);
                assert(before.contains(value@));
                return false;
            }
        }
        proof {
            if ascending(before) && at < before.len() {
                assert forall|k: int| 0 <= k < before.len() implies before[k] != value@ by {
                    if k > at {
                        assert(text_before(before[at as int], before[k]));
                        lemma_text_before_transitive(value@, before[at as int], before[k]);
                        lemma_text_before_irreflexive(value@);
                    }
                }
            }
        }
        let ghost added_text = value@;
        self.items.insert(at, value);
        assert(self.items.deep_view() =~= before.take(at as int) + (seq![added_text] + rest));
        true
    }

    /// The set of the texts.
    pub fn from_texts(values: Vec<String>) -> (set: Self)
        ensures
            set.deep_view() == with_texts(Seq::empty(), values.deep_view()),
            set.wf(),
    {
        let mut set = TextSet::new();
        set.extend(&values);
        set
    }

    /// Adds all of the texts.
    pub fn extend(&mut self, values: &Vec<String>)
        ensures
            final(self).deep_view() == with_texts(old(self).deep_view(), values.deep_view()),
            old(self).wf() ==> final(self).wf(),
    {
        let ghost more = values.deep_view();
        let mut i: usize = 0;
        assert(more.take(0) =~= Seq::<Seq<char>>::empty());
        while i < values.len()
            invariant
                i <= values.len(),
                more == values.deep_view(),
                self.deep_view() == with_texts(old(self).deep_view(), more.take(i as int)),
                old(self).wf() ==> self.wf(),
            decreases values.len() - i,
        {
            let added = self.insert(values[i].clone());
            i += 1;
            assert(more.take(i as int).drop_last() =~= more.take(i - 1));
            assert(more.take(i as int).last() == values[i - 1]@);
        }
        assert(more.take(i as int) =~= more);
    }

    /// Whether the text is in the set.
    pub fn contains(&self, value: &str) -> (r: bool)
        ensures
            r == self.deep_view().contains(value@),
    {
        contains_text(&self.items, value)
    }

    /// Whether nothing is in the set.
    pub fn is_empty(&self) -> (r: bool)
        ensures
            r == (self.deep_view().len() == 0),
    {
        self.items.len() == 0
    }

    /// How many texts are in the set.
    pub fn len(&self) -> (r: usize)
        ensures
            r == self.deep_view().len(),
    {
        self.items.len()
    }

    /// Removes all members.
    pub fn clear(&mut self)
        ensures
            final(self).deep_view() == Seq::<Seq<char>>::empty(),
            final(self).wf(),
    {
        self.items = Vec::new();
        assert(self.items.deep_view() =~= Seq::<Seq<char>>::empty());
    }

    /// The members in order.
    pub fn members(&self) -> (r: &Vec<String>)
        ensures
            r.deep_view() == self.deep_view(),
    {
        &self.items
    }
}

/// Whether a list of texts holds a text.
pub fn contains_text(values: &Vec<String>, value: &str) -> (r: bool)
    ensures
        r == values.deep_view().contains(value@),
{
    let mut i: usize = 0;
    while i < values.len()
        invariant
            i <= values.len(),
            forall|k: int| 0 <= k < i ==> values.deep_view()[k] != value@,
        decreases values.len() - i,
    {
        if same_text(values[i].as_str(), value) {
            assert(values.deep_view()[i as int] == value@);
            return true;
        }
        i += 1;
    }
    false
}

/// The value of the first entry with the key.
pub open spec fn lookup<V>(entries: Seq<(Seq<char>, V)>, key: Seq<char>) -> Option<V>
    decreases entries.len(),
{
    if entries.len() == 0 {
        None
    } else if entries.first().0 == key {
        Some(entries.first().1)
    } else {
        lookup(entries.skip(1), key)
    }
}

/// The entries with the key bound to the value, in the place that the order of keys gives it.
pub open spec fn bind<V>(entries: Seq<(Seq<char>, V)>, key: Seq<char>, value: V) -> Seq<
    (Seq<char>, V),
>
    decreases entries.len(),
{
    if entries.len() == 0 {
        seq![(key, value)]
    } else if entries.first().0 == key {
        seq![(key, value)] + entries.skip(1)
    } else if text_before(key, entries.first().0) {
        seq![(key, value)] + entries
    } else {
        seq![entries.first()] + bind(entries.skip(1), key, value)
    }
}

/// The entries with the key bound to the value, unless the key is bound already.
pub open spec fn bind_missing<V>(entries: Seq<(Seq<char>, V)>, key: Seq<char>, value: V) -> Seq<
    (Seq<char>, V),
> {
    if lookup(entries, key) is Some {
        entries
    } else {
        bind(entries, key, value)
    }
}

/// The entries without those of the key.
pub open spec fn unbind<V>(entries: Seq<(Seq<char>, V)>, key: Seq<char>) -> Seq<(Seq<char>, V)> {
    entries.filter(|entry: (Seq<char>, V)| entry.0 != key)
}

/// The keys of the entries.
pub open spec fn keys<V>(entries: Seq<(Seq<char>, V)>) -> Seq<Seq<char>> {
    entries.map_values(|entry: (Seq<char>, V)| entry.0)
}

/// Binding a key changes what is found under that key and nothing else.
pub proof fn lemma_lookup_bind<V>(
    entries: Seq<(Seq<char>, V)>,
    key: Seq<char>,
    value: V,
    other: Seq<char>,
)
    ensures
        lookup(bind(entries, key, value), other) == (if other == key {
            Some(value)
        } else {
            lookup(entries, other)
        }),
    decreases entries.len(),
{
    let result = bind(entries, key, value);
    assert(result.len() > 0);
    if entries.len() == 0 {
        assert(result.first() == (key, value));
        assert(result.skip(1) =~= Seq::<(Seq<char>, V)>::empty());
        assert(lookup(result.skip(1), other) is None);
        assert(lookup(entries, other) is None);
    } else if entries.first().0 == key {
        assert(result.first() == (key, value));
        assert(result.skip(1) =~= entries.skip(1));
    } else if text_before(key, entries.first().0) {
        assert(result.first() == (key, value));
        assert(result.skip(1) =~= entries);
    } else {
        assert(result.first() == entries.first());
        assert(result.skip(1) =~= bind(entries.skip(1), key, value));
        lemma_lookup_bind(entries.skip(1), key, value, other);
    }
}

/// What is found stands among the entries.
pub proof fn lemma_lookup_some<V>(entries: Seq<(Seq<char>, V)>, key: Seq<char>)
    ensures
        lookup(entries, key) matches Some(value) ==> exists|i: int|
            0 <= i < entries.len() && #[trigger] entries[i] == (key, value),
        lookup(entries, key) is None ==> forall|i: int|
            0 <= i < entries.len() ==> (#[trigger] entries[i]).0 != key,
    decreases entries.len(),
{
    if entries.len() > 0 {
        if entries.first().0 == key {
            assert(entries[0] == (key, entries.first().1));
        } else {
            lemma_lookup_some(entries.skip(1), key);
            if let Some(value) = lookup(entries.skip(1), key) {
                let i = choose|i: int|
                    0 <= i < entries.skip(1).len() && #[trigger] entries.skip(1)[i] == (key, value);
                assert(entries[i + 1] == (key, value));
            } else {
                assert forall|i: int| 0 <= i < entries.len() implies (#[trigger] entries[i]).0
                    != key by {
                    if i > 0 {
                        assert(entries.skip(1)[i - 1] == entries[i]);
                    }
                }
            }
        }
    }
}

/// What is looked up in two lists, one behind the other.
proof fn lemma_lookup_concat<V>(
    left: Seq<(Seq<char>, V)>,
    right: Seq<(Seq<char>, V)>,
    key: Seq<char>,
)
    ensures
        lookup(left + right, key) == (match lookup(left, key) {
            Some(value) => Some(value),
            None => lookup(right, key),
        }),
    decreases left.len(),
{
    if left.len() == 0 {
        assert(left + right =~= right);
    } else {
        assert((left + right).skip(1) =~= left.skip(1) + right);
        lemma_lookup_concat(left.skip(1), right, key);
    }
}

/// Removing a key changes what is found under that key and nothing else.
pub proof fn lemma_lookup_unbind<V>(
    entries: Seq<(Seq<char>, V)>,
    key: Seq<char>,
    other: Seq<char>,
)
    ensures
        lookup(unbind(entries, key), other) == (if other == key {
            None
        } else {
            lookup(entries, other)
        }),
    decreases entries.len(),
{
    reveal(Seq::filter);
    reveal_with_fuel(lookup, 2);
    if entries.len() > 0 {
        let head = entries.drop_last();
        let last = entries.last();
        lemma_lookup_unbind(head, key, other);
        assert(entries =~= head + seq![last]);
        lemma_lookup_concat(head, seq![last], other);
        if last.0 != key {
            assert(unbind(entries, key) =~= unbind(head, key) + seq![last]);
            lemma_lookup_concat(unbind(head, key), seq![last], other);
        }
        assert(seq![last].skip(1) =~= Seq::empty());
    }
}

/// Binding a key adds it to the keys as a set of texts does.
pub proof fn lemma_bind_keys<V>(entries: Seq<(Seq<char>, V)>, key: Seq<char>, value: V)
    ensures
        keys(bind(entries, key, value)) == with_text(keys(entries), key),
    decreases entries.len(),
{
    if entries.len() == 0 {
        assert(keys(bind(entries, key, value)) =~= seq![key]);
    } else {
        assert(keys(entries).skip(1) =~= keys(entries.skip(1)));
        if entries.first().0 == key {
            assert(keys(bind(entries, key, value)) =~= keys(entries));
        } else if text_before(key, entries.first().0) {
            assert(keys(bind(entries, key, value)) =~= seq![key] + keys(entries));
        } else {
            lemma_bind_keys(entries.skip(1), key, value);
            assert(keys(bind(entries, key, value)) =~= seq![entries.first().0] + keys(
                bind(entries.skip(1), key, value),
            ));
        }
    }
}

/// A map from texts, its entries held in ascending order of their keys.
#[derive(Debug, PartialEq, Eq)]
pub struct TextMap<V> {
    entries: Vec<(String, V)>,
}

impl<V: DeepView> DeepView for TextMap<V> {
    type V = Seq<(Seq<char>, V::V)>;

    closed spec fn deep_view(&self) -> Seq<(Seq<char>, V::V)> {
        self.entries.deep_view()
    }
}

impl<V: DeepView> TextMap<V> {
    /// The keys are in strictly ascending order.
    pub open spec fn wf(&self) -> bool {
        ascending(keys(self.deep_view()))
    }

    /// The map without entries.
    pub fn new() -> (map: Self)
        ensures
            map.deep_view() == Seq::<(Seq<char>, V::V)>::empty(),
            map.wf(),
    {
        let map = TextMap { entries: Vec::new() };
        assert(map.entries.deep_view() =~= Seq::<(Seq<char>, V::V)>::empty());
        map
    }

    /// The position of the key, or the position where it belongs.
    fn place(&self, key: &str) -> (place: (bool, usize))
        ensures
            place.1 <= self.entries.len(),
            place.0 ==> place.1 < self.entries.len() && self.deep_view()[place.1 as int].0 == key@,
            forall|value: V::V| #[trigger]
                bind(self.deep_view(), key@, value) == self.deep_view().take(place.1 as int)
                    + seq![(key@, value)] + self.deep_view().skip(
                    if place.0 {
                        place.1 + 1
                    } else {
                        place.1 as int
                    },
                ),
    {
        let ghost before = self.entries.deep_view();
        let mut at: usize = 0;
        assert forall|value: V::V| #[trigger]
            bind(before, key@, value) == before.take(0) + bind(before.skip(0), key@, value) by {
            assert(before.skip(0) =~= before);
            assert(before.take(0) + bind(before, key@, value) =~= bind(before, key@, value));
        }
        while at < self.entries.len() && !same_text(self.entries[at].0.as_str(), key) && !precedes(
            key,
            self.entries[at].0.as_str(),
        )
            invariant
                at <= self.entries.len(),
                before == self.entries.deep_view(),
                forall|value: V::V| #[trigger]
                    bind(before, key@, value) == before.take(at as int) + bind(
                        before.skip(at as int),
                        key@,
                        value,
                    ),
            decreases self.entries.len() - at,
        {
            let ghost rest = before.skip(at as int);
            assert(rest.first().0 == self.entries[at as int].0@);
            assert(rest.skip(1) =~= before.skip(at as int + 1));
            assert(before.take(at as int + 1) =~= before.take(at as int) + seq![rest.first()]);
            assert forall|value: V::V| #[trigger]
                bind(before, key@, value) == before.take(at as int + 1) + bind(
                    rest.skip(1),
                    key@,
                    value,
                ) by {
                assert(before.take(at as int) + (seq![rest.first()] + bind(
                    rest.skip(1),
                    key@,
                    value,
                )) =~= before.take(at as int + 1) + bind(rest.skip(1), key@, value));
            }
            at += 1;
        }
        let ghost rest = before.skip(at as int);
        let found = at < self.entries.len() && same_text(self.entries[at].0.as_str(), key);
        proof {
            if at < before.len() {
                assert(rest.first().0 == self.entries[at as int].0@);
            }
            assert forall|value: V::V| #[trigger]
                bind(before, key@, value) == before.take(at as int) + seq![(key@, value)]
                    + before.skip(
                    if found {
                        at + 1
                    } else {
                        at as int
                    },
                ) by {
                if found {
                    assert(rest.skip(1) =~= before.skip(at as int + 1));
                    assert(before.take(at as int) + (seq![(key@, value)] + rest.skip(1))
                        =~= before.take(at as int) + seq![(key@, value)] + before.skip(at + 1));
                } else if at < before.len() {
                    assert(before.take(at as int) + (seq![(key@, value)] + rest) =~= before.take(
                        at as int,
                    ) + seq![(key@, value)] + rest);
                } else {
                    assert(rest.len() == 0);
                    assert(before.take(at as int) + seq![(key@, value)] =~= before.take(at as int)
                        + seq![(key@, value)] + rest);
                }
            }
        }
        (found, at)
    }

    /// Binds the key to the value.
    pub fn insert(&mut self, key: String, value: V)
        ensures
            final(self).deep_view() == bind(old(self).deep_view(), key@, value.deep_view()),
            old(self).wf() ==> final(self).wf(),
    {
        let ghost before = self.entries.deep_view();
        let ghost key_text = key@;
        let ghost meaning = value.deep_view();
        proof {
            lemma_bind_keys(before, key_text, meaning);
            if self.wf() {
                lemma_with_text_ascending(keys(before), key_text);
            }
        }
        let (found, at) = self.place(key.as_str());
        assert(bind(before, key_text, meaning) == before.take(at as int) + seq![
            (key_text, meaning),
        ] + before.skip(
            if found {
                at + 1
            } else {
                at as int
            },
        ));
        if found {
            self.entries.remove(at);
            assert(self.entries.deep_view() =~= before.take(at as int) + before.skip(at + 1));
        }
        self.entries.insert(at, (key, value));
        assert(self.entries.deep_view() =~= bind(before, key_text, meaning));
    }

    /// Binds the key to the value, unless it is bound.
    pub fn insert_missing(&mut self, key: String, value: V)
        ensures
            final(self).deep_view() == bind_missing(
                old(self).deep_view(),
                key@,
                value.deep_view(),
            ),
            old(self).wf() ==> final(self).wf(),
    {
        if !self.contains_key(key.as_str()) {
            self.insert(key, value);
        }
    }

    /// The value that the key is bound to.
    pub fn get(&self, key: &str) -> (r: Option<&V>)
        ensures
            match r {
                Some(value) => lookup(self.deep_view(), key@) == Some(value.deep_view()),
                None => lookup(self.deep_view(), key@) is None,
            },
    {
        let ghost all = self.entries.deep_view();
        let mut at: usize = 0;
        assert(all.skip(0) =~= all);
        while at < self.entries.len()
            invariant
                at <= self.entries.len(),
                all == self.entries.deep_view(),
                lookup(all, key@) == lookup(all.skip(at as int), key@),
            decreases self.entries.len() - at,
        {
            assert(all.skip(at as int).first() == self.entries[at as int].deep_view());
            if same_text(self.entries[at].0.as_str(), key) {
                return Some(&self.entries[at].1);
            }
            assert(all.skip(at as int).skip(1) =~= all.skip(at as int + 1));
            at += 1;
        }
        None
    }

    /// Whether the key is bound.
    pub fn contains_key(&self, key: &str) -> (r: bool)
        ensures
            r == (lookup(self.deep_view(), key@) is Some),
    {
        self.get(key).is_some()
    }

    /// Removes what is bound to the key.
    pub fn remove(&mut self, key: &str)
        ensures
            final(self).deep_view() == unbind(old(self).deep_view(), key@),
    {
        let ghost before = self.entries.deep_view();
        let ghost keep = |entry: (Seq<char>, V::V)| entry.0 != key@;
        let ghost mut seen: int = 0;
        let mut at: usize = 0;
        proof {
            reveal(Seq::filter);
            assert(before.take(0) =~= Seq::empty());
            assert(before.skip(0) =~= before);
        }
        while at < self.entries.len()
            invariant
                at <= self.entries.len(),
                0 <= seen <= before.len(),
                keep == (|entry: (Seq<char>, V::V)| entry.0 != key@),
                self.entries.deep_view().take(at as int) == before.take(seen).filter(keep),
                self.entries.deep_view().skip(at as int) == before.skip(seen),
            decreases self.entries.len() - at,
        {
            let ghost current = self.entries.deep_view();
            proof {
                reveal(Seq::filter);
                assert(current.skip(at as int).len() == current.len() - at);
                assert(current.skip(at as int)[0] == before.skip(seen)[0]);
                assert(before.take(seen + 1).drop_last() =~= before.take(seen));
                assert(before.skip(seen + 1) =~= before.skip(seen).skip(1));
                assert(current.skip(at as int + 1) =~= current.skip(at as int).skip(1));
                seen = seen + 1;
            }
            if same_text(self.entries[at].0.as_str(), key) {
                self.entries.remove(at);
                assert(self.entries.deep_view() =~= current.remove(at as int));
                assert(self.entries.deep_view().take(at as int) =~= current.take(at as int));
                assert(self.entries.deep_view().skip(at as int) =~= current.skip(at as int + 1));
            } else {
                at += 1;
                assert(current.take(at as int) =~= current.take(at - 1).push(current[at - 1]));
            }
        }
        assert(self.entries.deep_view().take(at as int) =~= self.entries.deep_view());
        assert(self.entries.deep_view().skip(at as int).len() == 0);
        assert(before.take(seen) =~= before);
    }

    /// How many keys are bound.
    pub fn len(&self) -> (r: usize)
        ensures
            r == self.deep_view().len(),
    {
        self.entries.len()
    }

    /// Whether no key is bound.
    pub fn is_empty(&self) -> (r: bool)
        ensures
            r == (self.deep_view().len() == 0),
    {
        self.entries.len() == 0
    }

    /// The map with the entries, which are in order of their keys.
    pub fn from_entries(entries: Vec<(String, V)>) -> (map: Self)
        ensures
            map.deep_view() == entries.deep_view(),
            ascending(keys(entries.deep_view())) ==> map.wf(),
    {
        TextMap { entries }
    }

    /// The entries in order of their keys.
    pub fn entries(&self) -> (r: &Vec<(String, V)>)
        ensures
            r.deep_view() == self.deep_view(),
    {
        &self.entries
    }
}

impl<V: DeepView> Default for TextMap<V> {
    fn default() -> (map: Self)
        ensures
            map.deep_view() == Seq::<(Seq<char>, V::V)>::empty(),
    {
        TextMap::new()
    }
}

/// Copies keep what a value says.
pub open spec fn clones_say_the_same<V: DeepView + Clone>() -> bool {
    forall|a: V, b: V| #[trigger] cloned(a, b) ==> a.deep_view() == b.deep_view()
}

impl<V: DeepView + Clone> TextMap<V> {
    /// A map of its own with the same entries.
    pub fn copy(&self) -> (copy: Self)
        requires
            clones_say_the_same::<V>(),
        ensures
            copy.deep_view() == self.deep_view(),
    {
        let mut entries: Vec<(String, V)> = Vec::new();
        let mut i: usize = 0;
        while i < self.entries.len()
            invariant
                i <= self.entries.len(),
                entries.len() == i,
                clones_say_the_same::<V>(),
                forall|k: int|
                    0 <= k < i ==> (#[trigger] entries[k]).deep_view()
                        == self.entries[k].deep_view(),
            decreases self.entries.len() - i,
        {
            let value = self.entries[i].1.clone();
            assert(cloned(self.entries[i as int].1, value));
            entries.push((self.entries[i].0.clone(), value));
            i += 1;
        }
        let copy = TextMap { entries };
        assert(copy.entries.deep_view() =~= self.entries.deep_view());
        copy
    }
}

impl Clone for TextMap<String> {
    fn clone(&self) -> (copy: Self)
        ensures
            copy.deep_view() == self.deep_view(),
    {
        self.copy()
    }
}

impl Clone for TextMap<u8> {
    fn clone(&self) -> (copy: Self)
        ensures
            copy.deep_view() == self.deep_view(),
    {
        self.copy()
    }
}

/// A strict order on values, by what they say.
pub trait Order<T: DeepView> {
    /// Whether `left` stands before `right`.
    spec fn before(left: T::V, right: T::V) -> bool;

    /// Whether `left` stands before `right`.
    fn stands_before(left: &T, right: &T) -> (r: bool)
        ensures
            r == Self::before(left.deep_view(), right.deep_view()),
    ;
}

/// A sequence with one more value, behind every value at its end that the new one is not before.
pub open spec fn insert_ordered<V>(
    values: Seq<V>,
    value: V,
    before: spec_fn(V, V) -> bool,
) -> Seq<V>
    decreases values.len(),
{
    if values.len() > 0 && before(value, values.last()) {
        insert_ordered(values.drop_last(), value, before).push(values.last())
    } else {
        values.push(value)
    }
}

/// The values in order; values that are not ordered between themselves keep their places.
pub open spec fn sorted<V>(values: Seq<V>, before: spec_fn(V, V) -> bool) -> Seq<V>
    decreases values.len(),
{
    if values.len() == 0 {
        values
    } else {
        insert_ordered(sorted(values.drop_last(), before), values.last(), before)
    }
}

/// The order of an [`Order`] as a relation.
pub open spec fn order_of<T: DeepView, O: Order<T>>() -> spec_fn(T::V, T::V) -> bool {
    |left: T::V, right: T::V| O::before(left, right)
}

/// No value stands before one that precedes it.
pub open spec fn in_order<V>(values: Seq<V>, before: spec_fn(V, V) -> bool) -> bool {
    forall|i: int, j: int|
        0 <= i < j < values.len() ==> !before(#[trigger] values[j], #[trigger] values[i])
}

/// Not being before is transitive, as it is for the order that keys of values give.
pub open spec fn is_weak_order<V>(before: spec_fn(V, V) -> bool) -> bool {
    &&& forall|a: V, b: V| #[trigger] before(a, b) ==> !before(b, a)
    &&& forall|a: V, b: V, c: V|
        !#[trigger] before(a, b) && !#[trigger] before(b, c) ==> !before(a, c)
}

/// Inserting a value adds that value and nothing else.
pub proof fn lemma_insert_ordered_multiset<V>(
    values: Seq<V>,
    value: V,
    before: spec_fn(V, V) -> bool,
)
    ensures
        insert_ordered(values, value, before).to_multiset() == values.to_multiset().insert(value),
        insert_ordered(values, value, before).len() == values.len() + 1,
    decreases values.len(),
{
    broadcast use vstd::seq_lib::group_to_multiset_ensures;

    if values.len() > 0 && before(value, values.last()) {
        lemma_insert_ordered_multiset(values.drop_last(), value, before);
        assert(values =~= values.drop_last().push(values.last()));
        assert(insert_ordered(values, value, before).to_multiset()
            =~= values.to_multiset().insert(value));
    }
}

/// Sorting keeps the values, each as often as it occurs.
pub proof fn lemma_sorted_multiset<V>(values: Seq<V>, before: spec_fn(V, V) -> bool)
    ensures
        sorted(values, before).to_multiset() == values.to_multiset(),
        sorted(values, before).len() == values.len(),
    decreases values.len(),
{
    broadcast use vstd::seq_lib::group_to_multiset_ensures;

    if values.len() > 0 {
        lemma_sorted_multiset(values.drop_last(), before);
        lemma_insert_ordered_multiset(
            sorted(values.drop_last(), before),
            values.last(),
            before,
        );
        assert(values =~= values.drop_last().push(values.last()));
    }
}

/// Inserting into an ordered sequence leaves it ordered.
pub proof fn lemma_insert_ordered_in_order<V>(
    values: Seq<V>,
    value: V,
    before: spec_fn(V, V) -> bool,
)
    requires
        is_weak_order(before),
        in_order(values, before),
    ensures
        in_order(insert_ordered(values, value, before), before),
    decreases values.len(),
{
    let result = insert_ordered(values, value, before);
    if values.len() > 0 && before(value, values.last()) {
        let shorter = values.drop_last();
        assert(in_order(shorter, before)) by {
            assert forall|i: int, j: int| 0 <= i < j < shorter.len() implies !before(
                #[trigger] shorter[j],
                #[trigger] shorter[i],
            ) by {
                assert(!before(values[j], values[i]));
            }
        }
        lemma_insert_ordered_in_order(shorter, value, before);
        lemma_insert_ordered_multiset(shorter, value, before);
        let inner = insert_ordered(shorter, value, before);
        assert forall|i: int, j: int| 0 <= i < j < result.len() implies !before(
            #[trigger] result[j],
            #[trigger] result[i],
        ) by {
            if j == result.len() - 1 {
                broadcast use vstd::seq_lib::group_to_multiset_ensures;

                assert(inner.contains(inner[i]));
                assert(inner.to_multiset().count(inner[i]) > 0);
                if inner[i] == value {
                } else {
                    assert(shorter.to_multiset().count(inner[i]) > 0);
                    assert(shorter.contains(inner[i]));
                    let k = choose|k: int| 0 <= k < shorter.len() && shorter[k] == inner[i];
                    assert(!before(values[values.len() - 1], values[k]));
                }
            } else {
                assert(!before(inner[j], inner[i]));
            }
        }
    } else {
        assert forall|i: int, j: int| 0 <= i < j < result.len() implies !before(
            #[trigger] result[j],
            #[trigger] result[i],
        ) by {
            if j == values.len() {
                if values.len() > 0 && i < values.len() - 1 {
                    assert(!before(values[values.len() - 1], values[i]));
                }
            } else {
                assert(!before(values[j], values[i]));
            }
        }
    }
}

/// Sorting brings the values in order.
pub proof fn lemma_sorted_in_order<V>(values: Seq<V>, before: spec_fn(V, V) -> bool)
    requires
        is_weak_order(before),
    ensures
        in_order(sorted(values, before), before),
    decreases values.len(),
{
    if values.len() > 0 {
        lemma_sorted_in_order(values.drop_last(), before);
        lemma_insert_ordered_in_order(
            sorted(values.drop_last(), before),
            values.last(),
            before,
        );
    }
}

/// Values that are in order are left as they are: sorting is stable, and sorting twice is
/// sorting once.
pub proof fn lemma_sorted_of_ordered<V>(values: Seq<V>, before: spec_fn(V, V) -> bool)
    requires
        in_order(values, before),
    ensures
        sorted(values, before) == values,
    decreases values.len(),
{
    if values.len() > 0 {
        let shorter = values.drop_last();
        assert forall|i: int, j: int| 0 <= i < j < shorter.len() implies !before(
            #[trigger] shorter[j],
            #[trigger] shorter[i],
        ) by {
            assert(!before(values[j], values[i]));
        }
        lemma_sorted_of_ordered(shorter, before);
        if shorter.len() > 0 {
            assert(!before(values[values.len() - 1], values[values.len() - 2]));
        }
        assert(shorter.push(values.last()) =~= values);
    }
}

/// Sorts the values; those that are not ordered between themselves keep their places.
pub fn sort_values<T: DeepView, O: Order<T>>(values: Vec<T>) -> (r: Vec<T>)
    ensures
        r.deep_view() == sorted(values.deep_view(), order_of::<T, O>()),
{
    let ghost all = values.deep_view();
    let ghost before = order_of::<T, O>();
    let mut source = values;
    let mut waiting: Vec<T> = Vec::new();
    while source.len() > 0
        invariant
            source@.len() + waiting@.len() == all.len(),
            source.deep_view() == all.take(source@.len() as int),
            forall|k: int|
                0 <= k < waiting@.len() ==> (#[trigger] waiting@[k]).deep_view() == all[all.len() - 1
                    - k],
        decreases source.len(),
    {
        let ghost n = source@.len() as int;
        match source.pop() {
            Some(value) => {
                assert(all.take(n)[n - 1] == value.deep_view());
                assert(source.deep_view() =~= all.take(n - 1));
                waiting.push(value);
            },
            None => {},
        }
    }
    let mut result: Vec<T> = Vec::new();
    assert(all.take(0) =~= Seq::empty());
    assert(result.deep_view() =~= sorted(all.take(0), before));
    while waiting.len() > 0
        invariant
            before == order_of::<T, O>(),
            result@.len() + waiting@.len() == all.len(),
            result.deep_view() == sorted(all.take(result@.len() as int), before),
            forall|k: int|
                0 <= k < waiting@.len() ==> (#[trigger] waiting@[k]).deep_view() == all[all.len() - 1
                    - k],
        decreases waiting.len(),
    {
        let ghost n = result@.len() as int;
        let ghost done = result.deep_view();
        match waiting.pop() {
            Some(value) => {
                assert(all.take(n + 1).drop_last() =~= all.take(n));
                assert(all.take(n + 1).last() == value.deep_view());
                let ghost meaning = value.deep_view();
                let mut at: usize = result.len();
                assert(done.take(at as int) =~= done);
                assert(done.skip(at as int) =~= Seq::empty());
                assert(insert_ordered(done, meaning, before) =~= insert_ordered(
                    done.take(at as int),
                    meaning,
                    before,
                ) + done.skip(at as int));
                while at > 0 && O::stands_before(&value, &result[at - 1])
                    invariant
                        at <= result.len(),
                        before == order_of::<T, O>(),
                        meaning == value.deep_view(),
                        done == result.deep_view(),
                        insert_ordered(done, meaning, before) == insert_ordered(
                            done.take(at as int),
                            meaning,
                            before,
                        ) + done.skip(at as int),
                    decreases at,
                {
                    let ghost head = done.take(at as int);
                    assert(head.last() == result[at - 1].deep_view());
                    assert(head.drop_last() =~= done.take(at - 1));
                    assert(insert_ordered(head, meaning, before) == insert_ordered(
                        head.drop_last(),
                        meaning,
                        before,
                    ).push(head.last()));
                    assert(insert_ordered(done.take(at - 1), meaning, before).push(head.last())
                        + done.skip(at as int) =~= insert_ordered(
                        done.take(at - 1),
                        meaning,
                        before,
                    ) + done.skip(at - 1));
                    at -= 1;
                }
                proof {
                    let head = done.take(at as int);
                    if at > 0 {
                        assert(head.last() == result[at - 1].deep_view());
                    }
                    assert(insert_ordered(head, meaning, before) == head.push(meaning));
                }
                result.insert(at, value);
                assert(result.deep_view() =~= done.take(at as int).push(meaning) + done.skip(
                    at as int,
                ));
            },
            None => {},
        }
    }
    assert(all.take(result@.len() as int) =~= all);
    result
}

/// The first value that a condition holds of.
pub open spec fn first_match<V>(values: Seq<V>, condition: spec_fn(V) -> bool) -> Option<V>
    decreases values.len(),
{
    if values.len() == 0 {
        None
    } else if condition(values.first()) {
        Some(values.first())
    } else {
        first_match(values.skip(1), condition)
    }
}

/// The first match is the first of the values that the condition holds of.
pub proof fn lemma_first_match<V>(values: Seq<V>, condition: spec_fn(V) -> bool, at: int)
    requires
        0 <= at <= values.len(),
        forall|k: int| 0 <= k < at ==> !condition(#[trigger] values[k]),
    ensures
        at < values.len() && condition(values[at]) ==> first_match(values, condition) == Some(
            values[at],
        ),
        at == values.len() ==> first_match(values, condition) is None,
        first_match(values, condition) == first_match(values.skip(at), condition),
    decreases at,
{
    if at > 0 {
        assert(!condition(values[0]));
        let rest = values.skip(1);
        assert forall|k: int| 0 <= k < at - 1 implies !condition(#[trigger] rest[k]) by {
            assert(!condition(values[k + 1]));
        }
        lemma_first_match(rest, condition, at - 1);
        assert(rest.skip(at - 1) =~= values.skip(at));
    } else {
        assert(values.skip(0) =~= values);
    }
}

/// A value with an identifier.
pub trait Identified: DeepView {
    /// The identifier of a value.
    spec fn identity(value: Self::V) -> Seq<char>;

    /// The identifier of the value.
    fn identifier(&self) -> (r: &str)
        ensures
            r@ == Self::identity(self.deep_view()),
    ;
}

/// The condition of having an identifier.
pub open spec fn has_id<T: Identified>(id: Seq<char>) -> spec_fn(T::V) -> bool {
    |value: T::V| T::identity(value) == id
}

/// The first value with the identifier.
pub open spec fn with_id<T: Identified>(values: Seq<T::V>, id: Seq<char>) -> Option<T::V> {
    first_match(values, has_id::<T>(id))
}

/// The values with one replaced: the first that has the new one's identifier, or none and the new
/// one added at the end.
pub open spec fn upserted<T: Identified>(values: Seq<T::V>, value: T::V) -> Seq<T::V>
    decreases values.len(),
{
    if values.len() == 0 {
        seq![value]
    } else if T::identity(values.first()) == T::identity(value) {
        seq![value] + values.skip(1)
    } else {
        seq![values.first()] + upserted::<T>(values.skip(1), value)
    }
}

/// The values that do not have the identifier.
pub open spec fn without_id<T: Identified>(values: Seq<T::V>, id: Seq<char>) -> Seq<T::V> {
    values.filter(|value: T::V| T::identity(value) != id)
}

/// The position of the first value with the identifier.
pub fn position_of_id<T: Identified>(values: &Vec<T>, id: &str) -> (r: Option<usize>)
    ensures
        match r {
            Some(at) => at < values.len() && with_id::<T>(values.deep_view(), id@) == Some(
                values[at as int].deep_view(),
            ) && T::identity(values[at as int].deep_view()) == id@ && forall|k: int|
                0 <= k < at ==> T::identity(#[trigger] values.deep_view()[k]) != id@,
            None => with_id::<T>(values.deep_view(), id@) is None && forall|k: int|
                0 <= k < values.len() ==> T::identity(#[trigger] values.deep_view()[k]) != id@,
        },
{
    let ghost all = values.deep_view();
    let mut at: usize = 0;
    while at < values.len()
        invariant
            at <= values.len(),
            all == values.deep_view(),
            forall|k: int| 0 <= k < at ==> T::identity(#[trigger] all[k]) != id@,
        decreases values.len() - at,
    {
        if same_text(values[at].identifier(), id) {
            proof {
                assert(all[at as int] == values[at as int].deep_view());
                lemma_first_match(all, has_id::<T>(id@), at as int);
            }
            return Some(at);
        }
        assert(all[at as int] == values[at as int].deep_view());
        at += 1;
    }
    proof {
        lemma_first_match(all, has_id::<T>(id@), at as int);
    }
    None
}

/// The first value with the identifier.
pub fn find_by_id<'a, T: Identified>(values: &'a Vec<T>, id: &str) -> (r: Option<&'a T>)
    ensures
        match r {
            Some(value) => with_id::<T>(values.deep_view(), id@) == Some(value.deep_view()),
            None => with_id::<T>(values.deep_view(), id@) is None,
        },
{
    match position_of_id(values, id) {
        Some(at) => Some(&values[at]),
        None => None,
    }
}

/// Replacing in a tail is replacing in the whole, if the head has no such identifier.
proof fn lemma_upserted_after<T: Identified>(values: Seq<T::V>, value: T::V, at: int)
    requires
        0 <= at <= values.len(),
        forall|k: int| 0 <= k < at ==> T::identity(#[trigger] values[k]) != T::identity(value),
    ensures
        upserted::<T>(values, value) == values.take(at) + upserted::<T>(values.skip(at), value),
    decreases at,
{
    if at > 0 {
        assert(T::identity(values[0]) != T::identity(value));
        let rest = values.skip(1);
        assert forall|k: int| 0 <= k < at - 1 implies T::identity(#[trigger] rest[k])
            != T::identity(value) by {
            assert(T::identity(values[k + 1]) != T::identity(value));
        }
        lemma_upserted_after::<T>(rest, value, at - 1);
        assert(rest.skip(at - 1) =~= values.skip(at));
        assert(seq![values.first()] + (rest.take(at - 1) + upserted::<T>(values.skip(at), value))
            =~= values.take(at) + upserted::<T>(values.skip(at), value));
    } else {
        assert(values.skip(0) =~= values);
        assert(values.take(0) + upserted::<T>(values, value) =~= upserted::<T>(values, value));
    }
}

/// Puts a value in the place of the first with its identifier, or at the end.
pub fn upsert<T: Identified>(values: &mut Vec<T>, value: T)
    ensures
        final(values).deep_view() == upserted::<T>(old(values).deep_view(), value.deep_view()),
{
    let ghost before = values.deep_view();
    let ghost meaning = value.deep_view();
    match position_of_id(values, value.identifier()) {
        Some(at) => {
            proof {
                lemma_upserted_after::<T>(before, meaning, at as int);
                assert(before.skip(at as int).first() == before[at as int]);
                assert(before.skip(at as int).skip(1) =~= before.skip(at as int + 1));
            }
            values.remove(at);
            values.insert(at, value);
            assert(values.deep_view() =~= before.take(at as int) + (seq![meaning] + before.skip(
                at as int + 1,
            )));
        },
        None => {
            proof {
                lemma_upserted_after::<T>(before, meaning, before.len() as int);
                assert(before.skip(before.len() as int).len() == 0);
            }
            values.push(value);
            assert(values.deep_view() =~= before.take(before.len() as int) + seq![meaning]);
        },
    }
}

/// After putting a value in, it is found under its identifier, and other identifiers find what
/// they found before.
pub proof fn lemma_with_id_upserted<T: Identified>(
    values: Seq<T::V>,
    value: T::V,
    id: Seq<char>,
)
    ensures
        with_id::<T>(upserted::<T>(values, value), id) == (if id == T::identity(value) {
            Some(value)
        } else {
            with_id::<T>(values, id)
        }),
    decreases values.len(),
{
    reveal_with_fuel(first_match, 2);
    let result = upserted::<T>(values, value);
    if values.len() == 0 {
        assert(result.skip(1) =~= Seq::empty());
    } else if T::identity(values.first()) == T::identity(value) {
        assert(result.skip(1) =~= values.skip(1));
    } else {
        assert(result.skip(1) =~= upserted::<T>(values.skip(1), value));
        lemma_with_id_upserted::<T>(values.skip(1), value, id);
    }
}

/// Removes the values that have the identifier.
pub fn remove_id<T: Identified>(values: &mut Vec<T>, id: &str)
    ensures
        final(values).deep_view() == without_id::<T>(old(values).deep_view(), id@),
{
    let ghost before = values.deep_view();
    let ghost keep = |value: T::V| T::identity(value) != id@;
    let ghost mut seen: int = 0;
    let mut at: usize = 0;
    proof {
        reveal(Seq::filter);
        assert(before.take(0) =~= Seq::empty());
        assert(before.skip(0) =~= before);
    }
    while at < values.len()
        invariant
            at <= values.len(),
            0 <= seen <= before.len(),
            keep == (|value: T::V| T::identity(value) != id@),
            values.deep_view().take(at as int) == before.take(seen).filter(keep),
            values.deep_view().skip(at as int) == before.skip(seen),
        decreases values.len() - at,
    {
        let ghost current = values.deep_view();
        proof {
            reveal(Seq::filter);
            assert(current.skip(at as int).len() == current.len() - at);
            assert(current.skip(at as int)[0] == before.skip(seen)[0]);
            assert(before.take(seen + 1).drop_last() =~= before.take(seen));
            assert(before.skip(seen + 1) =~= before.skip(seen).skip(1));
            assert(current.skip(at as int + 1) =~= current.skip(at as int).skip(1));
            seen = seen + 1;
        }
        if same_text(values[at].identifier(), id) {
            values.remove(at);
            assert(values.deep_view() =~= current.remove(at as int));
            assert(values.deep_view().take(at as int) =~= current.take(at as int));
            assert(values.deep_view().skip(at as int) =~= current.skip(at as int + 1));
        } else {
            at += 1;
            assert(current.take(at as int) =~= current.take(at - 1).push(current[at - 1]));
        }
    }
    assert(values.deep_view().take(at as int) =~= values.deep_view());
    assert(values.deep_view().skip(at as int).len() == 0);
    assert(before.take(seen) =~= before);
}

} // verus!
