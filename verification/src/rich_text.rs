//! The blocks of a message that comes as structured rich text.
use vstd::prelude::*;
use vstd::string::*;

use crate::blocks::{
    fallback_blocks, parse_fallback_slack_blocks, plain_segments,
};
use crate::collections::{lookup, TextMap};
use crate::emoji::{emoji_from_shortcode, shortcode_emoji};
use crate::inline::parse_fallback_inline_segments;
use crate::json::{member_from, Json};
use crate::segments::{
    append_segments, appended, linked, plain_style, plain_text, push_text_segment, pushed,
    segments_text, SlackRenderBlock, SlackRenderBlockModel, SlackTextSegment,
    SlackTextSegmentModel, SlackTextStyle, SlackTextStyleModel,
};
use crate::text::{blank, is_blank, join, join_texts, owned, same_text};

verus! {

/// The names of users and channels, by identifier.
#[derive(Debug, PartialEq, Eq)]
pub struct SlackRenderLookup {
    pub user_names: TextMap<String>,
    pub channel_names: TextMap<String>,
}

/// What a [`SlackRenderLookup`] says: its texts as sequences of characters.
#[verifier::ext_equal]
pub struct SlackRenderLookupModel {
    pub user_names: Seq<(Seq<char>, Seq<char>)>,
    pub channel_names: Seq<(Seq<char>, Seq<char>)>,
}

impl DeepView for SlackRenderLookup {
    type V = SlackRenderLookupModel;

    open spec fn deep_view(&self) -> SlackRenderLookupModel {
        SlackRenderLookupModel {
            user_names: self.user_names.deep_view(),
            channel_names: self.channel_names.deep_view(),
        }
    }
}

impl Clone for SlackRenderLookup {
    fn clone(&self) -> (copy: Self)
        ensures
            copy.deep_view() == self.deep_view(),
    {
        let copy = SlackRenderLookup {
            user_names: self.user_names.clone(),
            channel_names: self.channel_names.clone(),
        };
        copy
    }
}

impl Default for SlackRenderLookup {
    fn default() -> (value: Self)
        ensures
            value.deep_view() == (SlackRenderLookupModel {
                user_names: Seq::empty(),
                channel_names: Seq::empty(),
            }),
    {
        let value = SlackRenderLookup {
            user_names: TextMap::new(),
            channel_names: TextMap::new(),
        };
        assert(value.deep_view() =~= (SlackRenderLookupModel {
            user_names: Seq::empty(),
            channel_names: Seq::empty(),
        }));
        value
    }
}

/// A name with a sign in front of it, unless it has the sign.
pub open spec fn with_sign(sign: char, name: Seq<char>) -> Seq<char> {
    if name.len() > 0 && name.first() == sign {
        name
    } else {
        seq![sign] + name
    }
}

/// The label for an identifier: its name with a sign, or the identifier with the sign if there is
/// no name or an empty one.
pub open spec fn label(names: Seq<(Seq<char>, Seq<char>)>, sign: char, id: Seq<char>) -> Seq<
    char,
> {
    match lookup(names, id) {
        Some(name) if name.len() > 0 => with_sign(sign, name),
        _ => seq![sign] + id,
    }
}

/// A text that may be missing; the empty text if it is.
pub open spec fn or_empty(text: Option<Seq<char>>) -> Seq<char> {
    match text {
        Some(value) => value,
        None => Seq::empty(),
    }
}

/// A text with a sign in front of it; the empty text if there is none.
pub open spec fn signed(sign: char, text: Option<Seq<char>>) -> Seq<char> {
    match text {
        Some(value) => seq![sign] + value,
        None => Seq::empty(),
    }
}

/// The kind that an element says it is of.
pub open spec fn kind_of(element: Json) -> Seq<char> {
    or_empty(element.text_member("type"@))
}

/// The style that an element's style member describes.
pub open spec fn style_of(style: Option<Json>) -> SlackTextStyleModel {
    match style {
        Some(value) => SlackTextStyleModel {
            bold: value.flag("bold"@),
            italic: value.flag("italic"@),
            underline: value.flag("underline"@),
            strike: value.flag("strike"@),
            code: value.flag("code"@),
            link: None,
        },
        None => plain_style(),
    }
}

/// What is shown for an emoji element: the emoji, or its name between colons.
pub open spec fn emoji_text(name: Option<Seq<char>>) -> Seq<char> {
    match name {
        Some(code) => match shortcode_emoji(code) {
            Some(emoji) => emoji,
            None => seq![':'] + code + seq![':'],
        },
        None => Seq::empty(),
    }
}

/// What is shown for a link element: its text, or its address if the text is missing or empty.
pub open spec fn link_text(element: Json) -> Seq<char> {
    match element.text_member("text"@) {
        Some(value) if value.len() > 0 => value,
        _ => or_empty(element.text_member("url"@)),
    }
}

/// A member of an object is smaller than the object.
pub proof fn lemma_member_smaller(value: Json, name: Seq<char>)
    ensures
        value.member(name) matches Some(member) ==> decreases_to!(value => member),
{
    if let Json::Object(members) = value {
        assert(decreases_to!(value => members));
        lemma_member_from_smaller(members@, name, 0);
        assert(decreases_to!(members => members@));
    }
}

proof fn lemma_member_from_smaller(members: Seq<(String, Json)>, name: Seq<char>, at: int)
    ensures
        member_from(members, name, at) matches Some(member) ==> decreases_to!(members => member),
    decreases members.len() - at,
{
    if 0 <= at < members.len() {
        if members[at].0@ == name {
            assert(decreases_to!(members => members[at]));
            assert(decreases_to!(members[at] => members[at].1));
        } else {
            lemma_member_from_smaller(members, name, at + 1);
        }
    }
}

/// The elements of an element.
pub open spec fn nested(element: Json) -> Option<Seq<Json>> {
    match element.member("elements"@) {
        Some(Json::Array(values)) => Some(values@),
        _ => None,
    }
}

/// The elements of an element are smaller than the element.
pub proof fn lemma_nested_smaller(element: Json)
    ensures
        nested(element) matches Some(values) ==> decreases_to!(element => values),
{
    lemma_member_smaller(element, "elements"@);
    if let Some(Json::Array(values)) = element.member("elements"@) {
        assert(decreases_to!(Json::Array(values) => values));
        assert(decreases_to!(values => values@));
    }
}

/// The kinds of elements that have a text of their own.
pub open spec fn is_leaf(kind: Seq<char>) -> bool {
    kind == "text"@ || kind == "emoji"@ || kind == "link"@ || kind == "user"@ || kind == "channel"@
        || kind == "broadcast"@ || kind == "usergroup"@ || kind == "date"@
}

/// The text of an element that has a text of its own.
pub open spec fn leaf_text(element: Json, names: SlackRenderLookupModel) -> Seq<char> {
    let kind = kind_of(element);
    if kind == "text"@ {
        or_empty(element.text_member("text"@))
    } else if kind == "emoji"@ {
        emoji_text(element.text_member("name"@))
    } else if kind == "link"@ {
        link_text(element)
    } else if kind == "user"@ {
        match element.text_member("user_id"@) {
            Some(id) => label(names.user_names, '@', id),
            None => Seq::empty(),
        }
    } else if kind == "channel"@ {
        match element.text_member("channel_id"@) {
            Some(id) => label(names.channel_names, '#', id),
            None => Seq::empty(),
        }
    } else if kind == "broadcast"@ {
        signed('@', element.text_member("range"@))
    } else if kind == "usergroup"@ {
        signed('@', element.text_member("name"@))
    } else {
        or_empty(element.text_member("fallback"@))
    }
}

/// The text of an element; that of its elements if it is no leaf.
pub open spec fn element_text(element: Json, names: SlackRenderLookupModel) -> Seq<char>
    decreases element,
{
    if is_leaf(kind_of(element)) {
        leaf_text(element, names)
    } else {
        proof {
            lemma_nested_smaller(element);
        }
        match nested(element) {
            Some(elements) => elements_text(elements, names),
            None => Seq::empty(),
        }
    }
}

/// The text of elements, one after the other.
pub open spec fn elements_text(elements: Seq<Json>, names: SlackRenderLookupModel) -> Seq<char>
    decreases elements,
{
    if elements.len() == 0 {
        Seq::empty()
    } else {
        elements_text(elements.drop_last(), names) + element_text(
            elements[elements.len() - 1],
            names,
        )
    }
}

/// The style of an element that has a text of its own.
pub open spec fn leaf_style(element: Json) -> SlackTextStyleModel {
    let kind = kind_of(element);
    if kind == "text"@ {
        style_of(element.member("style"@))
    } else if kind == "link"@ {
        linked(style_of(element.member("style"@)), or_empty(element.text_member("url"@)))
    } else {
        plain_style()
    }
}

/// The segments of elements: each leaf in its style, and those of nested elements.
pub open spec fn elements_segments(elements: Seq<Json>, names: SlackRenderLookupModel) -> Seq<
    SlackTextSegmentModel,
>
    decreases elements,
{
    if elements.len() == 0 {
        Seq::empty()
    } else {
        let head = elements_segments(elements.drop_last(), names);
        let element = elements[elements.len() - 1];
        proof {
            lemma_nested_smaller(element);
        }
        if is_leaf(kind_of(element)) {
            pushed(head, leaf_text(element, names), leaf_style(element))
        } else {
            match nested(element) {
                Some(inner) => appended(head, elements_segments(inner, names)),
                None => head,
            }
        }
    }
}

/// The segments of an item of a list; an item without elements is its text, even if empty.
pub open spec fn list_item_segments(item: Json, names: SlackRenderLookupModel) -> Seq<
    SlackTextSegmentModel,
> {
    match nested(item) {
        Some(elements) => elements_segments(elements, names),
        None => seq![SlackTextSegmentModel { text: element_text(item, names), style: plain_style() }],
    }
}

/// The number of an item in an ordered list that starts behind an offset. Numbers wrap around.
pub open spec fn list_number(offset: usize, index: int) -> usize {
    offset.wrapping_add(index as usize).wrapping_add(1)
}

/// The offset of a list.
pub open spec fn list_offset(block: Json) -> usize {
    match block.member("offset"@) {
        Some(Json::Unsigned(offset)) => offset as usize,
        _ => 0,
    }
}

/// The segments of the elements of a block; none if it has none.
pub open spec fn block_segments(block: Json, names: SlackRenderLookupModel) -> Seq<
    SlackTextSegmentModel,
> {
    match nested(block) {
        Some(elements) => elements_segments(elements, names),
        None => Seq::empty(),
    }
}

/// The items of a list block.
pub open spec fn list_items(block: Json, names: SlackRenderLookupModel) -> Seq<
    Seq<SlackTextSegmentModel>,
> {
    match nested(block) {
        Some(elements) => elements.map_values(|item: Json| list_item_segments(item, names)),
        None => Seq::empty(),
    }
}

/// The text of the text object in a member.
pub open spec fn text_object(block: Json) -> Option<Seq<char>> {
    match block.member("text"@) {
        Some(value) => value.text_member("text"@),
        None => None,
    }
}

/// The blocks of the texts of fields, one after the other.
pub open spec fn field_blocks(fields: Seq<Json>) -> Seq<SlackRenderBlockModel>
    decreases fields.len(),
{
    if fields.len() == 0 {
        Seq::empty()
    } else {
        field_blocks(fields.drop_last()) + match fields.last().text_member("text"@) {
            Some(text) => fallback_blocks(text),
            None => Seq::empty(),
        }
    }
}

/// The blocks of a rich text block.
pub open spec fn rich_blocks(block: Json, names: SlackRenderLookupModel) -> Seq<
    SlackRenderBlockModel,
>
    decreases block,
{
    let kind = kind_of(block);
    if kind == "rich_text"@ {
        proof {
            lemma_nested_smaller(block);
        }
        match nested(block) {
            Some(elements) => all_rich_blocks(elements, names),
            None => Seq::empty(),
        }
    } else if kind == "rich_text_section"@ {
        seq![SlackRenderBlockModel::Paragraph(block_segments(block, names))]
    } else if kind == "rich_text_quote"@ {
        seq![SlackRenderBlockModel::Quote(block_segments(block, names))]
    } else if kind == "rich_text_preformatted"@ {
        seq![
            SlackRenderBlockModel::CodeBlock {
                code: match nested(block) {
                    Some(elements) => elements_text(elements, names),
                    None => Seq::empty(),
                },
                language_hint: None,
            },
        ]
    } else if kind == "rich_text_list"@ {
        let items = list_items(block, names);
        if block.text_member("style"@) == Some("ordered"@) {
            seq![
                SlackRenderBlockModel::OrderedList(
                    Seq::new(
                        items.len(),
                        |i: int| (list_number(list_offset(block), i), items[i]),
                    ),
                ),
            ]
        } else {
            seq![SlackRenderBlockModel::UnorderedList(items)]
        }
    } else if kind == "section"@ {
        (match text_object(block) {
            Some(text) => fallback_blocks(text),
            None => Seq::empty(),
        }) + field_blocks(block.elements_member("fields"@))
    } else {
        let text = element_text(block, names);
        if is_blank(text) {
            Seq::empty()
        } else {
            seq![SlackRenderBlockModel::Paragraph(plain_segments(text))]
        }
    }
}

/// The blocks of rich text blocks, one after the other.
pub open spec fn all_rich_blocks(blocks: Seq<Json>, names: SlackRenderLookupModel) -> Seq<
    SlackRenderBlockModel,
>
    decreases blocks,
{
    if blocks.len() == 0 {
        Seq::empty()
    } else {
        all_rich_blocks(blocks.drop_last(), names) + rich_blocks(blocks[blocks.len() - 1], names)
    }
}

/// Whether a block shows anything.
pub open spec fn has_content(block: SlackRenderBlockModel) -> bool {
    match block {
        SlackRenderBlockModel::Paragraph(segments) => segments.len() > 0,
        SlackRenderBlockModel::Quote(segments) => segments.len() > 0,
        SlackRenderBlockModel::CodeBlock { code, .. } => !is_blank(code),
        SlackRenderBlockModel::Table { headers, .. } => headers.len() > 0,
        SlackRenderBlockModel::UnorderedList(items) => items.len() > 0,
        SlackRenderBlockModel::OrderedList(items) => items.len() > 0,
    }
}

/// The blocks of a message's rich text that show anything.
pub open spec fn shown_blocks(blocks: Seq<Json>, names: SlackRenderLookupModel) -> Seq<
    SlackRenderBlockModel,
> {
    all_rich_blocks(blocks, names).filter(|block: SlackRenderBlockModel| has_content(block))
}

impl SlackRenderLookup {
    /// The label of a user.
    pub fn user_label(&self, user_id: &str) -> (r: String)
        ensures
            r@ == label(self.deep_view().user_names, '@', user_id@),
    {
        label_for(&self.user_names, '@', user_id)
    }

    /// The label of a channel.
    pub fn channel_label(&self, channel_id: &str) -> (r: String)
        ensures
            r@ == label(self.deep_view().channel_names, '#', channel_id@),
    {
        label_for(&self.channel_names, '#', channel_id)
    }
}

fn prefixed(sign: char, value: &str) -> (r: String)
    ensures
        r@ == seq![sign] + value@,
{
    let mut out = String::new();
    out.push(sign);
    out.append(value);
    assert(out@ =~= seq![sign] + value@);
    out
}

fn label_for(names: &TextMap<String>, sign: char, id: &str) -> (r: String)
    ensures
        r@ == label(names.deep_view(), sign, id@),
{
    match names.get(id) {
        Some(name) => {
            if name.as_str().is_empty() {
                prefixed(sign, id)
            } else if name.as_str().get_char(0) == sign {
                name.clone()
            } else {
                prefixed(sign, name.as_str())
            }
        },
        None => prefixed(sign, id),
    }
}

fn text_or_empty(value: Option<&str>) -> (r: String)
    ensures
        r@ == (match value {
            Some(text) => text@,
            None => Seq::<char>::empty(),
        }),
{
    match value {
        Some(text) => owned(text),
        None => String::new(),
    }
}

/// The kind that an element says it is of.
fn element_kind(element: &Json) -> (r: String)
    ensures
        r@ == kind_of(*element),
{
    text_or_empty(element.get_str("type"))
}

/// The style that an element's style member describes.
fn rich_style_from_value(value: Option<&Json>) -> (r: SlackTextStyle)
    ensures
        r.deep_view() == style_of(
            match value {
                Some(style) => Some(*style),
                None => None,
            },
        ),
{
    match value {
        None => SlackTextStyle::default(),
        Some(style) => SlackTextStyle {
            bold: style.is_flagged("bold"),
            italic: style.is_flagged("italic"),
            underline: style.is_flagged("underline"),
            strike: style.is_flagged("strike"),
            code: style.is_flagged("code"),
            link: None,
        },
    }
}

fn leaf(kind: &str) -> (r: bool)
    ensures
        r == is_leaf(kind@),
{
    same_text(kind, "text") || same_text(kind, "emoji") || same_text(kind, "link") || same_text(
        kind,
        "user",
    ) || same_text(kind, "channel") || same_text(kind, "broadcast") || same_text(kind, "usergroup")
        || same_text(kind, "date")
}

fn emoji_element_text(name: Option<&str>) -> (r: String)
    ensures
        r@ == emoji_text(
            match name {
                Some(code) => Some(code@),
                None => None,
            },
        ),
{
    match name {
        None => String::new(),
        Some(code) => match emoji_from_shortcode(code) {
            Some(emoji) => emoji,
            None => {
                let mut out = prefixed(':', code);
                out.push(':');
                assert(out@ =~= seq![':'] + code@ + seq![':']);
                out
            },
        },
    }
}

fn link_element_text(element: &Json) -> (r: String)
    ensures
        r@ == link_text(*element),
{
    if let Some(text) = element.get_str("text") {
        if !text.is_empty() {
            return owned(text);
        }
    }
    text_or_empty(element.get_str("url"))
}

fn sign_optional(sign: char, value: Option<&str>) -> (r: String)
    ensures
        r@ == signed(
            sign,
            match value {
                Some(text) => Some(text@),
                None => None,
            },
        ),
{
    match value {
        Some(text) => prefixed(sign, text),
        None => String::new(),
    }
}

/// The text of an element that has a text of its own.
fn leaf_element_text(element: &Json, kind: &str, names: &SlackRenderLookup) -> (r: String)
    requires
        kind@ == kind_of(*element),
    ensures
        r@ == leaf_text(*element, names.deep_view()),
{
    if same_text(kind, "text") {
        text_or_empty(element.get_str("text"))
    } else if same_text(kind, "emoji") {
        emoji_element_text(element.get_str("name"))
    } else if same_text(kind, "link") {
        link_element_text(element)
    } else if same_text(kind, "user") {
        match element.get_str("user_id") {
            Some(id) => names.user_label(id),
            None => String::new(),
        }
    } else if same_text(kind, "channel") {
        match element.get_str("channel_id") {
            Some(id) => names.channel_label(id),
            None => String::new(),
        }
    } else if same_text(kind, "broadcast") {
        sign_optional('@', element.get_str("range"))
    } else if same_text(kind, "usergroup") {
        sign_optional('@', element.get_str("name"))
    } else {
        text_or_empty(element.get_str("fallback"))
    }
}

/// The elements of an element.
fn nested_elements(element: &Json) -> (r: Option<&Vec<Json>>)
    ensures
        match r {
            Some(values) => nested(*element) == Some(values@) && decreases_to!(*element => values@),
            None => nested(*element) is None,
        },
{
    proof {
        lemma_nested_smaller(*element);
    }
    match element.get("elements") {
        Some(value) => value.as_array(),
        None => None,
    }
}

/// The text of an element; that of its elements if it is no leaf.
pub fn plain_text_from_rich_element(element: &Json, names: &SlackRenderLookup) -> (r: String)
    ensures
        r@ == element_text(*element, names.deep_view()),
    decreases *element,
{
    let kind = element_kind(element);
    if leaf(kind.as_str()) {
        leaf_element_text(element, kind.as_str(), names)
    } else {
        match nested_elements(element) {
            None => String::new(),
            Some(elements) => plain_text_from_rich_elements(elements, names),
        }
    }
}

/// The text of elements, one after the other.
fn plain_text_from_rich_elements(elements: &Vec<Json>, names: &SlackRenderLookup) -> (r: String)
    ensures
        r@ == elements_text(elements@, names.deep_view()),
    decreases elements@,
{
    let mut out = String::new();
    let mut i: usize = 0;
    assert(elements@.take(0) =~= Seq::empty());
    while i < elements.len()
        invariant
            i <= elements.len(),
            out@ == elements_text(elements@.take(i as int), names.deep_view()),
        decreases elements.len() - i,
    {
        assert(elements@.take(i as int + 1).drop_last() =~= elements@.take(i as int));
        assert(decreases_to!(elements@ => elements@[i as int]));
        let text = plain_text_from_rich_element(&elements[i], names);
        out.append(text.as_str());
        i += 1;
    }
    assert(elements@.take(i as int) =~= elements@);
    out
}

/// The style of an element that has a text of its own.
fn leaf_element_style(element: &Json, kind: &str) -> (r: SlackTextStyle)
    requires
        kind@ == kind_of(*element),
    ensures
        r.deep_view() == leaf_style(*element),
{
    if same_text(kind, "text") {
        rich_style_from_value(element.get("style"))
    } else if same_text(kind, "link") {
        let mut style = rich_style_from_value(element.get("style"));
        style.link = Some(text_or_empty(element.get_str("url")));
        style.underline = true;
        style
    } else {
        SlackTextStyle::default()
    }
}

/// The segments of elements.
pub fn rich_elements_to_segments(elements: &Vec<Json>, names: &SlackRenderLookup) -> (r: Vec<
    SlackTextSegment,
>)
    ensures
        r.deep_view() == elements_segments(elements@, names.deep_view()),
    decreases elements@,
{
    let mut segments: Vec<SlackTextSegment> = Vec::new();
    let mut i: usize = 0;
    assert(elements@.take(0) =~= Seq::empty());
    assert(segments.deep_view() =~= Seq::empty());
    while i < elements.len()
        invariant
            i <= elements.len(),
            segments.deep_view() == elements_segments(elements@.take(i as int), names.deep_view()),
        decreases elements.len() - i,
    {
        assert(elements@.take(i as int + 1).drop_last() =~= elements@.take(i as int));
        assert(decreases_to!(elements@ => elements@[i as int]));
        let element = &elements[i];
        let kind = element_kind(element);
        if leaf(kind.as_str()) {
            let text = leaf_element_text(element, kind.as_str(), names);
            let style = leaf_element_style(element, kind.as_str());
            push_text_segment(&mut segments, text.as_str(), &style);
        } else {
            match nested_elements(element) {
                Some(inner) => {
                    let more = rich_elements_to_segments(inner, names);
                    append_segments(&mut segments, &more);
                },
                None => {},
            }
        }
        i += 1;
    }
    assert(elements@.take(i as int) =~= elements@);
    segments
}

/// The segments of an item of a list.
pub fn rich_list_item_segments(item: &Json, names: &SlackRenderLookup) -> (r: Vec<
    SlackTextSegment,
>)
    ensures
        r.deep_view() == list_item_segments(*item, names.deep_view()),
{
    match nested_elements(item) {
        Some(elements) => rich_elements_to_segments(elements, names),
        None => {
            let segment = SlackTextSegment {
                text: plain_text_from_rich_element(item, names),
                style: SlackTextStyle::default(),
            };
            let ghost meaning = segment.deep_view();
            let segments = vec![segment];
            assert(segments.deep_view() =~= seq![meaning]);
            segments
        },
    }
}

fn segments_of_block(block: &Json, names: &SlackRenderLookup) -> (r: Vec<SlackTextSegment>)
    ensures
        r.deep_view() == block_segments(*block, names.deep_view()),
{
    match nested_elements(block) {
        Some(elements) => rich_elements_to_segments(elements, names),
        None => {
            let none: Vec<SlackTextSegment> = Vec::new();
            assert(none.deep_view() =~= Seq::empty());
            none
        },
    }
}

fn items_of_list(block: &Json, names: &SlackRenderLookup) -> (r: Vec<Vec<SlackTextSegment>>)
    ensures
        r.deep_view() == list_items(*block, names.deep_view()),
{
    let ghost goal = list_items(*block, names.deep_view());
    let mut items: Vec<Vec<SlackTextSegment>> = Vec::new();
    match nested_elements(block) {
        None => {
            assert(items.deep_view() =~= goal);
        },
        Some(elements) => {
            let mut i: usize = 0;
            assert(items.deep_view() =~= goal.take(0));
            while i < elements.len()
                invariant
                    i <= elements.len(),
                    goal == elements@.map_values(
                        |item: Json| list_item_segments(item, names.deep_view()),
                    ),
                    items.deep_view() == goal.take(i as int),
                decreases elements.len() - i,
            {
                let ghost before = items.deep_view();
                let item = rich_list_item_segments(&elements[i], names);
                assert(goal[i as int] == item.deep_view());
                items.push(item);
                assert(items.deep_view() =~= before.push(goal[i as int]));
                i += 1;
                assert(goal.take(i as int) =~= goal.take(i - 1).push(goal[i - 1]));
            }
            assert(goal.take(i as int) =~= goal);
        },
    }
    items
}

fn offset_of_list(block: &Json) -> (r: usize)
    ensures
        r == list_offset(*block),
{
    match block.get("offset") {
        Some(Json::Unsigned(offset)) => #[verifier::truncate] (*offset as usize),
        _ => 0,
    }
}

/// The items of a list with their numbers.
fn numbered(items: Vec<Vec<SlackTextSegment>>, offset: usize) -> (r: Vec<
    (usize, Vec<SlackTextSegment>),
>)
    ensures
        r.deep_view() == Seq::new(
            items.deep_view().len(),
            |i: int| (list_number(offset, i), items.deep_view()[i]),
        ),
{
    let ghost all = items.deep_view();
    let count = items.len();
    let mut out: Vec<(usize, Vec<SlackTextSegment>)> = Vec::new();
    for item in iter: items
        invariant
            all.len() == iter.seq().len(),
            all.len() == count,
            forall|k: int| 0 <= k < all.len() ==> all[k] == (#[trigger] iter.seq()[k]).deep_view(),
            out.len() == iter.index(),
            forall|k: int|
                0 <= k < out.len() ==> (#[trigger] out[k]).deep_view() == (
                    list_number(offset, k),
                    all[k],
                ),
    {
        let number = offset.wrapping_add(out.len()).wrapping_add(1);
        out.push((number, item));
    }
    assert(out.deep_view() =~= Seq::new(all.len(), |i: int| (list_number(offset, i), all[i])));
    out
}

/// Puts blocks behind others.
fn append_blocks(target: &mut Vec<SlackRenderBlock>, more: Vec<SlackRenderBlock>)
    ensures
        final(target).deep_view() == old(target).deep_view() + more.deep_view(),
{
    let ghost before = target.deep_view();
    let mut rest = more;
    target.append(&mut rest);
    assert(target.deep_view() =~= before + more.deep_view());
}

fn one_block(block: SlackRenderBlock) -> (r: Vec<SlackRenderBlock>)
    ensures
        r.deep_view() == seq![block.deep_view()],
{
    let ghost meaning = block.deep_view();
    let blocks = vec![block];
    assert(blocks.deep_view() =~= seq![meaning]);
    blocks
}

fn no_blocks() -> (r: Vec<SlackRenderBlock>)
    ensures
        r.deep_view() == Seq::<SlackRenderBlockModel>::empty(),
{
    let blocks: Vec<SlackRenderBlock> = Vec::new();
    assert(blocks.deep_view() =~= Seq::empty());
    blocks
}

fn section_blocks(block: &Json) -> (r: Vec<SlackRenderBlock>)
    ensures
        r.deep_view() == (match text_object(*block) {
            Some(text) => fallback_blocks(text),
            None => Seq::empty(),
        }) + field_blocks(block.elements_member("fields"@)),
{
    let mut rendered = no_blocks();
    if let Some(object) = block.get("text") {
        if let Some(text) = object.get_str("text") {
            rendered = parse_fallback_slack_blocks(text);
        }
    }
    let ghost head = rendered.deep_view();
    if let Some(member) = block.get("fields") {
        if let Some(fields) = member.as_array() {
            let mut i: usize = 0;
            assert(fields@.take(0) =~= Seq::empty());
            assert(head + Seq::<SlackRenderBlockModel>::empty() =~= head);
            while i < fields.len()
                invariant
                    i <= fields.len(),
                    rendered.deep_view() == head + field_blocks(fields@.take(i as int)),
                decreases fields.len() - i,
            {
                let ghost before = rendered.deep_view();
                assert(fields@.take(i as int + 1).drop_last() =~= fields@.take(i as int));
                assert(fields@.take(i as int + 1).last() == fields@[i as int]);
                if let Some(text) = fields[i].get_str("text") {
                    append_blocks(&mut rendered, parse_fallback_slack_blocks(text));
                    assert(rendered.deep_view() =~= head + field_blocks(
                        fields@.take(i as int + 1),
                    ));
                } else {
                    assert(field_blocks(fields@.take(i as int))
                        + Seq::<SlackRenderBlockModel>::empty() =~= field_blocks(
                        fields@.take(i as int),
                    ));
                }
                i += 1;
            }
            assert(fields@.take(i as int) =~= fields@);
            return rendered;
        }
    }
    assert(head + Seq::<SlackRenderBlockModel>::empty() =~= head);
    rendered
}

/// The blocks of a rich text block.
pub fn rich_block_to_render_blocks(block: &Json, names: &SlackRenderLookup) -> (r: Vec<
    SlackRenderBlock,
>)
    ensures
        r.deep_view() == rich_blocks(*block, names.deep_view()),
    decreases *block,
{
    let kind = element_kind(block);
    if same_text(kind.as_str(), "rich_text") {
        match nested_elements(block) {
            Some(elements) => rich_elements_to_blocks(elements, names),
            None => no_blocks(),
        }
    } else if same_text(kind.as_str(), "rich_text_section") {
        one_block(SlackRenderBlock::Paragraph(segments_of_block(block, names)))
    } else if same_text(kind.as_str(), "rich_text_quote") {
        one_block(SlackRenderBlock::Quote(segments_of_block(block, names)))
    } else if same_text(kind.as_str(), "rich_text_preformatted") {
        let code = match nested_elements(block) {
            Some(elements) => plain_text_from_rich_elements(elements, names),
            None => String::new(),
        };
        one_block(SlackRenderBlock::CodeBlock { code, language_hint: None })
    } else if same_text(kind.as_str(), "rich_text_list") {
        let items = items_of_list(block, names);
        let ordered = match block.get_str("style") {
            Some(style) => same_text(style, "ordered"),
            None => false,
        };
        if ordered {
            one_block(SlackRenderBlock::OrderedList(numbered(items, offset_of_list(block))))
        } else {
            one_block(SlackRenderBlock::UnorderedList(items))
        }
    } else if same_text(kind.as_str(), "section") {
        section_blocks(block)
    } else {
        let text = plain_text_from_rich_element(block, names);
        if blank(text.as_str()) {
            no_blocks()
        } else {
            one_block(
                SlackRenderBlock::Paragraph(
                    parse_fallback_inline_segments(text.as_str(), &SlackTextStyle::default()),
                ),
            )
        }
    }
}

/// The blocks of rich text blocks, one after the other.
fn rich_elements_to_blocks(blocks: &Vec<Json>, names: &SlackRenderLookup) -> (r: Vec<
    SlackRenderBlock,
>)
    ensures
        r.deep_view() == all_rich_blocks(blocks@, names.deep_view()),
    decreases blocks@,
{
    let mut rendered = no_blocks();
    let mut i: usize = 0;
    assert(blocks@.take(0) =~= Seq::empty());
    while i < blocks.len()
        invariant
            i <= blocks.len(),
            rendered.deep_view() == all_rich_blocks(blocks@.take(i as int), names.deep_view()),
        decreases blocks.len() - i,
    {
        assert(blocks@.take(i as int + 1).drop_last() =~= blocks@.take(i as int));
        assert(decreases_to!(blocks@ => blocks@[i as int]));
        let more = rich_block_to_render_blocks(&blocks[i], names);
        append_blocks(&mut rendered, more);
        i += 1;
    }
    assert(blocks@.take(i as int) =~= blocks@);
    rendered
}

fn shows_content(block: &SlackRenderBlock) -> (r: bool)
    ensures
        r == has_content(block.deep_view()),
{
    match block {
        SlackRenderBlock::Paragraph(segments) => segments.len() > 0,
        SlackRenderBlock::Quote(segments) => segments.len() > 0,
        SlackRenderBlock::CodeBlock { code, .. } => !blank(code.as_str()),
        SlackRenderBlock::Table { headers, .. } => headers.len() > 0,
        SlackRenderBlock::UnorderedList(items) => items.len() > 0,
        SlackRenderBlock::OrderedList(items) => items.len() > 0,
    }
}

/// The blocks of a message's rich text that show anything.
pub fn parse_rich_text_blocks(blocks: &Vec<Json>, names: &SlackRenderLookup) -> (r: Vec<
    SlackRenderBlock,
>)
    ensures
        r.deep_view() == shown_blocks(blocks@, names.deep_view()),
{
    let rendered = rich_elements_to_blocks(blocks, names);
    let ghost all = rendered.deep_view();
    let ghost keep = |block: SlackRenderBlockModel| has_content(block);
    let mut kept = no_blocks();
    proof {
        reveal(Seq::filter);
        assert(all.take(0) =~= Seq::empty());
        assert(kept.deep_view() =~= all.take(0).filter(keep));
    }
    for block in iter: rendered
        invariant
            all.len() == iter.seq().len(),
            forall|k: int| 0 <= k < all.len() ==> all[k] == (#[trigger] iter.seq()[k]).deep_view(),
            keep == (|block: SlackRenderBlockModel| has_content(block)),
            kept.deep_view() == all.take(iter.index() as int).filter(keep),
    {
        let ghost before = kept.deep_view();
        let ghost at = iter.index() as int;
        proof {
            reveal(Seq::filter);
            assert(all.take(at + 1).drop_last() =~= all.take(at));
            assert(all.take(at + 1).last() == block.deep_view());
        }
        if shows_content(&block) {
            let ghost meaning = block.deep_view();
            kept.push(block);
            assert(kept.deep_view() =~= before.push(meaning));
        }
    }
    assert(all.take(all.len() as int) =~= all);
    kept
}

/// The texts of cells.
pub open spec fn cell_texts(cells: Seq<Seq<SlackTextSegmentModel>>) -> Seq<Seq<char>> {
    cells.map_values(|cell: Seq<SlackTextSegmentModel>| segments_text(cell))
}

/// The lines of plain text that a block makes.
pub open spec fn block_chunks(block: SlackRenderBlockModel) -> Seq<Seq<char>> {
    match block {
        SlackRenderBlockModel::Paragraph(segments) => seq![segments_text(segments)],
        SlackRenderBlockModel::Quote(segments) => seq![segments_text(segments)],
        SlackRenderBlockModel::CodeBlock { code, .. } => seq![code],
        SlackRenderBlockModel::Table { headers, rows, .. } => seq![
            join(cell_texts(headers), " | "@),
        ] + rows.map_values(
            |row: Seq<Seq<SlackTextSegmentModel>>| join(cell_texts(row), " | "@),
        ),
        SlackRenderBlockModel::UnorderedList(items) => cell_texts(items),
        SlackRenderBlockModel::OrderedList(items) => items.map_values(
            |item: (usize, Seq<SlackTextSegmentModel>)| segments_text(item.1),
        ),
    }
}

/// The lines of plain text that blocks make, one block after the other.
pub open spec fn blocks_chunks(blocks: Seq<SlackRenderBlockModel>) -> Seq<Seq<char>>
    decreases blocks.len(),
{
    if blocks.len() == 0 {
        Seq::empty()
    } else {
        blocks_chunks(blocks.drop_last()) + block_chunks(blocks.last())
    }
}

/// The plain text of a message's rich text.
pub open spec fn rich_plain_text(blocks: Seq<Json>, names: SlackRenderLookupModel) -> Seq<char> {
    join(blocks_chunks(shown_blocks(blocks, names)), seq!['\n'])
}

fn texts_of_cells(cells: &Vec<Vec<SlackTextSegment>>) -> (r: Vec<String>)
    ensures
        r.deep_view() == cell_texts(cells.deep_view()),
{
    let ghost goal = cell_texts(cells.deep_view());
    let mut texts: Vec<String> = Vec::new();
    let mut i: usize = 0;
    assert(texts.deep_view() =~= goal.take(0));
    while i < cells.len()
        invariant
            i <= cells.len(),
            goal == cell_texts(cells.deep_view()),
            texts.deep_view() == goal.take(i as int),
        decreases cells.len() - i,
    {
        let ghost before = texts.deep_view();
        let text = plain_text(&cells[i]);
        assert(goal[i as int] == text@);
        texts.push(text);
        assert(texts.deep_view() =~= before.push(goal[i as int]));
        i += 1;
        assert(goal.take(i as int) =~= goal.take(i - 1).push(goal[i - 1]));
    }
    assert(goal.take(i as int) =~= goal);
    texts
}

fn one_text(value: String) -> (r: Vec<String>)
    ensures
        r.deep_view() == seq![value@],
{
    let texts = vec![value];
    assert(texts.deep_view() =~= seq![value@]);
    texts
}

fn chunks_of_table(headers: &Vec<Vec<SlackTextSegment>>, rows: &Vec<Vec<Vec<SlackTextSegment>>>) -> (r:
    Vec<String>)
    ensures
        r.deep_view() == seq![join(cell_texts(headers.deep_view()), " | "@)]
            + rows.deep_view().map_values(
            |row: Seq<Seq<SlackTextSegmentModel>>| join(cell_texts(row), " | "@),
        ),
{
    let ghost goal = rows.deep_view().map_values(
        |row: Seq<Seq<SlackTextSegmentModel>>| join(cell_texts(row), " | "@),
    );
    let head = join_texts(&texts_of_cells(headers), " | ");
    let ghost first = head@;
    let mut texts = one_text(head);
    let mut i: usize = 0;
    assert(texts.deep_view() =~= seq![first] + goal.take(0));
    while i < rows.len()
        invariant
            i <= rows.len(),
            goal == rows.deep_view().map_values(
                |row: Seq<Seq<SlackTextSegmentModel>>| join(cell_texts(row), " | "@),
            ),
            texts.deep_view() == seq![first] + goal.take(i as int),
        decreases rows.len() - i,
    {
        let ghost before = texts.deep_view();
        let text = join_texts(&texts_of_cells(&rows[i]), " | ");
        assert(goal[i as int] == text@);
        texts.push(text);
        assert(texts.deep_view() =~= before.push(goal[i as int]));
        i += 1;
        assert(goal.take(i as int) =~= goal.take(i - 1).push(goal[i - 1]));
        assert(texts.deep_view() =~= seq![first] + goal.take(i as int));
    }
    assert(goal.take(i as int) =~= goal);
    texts
}

fn chunks_of_ordered(items: &Vec<(usize, Vec<SlackTextSegment>)>) -> (r: Vec<String>)
    ensures
        r.deep_view() == items.deep_view().map_values(
            |item: (usize, Seq<SlackTextSegmentModel>)| segments_text(item.1),
        ),
{
    let ghost goal = items.deep_view().map_values(
        |item: (usize, Seq<SlackTextSegmentModel>)| segments_text(item.1),
    );
    let mut texts: Vec<String> = Vec::new();
    let mut i: usize = 0;
    assert(texts.deep_view() =~= goal.take(0));
    while i < items.len()
        invariant
            i <= items.len(),
            goal == items.deep_view().map_values(
                |item: (usize, Seq<SlackTextSegmentModel>)| segments_text(item.1),
            ),
            texts.deep_view() == goal.take(i as int),
        decreases items.len() - i,
    {
        let ghost before = texts.deep_view();
        let text = plain_text(&items[i].1);
        assert(goal[i as int] == text@);
        texts.push(text);
        assert(texts.deep_view() =~= before.push(goal[i as int]));
        i += 1;
        assert(goal.take(i as int) =~= goal.take(i - 1).push(goal[i - 1]));
    }
    assert(goal.take(i as int) =~= goal);
    texts
}

fn chunks_of_block(block: &SlackRenderBlock) -> (r: Vec<String>)
    ensures
        r.deep_view() == block_chunks(block.deep_view()),
{
    match block {
        SlackRenderBlock::Paragraph(segments) => one_text(plain_text(segments)),
        SlackRenderBlock::Quote(segments) => one_text(plain_text(segments)),
        SlackRenderBlock::CodeBlock { code, .. } => one_text(code.clone()),
        SlackRenderBlock::Table { headers, rows, .. } => chunks_of_table(headers, rows),
        SlackRenderBlock::UnorderedList(items) => texts_of_cells(items),
        SlackRenderBlock::OrderedList(items) => chunks_of_ordered(items),
    }
}

/// The plain text of a message's rich text.
pub fn slack_plain_text_from_blocks(blocks: &Vec<Json>, names: &SlackRenderLookup) -> (r: String)
    ensures
        r@ == rich_plain_text(blocks@, names.deep_view()),
{
    let rendered = parse_rich_text_blocks(blocks, names);
    let ghost all = rendered.deep_view();
    let mut chunks: Vec<String> = Vec::new();
    let mut i: usize = 0;
    assert(all.take(0) =~= Seq::empty());
    assert(chunks.deep_view() =~= Seq::empty());
    while i < rendered.len()
        invariant
            i <= rendered.len(),
            all == rendered.deep_view(),
            chunks.deep_view() == blocks_chunks(all.take(i as int)),
        decreases rendered.len() - i,
    {
        let ghost before = chunks.deep_view();
        assert(all.take(i as int + 1).drop_last() =~= all.take(i as int));
        assert(all.take(i as int + 1).last() == rendered[i as int].deep_view());
        let mut more = chunks_of_block(&rendered[i]);
        let ghost added = more.deep_view();
        chunks.append(&mut more);
        assert(chunks.deep_view() =~= before + added);
        i += 1;
    }
    assert(all.take(i as int) =~= all);
    proof {
        reveal_strlit("\n");
        assert("\n"@ =~= seq!['\n']);
    }
    join_texts(&chunks, "\n")
}

/// Whether blocks that come from plain text show what rich text would lose: tables and code.
pub open spec fn prefers_plain(blocks: Seq<SlackRenderBlockModel>) -> bool {
    exists|i: int|
        0 <= i < blocks.len() && ((#[trigger] blocks[i]) is Table || blocks[i] is CodeBlock)
}

/// The blocks that a message is shown as: those of its rich text, unless it has none, they show
/// nothing, or the plain text has tables or code.
pub open spec fn body_blocks(body: Seq<char>, rich: Seq<Json>, names: SlackRenderLookupModel) -> Seq<
    SlackRenderBlockModel,
> {
    let plain = if is_blank(body) {
        Seq::empty()
    } else {
        fallback_blocks(body)
    };
    if rich.len() > 0 && !prefers_plain(plain) && shown_blocks(rich, names).len() > 0 {
        shown_blocks(rich, names)
    } else {
        plain
    }
}

/// Whether blocks hold a table or code.
pub fn should_prefer_markdown_blocks(blocks: &Vec<SlackRenderBlock>) -> (r: bool)
    ensures
        r == prefers_plain(blocks.deep_view()),
{
    let ghost all = blocks.deep_view();
    let mut i: usize = 0;
    while i < blocks.len()
        invariant
            i <= blocks.len(),
            all == blocks.deep_view(),
            forall|k: int| 0 <= k < i ==> !((#[trigger] all[k]) is Table || all[k] is CodeBlock),
        decreases blocks.len() - i,
    {
        assert(all[i as int] == blocks[i as int].deep_view());
        if matches!(blocks[i], SlackRenderBlock::Table { .. } | SlackRenderBlock::CodeBlock { .. }) {
            return true;
        }
        i += 1;
    }
    false
}

/// The blocks that a message is shown as.
pub fn message_blocks(body: &str, rich: &Vec<Json>, names: &SlackRenderLookup) -> (r: Vec<
    SlackRenderBlock,
>)
    ensures
        r.deep_view() == body_blocks(body@, rich@, names.deep_view()),
{
    let plain = if blank(body) {
        no_blocks()
    } else {
        parse_fallback_slack_blocks(body)
    };
    if rich.len() > 0 && !should_prefer_markdown_blocks(&plain) {
        let blocks = parse_rich_text_blocks(rich, names);
        if blocks.len() > 0 {
            return blocks;
        }
    }
    plain
}

/// The style classes of a cell of a table. The first row is that of the headers.
pub open spec fn cell_classes(row: int, column: int, rows: int, columns: int) -> Seq<Seq<char>> {
    let right = column == columns - 1;
    let bottom = row == rows;
    (if row == 0 {
        seq!["slack-rich-table-header"@]
    } else {
        seq!["slack-rich-table-cell"@]
    }) + (if row == 0 && column == 0 {
        seq!["slack-rich-table-corner-top-left"@]
    } else {
        Seq::empty()
    }) + (if right {
        seq!["slack-rich-table-edge-right"@]
    } else {
        Seq::empty()
    }) + (if row == 0 && right {
        seq!["slack-rich-table-corner-top-right"@]
    } else {
        Seq::empty()
    }) + (if bottom {
        seq!["slack-rich-table-edge-bottom"@]
    } else {
        Seq::empty()
    }) + (if bottom && column == 0 {
        seq!["slack-rich-table-corner-bottom-left"@]
    } else {
        Seq::empty()
    }) + (if bottom && right {
        seq!["slack-rich-table-corner-bottom-right"@]
    } else {
        Seq::empty()
    })
}

fn add_class(classes: &mut Vec<String>, wanted: bool, name: &str)
    ensures
        final(classes).deep_view() == old(classes).deep_view() + (if wanted {
            seq![name@]
        } else {
            Seq::empty()
        }),
{
    let ghost before = classes.deep_view();
    if wanted {
        classes.push(owned(name));
        assert(classes.deep_view() =~= before + seq![name@]);
    } else {
        assert(before + Seq::<Seq<char>>::empty() =~= before);
    }
}

/// The style classes of a cell of a table with so many rows below its headers. Row zero is that
/// of the headers.
pub fn table_cell_classes(row: usize, column: usize, rows: usize, columns: usize) -> (r: Vec<
    String,
>)
    requires
        row <= rows,
        column < columns,
    ensures
        r.deep_view() == cell_classes(row as int, column as int, rows as int, columns as int),
{
    let right = column == columns - 1;
    let bottom = row == rows;
    let mut classes = one_text(
        owned(
            if row == 0 {
                "slack-rich-table-header"
            } else {
                "slack-rich-table-cell"
            },
        ),
    );
    add_class(&mut classes, row == 0 && column == 0, "slack-rich-table-corner-top-left");
    add_class(&mut classes, right, "slack-rich-table-edge-right");
    add_class(&mut classes, row == 0 && right, "slack-rich-table-corner-top-right");
    add_class(&mut classes, bottom, "slack-rich-table-edge-bottom");
    add_class(&mut classes, bottom && column == 0, "slack-rich-table-corner-bottom-left");
    add_class(&mut classes, bottom && right, "slack-rich-table-corner-bottom-right");
    classes
}

} // verus!
