//! How messages and people are shown: emoji, ages, initials, previews, files and rich text.
use vstd::prelude::*;
use vstd::string::*;

use crate::attachments::{image_bytes, listed_files, path_extension};
use crate::blocks::fallback_blocks;
use crate::collections::lookup;
use crate::display::{age_text, initials, link_preview, part_starts, shown_height};
use crate::emoji::{emoji_of, reaction_display, reaction_name, shortcode_emoji, with_emoji};
use crate::json::Json;
use crate::models::{AttachmentKind, TimelineItemModel};
use crate::rich_text::{
    all_rich_blocks, body_blocks, element_text, elements_segments, elements_text, kind_of, label,
    leaf_style, leaf_text, nested, rich_blocks, rich_plain_text, shown_blocks,
    SlackRenderLookupModel,
};
use crate::segments::{segments_text, SlackRenderBlockModel, SlackTextSegmentModel};
use crate::slack::{SlackFileModel, SlackUserModel, SlackUserProfileModel};
use crate::text::{
    decimal, is_space, join, lemma_find_char, split, strip_leading, strip_trailing, trim, uppercase,
};
use crate::time::Timestamp;

verus! {

/// The place of a character that does not stand in the text before it.
proof fn lemma_finds_char(text: Seq<char>, c: char, from: int, at: int)
    requires
        0 <= from <= at < text.len(),
        text[at] == c,
        forall|k: int| from <= k < at ==> text[k] != c,
    ensures
        crate::text::find_char(text, c, from) == Some(at),
{
    lemma_find_char(text, c, from);
}

/// A shortcode between colons gives way to its emoji; what stands before and behind is shown as it
/// is on its own. What is no shortcode, or has no emoji, stays.
pub proof fn law_shortcodes_become_emoji(
    before: Seq<char>,
    code: Seq<char>,
    behind: Seq<char>,
)
    requires
        !before.contains(':'),
        !code.contains(':'),
    ensures
        ({
            let text = before + seq![':'] + code + seq![':'] + behind;
            let fits = code.len() > 0 && forall|k: int|
                0 <= k < code.len() ==> {
                    let c = #[trigger] code[k];
                    'a' <= c <= 'z' || 'A' <= c <= 'Z' || '0' <= c <= '9' || c == '_' || c == '-'
                        || c == '+' || c == '/'
                };
            &&& fits && shortcode_emoji(code) is Some ==> with_emoji(text) == before
                + shortcode_emoji(code)->0 + with_emoji(behind)
            &&& !fits || shortcode_emoji(code) is None ==> with_emoji(text) == before + seq![':']
                + with_emoji(code + seq![':'] + behind)
        }),
{
    let text = before + seq![':'] + code + seq![':'] + behind;
    let start = before.len() as int;
    let end = start + 1 + code.len();
    assert forall|k: int| 0 <= k < start implies text[k] != ':' by {
        assert(text[k] == before[k]);
        assert(before.contains(before[k]));
    }
    assert forall|k: int| start + 1 <= k < end implies text[k] != ':' by {
        assert(text[k] == code[k - start - 1]);
        assert(code.contains(code[k - start - 1]));
    }
    lemma_finds_char(text, ':', 0, start);
    lemma_finds_char(text, ':', start + 1, end);
    assert(text.subrange(start + 1, end) =~= code);
    assert(text.take(start) =~= before);
    assert(text.skip(end + 1) =~= behind);
    assert(text.skip(start + 1) =~= code + seq![':'] + behind);
    let fits = code.len() > 0 && forall|k: int|
        0 <= k < code.len() ==> {
            let c = #[trigger] code[k];
            'a' <= c <= 'z' || 'A' <= c <= 'Z' || '0' <= c <= '9' || c == '_' || c == '-' || c
                == '+' || c == '/'
        };
    if fits {
        assert forall|i: int| 0 <= i < code.len() implies crate::emoji::is_shortcode_char(
            #[trigger] code[i],
        ) by {}
    }
    if crate::emoji::is_shortcode(code) {
        assert forall|k: int| 0 <= k < code.len() implies {
            let c = #[trigger] code[k];
            'a' <= c <= 'z' || 'A' <= c <= 'Z' || '0' <= c <= '9' || c == '_' || c == '-' || c
                == '+' || c == '/'
        } by {
            assert(crate::emoji::is_shortcode_char(code[k]));
        }
    }
}

/// A run of one character before a text is taken away.
pub proof fn lemma_run_before(c: char, count: nat, text: Seq<char>)
    requires
        text.len() > 0,
        text[0] != c,
    ensures
        strip_leading(Seq::new(count, |i: int| c) + text, c) == text,
    decreases count,
{
    let run = Seq::new(count, |i: int| c);
    let all = run + text;
    if count > 0 {
        let less = Seq::new((count - 1) as nat, |i: int| c);
        lemma_run_before(c, (count - 1) as nat, text);
        assert(all.skip(1) =~= less + text);
        assert(all.first() == c);
    } else {
        assert(all =~= text);
    }
}

/// A run of one character behind a text is taken away.
proof fn lemma_run_behind(c: char, count: nat, text: Seq<char>)
    requires
        text.len() > 0,
        text[text.len() - 1] != c,
    ensures
        strip_trailing(text + Seq::new(count, |i: int| c), c) == text,
    decreases count,
{
    let run = Seq::new(count, |i: int| c);
    let all = text + run;
    if count > 0 {
        let less = Seq::new((count - 1) as nat, |i: int| c);
        lemma_run_behind(c, (count - 1) as nat, text);
        assert(all.drop_last() =~= text + less);
        assert(all.last() == c);
    } else {
        assert(all =~= text);
    }
}

/// Colons around a shortcode make no difference, nor does it whether a hyphen or an underscore
/// stands in it.
pub proof fn law_shortcodes_have_many_forms(
    head: Seq<char>,
    tail: Seq<char>,
    before: nat,
    behind: nat,
)
    requires
        head.len() > 0,
        tail.len() > 0,
        head[0] != ':',
        tail[tail.len() - 1] != ':',
    ensures
        shortcode_emoji(
            Seq::new(before, |i: int| ':') + (head + seq!['-'] + tail) + Seq::new(
                behind,
                |i: int| ':',
            ),
        ) == shortcode_emoji(head + seq!['_'] + tail),
{
    let hyphened = head + seq!['-'] + tail;
    let joined = head + seq!['_'] + tail;
    let colons = Seq::new(behind, |i: int| ':');
    assert(Seq::new(before, |i: int| ':') + hyphened + colons =~= Seq::new(before, |i: int| ':')
        + (hyphened + colons));
    lemma_run_before(':', before, hyphened + colons);
    lemma_run_behind(':', behind, hyphened);
    lemma_run_before(':', 0, joined);
    lemma_run_behind(':', 0, joined);
    assert(Seq::new(0, |i: int| ':') + joined =~= joined);
    assert(joined + Seq::new(0, |i: int| ':') =~= joined);
    assert(crate::emoji::underscored(hyphened) =~= crate::emoji::underscored(joined));
}

/// A reaction is shown as its emoji, or as its name between colons if it has none.
pub proof fn law_reactions_show_emoji(name: Seq<char>)
    ensures
        shortcode_emoji(name) matches Some(emoji) ==> reaction_display(name) == emoji,
        shortcode_emoji(name) is None ==> reaction_display(name) == seq![':'] + name + seq![':'],
{
}

/// A name of letters is the name of its reaction, with or without white space and colons around
/// it, in lower or upper case, unless it is an emoji or one of the two with another name.
pub proof fn law_reactions_are_called_by_name(name: Seq<char>, before: nat, behind: nat)
    requires
        name.len() > 0,
        forall|k: int| 0 <= k < name.len() ==> 'a' <= #[trigger] name[k] <= 'z',
        name != "thumbsup"@,
        name != "thumbsdown"@,
        crate::emoji::shortcode_of(
            Seq::new(before, |i: int| ':') + name + Seq::new(behind, |i: int| ':'),
        ) is None,
    ensures
        reaction_name(Seq::new(before, |i: int| ':') + name + Seq::new(behind, |i: int| ':'))
            == Some(name),
{
    let colons = Seq::new(behind, |i: int| ':');
    let raw = Seq::new(before, |i: int| ':') + name + colons;
    assert('a' <= name[0] <= 'z');
    assert('a' <= name[name.len() - 1] <= 'z');
    assert(raw =~= Seq::new(before, |i: int| ':') + (name + colons));
    lemma_run_before(':', before, name + colons);
    lemma_run_behind(':', behind, name);
    assert forall|k: int| 0 <= k < raw.len() implies !is_space(#[trigger] raw[k]) by {
        if before <= k < before + name.len() {
            assert('a' <= name[k - before] <= 'z');
        }
    }
    assert(!is_space(raw[0]));
    assert(!is_space(raw[raw.len() - 1]));
    crate::wording::lemma_trimmed_stays(raw);
    crate::wording::lemma_trimmed_stays(name);
    assert forall|k: int| 0 <= k < name.len() implies #[trigger] crate::text::ascii_lowercase(
        name,
    )[k] == name[k] by {
        assert('a' <= name[k] <= 'z');
    }
    assert(crate::text::ascii_lowercase(name) =~= name);
    assert forall|i: int| 0 <= i < name.len() implies crate::emoji::is_reaction_char(
        #[trigger] name[i],
    ) by {
        assert('a' <= name[i] <= 'z');
    }
    assert forall|k: int| 0 <= k < name.len() implies #[trigger] crate::emoji::underscored(name)[k]
        == name[k] by {
        assert('a' <= name[k] <= 'z');
    }
    assert(crate::emoji::underscored(name) =~= name);
}

/// A name with a hyphen in it is known by an underscore instead, if there is no emoji of that very
/// name but one of the other; `thumbsup` and `thumbsdown` are known by their signs.
pub proof fn law_reactions_are_known_by_shortcode(head: Seq<char>, tail: Seq<char>)
    requires
        head.len() > 0,
        tail.len() > 0,
        forall|k: int| 0 <= k < head.len() ==> 'a' <= #[trigger] head[k] <= 'z',
        forall|k: int| 0 <= k < tail.len() ==> 'a' <= #[trigger] tail[k] <= 'z',
        crate::emoji::shortcode_of(head + seq!['-'] + tail) is None,
        emoji_of(head + seq!['-'] + tail) is None,
        emoji_of(head + seq!['_'] + tail) is Some,
    ensures
        reaction_name(head + seq!['-'] + tail) == Some(head + seq!['_'] + tail),
        crate::emoji::shortcode_of("thumbsup"@) is None ==> reaction_name("thumbsup"@) == Some(
            "+1"@,
        ),
        crate::emoji::shortcode_of("thumbsdown"@) is None ==> reaction_name("thumbsdown"@) == Some(
            "-1"@,
        ),
{
    let name = head + seq!['-'] + tail;
    reveal_strlit("thumbsup");
    reveal_strlit("thumbsdown");
    assert('a' <= head[0] <= 'z');
    assert('a' <= tail[tail.len() - 1] <= 'z');
    assert forall|k: int| 0 <= k < name.len() implies 'a' <= #[trigger] name[k] <= 'z' || name[k]
        == '-' by {
        if k < head.len() {
            assert(name[k] == head[k]);
        } else if k > head.len() {
            assert(name[k] == tail[k - head.len() - 1]);
        }
    }
    lemma_typed(name);
    lemma_typed("thumbsup"@);
    lemma_typed("thumbsdown"@);
    assert(name != "thumbsup"@ && name != "thumbsdown"@) by {
        assert(name[head.len() as int] == '-');
        if name == "thumbsup"@ {
            assert("thumbsup"@[head.len() as int] == '-');
        }
        if name == "thumbsdown"@ {
            assert("thumbsdown"@[head.len() as int] == '-');
        }
    }
    assert("thumbsup"@.len() == 8 && "thumbsdown"@.len() == 10);
    let known = head + seq!['_'] + tail;
    assert forall|k: int| 0 <= k < name.len() implies #[trigger] crate::emoji::underscored(name)[k]
        == known[k] by {
        if k < head.len() {
            assert(name[k] == head[k]);
        } else if k > head.len() {
            assert(name[k] == tail[k - head.len() - 1]);
        }
    }
    assert(crate::emoji::underscored(name) =~= known);
}

proof fn lemma_typed(name: Seq<char>)
    requires
        name.len() > 0,
        forall|k: int|
            0 <= k < name.len() ==> 'a' <= #[trigger] name[k] <= 'z' || name[k] == '-',
    ensures
        trim(name) == name,
        crate::emoji::typed_reaction(name) == Some(name),
{
    assert('a' <= name[0] <= 'z' || name[0] == '-');
    assert('a' <= name[name.len() - 1] <= 'z' || name[name.len() - 1] == '-');
    crate::wording::lemma_trimmed_stays(name);
    lemma_run_before(':', 0, name);
    lemma_run_behind(':', 0, name);
    assert(Seq::new(0, |i: int| ':') + name =~= name);
    assert(name + Seq::new(0, |i: int| ':') =~= name);
    assert forall|k: int| 0 <= k < name.len() implies #[trigger] crate::text::ascii_lowercase(
        name,
    )[k] == name[k] by {
        assert('a' <= name[k] <= 'z' || name[k] == '-');
    }
    assert(crate::text::ascii_lowercase(name) =~= name);
    assert forall|i: int| 0 <= i < name.len() implies crate::emoji::is_reaction_char(
        #[trigger] name[i],
    ) by {
        assert('a' <= name[i] <= 'z' || name[i] == '-');
    }
}

/// How long ago a message was is told as `now`, in minutes, in hours or in days; from a week on
/// its date is shown instead.
pub proof fn law_ages_are_told_in_short(then: Timestamp, now: Timestamp)
    requires
        then.nanos == now.nanos,
        then.nanos < 1_000_000_000,
    ensures
        ({
            let passed = now.seconds - then.seconds;
            &&& passed < 45 ==> age_text(then, now) == Some("now"@)
            &&& 45 <= passed < 60 * 60 ==> age_text(then, now) == Some(
                decimal((passed / 60) as nat) + "m"@,
            )
            &&& 60 * 60 <= passed < 24 * 60 * 60 ==> age_text(then, now) == Some(
                decimal((passed / 3600) as nat) + "h"@,
            )
            &&& 24 * 60 * 60 <= passed < 7 * 24 * 60 * 60 ==> age_text(then, now) == Some(
                decimal((passed / 86400) as nat) + "d"@,
            )
            &&& passed >= 7 * 24 * 60 * 60 ==> age_text(then, now) is None
        }),
{
    let passed = now.seconds - then.seconds;
    assert(crate::time::elapsed(then, now) == passed * 1_000_000_000);
    assert(passed >= 0 ==> (passed * 1_000_000_000) / 1_000_000_000 == passed) by {
        if passed >= 0 {
            vstd::arithmetic::div_mod::lemma_div_multiples_vanish(passed, 1_000_000_000);
        }
    }
}

/// The minutes between two points are whole ones; there are none if the second is not later.
pub proof fn law_minutes_are_whole(then: Timestamp, now: Timestamp)
    requires
        then.nanos == now.nanos,
        then.nanos < 1_000_000_000,
    ensures
        ({
            let passed = now.seconds - then.seconds;
            &&& passed > 0 ==> crate::time::minutes_between(then, now) == passed / 60
            &&& passed <= 0 ==> crate::time::minutes_between(then, now) == 0
        }),
{
    let passed = now.seconds - then.seconds;
    assert(crate::time::elapsed(then, now) == passed * 1_000_000_000);
    if passed > 0 {
        assert((passed * 1_000_000_000) / 60_000_000_000 == passed / 60) by (nonlinear_arith)
            requires
                passed > 0,
        ;
    }
}

/// Whether a text is one part of a name: it is not empty and nothing in it separates parts.
pub open spec fn is_name_part(text: Seq<char>) -> bool {
    text.len() > 0 && forall|k: int|
        0 <= k < text.len() ==> {
            let c = #[trigger] text[k];
            !is_space(c) && c != '-' && c != '_'
        }
}

proof fn lemma_part_starts(part: Seq<char>, rest: Seq<char>, fresh: bool)
    requires
        is_name_part(part),
        rest.len() > 0 ==> is_space(rest[0]) || rest[0] == '-' || rest[0] == '_',
    ensures
        part_starts(part + rest, fresh) == (if fresh {
            seq![part[0]]
        } else {
            Seq::empty()
        }) + part_starts(rest, false),
    decreases part.len(),
{
    let all = part + rest;
    let less = part.skip(1);
    assert(all.first() == part[0]);
    assert(all.skip(1) =~= less + rest);
    if less.len() > 0 {
        assert forall|k: int| 0 <= k < less.len() implies {
            let c = #[trigger] less[k];
            !is_space(c) && c != '-' && c != '_'
        } by {
            assert(less[k] == part[k + 1]);
        }
        lemma_part_starts(less, rest, false);
        assert(Seq::<char>::empty() + part_starts(rest, false) =~= part_starts(rest, false));
    } else {
        assert(less + rest =~= rest);
    }
    assert(part_starts(all, fresh) =~= (if fresh {
        seq![part[0]]
    } else {
        Seq::empty()
    }) + part_starts(rest, false));
}

/// The initials of a name are the first letters of its first two parts, in upper case, or the
/// first letter if it has one part.
pub proof fn law_initials_are_first_letters(
    first: Seq<char>,
    between: char,
    second: Seq<char>,
    more: Seq<char>,
)
    requires
        is_name_part(first),
        is_name_part(second),
        is_space(between) || between == '-' || between == '_',
        more.len() > 0 ==> is_space(more[0]) || more[0] == '-' || more[0] == '_',
        uppercase(seq![first[0], second[0]]).len() > 0,
        uppercase(seq![first[0]]).len() > 0,
    ensures
        initials(first) == uppercase(seq![first[0]]),
        initials(first + seq![between] + second + more) == uppercase(seq![first[0], second[0]]),
{
    lemma_part_starts(first, Seq::empty(), true);
    assert(first + Seq::<char>::empty() =~= first);
    assert(part_starts(first, true) =~= seq![first[0]]);
    let rest = seq![between] + second + more;
    let behind = second + more;
    assert(first + seq![between] + second + more =~= first + rest);
    lemma_part_starts(first, rest, true);
    assert(rest.skip(1) =~= behind);
    lemma_part_starts(second, more, true);
    let starts = part_starts(first + rest, true);
    assert(starts =~= seq![first[0], second[0]] + part_starts(more, false));
    assert(crate::display::first_two(starts) =~= seq![first[0], second[0]]);
}

/// The preview of a linked message shows its text without the white space around it, and no more
/// than a hundred and eighty characters of it; without text it tells how much is attached.
pub proof fn law_previews_show_the_text(item: TimelineItemModel)
    ensures
        ({
            let said = trim(with_emoji(item.body));
            let limit = crate::display::SHARED_PREVIEW_BODY_LIMIT;
            &&& limit == 180
            &&& 0 < said.len() <= limit ==> link_preview(item) == said
            &&& said.len() > limit ==> link_preview(item) == said.take(limit as int) + seq!['…']
            &&& said.len() == 0 && item.attachments.len() == 0 ==> link_preview(item)
                == "Shared Slack message"@
            &&& said.len() == 0 && item.attachments.len() == 1 ==> link_preview(item)
                == "1 attachment"@
            &&& said.len() == 0 && item.attachments.len() > 1 ==> link_preview(item) == decimal(
                item.attachments.len(),
            ) + " attachments"@
        }),
{
    let said = trim(with_emoji(item.body));
    if said.len() > 180 {
        assert(said.take(180).push('…') =~= said.take(180) + seq!['…']);
    }
}

/// A picture keeps its proportions, as far as it stays between ninety-six pixels and the height
/// that it may have.
pub proof fn law_pictures_keep_their_proportions(
    width: int,
    raw_width: int,
    raw_height: int,
    max_height: int,
)
    requires
        raw_width >= 1,
        raw_height >= 1,
        max_height >= 96,
    ensures
        96 <= shown_height(width, raw_width, raw_height, max_height) <= max_height,
        ({
            let height = shown_height(width, raw_width, raw_height, max_height);
            96 < height < max_height ==> height * raw_width <= width * raw_height < (height + 1)
                * raw_width
        }),
{
    let height = shown_height(width, raw_width, raw_height, max_height);
    let (a, b) = (width * raw_height, raw_width);
    vstd::arithmetic::div_mod::lemma_fundamental_div_mod(a, b);
    assert(b * (a / b) == (a / b) * b) by (nonlinear_arith);
    assert(0 <= a % b < b) by (nonlinear_arith)
        requires
            b > 0,
    ;
    assert((a / b + 1) * b == (a / b) * b + b) by (nonlinear_arith);
}

/// A user is called by the first of their names that is not blank: the one they want to be shown
/// with, the real one, that of the account.
pub proof fn law_users_are_called_by_name(user: SlackUserModel, profile: SlackUserProfileModel)
    requires
        user.profile == Some(profile),
    ensures
        ({
            let given = |name: Option<Seq<char>>| name is Some && trim(name->0).len() > 0;
            &&& given(profile.display_name_normalized) ==> user.shown_name()
                == profile.display_name_normalized
            &&& !given(profile.display_name_normalized) && given(profile.display_name)
                ==> user.shown_name() == profile.display_name
            &&& !given(profile.display_name_normalized) && !given(profile.display_name) && given(
                profile.real_name_normalized,
            ) ==> user.shown_name() == profile.real_name_normalized
            &&& !given(profile.display_name_normalized) && !given(profile.display_name) && !given(
                profile.real_name_normalized,
            ) && given(profile.real_name) ==> user.shown_name() == profile.real_name
            &&& !given(profile.display_name_normalized) && !given(profile.display_name) && !given(
                profile.real_name_normalized,
            ) && !given(profile.real_name) ==> user.shown_name() == (if given(user.name) {
                user.name
            } else {
                None
            })
        }),
        profile.image_72 is Some ==> user.avatar_url() == profile.image_72,
        profile.image_72 is None && profile.image_192 is Some ==> user.avatar_url()
            == profile.image_192,
        profile.image_72 is None && profile.image_192 is None ==> user.avatar_url()
            == profile.image_48,
{
}

/// The extension of a file is what stands behind the last dot of its name.
pub proof fn law_extensions_follow_the_last_dot(
    folder: Seq<char>,
    stem: Seq<char>,
    extension: Seq<char>,
)
    requires
        stem.len() > 0,
        !stem.contains('/'),
        !extension.contains('/'),
        !extension.contains('.'),
        stem + seq!['.'] + extension != ".."@,
    ensures
        path_extension(folder + seq!['/'] + stem + seq!['.'] + extension) == Some(extension),
{
    let name = stem + seq!['.'] + extension;
    let path = folder + seq!['/'] + name;
    reveal_strlit(".");
    assert(folder + seq!['/'] + stem + seq!['.'] + extension =~= path);
    assert(!name.contains('/')) by {
        if name.contains('/') {
            let k = choose|k: int| 0 <= k < name.len() && name[k] == '/';
            if k < stem.len() {
                assert(stem.contains(stem[k]));
            } else if k > stem.len() {
                assert(extension.contains(extension[k - stem.len() - 1]));
            }
        }
    }
    lemma_last_piece(folder, name);
    let parts = split(path, '/');
    assert(parts.last() == name);
    assert(name.len() >= 2);
    assert("."@.len() == 1);
    assert(crate::attachments::last_name(parts) == Some(name));
    lemma_last_dot(stem, extension, name.len() as int);
    assert(name.skip(stem.len() as int + 1) =~= extension);
}

proof fn lemma_last_piece(folder: Seq<char>, name: Seq<char>)
    requires
        !name.contains('/'),
    ensures
        split(folder + seq!['/'] + name, '/').len() > 0,
        split(folder + seq!['/'] + name, '/').last() == name,
{
    let front = split(folder, '/');
    crate::wording::law_joining_undoes_splitting(folder, '/');
    let parts = front.push(name);
    assert(parts.drop_last() =~= front);
    assert(join(parts, seq!['/']) =~= folder + seq!['/'] + name);
    assert forall|i: int| 0 <= i < parts.len() implies !(#[trigger] parts[i]).contains('/') by {
        if i < front.len() {
            assert(parts[i] == front[i]);
        }
    }
    crate::wording::law_splitting_undoes_joining(parts, '/');
}

proof fn lemma_last_dot(stem: Seq<char>, extension: Seq<char>, end: int)
    requires
        !extension.contains('.'),
        stem.len() < end <= stem.len() + 1 + extension.len(),
    ensures
        crate::attachments::rfind_char(stem + seq!['.'] + extension, '.', end) == Some(
            stem.len() as int,
        ),
    decreases end,
{
    let name = stem + seq!['.'] + extension;
    if end > stem.len() + 1 {
        assert(name[end - 1] == extension[end - 2 - stem.len()]);
        assert(extension.contains(extension[end - 2 - stem.len()]));
        lemma_last_dot(stem, extension, end - 1);
    } else {
        assert(name[end - 1] == '.');
    }
}

/// Files are listed one by one: an image that is cached by where it is cached, the others by their
/// address.
pub proof fn law_files_are_listed(
    files: Seq<SlackFileModel>,
    cached: Seq<Option<Seq<char>>>,
    at: int,
)
    requires
        0 <= at < files.len(),
        cached.len() == files.len(),
    ensures
        ({
            let file = files[at];
            let shown = listed_files(files, cached)[at];
            let image = file.thumb_360 is Some || file.thumb_720 is Some || (file.mimetype is Some
                && file.mimetype->0.len() >= 6 && file.mimetype->0.take(6) == "image/"@);
            &&& listed_files(files, cached).len() == files.len()
            &&& shown.kind == (if image {
                AttachmentKind::Image
            } else {
                AttachmentKind::File
            })
            &&& image && cached[at] is Some ==> shown.url == cached[at]
            &&& !image || cached[at] is None ==> shown.url == (if file.permalink is Some {
                file.permalink
            } else if file.url_private is Some {
                file.url_private
            } else {
                file.url_private_download
            })
            &&& file.name matches Some(name) ==> shown.title == name
            &&& shown.mime == file.mimetype
        }),
{
    reveal_strlit("image/");
    let file = files[at];
    if let Some(mime) = file.mimetype {
        if mime.len() >= 6 {
            assert(mime.take(6) =~= mime.subrange(0, 6));
        }
    }
}

/// Bytes are taken for an image by how they start: as those of a JPEG, PNG, GIF or WebP file do.
pub proof fn law_images_start_like_images(bytes: Seq<u8>)
    ensures
        bytes.len() >= 3 && bytes[0] == 0xff && bytes[1] == 0xd8 && bytes[2] == 0xff
            ==> image_bytes(bytes),
        bytes.len() >= 8 && bytes[0] == 0x89 && bytes[1] == 0x50 && bytes[2] == 0x4e && bytes[3]
            == 0x47 && bytes[4] == 0x0d && bytes[5] == 0x0a && bytes[6] == 0x1a && bytes[7] == 0x0a
            ==> image_bytes(bytes),
        bytes.len() >= 6 && bytes[0] == 0x47 && bytes[1] == 0x49 && bytes[2] == 0x46 && bytes[3]
            == 0x38 && (bytes[4] == 0x37 || bytes[4] == 0x39) && bytes[5] == 0x61 ==> image_bytes(
            bytes,
        ),
        bytes.len() >= 12 && bytes[0] == 0x52 && bytes[1] == 0x49 && bytes[2] == 0x46 && bytes[3]
            == 0x46 && bytes[8] == 0x57 && bytes[9] == 0x45 && bytes[10] == 0x42 && bytes[11]
            == 0x50 ==> image_bytes(bytes),
        image_bytes(bytes) ==> bytes.len() >= 3 && (bytes[0] == 0xff || bytes[0] == 0x89 || bytes[0]
            == 0x47 || (bytes[0] == 0x52 && bytes.len() >= 12)),
{
    if bytes.len() >= 3 {
        assert(bytes[0] == 0xff && bytes[1] == 0xd8 && bytes[2] == 0xff ==> bytes.take(3) =~= seq![
            0xffu8,
            0xd8,
            0xff,
        ]);
        assert(bytes.take(3)[0] == bytes[0]);
    }
    if bytes.len() >= 8 {
        assert(bytes[0] == 0x89 && bytes[1] == 0x50 && bytes[2] == 0x4e && bytes[3] == 0x47
            && bytes[4] == 0x0d && bytes[5] == 0x0a && bytes[6] == 0x1a && bytes[7] == 0x0a
            ==> bytes.take(8) =~= seq![0x89u8, 0x50, 0x4e, 0x47, 0x0d, 0x0a, 0x1a, 0x0a]);
        assert(bytes.take(8)[0] == bytes[0]);
    }
    if bytes.len() >= 6 {
        let start = bytes.take(6);
        assert(start[0] == bytes[0] && start[1] == bytes[1] && start[2] == bytes[2] && start[3]
            == bytes[3] && start[4] == bytes[4] && start[5] == bytes[5]);
        if bytes[0] == 0x47 && bytes[1] == 0x49 && bytes[2] == 0x46 && bytes[3] == 0x38 && bytes[5]
            == 0x61 {
            if bytes[4] == 0x37 {
                assert(start =~= seq![0x47u8, 0x49, 0x46, 0x38, 0x37, 0x61]);
            } else if bytes[4] == 0x39 {
                assert(start =~= seq![0x47u8, 0x49, 0x46, 0x38, 0x39, 0x61]);
            }
        }
    }
    if bytes.len() >= 12 {
        let (start, mark) = (bytes.take(4), bytes.subrange(8, 12));
        assert(start[0] == bytes[0] && start[1] == bytes[1] && start[2] == bytes[2] && start[3]
            == bytes[3]);
        assert(mark[0] == bytes[8] && mark[1] == bytes[9] && mark[2] == bytes[10] && mark[3]
            == bytes[11]);
        if bytes[0] == 0x52 && bytes[1] == 0x49 && bytes[2] == 0x46 && bytes[3] == 0x46 && bytes[8]
            == 0x57 && bytes[9] == 0x45 && bytes[10] == 0x42 && bytes[11] == 0x50 {
            assert(start =~= seq![0x52u8, 0x49, 0x46, 0x46]);
            assert(mark =~= seq![0x57u8, 0x45, 0x42, 0x50]);
        }
    }
}

/// The segments of rich text hold its whole text: nothing is lost and nothing is added.
pub proof fn law_segments_hold_the_text(elements: Seq<Json>, names: SlackRenderLookupModel)
    ensures
        segments_text(elements_segments(elements, names)) == elements_text(elements, names),
    decreases elements,
{
    reveal_with_fuel(element_text, 2);
    reveal_with_fuel(elements_text, 2);
    reveal_with_fuel(elements_segments, 2);
    if elements.len() > 0 {
        let less = elements.drop_last();
        let element = elements[elements.len() - 1];
        law_segments_hold_the_text(less, names);
        let head = elements_segments(less, names);
        crate::rich_text::lemma_nested_smaller(element);
        if crate::rich_text::is_leaf(kind_of(element)) {
            crate::segments::law_pushing_keeps_the_text(
                head,
                leaf_text(element, names),
                leaf_style(element),
            );
        } else if let Some(inner) = nested(element) {
            assert(decreases_to!(elements => element));
            law_segments_hold_the_text(inner, names);
            crate::segments::law_appending_keeps_the_text(head, elements_segments(inner, names));
        } else {
            assert(elements_text(less, names) + Seq::<char>::empty() =~= elements_text(
                less,
                names,
            ));
        }
    }
}

/// The names of the kinds of elements are all different.
proof fn lemma_kinds()
    ensures
        "text"@ != "emoji"@,
        "text"@ != "link"@,
        "text"@ != "user"@,
        "text"@ != "channel"@,
        "text"@ != "broadcast"@,
        "text"@ != "usergroup"@,
        "emoji"@ != "link"@,
        "emoji"@ != "user"@,
        "emoji"@ != "channel"@,
        "emoji"@ != "broadcast"@,
        "emoji"@ != "usergroup"@,
        "link"@ != "user"@,
        "link"@ != "channel"@,
        "link"@ != "broadcast"@,
        "link"@ != "usergroup"@,
        "user"@ != "channel"@,
        "user"@ != "broadcast"@,
        "user"@ != "usergroup"@,
        "channel"@ != "broadcast"@,
        "channel"@ != "usergroup"@,
        "broadcast"@ != "usergroup"@,
{
    reveal_strlit("text");
    reveal_strlit("emoji");
    reveal_strlit("link");
    reveal_strlit("user");
    reveal_strlit("channel");
    reveal_strlit("broadcast");
    reveal_strlit("usergroup");
    assert("text"@.len() == 4 && "emoji"@.len() == 5 && "link"@.len() == 4 && "user"@.len() == 4);
    assert("channel"@.len() == 7 && "broadcast"@.len() == 9 && "usergroup"@.len() == 9);
    assert("text"@[0] == 't');
    assert("link"@[0] == 'l');
    assert("user"@[0] == 'u');
    assert("broadcast"@[0] == 'b');
    assert("usergroup"@[0] == 'u');
}

/// Each kind of element says its own text: words, an emoji, the words or the address of a link,
/// the name of a user or of a channel behind its sign.
pub proof fn law_elements_say_their_text(element: Json, names: SlackRenderLookupModel)
    ensures
        element.text_member("type"@) == Some("text"@) ==> (element.text_member("text"@) matches Some(
            words,
        ) ==> element_text(element, names) == words),
        element.text_member("type"@) == Some("emoji"@) ==> (element.text_member("name"@)
            matches Some(name) ==> element_text(element, names) == reaction_display(name)),
        element.text_member("type"@) == Some("link"@) ==> (match element.text_member("text"@) {
            Some(words) if words.len() > 0 => element_text(element, names) == words,
            _ => element.text_member("url"@) matches Some(url) ==> element_text(element, names)
                == url,
        }),
        element.text_member("type"@) == Some("user"@) ==> (element.text_member("user_id"@)
            matches Some(id) ==> element_text(element, names) == label(
            names.user_names,
            '@',
            id,
        )),
        element.text_member("type"@) == Some("channel"@) ==> (element.text_member("channel_id"@)
            matches Some(id) ==> element_text(element, names) == label(
            names.channel_names,
            '#',
            id,
        )),
        element.text_member("type"@) == Some("broadcast"@) ==> (element.text_member("range"@)
            matches Some(range) ==> element_text(element, names) == seq!['@'] + range),
        element.text_member("type"@) == Some("usergroup"@) ==> (element.text_member("name"@)
            matches Some(name) ==> element_text(element, names) == seq!['@'] + name),
{
    lemma_kinds();
}

/// A label is the name behind its sign, which stands there once; without a name it is the
/// identifier behind the sign.
pub proof fn law_labels_bear_one_sign(
    names: Seq<(Seq<char>, Seq<char>)>,
    sign: char,
    id: Seq<char>,
)
    ensures
        label(names, sign, id).len() > 0,
        label(names, sign, id)[0] == sign,
        lookup(names, id) matches Some(name) ==> name.len() > 0 && name[0] != sign ==> label(
            names,
            sign,
            id,
        ).skip(1) == name,
        lookup(names, id) matches Some(name) ==> name.len() > 0 && name[0] == sign ==> label(
            names,
            sign,
            id,
        ) == name,
        lookup(names, id) is None ==> label(names, sign, id).skip(1) == id,
{
    let shown = label(names, sign, id);
    if let Some(name) = lookup(names, id) {
        if name.len() > 0 && name[0] != sign {
            assert(shown.skip(1) =~= name);
        }
    } else {
        assert(shown.skip(1) =~= id);
    }
}

/// Whether the style of an element says something of its words.
pub open spec fn styled(element: Json, flag: Seq<char>) -> bool {
    element.member("style"@) matches Some(style) && style.member(flag) == Some(Json::Bool(true))
}

/// Words are bold, italic, underlined, struck out or code exactly as their style says; a link is
/// underlined in any case, and leads to its address.
pub proof fn law_elements_have_their_style(element: Json)
    ensures
        element.text_member("type"@) == Some("text"@) || element.text_member("type"@) == Some(
            "link"@,
        ) ==> {
            let style = leaf_style(element);
            &&& style.bold == styled(element, "bold"@)
            &&& style.italic == styled(element, "italic"@)
            &&& style.underline == (styled(element, "underline"@) || element.text_member("type"@)
                == Some("link"@))
            &&& style.strike == styled(element, "strike"@)
            &&& style.code == styled(element, "code"@)
        },
        element.text_member("type"@) == Some("text"@) ==> leaf_style(element).link is None,
        element.text_member("type"@) == Some("link"@) ==> (element.text_member("url"@)
            matches Some(url) ==> leaf_style(element).link == Some(url)),
{
    lemma_kinds();
}

/// Blocks are shown one after the other: those of two runs of blocks are those of the first and
/// then those of the second.
pub proof fn law_blocks_follow_one_another(
    first: Seq<Json>,
    second: Seq<Json>,
    names: SlackRenderLookupModel,
)
    ensures
        all_rich_blocks(first + second, names) == all_rich_blocks(first, names) + all_rich_blocks(
            second,
            names,
        ),
    decreases second.len(),
{
    let all = first + second;
    if second.len() == 0 {
        assert(all =~= first);
        assert(all_rich_blocks(first, names) + all_rich_blocks(second, names) =~= all_rich_blocks(
            first,
            names,
        ));
    } else {
        law_blocks_follow_one_another(first, second.drop_last(), names);
        assert(all.drop_last() =~= first + second.drop_last());
        assert(all[all.len() - 1] == second[second.len() - 1]);
        assert(all_rich_blocks(all, names) =~= all_rich_blocks(first, names) + all_rich_blocks(
            second,
            names,
        ));
    }
}

/// The names of the kinds of blocks are all different.
proof fn lemma_block_kinds()
    ensures
        "rich_text"@ != "rich_text_section"@,
        "rich_text"@ != "rich_text_quote"@,
        "rich_text"@ != "rich_text_preformatted"@,
        "rich_text"@ != "rich_text_list"@,
        "rich_text_section"@ != "rich_text_quote"@,
        "rich_text_section"@ != "rich_text_preformatted"@,
        "rich_text_section"@ != "rich_text_list"@,
        "rich_text_quote"@ != "rich_text_preformatted"@,
        "rich_text_quote"@ != "rich_text_list"@,
        "rich_text_preformatted"@ != "rich_text_list"@,
        "section"@ != "rich_text"@,
        "section"@ != "rich_text_section"@,
        "section"@ != "rich_text_quote"@,
        "section"@ != "rich_text_preformatted"@,
        "section"@ != "rich_text_list"@,
{
    reveal_strlit("rich_text");
    reveal_strlit("rich_text_section");
    reveal_strlit("rich_text_quote");
    reveal_strlit("rich_text_preformatted");
    reveal_strlit("rich_text_list");
    reveal_strlit("section");
    assert("rich_text"@.len() == 9);
    assert("rich_text_section"@.len() == 17);
    assert("rich_text_quote"@.len() == 15);
    assert("rich_text_preformatted"@.len() == 22);
    assert("rich_text_list"@.len() == 14);
    assert("section"@.len() == 7);
}

/// Each kind of block becomes its own: a section a paragraph, a quote a quote, preformatted text
/// code, and a list one with an item for each of its elements, numbered from its offset if it is
/// ordered.
pub proof fn law_blocks_become_their_kind(
    block: Json,
    elements: Seq<Json>,
    names: SlackRenderLookupModel,
)
    requires
        nested(block) == Some(elements),
    ensures
        block.text_member("type"@) == Some("rich_text"@) ==> rich_blocks(block, names)
            == all_rich_blocks(elements, names),
        block.text_member("type"@) == Some("rich_text_section"@) ==> rich_blocks(block, names)
            == seq![SlackRenderBlockModel::Paragraph(elements_segments(elements, names))],
        block.text_member("type"@) == Some("rich_text_quote"@) ==> rich_blocks(block, names)
            == seq![SlackRenderBlockModel::Quote(elements_segments(elements, names))],
        block.text_member("type"@) == Some("rich_text_preformatted"@) ==> rich_blocks(block, names)
            == seq![
            SlackRenderBlockModel::CodeBlock {
                code: elements_text(elements, names),
                language_hint: None,
            },
        ],
        block.text_member("type"@) == Some("rich_text_list"@) && block.text_member("style"@)
            != Some("ordered"@) ==> (rich_blocks(block, names).len() == 1 && (rich_blocks(
            block,
            names,
        )[0] matches SlackRenderBlockModel::UnorderedList(items) && items.len() == elements.len()
            && forall|i: int|
            0 <= i < items.len() && nested(elements[i]) is Some ==> #[trigger] items[i]
                == elements_segments(nested(elements[i])->0, names))),
        block.text_member("type"@) == Some("rich_text_list"@) && block.text_member("style"@)
            == Some("ordered"@) && block.member("offset"@) is None && elements.len() < usize::MAX
            ==> (rich_blocks(block, names).len() == 1 && (rich_blocks(
            block,
            names,
        )[0] matches SlackRenderBlockModel::OrderedList(items) && items.len() == elements.len()
            && forall|i: int| 0 <= i < items.len() ==> (#[trigger] items[i]).0 == i + 1)),
{
    lemma_block_kinds();
}

/// What is shown of rich text are its blocks that show something, in their order.
pub proof fn law_empty_blocks_are_not_shown(
    blocks: Seq<Json>,
    names: SlackRenderLookupModel,
    block: SlackRenderBlockModel,
)
    ensures
        shown_blocks(blocks, names).contains(block) <==> all_rich_blocks(blocks, names).contains(
            block,
        ) && (match block {
            SlackRenderBlockModel::Paragraph(segments) => segments.len() > 0,
            SlackRenderBlockModel::Quote(segments) => segments.len() > 0,
            SlackRenderBlockModel::CodeBlock { code, .. } => trim(code).len() > 0,
            SlackRenderBlockModel::Table { headers, .. } => headers.len() > 0,
            SlackRenderBlockModel::UnorderedList(items) => items.len() > 0,
            SlackRenderBlockModel::OrderedList(items) => items.len() > 0,
        }),
{
    crate::readings::lemma_filtered(
        all_rich_blocks(blocks, names),
        |block: SlackRenderBlockModel| crate::rich_text::has_content(block),
        block,
    );
}

/// The plain text of paragraphs and quotes is what they say, each on lines of its own.
pub proof fn law_plain_text_has_a_line_for_each_paragraph(
    blocks: Seq<Json>,
    names: SlackRenderLookupModel,
    texts: Seq<Seq<SlackTextSegmentModel>>,
)
    requires
        shown_blocks(blocks, names) == texts.map_values(
            |segments: Seq<SlackTextSegmentModel>| SlackRenderBlockModel::Paragraph(segments),
        ) || shown_blocks(blocks, names) == texts.map_values(
            |segments: Seq<SlackTextSegmentModel>| SlackRenderBlockModel::Quote(segments),
        ),
    ensures
        rich_plain_text(blocks, names) == join(
            texts.map_values(|segments: Seq<SlackTextSegmentModel>| segments_text(segments)),
            seq!['\n'],
        ),
{
    lemma_paragraph_chunks(shown_blocks(blocks, names), texts);
}

proof fn lemma_paragraph_chunks(
    shown: Seq<SlackRenderBlockModel>,
    texts: Seq<Seq<SlackTextSegmentModel>>,
)
    requires
        shown.len() == texts.len(),
        forall|i: int|
            0 <= i < texts.len() ==> #[trigger] shown[i] == SlackRenderBlockModel::Paragraph(
                texts[i],
            ) || shown[i] == SlackRenderBlockModel::Quote(texts[i]),
    ensures
        crate::rich_text::blocks_chunks(shown) == texts.map_values(
            |segments: Seq<SlackTextSegmentModel>| segments_text(segments),
        ),
    decreases shown.len(),
{
    let said = |segments: Seq<SlackTextSegmentModel>| segments_text(segments);
    if shown.len() > 0 {
        let last = shown.len() - 1;
        assert(shown[last] == SlackRenderBlockModel::Paragraph(texts[last]) || shown[last]
            == SlackRenderBlockModel::Quote(texts[last]));
        assert(shown.last() == shown[last]);
        assert forall|i: int| 0 <= i < last implies #[trigger] shown.drop_last()[i]
            == SlackRenderBlockModel::Paragraph(texts.drop_last()[i]) || shown.drop_last()[i]
            == SlackRenderBlockModel::Quote(texts.drop_last()[i]) by {
            assert(shown.drop_last()[i] == shown[i]);
        }
        lemma_paragraph_chunks(shown.drop_last(), texts.drop_last());
        assert(texts.map_values(said) =~= texts.drop_last().map_values(said) + seq![
            segments_text(texts[last]),
        ]);
    } else {
        assert(crate::rich_text::blocks_chunks(shown) =~= texts.map_values(said));
    }
}

/// A message is shown as its rich text. It is shown as its plain text if it has no rich text that
/// shows something, or if its plain text has a table or code.
pub proof fn law_messages_are_shown_as_rich_text(
    body: Seq<char>,
    rich: Seq<Json>,
    names: SlackRenderLookupModel,
)
    requires
        trim(body).len() > 0,
    ensures
        ({
            let plain = fallback_blocks(body);
            let special = exists|i: int|
                0 <= i < plain.len() && ((#[trigger] plain[i]) is Table || plain[i] is CodeBlock);
            &&& !special && rich.len() > 0 && shown_blocks(rich, names).len() > 0 ==> body_blocks(
                body,
                rich,
                names,
            ) == shown_blocks(rich, names)
            &&& special || rich.len() == 0 || shown_blocks(rich, names).len() == 0 ==> body_blocks(
                body,
                rich,
                names,
            ) == plain
        }),
{
}

/// The picture of a file is its larger thumbnail, else its smaller one, else the file itself.
pub proof fn law_files_have_pictures(file: SlackFileModel)
    ensures
        file.thumb_720 is Some ==> file.preview_url() == file.thumb_720,
        file.thumb_720 is None && file.thumb_360 is Some ==> file.preview_url() == file.thumb_360,
        file.thumb_720 is None && file.thumb_360 is None && file.url_private_download is Some
            ==> file.preview_url() == file.url_private_download,
        file.thumb_720 is None && file.thumb_360 is None && file.url_private_download is None
            ==> file.preview_url() == file.url_private,
{
}

/// A cached picture bears the extension of its address, or `img` if that has none.
pub proof fn law_pictures_bear_extensions(address: crate::urls::WebUrlModel, reason: Seq<char>)
    ensures
        ({
            let found = path_extension(address.path);
            let shown = crate::attachments::picture_extension(Ok(address));
            &&& found is Some && found->0.len() > 0 ==> shown == found->0
            &&& found is None || found->0.len() == 0 ==> shown == "img"@
            &&& crate::attachments::picture_extension(Err(reason)) == "img"@
        }),
{
}

/// What is picked is shown by name: one or two, or two and how many more.
pub proof fn law_choices_are_summed_up(
    picked: Seq<Seq<char>>,
    placeholder: Seq<char>,
    empty: Seq<char>,
)
    ensures
        crate::choices::selection_summary(picked, false, placeholder, empty) == empty,
        picked.len() == 0 ==> crate::choices::selection_summary(picked, true, placeholder, empty)
            == placeholder,
        picked.len() == 1 || picked.len() == 2 ==> crate::choices::selection_summary(
            picked,
            true,
            placeholder,
            empty,
        ) == join(picked, ", "@),
        picked.len() > 2 ==> crate::choices::selection_summary(picked, true, placeholder, empty)
            == join(picked.take(2), ", "@) + " +"@ + decimal((picked.len() - 2) as nat),
        picked.len() > 0 ==> crate::choices::selection_tooltip(picked, true, placeholder, empty)
            == join(picked, "\n"@),
{
    reveal_with_fuel(join, 3);
    if picked.len() == 1 {
        assert(join(picked, ", "@) =~= picked[0]);
    } else if picked.len() == 2 {
        assert(picked.drop_last() =~= seq![picked[0]]);
        assert(join(picked, ", "@) =~= picked[0] + ", "@ + picked[1]);
    } else if picked.len() > 2 {
        assert(picked.take(2).drop_last() =~= seq![picked[0]]);
        assert(join(picked.take(2), ", "@) =~= picked[0] + ", "@ + picked[1]);
    }
}

} // verus!
