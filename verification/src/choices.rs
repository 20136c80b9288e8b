//! What the user picks in the editor of the settings: the identifiers of choices, lists of choices
//! and rows of patterns.
use vstd::prelude::*;
use vstd::string::*;

use crate::auth::enclosed;
use crate::patterns::{
    check_regex, regex_error_text, regex_valid, PatternMatcher, PatternMatcherModel,
};
use crate::settings::{ChannelPermission, NotificationAction, ProfileMode, QuietHours};
use crate::text::{
    decimal, digit, digit_char, join, join_texts, owned, parse_number, parse_unsigned, same_text,
    to_decimal, trim, trimmed,
};

verus! {

/// The identifier of a mode among the choices.
pub open spec fn mode_id(mode: ProfileMode) -> Seq<char> {
    match mode {
        ProfileMode::Allow => "allow"@,
        ProfileMode::Deny => "deny"@,
    }
}

/// The identifier of a mode among the choices.
pub fn profile_mode_id(mode: ProfileMode) -> (r: &'static str)
    ensures
        r@ == mode_id(mode),
{
    match mode {
        ProfileMode::Allow => "allow",
        ProfileMode::Deny => "deny",
    }
}

/// The mode that was picked; anything unknown allows.
pub open spec fn picked_mode(id: Option<Seq<char>>) -> ProfileMode {
    if id == Some("deny"@) {
        ProfileMode::Deny
    } else {
        ProfileMode::Allow
    }
}

/// The mode that was picked.
pub fn profile_mode_from_picker(id: Option<&str>) -> (r: ProfileMode)
    ensures
        r == picked_mode(id.deep_view()),
{
    match id {
        Some(id) => if same_text(id, "deny") {
            ProfileMode::Deny
        } else {
            ProfileMode::Allow
        },
        None => ProfileMode::Allow,
    }
}

/// The name of a mode.
pub open spec fn mode_label(mode: ProfileMode) -> Seq<char> {
    match mode {
        ProfileMode::Allow => "Allow"@,
        ProfileMode::Deny => "Deny"@,
    }
}

/// The name of a mode.
pub fn profile_mode_label(mode: ProfileMode) -> (r: &'static str)
    ensures
        r@ == mode_label(mode),
{
    match mode {
        ProfileMode::Allow => "Allow",
        ProfileMode::Deny => "Deny",
    }
}

/// The identifier of an action among the choices.
pub open spec fn action_id(action: NotificationAction) -> Seq<char> {
    match action {
        NotificationAction::Notify => "notify"@,
        NotificationAction::Silent => "silent"@,
        NotificationAction::Critical => "critical"@,
    }
}

/// The identifier of an action among the choices.
pub fn notification_action_id(action: NotificationAction) -> (r: &'static str)
    ensures
        r@ == action_id(action),
{
    match action {
        NotificationAction::Notify => "notify",
        NotificationAction::Silent => "silent",
        NotificationAction::Critical => "critical",
    }
}

/// The action that was picked; anything unknown notifies.
pub open spec fn picked_action(id: Option<Seq<char>>) -> NotificationAction {
    if id == Some("silent"@) {
        NotificationAction::Silent
    } else if id == Some("critical"@) {
        NotificationAction::Critical
    } else {
        NotificationAction::Notify
    }
}

/// The action that was picked.
pub fn notification_action_from_picker(id: Option<&str>) -> (r: NotificationAction)
    ensures
        r == picked_action(id.deep_view()),
{
    match id {
        Some(id) => if same_text(id, "silent") {
            NotificationAction::Silent
        } else if same_text(id, "critical") {
            NotificationAction::Critical
        } else {
            NotificationAction::Notify
        },
        None => NotificationAction::Notify,
    }
}

/// The identifier of a permission among the choices.
pub open spec fn permission_id(permission: ChannelPermission) -> Seq<char> {
    match permission {
        ChannelPermission::ReadWrite => "read_write"@,
        ChannelPermission::ReadOnly => "read_only"@,
        ChannelPermission::Hidden => "hidden"@,
    }
}

/// The identifier of a permission among the choices.
pub fn channel_permission_id(permission: ChannelPermission) -> (r: &'static str)
    ensures
        r@ == permission_id(permission),
{
    match permission {
        ChannelPermission::ReadWrite => "read_write",
        ChannelPermission::ReadOnly => "read_only",
        ChannelPermission::Hidden => "hidden",
    }
}

/// The permission that was picked; anything unknown is read and write.
pub open spec fn picked_permission(id: Option<Seq<char>>) -> ChannelPermission {
    if id == Some("read_only"@) {
        ChannelPermission::ReadOnly
    } else if id == Some("hidden"@) {
        ChannelPermission::Hidden
    } else {
        ChannelPermission::ReadWrite
    }
}

/// The permission that was picked.
pub fn channel_permission_from_picker(id: Option<&str>) -> (r: ChannelPermission)
    ensures
        r == picked_permission(id.deep_view()),
{
    match id {
        Some(id) => if same_text(id, "read_only") {
            ChannelPermission::ReadOnly
        } else if same_text(id, "hidden") {
            ChannelPermission::Hidden
        } else {
            ChannelPermission::ReadWrite
        },
        None => ChannelPermission::ReadWrite,
    }
}

/// Every choice is read back from its identifier.
pub proof fn law_choices_read_back(
    mode: ProfileMode,
    action: NotificationAction,
    permission: ChannelPermission,
)
    ensures
        picked_mode(Some(mode_id(mode))) == mode,
        picked_action(Some(action_id(action))) == action,
        picked_permission(Some(permission_id(permission))) == permission,
{
    reveal_strlit("allow");
    reveal_strlit("deny");
    assert("allow"@.len() != "deny"@.len());
    reveal_strlit("notify");
    reveal_strlit("silent");
    reveal_strlit("critical");
    assert("notify"@[0] != "silent"@[0]);
    assert("notify"@.len() != "critical"@.len());
    assert("silent"@.len() != "critical"@.len());
    reveal_strlit("read_write");
    reveal_strlit("read_only");
    reveal_strlit("hidden");
    assert("read_write"@.len() != "read_only"@.len());
    assert("read_write"@.len() != "hidden"@.len());
    assert("read_only"@.len() != "hidden"@.len());
}

/// The identifier of an hour among the choices; no hour is the empty text.
pub open spec fn hour_id(hour: Option<u8>) -> Seq<char> {
    match hour {
        Some(hour) => decimal(hour as nat),
        None => Seq::empty(),
    }
}

/// The identifier of an hour among the choices.
pub fn hour_picker_id(hour: Option<u8>) -> (r: String)
    ensures
        r@ == hour_id(hour),
{
    match hour {
        Some(hour) => to_decimal(hour as u64),
        None => String::new(),
    }
}

/// How an hour is shown: two digits and full.
pub fn hour_label(hour: u8) -> (r: String)
    requires
        hour < 100,
    ensures
        r@ == seq![digit(hour as nat / 10), digit(hour as nat % 10)] + ":00"@,
{
    let mut out = String::new();
    out.push(digit_char(hour / 10));
    out.push(digit_char(hour % 10));
    assert(out@ =~= seq![digit(hour as nat / 10), digit(hour as nat % 10)]);
    out.append(":00");
    out
}

/// The hour that was picked: a number up to 255, if it is one.
pub open spec fn picked_hour(id: Option<Seq<char>>) -> Option<nat> {
    match id {
        Some(id) => parse_unsigned(id, 255),
        None => None,
    }
}

/// The hour that was picked.
pub fn hour_from_picker(id: Option<&str>) -> (r: Option<u8>)
    ensures
        match r {
            Some(hour) => picked_hour(id.deep_view()) == Some(hour as nat),
            None => picked_hour(id.deep_view()) is None,
        },
{
    match id {
        Some(id) => match parse_number(id, 255) {
            Some(hour) => Some(hour as u8),
            None => None,
        },
        None => None,
    }
}

/// The quiet hours of a form: none if they are switched off, else both hours must be picked.
pub fn parse_quiet_hours(enabled: bool, start_hour: Option<u8>, end_hour: Option<u8>) -> (r: Result<
    Option<QuietHours>,
    String,
>)
    ensures
        match r {
            Ok(None) => !enabled,
            Ok(Some(hours)) => enabled && start_hour == Some(hours.start_hour) && end_hour == Some(
                hours.end_hour,
            ),
            Err(message) => enabled && (start_hour is None || end_hour is None) && message@
                == "Quiet hours require both start and end time."@,
        },
{
    if !enabled {
        return Ok(None);
    }
    match (start_hour, end_hour) {
        (Some(start_hour), Some(end_hour)) => Ok(Some(QuietHours { start_hour, end_hour })),
        _ => Err(owned("Quiet hours require both start and end time.")),
    }
}

/// How a list of choices shows what is picked.
pub open spec fn selection_summary(
    selected: Seq<Seq<char>>,
    has_options: bool,
    placeholder: Seq<char>,
    empty_label: Seq<char>,
) -> Seq<char> {
    if !has_options {
        empty_label
    } else if selected.len() == 0 {
        placeholder
    } else if selected.len() == 1 {
        selected[0]
    } else if selected.len() == 2 {
        selected[0] + ", "@ + selected[1]
    } else {
        selected[0] + ", "@ + selected[1] + " +"@ + decimal((selected.len() - 2) as nat)
    }
}

/// What a list of choices shows when the pointer rests on it.
pub open spec fn selection_tooltip(
    selected: Seq<Seq<char>>,
    has_options: bool,
    placeholder: Seq<char>,
    empty_label: Seq<char>,
) -> Seq<char> {
    if !has_options {
        empty_label
    } else if selected.len() == 0 {
        placeholder
    } else {
        join(selected, "\n"@)
    }
}

/// How a list of choices shows what is picked, and what it shows when the pointer rests on it.
pub fn refresh_summary(
    selected: &Vec<String>,
    has_options: bool,
    placeholder: &str,
    empty_label: &str,
) -> (r: (String, String))
    ensures
        r.0@ == selection_summary(
            selected.deep_view(),
            has_options,
            placeholder@,
            empty_label@,
        ),
        r.1@ == selection_tooltip(
            selected.deep_view(),
            has_options,
            placeholder@,
            empty_label@,
        ),
{
    if !has_options {
        return (owned(empty_label), owned(empty_label));
    }
    let count: usize = selected.len();
    if count == 0 {
        return (owned(placeholder), owned(placeholder));
    }
    let tooltip = join_texts(selected, "\n");
    let mut summary = selected[0].clone();
    if count >= 2 {
        summary.append(", ");
        summary.append(selected[1].as_str());
        if count > 2 {
            summary.append(" +");
            summary.append(to_decimal((count - 2) as u64).as_str());
        }
    }
    (summary, tooltip)
}

/// The identifiers of the options that are picked, in the order of the options.
pub open spec fn picked_ids(options: Seq<(Seq<char>, bool)>) -> Seq<Seq<char>>
    decreases options.len(),
{
    if options.len() == 0 {
        Seq::empty()
    } else if options.last().1 {
        picked_ids(options.drop_last()).push(options.last().0)
    } else {
        picked_ids(options.drop_last())
    }
}

/// The identifiers of the options that are picked.
pub fn selected_ids(options: &Vec<(String, bool)>) -> (r: Vec<String>)
    ensures
        r.deep_view() == picked_ids(options.deep_view()),
{
    let ghost all = options.deep_view();
    let mut out: Vec<String> = Vec::new();
    let mut i: usize = 0;
    assert(out.deep_view() =~= picked_ids(all.take(0)));
    while i < options.len()
        invariant
            i <= options.len(),
            all == options.deep_view(),
            out.deep_view() == picked_ids(all.take(i as int)),
        decreases options.len() - i,
    {
        assert(all.take(i + 1).drop_last() =~= all.take(i as int));
        assert(all.take(i + 1).last() == options@[i as int].deep_view());
        let ghost before = out.deep_view();
        if options[i].1 {
            out.push(options[i].0.clone());
            assert(out.deep_view() =~= before.push(options@[i as int].0@));
        }
        i += 1;
    }
    assert(all.take(i as int) =~= all);
    out
}

/// The patterns of the rows of an editor, each a mark for a regular expression and an expression;
/// blank rows are left out, and the first regular expression that is not accepted is an error.
pub open spec fn row_matchers(rows: Seq<(bool, Seq<char>)>) -> Result<
    Seq<PatternMatcherModel>,
    Seq<char>,
>
    decreases rows.len(),
{
    if rows.len() == 0 {
        Ok(Seq::empty())
    } else {
        let expression = trim(rows.last().1);
        match row_matchers(rows.drop_last()) {
            Ok(before) => if expression.len() == 0 {
                Ok(before)
            } else if !rows.last().0 {
                Ok(before.push(PatternMatcherModel::Text(expression)))
            } else if regex_valid(expression) {
                Ok(before.push(PatternMatcherModel::Regex(expression)))
            } else {
                Err("Invalid regex `"@ + expression + "`: "@ + regex_error_text(expression))
            },
            Err(error) => Err(error),
        }
    }
}

/// Rows after one that is not accepted do not change the outcome.
proof fn lemma_row_error_stays(rows: Seq<(bool, Seq<char>)>, at: int)
    requires
        0 <= at <= rows.len(),
        row_matchers(rows.take(at)) is Err,
    ensures
        row_matchers(rows) == row_matchers(rows.take(at)),
    decreases rows.len() - at,
{
    if at < rows.len() {
        assert(rows.take(at + 1).drop_last() =~= rows.take(at));
        lemma_row_error_stays(rows, at + 1);
    } else {
        assert(rows.take(at) =~= rows);
    }
}

/// The patterns of the rows of an editor.
pub fn read_matchers(rows: &Vec<(bool, String)>) -> (r: Result<Vec<PatternMatcher>, String>)
    ensures
        match r {
            Ok(matchers) => row_matchers(rows.deep_view()) == Ok::<
                Seq<PatternMatcherModel>,
                Seq<char>,
            >(matchers.deep_view()),
            Err(message) => row_matchers(rows.deep_view()) == Err::<
                Seq<PatternMatcherModel>,
                Seq<char>,
            >(message@),
        },
{
    let ghost all = rows.deep_view();
    let mut out: Vec<PatternMatcher> = Vec::new();
    let mut i: usize = 0;
    assert(out.deep_view() =~= Seq::<PatternMatcherModel>::empty());
    assert(all.take(0) =~= Seq::empty());
    while i < rows.len()
        invariant
            i <= rows.len(),
            all == rows.deep_view(),
            row_matchers(all.take(i as int)) == Ok::<Seq<PatternMatcherModel>, Seq<char>>(
                out.deep_view(),
            ),
        decreases rows.len() - i,
    {
        assert(all.take(i + 1).drop_last() =~= all.take(i as int));
        assert(all.take(i + 1).last() == rows@[i as int].deep_view());
        let ghost before = out.deep_view();
        let expression = trimmed(rows[i].1.as_str());
        if !expression.as_str().is_empty() {
            if rows[i].0 {
                match check_regex(expression.as_str()) {
                    Ok(_) => {
                        out.push(PatternMatcher::Regex(expression));
                        assert(out.deep_view() =~= before.push(
                            PatternMatcherModel::Regex(expression@),
                        ));
                    },
                    Err(error) => {
                        proof {
                            lemma_row_error_stays(all, i + 1);
                        }
                        let mut message = enclosed("Invalid regex `", expression.as_str(), "`: ");
                        message.append(error.as_str());
                        return Err(message);
                    },
                }
            } else {
                out.push(PatternMatcher::Text(expression));
                assert(out.deep_view() =~= before.push(PatternMatcherModel::Text(expression@)));
            }
        }
        i += 1;
    }
    assert(all.take(i as int) =~= all);
    Ok(out)
}

} // verus!
